//! Errors of the library.

use vstd::prelude::*;

use crate::text::{decimal, owned, push_decimal, push_str};

verus! {

/// What went wrong. Failures from the operating system and the file
/// formats arrive already rendered as text.
#[derive(Debug, Clone, PartialEq, Eq)]
pub enum Error {
    Io(String),
    Json(String),
    Config(String),
    /// An operation that only exists on Windows, asked for elsewhere.
    Unsupported(String),
    /// A system call failed; carries the native error code.
    Os { call: String, code: u32 },
    NotFound(String),
    /// A remote service refused or could not be reached.
    Remote(String),
}

pub open spec fn error_text(e: Error) -> Seq<char> {
    match e {
        Error::Io(m) => "error de E/S: "@ + m@,
        Error::Json(m) => "JSON invalido: "@ + m@,
        Error::Config(m) => "configuracion invalida: "@ + m@,
        Error::Unsupported(m) => "no disponible en esta plataforma: "@ + m@,
        Error::Os { call, code } => call@ + " fallo (codigo "@ + decimal(code as nat) + ")"@,
        Error::NotFound(m) => "no encontrado: "@ + m@,
        Error::Remote(m) => m@,
    }
}

impl Error {
    /// The message shown to the user.
    pub fn message(&self) -> (s: String)
        ensures
            s@ == error_text(*self),
    {
        let mut s = String::new();
        match self {
            Error::Io(m) => {
                push_str(&mut s, "error de E/S: ");
                push_str(&mut s, m.as_str());
            },
            Error::Json(m) => {
                push_str(&mut s, "JSON invalido: ");
                push_str(&mut s, m.as_str());
            },
            Error::Config(m) => {
                push_str(&mut s, "configuracion invalida: ");
                push_str(&mut s, m.as_str());
            },
            Error::Unsupported(m) => {
                push_str(&mut s, "no disponible en esta plataforma: ");
                push_str(&mut s, m.as_str());
            },
            Error::Os { call, code } => {
                push_str(&mut s, call.as_str());
                push_str(&mut s, " fallo (codigo ");
                push_decimal(&mut s, *code as u64);
                push_str(&mut s, ")");
            },
            Error::NotFound(m) => {
                push_str(&mut s, "no encontrado: ");
                push_str(&mut s, m.as_str());
            },
            Error::Remote(m) => {
                push_str(&mut s, m.as_str());
            },
        }
        s
    }

    /// An "only on Windows" error with the given explanation.
    pub fn unsupported(what: &str) -> (e: Error)
        ensures
            e is Unsupported && e->Unsupported_0@ == what@,
    {
        Error::Unsupported(owned(what))
    }
}

} // verus!
