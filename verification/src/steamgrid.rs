//! Cover art from SteamGridDB, a community database of box art (no store,
//! no account needed to play). A game is looked up by title, the best rated
//! vertical image is downloaded and kept on disk. Without a key, nothing
//! happens.
//!
//! The network exchange itself runs in the program around the library; what
//! is decided here is what is asked for and what the answers mean.

use vstd::prelude::*;
use vstd::string::*;

use crate::error::Error;
use crate::paths::{join_path, joined_path};
use crate::text::{
    decimal, hex_char_upper, hex_digit_upper, owned, push_char, push_decimal, push_str, slice_chars,
    string_of, trim_bounds, trim_ws, chars_of, utf8_len, has_byte_len,
};

verus! {

/// Where the API lives.
pub const API_BASE: &'static str = "https://www.steamgriddb.com/api/v2";

pub open spec fn api_base() -> Seq<char> {
    "https://www.steamgriddb.com/api/v2"@
}

/// Bytes that travel as they are in a search term.
pub open spec fn is_unreserved(b: u8) -> bool {
    (65 <= b <= 90) || (97 <= b <= 122) || (48 <= b <= 57) || b == 45 || b == 95 || b == 46 || b
        == 126
}

pub open spec fn encode_byte(b: u8) -> Seq<char> {
    if is_unreserved(b) {
        seq![b as char]
    } else {
        seq!['%', hex_digit_upper((b / 16) as nat), hex_digit_upper((b % 16) as nat)]
    }
}

/// Each byte as it is when safe, `%XX` (capital hexadecimal) otherwise.
pub open spec fn percent_encoded(bytes: Seq<u8>) -> Seq<char>
    decreases bytes.len(),
{
    if bytes.len() == 0 {
        Seq::empty()
    } else {
        percent_encoded(bytes.drop_last()) + encode_byte(bytes.last())
    }
}

/// Minimal encoding for a search term: letters, digits and `-_.~` stay,
/// every other byte of the UTF-8 text becomes `%XX`. Just enough for a
/// title with spaces or colons not to break the request.
pub fn percent_encode(text: &str) -> (out: String)
    ensures
        out@ == percent_encoded(text.spec_bytes()),
{
    let bytes = text.as_bytes();
    let mut out = String::new();
    let mut i: usize = 0;
    while i < bytes.len()
        invariant
            i <= bytes.len(),
            bytes@ == text.spec_bytes(),
            out@ == percent_encoded(bytes@.take(i as int)),
        decreases bytes.len() - i,
    {
        let b = bytes[i];
        assert(bytes@.take(i + 1).drop_last() == bytes@.take(i as int));
        assert(bytes@.take(i + 1).last() == b);
        if (65 <= b && b <= 90) || (97 <= b && b <= 122) || (48 <= b && b <= 57) || b == 45 || b == 95
            || b == 46 || b == 126 {
            push_char(&mut out, b as char);
        } else {
            push_char(&mut out, '%');
            push_char(&mut out, hex_char_upper(b / 16));
            push_char(&mut out, hex_char_upper(b % 16));
        }
        assert(out@ =~= percent_encoded(bytes@.take(i + 1)));
        i += 1;
    }
    assert(bytes@.take(bytes.len() as int) == bytes@);
    out
}

/// The autocomplete search for a title.
pub fn search_url(title: &str) -> (s: String)
    ensures
        s@ == api_base() + "/search/autocomplete/"@ + percent_encoded(title.spec_bytes()),
{
    let mut s = owned(API_BASE);
    push_str(&mut s, "/search/autocomplete/");
    let t = percent_encode(title);
    push_str(&mut s, t.as_str());
    s
}

/// The vertical, still covers of a SteamGridDB game, best rated first.
pub fn grids_url(steamgrid_id: u64) -> (s: String)
    ensures
        s@ == api_base() + "/grids/game/"@ + decimal(steamgrid_id as nat)
            + "?dimensions=600x900,342x482&types=static"@,
{
    let mut s = owned(API_BASE);
    push_str(&mut s, "/grids/game/");
    push_decimal(&mut s, steamgrid_id);
    push_str(&mut s, "?dimensions=600x900,342x482&types=static");
    s
}

/// The request that tells a good key from a bad one: a well-known title.
pub fn key_check_url() -> (s: String)
    ensures
        s@ == api_base() + "/search/autocomplete/half-life"@,
{
    let mut s = owned(API_BASE);
    push_str(&mut s, "/search/autocomplete/half-life");
    s
}

/// The `Authorization` header: the key without white space around it.
pub fn auth_header(api_key: &str) -> (s: String)
    ensures
        s@ == "Bearer "@ + trim_ws(api_key@),
{
    let cs = chars_of(api_key);
    let (lo, hi) = trim_bounds(&cs);
    let key = string_of(&slice_chars(&cs, lo, hi));
    let mut s = owned("Bearer ");
    push_str(&mut s, key.as_str());
    s
}

/// What follows the last `.` of a text (all of it when there is none).
pub open spec fn after_last_dot(s: Seq<char>) -> Seq<char>
    decreases s.len(),
{
    if s.len() == 0 {
        s
    } else if s.last() == '.' {
        Seq::empty()
    } else {
        after_last_dot(s.drop_last()).push(s.last())
    }
}

/// The extension of the image: what follows the last dot of its address
/// when it takes at most four bytes, `png` otherwise.
pub open spec fn image_extension_of(url: Seq<char>) -> Seq<char> {
    let ext = after_last_dot(url);
    if utf8_len(ext) <= 4 {
        ext
    } else {
        "png"@
    }
}

pub fn image_extension(url: &str) -> (s: String)
    ensures
        s@ == image_extension_of(url@),
{
    let cs = chars_of(url);
    let mut start: usize = cs.len();
    assert(cs@.take(cs.len() as int) =~= cs@);
    assert(cs@.subrange(cs.len() as int, cs.len() as int) =~= Seq::<char>::empty());
    assert(after_last_dot(cs@) =~= after_last_dot(cs@.take(start as int)) + cs@.subrange(
        start as int,
        cs.len() as int,
    ));
    while start > 0 && cs[start - 1] != '.'
        invariant
            start <= cs.len(),
            cs@ == url@,
            after_last_dot(cs@) == after_last_dot(cs@.take(start as int)) + cs@.subrange(
                start as int,
                cs.len() as int,
            ),
        decreases start,
    {
        assert(cs@.take(start as int).drop_last() == cs@.take(start - 1));
        assert(cs@.subrange(start - 1, cs.len() as int) =~= seq![cs@[start - 1]] + cs@.subrange(
            start as int,
            cs.len() as int,
        ));
        start -= 1;
    }
    assert(cs@.take(cs.len() as int) == cs@);
    let ext = slice_chars(&cs, start, cs.len());
    proof {
        if start > 0 {
            assert(cs@.take(start as int).last() == '.');
        } else {
            assert(cs@.take(0) =~= Seq::<char>::empty());
        }
        assert(after_last_dot(cs@) =~= ext@);
    }
    if has_byte_len(&ext, 0) || has_byte_len(&ext, 1) || has_byte_len(&ext, 2) || has_byte_len(&ext, 3)
        || has_byte_len(&ext, 4) {
        string_of(&ext)
    } else {
        owned("png")
    }
}

/// Where the cover of a game is kept: `{dest_dir}/{game_id}.{ext}`.
pub fn cover_path(dest_dir: &str, game_id: &str, ext: &str) -> (p: String)
    ensures
        p@ == joined_path(dest_dir@, game_id@ + "."@ + ext@),
{
    let mut name = owned(game_id);
    push_str(&mut name, ".");
    push_str(&mut name, ext);
    join_path(dest_dir, name.as_str())
}

/// The answer to a title search: the first game found, or why there is
/// none.
pub fn first_game(found: Option<u64>, title: &str) -> (r: Result<u64, Error>)
    ensures
        match found {
            Some(id) => r == Ok::<u64, Error>(id),
            None => r matches Err(Error::NotFound(m)) && m@ == "ningun juego de SteamGridDB coincide con '"@
                + title@ + "'"@,
        },
{
    match found {
        Some(id) => Ok(id),
        None => {
            let mut m = owned("ningun juego de SteamGridDB coincide con '");
            push_str(&mut m, title);
            push_str(&mut m, "'");
            Err(Error::NotFound(m))
        },
    }
}

/// The answer to a covers request: the first image, or why there is none.
pub fn first_cover(found: Option<String>) -> (r: Result<String, Error>)
    ensures
        match found {
            Some(u) => r matches Ok(v) && v@ == u@,
            None => r matches Err(Error::NotFound(m)) && m@
                == "SteamGridDB no tiene ninguna caratula para ese juego"@,
        },
{
    match found {
        Some(u) => Ok(u),
        None => Err(Error::NotFound(owned("SteamGridDB no tiene ninguna caratula para ese juego"))),
    }
}

/// What `serde_json::from_str::<Value>` makes of an answer of the API, read
/// at its first entry: `value["data"][0]["id"].as_u64()` and
/// `value["data"][0]["url"].as_str()`; `Err` with the parser's message when
/// the text is not JSON.
pub uninterp spec fn first_data_entry(body: Seq<char>) -> Result<(Option<u64>, Option<Seq<char>>), Seq<char>>;

/// `serde_json::from_str::<serde_json::Value>`, then the `id` (as an
/// unsigned integer) and the `url` (as text) of the first entry under
/// `data`; indexing a `Value` gives `Null` where nothing is, never a panic.
/// The parser's error is handed over as its text.
#[verifier::external_body]
fn json_first_entry(body: &str) -> (r: Result<(Option<u64>, Option<String>), String>)
    ensures
        match r {
            Ok((id, Some(u))) => first_data_entry(body@) == Ok::<(Option<u64>, Option<Seq<char>>), Seq<char>>((id, Some(u@))),
            Ok((id, None)) => first_data_entry(body@) == Ok::<(Option<u64>, Option<Seq<char>>), Seq<char>>((id, None)),
            Err(e) => first_data_entry(body@) == Err::<(Option<u64>, Option<Seq<char>>), Seq<char>>(e@),
        },
{
    match serde_json::from_str::<serde_json::Value>(body) {
        Ok(value) => {
            let first = &value["data"][0];
            Ok((first["id"].as_u64(), first["url"].as_str().map(String::from)))
        },
        Err(e) => Err(e.to_string()),
    }
}

/// The message for an answer that is not JSON.
pub open spec fn unreadable_message(problem: Seq<char>) -> Seq<char> {
    "respuesta de SteamGridDB ilegible: "@ + problem
}

/// What a parsed search answer means: the first game found, why there is
/// none, or why the answer could not be read.
pub fn search_answer(parsed: Result<Option<u64>, String>, title: &str) -> (r: Result<u64, Error>)
    ensures
        match parsed {
            Ok(Some(id)) => r == Ok::<u64, Error>(id),
            Ok(None) => r matches Err(Error::NotFound(m)) && m@ == "ningun juego de SteamGridDB coincide con '"@
                + title@ + "'"@,
            Err(problem) => r matches Err(Error::Remote(m)) && m@ == unreadable_message(problem@),
        },
{
    match parsed {
        Ok(found) => first_game(found, title),
        Err(problem) => {
            let mut m = owned("respuesta de SteamGridDB ilegible: ");
            push_str(&mut m, problem.as_str());
            Err(Error::Remote(m))
        },
    }
}

/// What a parsed covers answer means: the first image, why there is none,
/// or why the answer could not be read.
pub fn covers_answer(parsed: Result<Option<String>, String>) -> (r: Result<String, Error>)
    ensures
        match parsed {
            Ok(Some(u)) => r matches Ok(v) && v@ == u@,
            Ok(None) => r matches Err(Error::NotFound(m)) && m@
                == "SteamGridDB no tiene ninguna caratula para ese juego"@,
            Err(problem) => r matches Err(Error::Remote(m)) && m@ == unreadable_message(problem@),
        },
{
    match parsed {
        Ok(found) => first_cover(found),
        Err(problem) => {
            let mut m = owned("respuesta de SteamGridDB ilegible: ");
            push_str(&mut m, problem.as_str());
            Err(Error::Remote(m))
        },
    }
}

/// The game a title search answered with: the id of its first entry. The
/// answer must be JSON (`Remote` otherwise) and name a game (`NotFound`
/// otherwise).
pub fn game_from_search(body: &str, title: &str) -> (r: Result<u64, Error>)
    ensures
        match first_data_entry(body@) {
            Ok((Some(id), _)) => r == Ok::<u64, Error>(id),
            Ok((None, _)) => r matches Err(Error::NotFound(m)) && m@ == "ningun juego de SteamGridDB coincide con '"@
                + title@ + "'"@,
            Err(problem) => r matches Err(Error::Remote(m)) && m@ == unreadable_message(problem),
        },
{
    let parsed = match json_first_entry(body) {
        Ok((id, _)) => Ok(id),
        Err(problem) => Err(problem),
    };
    search_answer(parsed, title)
}

/// The best rated cover a covers request answered with: the address of its
/// first entry. The answer must be JSON (`Remote` otherwise) and hold an
/// image (`NotFound` otherwise).
pub fn cover_from_grids(body: &str) -> (r: Result<String, Error>)
    ensures
        match first_data_entry(body@) {
            Ok((_, Some(u))) => r matches Ok(v) && v@ == u,
            Ok((_, None)) => r matches Err(Error::NotFound(m)) && m@
                == "SteamGridDB no tiene ninguna caratula para ese juego"@,
            Err(problem) => r matches Err(Error::Remote(m)) && m@ == unreadable_message(problem),
        },
{
    let parsed = match json_first_entry(body) {
        Ok((_, url)) => Ok(url),
        Err(problem) => Err(problem),
    };
    covers_answer(parsed)
}

/// What a key check means. `refusal` is the HTTP status of a refused
/// request, `problem` the text of the failure.
pub fn key_verdict(outcome: Result<(), (Option<u16>, String)>) -> (r: Result<(), Error>)
    ensures
        match outcome {
            Ok(()) => r is Ok,
            Err((status, problem)) => if status == Some(401u16) || status == Some(403u16) {
                r matches Err(Error::Remote(m)) && m@
                    == "SteamGridDB ha rechazado la clave (401/403): copiala entera, sin espacios"@
            } else {
                r matches Err(Error::Remote(m)) && m@ == "no se pudo contactar con SteamGridDB: "@
                    + problem@
            },
        },
{
    match outcome {
        Ok(()) => Ok(()),
        Err((status, problem)) => {
            if status == Some(401u16) || status == Some(403u16) {
                Err(
                    Error::Remote(
                        owned(
                            "SteamGridDB ha rechazado la clave (401/403): copiala entera, sin espacios",
                        ),
                    ),
                )
            } else {
                let mut m = owned("no se pudo contactar con SteamGridDB: ");
                push_str(&mut m, problem.as_str());
                Err(Error::Remote(m))
            }
        },
    }
}

/// Away from Windows no cover is fetched.
pub fn fetch_cover(api_key: &str, title: &str, game_id: &str, dest_dir: &str) -> (r: Result<
    String,
    Error,
>)
    ensures
        r matches Err(Error::Unsupported(m)) && m@
            == "las caratulas de SteamGridDB solo se descargan en Windows"@,
{
    Err(Error::Unsupported(owned("las caratulas de SteamGridDB solo se descargan en Windows")))
}

/// Away from Windows no key is checked.
pub fn validate_key(api_key: &str) -> (r: Result<(), Error>)
    ensures
        r matches Err(Error::Unsupported(m)) && m@ == "la validacion de la clave solo funciona en Windows"@,
{
    Err(Error::Unsupported(owned("la validacion de la clave solo funciona en Windows")))
}

} // verus!
