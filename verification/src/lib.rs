//! Verified core of a living-room game shell for Windows: the library of
//! games, the reversible resource optimizer, the ROM catalog and the
//! navigation rules that the interface runs on.

pub mod text;
pub mod util;
pub mod library;
pub mod error;
pub mod paths;
pub mod config;
pub mod guid;
pub mod services;
pub mod protect;
pub mod sys;
pub mod snapshot;
pub mod select;
pub mod scan;
pub mod optimizer;
pub mod names;
pub mod steamgrid;
pub mod download;
pub mod entry;
pub mod input;
pub mod nav;
pub mod shell;
pub mod browser;
pub mod settings;
pub mod actions;
pub mod covers;
pub mod library_screen;
pub mod session;
pub mod launcher;
