//! Where the user's data lives. The data directory itself comes from the
//! environment (read by the program); everything else hangs from it.

use vstd::prelude::*;

verus! {

/// What `Path::join` gives for a base directory and a name.
pub uninterp spec fn joined_path(base: Seq<char>, name: Seq<char>) -> Seq<char>;

/// `Path::join`, converted back to text.
#[verifier::external_body]
pub(crate) fn join_path(base: &str, name: &str) -> (r: String)
    ensures
        r@ == joined_path(base@, name@),
{
    std::path::Path::new(base).join(name).to_string_lossy().to_string()
}

/// `config.toml` inside the data directory.
pub fn config_file(data_dir: &str) -> (p: String)
    ensures
        p@ == joined_path(data_dir@, "config.toml"@),
{
    join_path(data_dir, "config.toml")
}

/// `library.json` inside the data directory.
pub fn library_file(data_dir: &str) -> (p: String)
    ensures
        p@ == joined_path(data_dir@, "library.json"@),
{
    join_path(data_dir, "library.json")
}

/// The state of the system before game mode, written before anything is
/// touched so that an unexpected shutdown can still be undone.
pub fn power_snapshot_file(data_dir: &str) -> (p: String)
    ensures
        p@ == joined_path(data_dir@, "power-snapshot.json"@),
{
    join_path(data_dir, "power-snapshot.json")
}

pub fn covers_dir(data_dir: &str) -> (p: String)
    ensures
        p@ == joined_path(data_dir@, "covers"@),
{
    join_path(data_dir, "covers")
}

pub fn cache_dir(data_dir: &str) -> (p: String)
    ensures
        p@ == joined_path(data_dir@, "cache"@),
{
    join_path(data_dir, "cache")
}

pub fn log_file(data_dir: &str) -> (p: String)
    ensures
        p@ == joined_path(data_dir@, "gamingmode.log"@),
{
    join_path(data_dir, "gamingmode.log")
}

} // verus!
