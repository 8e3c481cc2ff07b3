//! Where the store file lives: under the host's home directory, at
//! `.config/marks.list`.

use vstd::prelude::*;

use crate::error::MarkError;

verus! {

/// The path of the store file relative to the home directory, with its
/// leading separator.
pub open spec fn store_rel_path() -> Seq<char> {
    "/.config/marks.list"@
}

/// Relies on `home::home_dir`: the home directory the host environment
/// supplies, if any, rendered as text; a home that is not valid Unicode is
/// treated as absent. Nothing is promised of the outcome: it depends on
/// the environment alone.
#[verifier::external_body]
fn host_home_dir() -> (r: Option<String>) {
    home::home_dir().and_then(|p| p.into_os_string().into_string().ok())
}

/// Where the store lives under the given home directory.
pub fn marks_path(home: &str) -> (r: String)
    ensures
        r@ == home@ + store_rel_path(),
{
    home.to_owned().concat("/.config/marks.list")
}

/// The absolute path of the store file, from the host's home directory;
/// `NoHome` when the host cannot supply one.
pub fn resolve_storage_path() -> (r: Result<String, MarkError>)
    ensures
        r matches Err(e) ==> e == MarkError::NoHome,
        r matches Ok(p) ==> exists|home: Seq<char>| p@ == #[trigger] (home + store_rel_path()),
{
    match host_home_dir() {
        Some(home) => {
            let p = marks_path(home.as_str());
            proof {
                assert(p@ == home@ + store_rel_path());
            }
            Ok(p)
        },
        None => Err(MarkError::NoHome),
    }
}

} // verus!
