//! What the library asks of the machine it runs on. Each answer depends
//! on the machine (its files, its environment), so nothing is promised of
//! it; the functions that use an answer state what holds whatever it is.

use vstd::prelude::*;

verus! {

/// Whether something exists at `path` (`std::path::Path::exists`). The
/// answer depends on what is on disk when it is asked, so nothing is
/// stated of it.
#[verifier::external_body]
pub fn path_exists(path: &str) -> bool {
    std::path::Path::new(path).exists()
}

/// The user's local data directory (`dirs::data_local_dir`), as text;
/// a path that is not valid Unicode is converted lossily. It depends on
/// the platform and the environment, so nothing is stated of it.
#[verifier::external_body]
pub fn data_local_dir() -> Option<String> {
    dirs::data_local_dir().map(|p| p.to_string_lossy().into_owned())
}

} // verus!
