//! The user's directories, as the platform reports them.

use vstd::prelude::*;

verus! {

/// The user's data directory, if the platform has one.
///
/// Trusted: calls `dirs::data_dir`.  What it returns depends on the
/// platform and on the environment, so nothing is promised of it.
#[verifier::external_body]
pub(crate) fn data_dir() -> (dir: Option<String>) {
    dirs::data_dir().map(|p| p.to_string_lossy().into_owned())
}

/// The user's home directory, if it can be found.
///
/// Trusted: calls `dirs::home_dir`.  What it returns depends on the
/// platform and on the environment, so nothing is promised of it.
#[verifier::external_body]
pub(crate) fn home_dir() -> (dir: Option<String>) {
    dirs::home_dir().map(|p| p.to_string_lossy().into_owned())
}

/// The user's configuration directory, if the platform has one.
///
/// Trusted: calls `dirs::config_dir`.  What it returns depends on the
/// platform and on the environment, so nothing is promised of it.
#[verifier::external_body]
pub(crate) fn config_dir() -> (dir: Option<String>) {
    dirs::config_dir().map(|p| p.to_string_lossy().into_owned())
}

/// The user's cache directory, if the platform has one.
///
/// Trusted: calls `dirs::cache_dir`.  What it returns depends on the
/// platform and on the environment, so nothing is promised of it.
#[verifier::external_body]
pub(crate) fn cache_dir() -> (dir: Option<String>) {
    dirs::cache_dir().map(|p| p.to_string_lossy().into_owned())
}

} // verus!
