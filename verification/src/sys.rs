//! Probes of the surrounding system.
//!
//! The engine's decisions depend on what is on disk and on the clock at the
//! moment of the call.  Both change behind the program's back, so these
//! probes promise nothing of their results; every function that uses one
//! states what holds whatever came back.

use std::path::Path;
use vstd::prelude::*;

verus! {

/// Relies on `std::path::Path::exists`: whether anything on disk answers to
/// `path` at this moment.  The disk can change between calls, so nothing is
/// promised of the result.
#[verifier::external_body]
pub(crate) fn path_exists(path: &str) -> bool {
    Path::new(path).exists()
}

/// Relies on `std::path::Path::is_dir`: whether `path` names an existing
/// directory at this moment.  The disk can change between calls, so nothing
/// is promised of the result.
#[verifier::external_body]
pub(crate) fn path_is_dir(path: &str) -> bool {
    Path::new(path).is_dir()
}

/// Relies on `std::path::Path::canonicalize`: the canonical, absolute form
/// of `path`, with symlinks and relative components resolved against the
/// disk — or `None` when resolution fails or the resolved form is not
/// UTF-8.  Resolution reads the disk, so nothing is promised of the value.
#[verifier::external_body]
pub(crate) fn canonicalize_path(path: &str) -> Option<String> {
    match Path::new(path).canonicalize() {
        Ok(p) => match p.to_str() {
            Some(s) => Some(s.to_string()),
            None => None,
        },
        Err(_) => None,
    }
}

/// Relies on `std::time::SystemTime::now` and
/// `SystemTime::duration_since`: the count of whole seconds since the Unix
/// epoch, or `None` when the system clock reads before the epoch.  The clock
/// is outside the program, so nothing is promised of the value.
#[verifier::external_body]
pub(crate) fn now_epoch_secs() -> Option<u64> {
    match std::time::SystemTime::now().duration_since(std::time::UNIX_EPOCH) {
        Ok(d) => Some(d.as_secs()),
        Err(_) => None,
    }
}

} // verus!
