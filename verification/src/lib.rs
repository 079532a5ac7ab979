//! A drop-box processing engine.
//!
//! The library watches an inbox ("target") directory and drives discovered
//! files through a directory-based lifecycle: `target` -> `processing` ->
//! `processed`, with an `error` directory as the archive for failures and
//! evicted files.  Every piece of decision logic lives here with a verified
//! contract; the filesystem renames themselves are carried out by the caller
//! from the exact plans this library computes, so that no file is ever
//! silently overwritten or lost.

pub mod decimal;
pub mod dropbox;
pub mod file;
pub mod monitor;
pub mod pattern;
pub mod signal;
pub(crate) mod sys;
