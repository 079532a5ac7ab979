//! The notifications a broadcast shutdown/pause channel carries.
//!
//! The channel itself is an asynchronous pub/sub primitive and lives with
//! the embedding application; the notification kinds it distributes are
//! plain values and belong here.

use vstd::prelude::*;

verus! {

/// A process-wide notification: stop the monitoring loops, or pause them.
#[derive(Clone, Debug)]
pub enum SignalType {
    Shutdown,
    Pause,
}

} // verus!
