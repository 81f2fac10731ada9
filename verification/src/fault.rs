//! Why a worker gives up.

use vstd::prelude::*;

verus! {

/// The reason for which a worker aborts.
#[derive(Clone, Copy, Debug, PartialEq, Eq, Structural)]
pub enum Fault {
    /// The transport failed: a session could not be opened or closed, a
    /// message could not be published, a subscription or the report could not
    /// be made.
    Transport,
    /// The worker was handed an event that cannot happen in its phase.
    Unexpected,
    /// In a combined worker: the publishing or the subscribing side failed.
    Worker,
}

} // verus!
