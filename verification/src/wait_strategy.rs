//! How a publisher behaves when the ring is full of events that some subscriber
//! has not read yet.
use vstd::prelude::*;

verus! {

/// The policy a publisher follows when its next slot still holds an unread event.
#[derive(Copy, Clone)]
pub enum WaitStrategy {
    /// Wait until every subscriber has read the event before overwriting it.
    AllSubscribers,
    /// Overwrite the event at once; lagging subscribers skip ahead.
    NoWait,
    /// Overwrite the event at once, then pause for the given duration.
    WaitForDuration(std::time::Duration),
}

} // verus!
