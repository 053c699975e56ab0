//! The in-process channels that carry values to and from the network tasks.
use vstd::prelude::*;

verus! {

#[verifier::external_type_specification]
#[verifier::external_body]
#[verifier::reject_recursive_types(T)]
pub struct ExAsyncSender<T>(async_channel::Sender<T>);

#[verifier::external_type_specification]
#[verifier::external_body]
#[verifier::reject_recursive_types(T)]
pub struct ExAsyncReceiver<T>(async_channel::Receiver<T>);

#[verifier::external_type_specification]
#[verifier::external_body]
#[verifier::reject_recursive_types(T)]
pub struct ExSyncSender<T>(crossbeam_channel::Sender<T>);

#[verifier::external_type_specification]
#[verifier::external_body]
#[verifier::reject_recursive_types(T)]
pub struct ExSyncReceiver<T>(crossbeam_channel::Receiver<T>);

/// `async_channel::bounded`: a channel that holds at most `cap` messages; it
/// panics on a capacity of zero, which `requires` leaves out.
#[verifier::external_body]
fn async_bounded<T>(cap: usize) -> (async_channel::Sender<T>, async_channel::Receiver<T>)
    requires
        cap > 0,
{
    async_channel::bounded(cap)
}

/// `async_channel::unbounded`: a channel that holds any number of messages.
#[verifier::external_body]
fn async_unbounded<T>() -> (async_channel::Sender<T>, async_channel::Receiver<T>) {
    async_channel::unbounded()
}

/// `crossbeam_channel::bounded`: a channel that holds at most `cap` messages
/// (none at all for zero: each send then waits for a receive).
#[verifier::external_body]
fn sync_bounded<T>(cap: usize) -> (crossbeam_channel::Sender<T>, crossbeam_channel::Receiver<T>) {
    crossbeam_channel::bounded(cap)
}

/// `crossbeam_channel::unbounded`: a channel that holds any number of messages.
#[verifier::external_body]
fn sync_unbounded<T>() -> (crossbeam_channel::Sender<T>, crossbeam_channel::Receiver<T>) {
    crossbeam_channel::unbounded()
}

/// An asynchronous channel that holds at most `bound` messages, or any number
/// when there is no bound.
pub fn channel_factory<T>(bound: Option<usize>) -> (async_channel::Sender<T>, async_channel::Receiver<T>)
    requires
        bound != Some(0usize),
{
    match bound {
        Some(cap) => async_bounded(cap),
        None => async_unbounded(),
    }
}

/// A blocking channel that holds at most `bound` messages, or any number when
/// there is no bound.
pub fn sync_channel_factory<T>(bound: Option<usize>) -> (
    crossbeam_channel::Sender<T>,
    crossbeam_channel::Receiver<T>,
) {
    match bound {
        Some(cap) => sync_bounded(cap),
        None => sync_unbounded(),
    }
}

} // verus!
