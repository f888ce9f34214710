//! Trusted boundary around the bounded mpsc channels that carry samples to
//! subscribers.
//!
//! A subscriber's egress channel is shared with a concurrently running
//! receiver, so nothing about its current contents can be a pure function of
//! the sender handle.  Each wrapper therefore states only what holds of every
//! outcome of the call; the library keeps its own (ghost) record of what each
//! channel has accepted.

use crate::stage::DeliveryOutcome;
use vstd::prelude::*;

verus! {

#[verifier::external_type_specification]
#[verifier::external_body]
#[verifier::reject_recursive_types(T)]
pub struct ExMpscSender<T>(futures::channel::mpsc::Sender<T>);

#[verifier::external_type_specification]
#[verifier::external_body]
#[verifier::reject_recursive_types(T)]
pub struct ExMpscReceiver<T>(futures::channel::mpsc::Receiver<T>);

/// Relies on futures::channel::mpsc::channel: creates a bounded in-memory
/// channel with `buffer` first-come slots plus one guaranteed slot per
/// sender.  The callee asserts that the buffer is below an internal maximum,
/// so the bound required here keeps that assertion from firing on any target.
#[verifier::external_body]
pub(crate) fn mpsc_channel<T>(buffer: usize) -> (futures::channel::mpsc::Sender<T>, futures::channel::mpsc::Receiver<T>)
    requires
        buffer < 0x3fff_ffff,
{
    futures::channel::mpsc::channel(buffer)
}

/// Relies on futures::channel::mpsc::Sender::try_send: a non-blocking
/// attempt that either hands the message to the channel, or returns it
/// because the channel is at capacity, or because the receiving half is
/// gone.  Which of the three happens depends on the concurrently running
/// receiver, so no more than the classification of the outcome is stated.
#[verifier::external_body]
pub(crate) fn mpsc_try_send<T>(
    sender: &mut futures::channel::mpsc::Sender<T>,
    value: T,
) -> (r: DeliveryOutcome) {
    match sender.try_send(value) {
        Ok(()) => DeliveryOutcome::Delivered,
        Err(e) => if e.is_disconnected() {
            DeliveryOutcome::Closed
        } else {
            DeliveryOutcome::Backpressured
        },
    }
}

/// Relies on futures::SinkExt::send driven to completion by
/// futures::executor::block_on: waits until the channel accepts the message,
/// or fails because the receiving half is gone; it never reports
/// backpressure.  A subscriber that accepts no more messages and never
/// disconnects stalls this call until its queue drains — the documented
/// trade-off of lossless delivery.
#[verifier::external_body]
pub(crate) fn mpsc_send_blocking<T>(
    sender: &mut futures::channel::mpsc::Sender<T>,
    value: T,
) -> (r: DeliveryOutcome)
    ensures
        r is Delivered || r is Closed,
{
    match futures::executor::block_on(futures::SinkExt::send(sender, value)) {
        Ok(()) => DeliveryOutcome::Delivered,
        Err(_) => DeliveryOutcome::Closed,
    }
}

} // verus!
