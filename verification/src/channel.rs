//! The queue endpoints the server hands around: the application-facing
//! incoming queue and the per-client outgoing queues.
//!
//! Both are bounded multi-producer single-consumer FIFO queues of an
//! outside concurrency crate.  Their endpoints are held here in opaque
//! wrapper types, and each operation the library relies on stands behind a
//! trusted item: the queues are shared with concurrently running consumers,
//! so nothing about their momentary contents can be promised — the
//! contracts state only what holds of every outcome.

use vstd::prelude::*;

use std::sync::Arc;

use crate::Direction;

verus! {

/// The outcome of offering one message to a queue without blocking.
#[derive(Copy, Clone, Eq, PartialEq, Structural, Debug)]
pub enum SendOutcome {
    /// The message was enqueued.
    Sent,
    /// The queue was full; the message was dropped for this consumer.
    Full,
    /// The consumer is gone (or the queue failed otherwise); the message
    /// was dropped.
    Closed,
}

/// Sending endpoint of the application-facing incoming queue.
///
/// Holds an `rtsc` channel sender; opaque because the queue is drained
/// concurrently by the application.
#[verifier::external_body]
pub struct IncomingSender {
    tx: rtsc::channel::DefaultSender<Arc<String>>,
}

/// Receiving endpoint of the application-facing incoming queue.
#[verifier::external_body]
pub struct IncomingReceiver {
    rx: rtsc::channel::DefaultReceiver<Arc<String>>,
}

/// Sending endpoint of one client's outgoing queue.
#[verifier::external_body]
pub struct OutgoingSender {
    tx: rtsc::channel::DefaultSender<(Direction, Arc<String>)>,
}

/// Receiving endpoint of one client's outgoing queue, drained by that
/// client's writer.
#[verifier::external_body]
pub struct OutgoingReceiver {
    rx: rtsc::channel::DefaultReceiver<(Direction, Arc<String>)>,
}

/// Relies on `rtsc::channel::bounded`: creates a FIFO queue with the given
/// capacity; receivers see items in enqueue order.  The call panics on a
/// zero capacity, so that input is excluded.
#[verifier::external_body]
pub(crate) fn incoming_channel(capacity: usize) -> (r: (IncomingSender, IncomingReceiver))
    requires
        capacity >= 1,
{
    let (tx, rx) = rtsc::channel::bounded(capacity);
    (IncomingSender { tx }, IncomingReceiver { rx })
}

/// Relies on `rtsc::channel::bounded`, as [`incoming_channel`] does.
#[verifier::external_body]
pub(crate) fn outgoing_channel(capacity: usize) -> (r: (OutgoingSender, OutgoingReceiver))
    requires
        capacity >= 1,
{
    let (tx, rx) = rtsc::channel::bounded(capacity);
    (OutgoingSender { tx }, OutgoingReceiver { rx })
}

/// Relies on `BaseSender::clone`: both endpoints feed the same queue.
#[verifier::external_body]
pub(crate) fn incoming_sender_clone(tx: &IncomingSender) -> (r: IncomingSender)
{
    IncomingSender { tx: tx.tx.clone() }
}

/// Relies on `BaseSender::send`: blocks until the queue has room, and fails
/// only once the receiving endpoint is gone.
#[verifier::external_body]
pub fn incoming_send(tx: &IncomingSender, data: &Arc<String>) -> (r: bool)
{
    tx.tx.send(data.clone()).is_ok()
}

/// Relies on `BaseSender::try_send`: never blocks; reports a full queue as
/// [`SendOutcome::Full`] and any other failure as [`SendOutcome::Closed`].
#[verifier::external_body]
pub(crate) fn outgoing_try_send(tx: &OutgoingSender, dir: Direction, data: &Arc<String>) -> (r:
    SendOutcome)
{
    match tx.tx.try_send((dir, data.clone())) {
        Ok(()) => SendOutcome::Sent,
        Err(rtsc::Error::ChannelFull) => SendOutcome::Full,
        Err(_) => SendOutcome::Closed,
    }
}

impl IncomingReceiver {
    /// Relies on `BaseReceiver::recv`: blocks for the next line and reports
    /// `None` once every sender is gone and the queue is drained.
    #[verifier::external_body]
    pub fn recv(&self) -> (r: Option<Arc<String>>)
    {
        self.rx.recv().ok()
    }

    /// Relies on `BaseReceiver::try_recv`: never blocks; `None` when the
    /// queue is momentarily empty or every sender is gone.
    #[verifier::external_body]
    pub fn try_recv(&self) -> (r: Option<Arc<String>>)
    {
        self.rx.try_recv().ok()
    }
}

impl OutgoingReceiver {
    /// Relies on `BaseReceiver::recv`, as [`IncomingReceiver::recv`] does.
    #[verifier::external_body]
    pub fn recv(&self) -> (r: Option<(Direction, Arc<String>)>)
    {
        self.rx.recv().ok()
    }

    /// Relies on `BaseReceiver::try_recv`, as [`IncomingReceiver::try_recv`]
    /// does.
    #[verifier::external_body]
    pub fn try_recv(&self) -> (r: Option<(Direction, Arc<String>)>)
    {
        self.rx.try_recv().ok()
    }
}

} // verus!
