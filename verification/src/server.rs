//! The server core: the client registry, admission bookkeeping, the
//! take-once incoming receiver, and the broadcast fan-out with its
//! drop-on-overflow policy.
//!
//! The core is a sequential state machine.  The surrounding program owns
//! the listener and the per-connection workers; it registers a client on
//! accept, forwards that client's lines through [`Server::forward_line`],
//! and unregisters the client when its connection ends.  Broadcasting
//! offers one shared payload to every registered client without blocking,
//! so one slow consumer never stalls the rest.

use vstd::prelude::*;

use std::sync::Arc;

use crate::channel::{
    incoming_channel, incoming_send, incoming_sender_clone, outgoing_channel, outgoing_try_send,
    IncomingReceiver, IncomingSender, OutgoingReceiver, OutgoingSender, SendOutcome,
};
use crate::{
    Direction, Error, DEFAULT_INCOMING_QUEUE_SIZE, DEFAULT_OUTGOING_QUEUE_SIZE, DEFAULT_TIMEOUT_MS,
};

verus! {

/// Default ceiling on concurrently connected clients.
pub const DEFAULT_MAX_CLIENTS: usize = 16;

/// One registry entry: a client id and the sending endpoint of that
/// client's outgoing queue.
pub struct ClientEntry {
    /// The id assigned to the client on registration.
    pub id: usize,
    /// The sending endpoint of the client's outgoing queue.
    pub tx: OutgoingSender,
}

/// Server instance.
pub struct Server {
    timeout_ms: u64,
    next_client_id: usize,
    clients: Vec<ClientEntry>,
    client_count: usize,
    outgoing_queue_size: usize,
    max_clients: usize,
    incoming_queue_size: usize,
    incoming_tx: IncomingSender,
    incoming_rx: Option<IncomingReceiver>,
}

/// Every entry of `r` reports, in registry order, the outcome of offering
/// the message to the client with that id.
pub open spec fn broadcast_shape(reg: Seq<ClientEntry>, r: Seq<(usize, SendOutcome)>) -> bool {
    &&& r.len() == reg.len()
    &&& forall|i: int| 0 <= i < reg.len() ==> (#[trigger] r[i]).0 == reg[i].id
}

/// True if some registry entry carries this id.
pub open spec fn has_client(reg: Seq<ClientEntry>, id: usize) -> bool {
    exists|i: int| 0 <= i < reg.len() && (#[trigger] reg[i]).id == id
}

impl Server {
    /// The steady-state timeout, in milliseconds.
    pub closed spec fn spec_timeout_ms(&self) -> u64 {
        self.timeout_ms
    }

    /// The id the next registered client will receive.
    pub closed spec fn spec_next_client_id(&self) -> usize {
        self.next_client_id
    }

    /// The client registry, in ascending id order.
    pub closed spec fn spec_registry(&self) -> Seq<ClientEntry> {
        self.clients@
    }

    /// The number of connected clients.
    pub closed spec fn spec_client_count(&self) -> usize {
        self.client_count
    }

    /// The capacity given to each new client's outgoing queue.
    pub closed spec fn spec_outgoing_queue_size(&self) -> usize {
        self.outgoing_queue_size
    }

    /// The ceiling on concurrently connected clients.
    pub closed spec fn spec_max_clients(&self) -> usize {
        self.max_clients
    }

    /// The capacity of the application-facing incoming queue.
    pub closed spec fn spec_incoming_queue_size(&self) -> usize {
        self.incoming_queue_size
    }

    /// Whether the incoming receiver is still here to be taken.
    pub closed spec fn spec_rx_available(&self) -> bool {
        self.incoming_rx is Some
    }

    /// The server's invariant: the client count equals the registry size,
    /// ids are strictly ascending and below the next id to be assigned, and
    /// the configured queue capacities admit at least one message.
    pub closed spec fn wf(&self) -> bool {
        &&& self.client_count == self.clients@.len()
        &&& forall|i: int, j: int|
            0 <= i < j < self.clients@.len() ==> (#[trigger] self.clients@[i]).id < (
            #[trigger] self.clients@[j]).id
        &&& forall|i: int|
            0 <= i < self.clients@.len() ==> (#[trigger] self.clients@[i]).id
                < self.next_client_id
        &&& self.outgoing_queue_size >= 1
        &&& self.incoming_queue_size >= 1
    }

    /// Configuration (timeout, ceilings, queue capacities) is the same on
    /// both sides.
    pub open spec fn same_config(pre: &Server, post: &Server) -> bool {
        &&& post.spec_timeout_ms() == pre.spec_timeout_ms()
        &&& post.spec_max_clients() == pre.spec_max_clients()
        &&& post.spec_outgoing_queue_size() == pre.spec_outgoing_queue_size()
        &&& post.spec_incoming_queue_size() == pre.spec_incoming_queue_size()
    }

    /// The registry, the client count and the id counter are the same on
    /// both sides.
    pub open spec fn same_clients(pre: &Server, post: &Server) -> bool {
        &&& post.spec_registry() == pre.spec_registry()
        &&& post.spec_client_count() == pre.spec_client_count()
        &&& post.spec_next_client_id() == pre.spec_next_client_id()
    }

    /// Create a new server instance with the specified timeout in
    /// milliseconds.
    pub fn new(timeout_ms: u64) -> (r: Server)
        ensures
            r.wf(),
            r.spec_timeout_ms() == timeout_ms,
            r.spec_next_client_id() == 0,
            r.spec_registry().len() == 0,
            r.spec_client_count() == 0,
            r.spec_outgoing_queue_size() == DEFAULT_OUTGOING_QUEUE_SIZE,
            r.spec_max_clients() == DEFAULT_MAX_CLIENTS,
            r.spec_incoming_queue_size() == DEFAULT_INCOMING_QUEUE_SIZE,
            r.spec_rx_available(),
    {
        let (incoming_tx, incoming_rx) = incoming_channel(DEFAULT_INCOMING_QUEUE_SIZE);
        Server {
            timeout_ms,
            next_client_id: 0,
            clients: Vec::new(),
            client_count: 0,
            outgoing_queue_size: DEFAULT_OUTGOING_QUEUE_SIZE,
            max_clients: DEFAULT_MAX_CLIENTS,
            incoming_queue_size: DEFAULT_INCOMING_QUEUE_SIZE,
            incoming_tx,
            incoming_rx: Some(incoming_rx),
        }
    }

    /// Set the maximum number of clients (default: 16).  The ceiling is
    /// read when serving starts; it never fails.
    pub fn set_max_clients(&mut self, max_clients: usize) -> (r: Result<(), Error>)
        requires
            old(self).wf(),
        ensures
            final(self).wf(),
            r is Ok,
            final(self).spec_max_clients() == max_clients,
            final(self).spec_timeout_ms() == old(self).spec_timeout_ms(),
            final(self).spec_outgoing_queue_size() == old(self).spec_outgoing_queue_size(),
            final(self).spec_incoming_queue_size() == old(self).spec_incoming_queue_size(),
            Self::same_clients(old(self), final(self)),
            final(self).spec_rx_available() == old(self).spec_rx_available(),
    {
        self.max_clients = max_clients;
        Ok(())
    }

    /// Set the outgoing queue size (default: 128).  If a client's queue is
    /// full, messages to it are dropped to prevent any server blocking; a
    /// capacity below one message is excluded.
    pub fn set_outgoing_queue_size(&mut self, size: usize) -> (r: Result<(), Error>)
        requires
            old(self).wf(),
            size >= 1,
        ensures
            final(self).wf(),
            r is Ok,
            final(self).spec_outgoing_queue_size() == size,
            final(self).spec_timeout_ms() == old(self).spec_timeout_ms(),
            final(self).spec_max_clients() == old(self).spec_max_clients(),
            final(self).spec_incoming_queue_size() == old(self).spec_incoming_queue_size(),
            Self::same_clients(old(self), final(self)),
            final(self).spec_rx_available() == old(self).spec_rx_available(),
    {
        self.outgoing_queue_size = size;
        Ok(())
    }

    /// Set the incoming queue size (default: 128).  Allowed only while the
    /// incoming receiver has not been taken; replaces both endpoints of the
    /// incoming queue atomically.
    pub fn set_incoming_queue_size(&mut self, size: usize) -> (r: Result<(), Error>)
        requires
            old(self).wf(),
            size >= 1,
        ensures
            final(self).wf(),
            old(self).spec_rx_available() ==> {
                &&& r is Ok
                &&& final(self).spec_incoming_queue_size() == size
                &&& final(self).spec_rx_available()
                &&& final(self).spec_timeout_ms() == old(self).spec_timeout_ms()
                &&& final(self).spec_max_clients() == old(self).spec_max_clients()
                &&& final(self).spec_outgoing_queue_size() == old(self).spec_outgoing_queue_size()
                &&& Self::same_clients(old(self), final(self))
            },
            !old(self).spec_rx_available() ==> (r matches Err(Error::DataChannelTaken))
                && *final(self) == *old(self),
    {
        if self.incoming_rx.is_none() {
            return Err(Error::DataChannelTaken);
        }
        let (incoming_tx, incoming_rx) = incoming_channel(size);
        self.incoming_tx = incoming_tx;
        self.incoming_rx = Some(incoming_rx);
        self.incoming_queue_size = size;
        Ok(())
    }

    /// What one call of [`Server::take_data_channel`] does: while the
    /// receiver is here it is handed out and is then gone; afterwards every
    /// call fails with [`Error::DataChannelTaken`] and changes nothing.
    pub open spec fn take_transition(
        pre: Server,
        post: Server,
        r: Result<IncomingReceiver, Error>,
    ) -> bool {
        if pre.spec_rx_available() {
            &&& r is Ok
            &&& !post.spec_rx_available()
            &&& Self::same_config(&pre, &post)
            &&& Self::same_clients(&pre, &post)
        } else {
            &&& r matches Err(Error::DataChannelTaken)
            &&& post == pre
        }
    }

    /// Take the data channel: the receiving endpoint of the incoming
    /// queue.  It is handed out at most once.
    pub fn take_data_channel(&mut self) -> (r: Result<IncomingReceiver, Error>)
        requires
            old(self).wf(),
        ensures
            final(self).wf(),
            Self::take_transition(*old(self), *final(self), r),
    {
        match self.incoming_rx.take() {
            Some(rx) => Ok(rx),
            None => Err(Error::DataChannelTaken),
        }
    }

    /// Take-once: of two consecutive takes, the first succeeds and the
    /// second fails with [`Error::DataChannelTaken`].
    pub proof fn lemma_take_once(
        s0: Server,
        s1: Server,
        s2: Server,
        r1: Result<IncomingReceiver, Error>,
        r2: Result<IncomingReceiver, Error>,
    )
        requires
            s0.spec_rx_available(),
            Self::take_transition(s0, s1, r1),
            Self::take_transition(s1, s2, r2),
        ensures
            r1 is Ok,
            r2 matches Err(Error::DataChannelTaken),
    {
    }

    /// Registry consistency: the client count equals the number of registry
    /// entries.
    pub proof fn lemma_registry_consistent(&self)
        requires
            self.wf(),
        ensures
            self.spec_client_count() == self.spec_registry().len(),
    {
    }

    /// Register a newly accepted client: assign it the next id, give it an
    /// outgoing queue at the configured capacity, and append it to the
    /// registry.  Returns the id and the receiving endpoint its writer
    /// drains.
    pub fn register_client(&mut self) -> (r: (usize, OutgoingReceiver))
        requires
            old(self).wf(),
            old(self).spec_next_client_id() < usize::MAX,
        ensures
            final(self).wf(),
            r.0 == old(self).spec_next_client_id(),
            final(self).spec_next_client_id() == old(self).spec_next_client_id() + 1,
            final(self).spec_client_count() == old(self).spec_client_count() + 1,
            final(self).spec_registry().len() == old(self).spec_registry().len() + 1,
            final(self).spec_registry() == old(self).spec_registry().push(
                final(self).spec_registry().last(),
            ),
            final(self).spec_registry().last().id == r.0,
            Self::same_config(old(self), final(self)),
            final(self).spec_rx_available() == old(self).spec_rx_available(),
    {
        let (tx, rx) = outgoing_channel(self.outgoing_queue_size);
        let id = self.next_client_id;
        self.next_client_id = id + 1;
        self.clients.push(ClientEntry { id, tx });
        self.client_count = self.clients.len();
        proof {
            assert(final(self).spec_registry() =~= old(self).spec_registry().push(
                final(self).spec_registry().last(),
            ));
        }
        (id, rx)
    }

    /// Unregister a client on connection teardown: remove its registry
    /// entry (keeping the order of the others) and decrement the client
    /// count.  Each handler removes its own id exactly once.
    pub fn unregister_client(&mut self, id: usize)
        requires
            old(self).wf(),
            has_client(old(self).spec_registry(), id),
        ensures
            final(self).wf(),
            final(self).spec_client_count() + 1 == old(self).spec_client_count(),
            !has_client(final(self).spec_registry(), id),
            exists|i: int|
                0 <= i < old(self).spec_registry().len() && old(self).spec_registry()[i].id == id
                    && final(self).spec_registry() == old(self).spec_registry().remove(i),
            Self::same_config(old(self), final(self)),
            final(self).spec_next_client_id() == old(self).spec_next_client_id(),
            final(self).spec_rx_available() == old(self).spec_rx_available(),
    {
        let ghost reg = self.clients@;
        let mut idx: usize = 0;
        while idx < self.clients.len() && self.clients[idx].id != id
            invariant
                0 <= idx <= self.clients@.len(),
                self.clients@ == reg,
                forall|k: int| 0 <= k < idx ==> (#[trigger] reg[k]).id != id,
            decreases self.clients@.len() - idx,
        {
            idx += 1;
        }
        proof {
            let i = choose|i: int| 0 <= i < reg.len() && (#[trigger] reg[i]).id == id;
            assert(idx < reg.len());
        }
        self.clients.remove(idx);
        self.client_count = self.clients.len();
        proof {
            let post = self.clients@;
            assert(post == reg.remove(idx as int));
            assert forall|a: int, b: int| 0 <= a < b < post.len() implies (#[trigger] post[a]).id
                < (#[trigger] post[b]).id by {
                if b < idx {
                    assert(post[a] == reg[a] && post[b] == reg[b]);
                } else if a >= idx {
                    assert(post[a] == reg[a + 1] && post[b] == reg[b + 1]);
                } else {
                    assert(post[a] == reg[a] && post[b] == reg[b + 1]);
                }
            }
            assert forall|a: int| 0 <= a < post.len() implies !((#[trigger] post[a]).id
                == id) by {
                if a < idx {
                    assert(post[a] == reg[a]);
                } else {
                    assert(post[a] == reg[a + 1]);
                    assert(reg[idx as int].id < reg[a + 1].id);
                }
            }
        }
    }

    /// Drop-on-overflow isolation: a broadcast carries one outcome for
    /// every registered client, so the message is offered to each of them
    /// independently — a full queue at one client never withholds the
    /// message from another.
    pub proof fn lemma_broadcast_offers_every_client(
        reg: Seq<ClientEntry>,
        r: Seq<(usize, SendOutcome)>,
        id: usize,
    )
        requires
            broadcast_shape(reg, r),
            has_client(reg, id),
        ensures
            exists|k: int| 0 <= k < r.len() && (#[trigger] r[k]).0 == id,
    {
        let i = choose|i: int| 0 <= i < reg.len() && (#[trigger] reg[i]).id == id;
        assert(r[i].0 == id);
    }

    /// Offer one shared payload to every registered client, in registry
    /// order, without blocking: a full queue drops the message for that
    /// client only.  Returns one outcome per client.
    pub fn broadcast(&self, direction: Direction, data: &Arc<String>) -> (r: Vec<
        (usize, SendOutcome),
    >)
        ensures
            broadcast_shape(self.spec_registry(), r@),
    {
        let mut r: Vec<(usize, SendOutcome)> = Vec::new();
        let mut i: usize = 0;
        while i < self.clients.len()
            invariant
                0 <= i <= self.clients@.len(),
                r@.len() == i,
                forall|k: int| 0 <= k < i ==> (#[trigger] r@[k]).0 == self.clients@[k].id,
            decreases self.clients@.len() - i,
        {
            let entry = &self.clients[i];
            let outcome = outgoing_try_send(&entry.tx, direction, data);
            r.push((entry.id, outcome));
            i += 1;
        }
        r
    }

    /// Send a message to the clients: a no-op while no client is
    /// connected, otherwise one broadcast of the payload in direction
    /// [`Direction::ServerToClient`].  Returns one outcome per client; the
    /// caller may warn about the dropped ones.
    pub fn send(&self, data: String) -> (r: Vec<(usize, SendOutcome)>)
        requires
            self.wf(),
        ensures
            self.spec_client_count() == 0 ==> r@.len() == 0,
            self.spec_client_count() > 0 ==> broadcast_shape(self.spec_registry(), r@),
    {
        if self.client_count > 0 {
            let shared = Arc::new(data);
            self.broadcast(Direction::ServerToClient, &shared)
        } else {
            Vec::new()
        }
    }

    /// A sending endpoint of the incoming queue, for a connection worker to
    /// hold while it serves one client.
    pub fn incoming_sender(&self) -> (r: IncomingSender) {
        incoming_sender_clone(&self.incoming_tx)
    }

    /// Forward one line received from a client: publish it once on the
    /// incoming queue (blocking; a failure there is fatal for the
    /// connection and answered with `None`), then loop it back to every
    /// registered client — the sender included — as a
    /// [`Direction::ClientToServer`] broadcast of the same shared payload.
    pub fn forward_line(&self, tx: &IncomingSender, line: String) -> (r: Option<
        Vec<(usize, SendOutcome)>,
    >)
        ensures
            r matches Some(v) ==> broadcast_shape(self.spec_registry(), v@),
    {
        let shared = Arc::new(line);
        if incoming_send(tx, &shared) {
            Some(self.broadcast(Direction::ClientToServer, &shared))
        } else {
            None
        }
    }

    /// The steady-state timeout, in milliseconds.
    pub fn timeout_ms(&self) -> (r: u64)
        ensures
            r == self.spec_timeout_ms(),
    {
        self.timeout_ms
    }

    /// The ceiling on concurrently connected clients.
    pub fn max_clients(&self) -> (r: usize)
        ensures
            r == self.spec_max_clients(),
    {
        self.max_clients
    }

    /// The number of connected clients.
    pub fn client_count(&self) -> (r: usize)
        ensures
            r == self.spec_client_count(),
    {
        self.client_count
    }

    /// The id the next registered client will receive.
    pub fn next_client_id(&self) -> (r: usize)
        ensures
            r == self.spec_next_client_id(),
    {
        self.next_client_id
    }

    /// Whether a client with this id stands in the registry.
    pub fn is_registered(&self, id: usize) -> (r: bool)
        ensures
            r == has_client(self.spec_registry(), id),
    {
        let mut i: usize = 0;
        while i < self.clients.len()
            invariant
                0 <= i <= self.clients@.len(),
                forall|k: int| 0 <= k < i ==> (#[trigger] self.clients@[k]).id != id,
            decreases self.clients@.len() - i,
        {
            if self.clients[i].id == id {
                return true;
            }
            i += 1;
        }
        false
    }
}

} // verus!
