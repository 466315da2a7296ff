use vstd::prelude::*;

use crate::connection::TcpConnection;
use crate::message::{envelope, frame_message, relayable};
use crate::registry::{ConnectionRegistry, SERVER};

verus! {

/// The readiness flags of one event that the decisions depend on.
#[derive(Clone, Copy, Debug)]
pub struct Readiness {
    pub error: bool,
    pub hup: bool,
}

/// What one readiness event calls for.
#[derive(Clone, Copy, Debug, PartialEq, Eq, Structural)]
pub enum Dispatch {
    /// The connection failed or hung up: deregister it.
    Disconnect,
    /// The listener is ready: accept until it would block.
    Accept,
    /// A client has data: drain it until it would block.
    Read,
}

/// How draining a client's socket ended.
#[derive(Clone, Copy, Debug, PartialEq, Eq, Structural)]
pub enum ReadEnd {
    /// No more bytes for now; the connection stays.
    WouldBlock,
    /// The peer shut down its side (a read returned no bytes).
    Closed,
    /// A read failed with an error other than would-block.
    Failed,
}

/// What one non-blocking read on a client's socket returned.
#[derive(Clone, Copy, Debug, PartialEq, Eq, Structural)]
pub enum ReadStatus {
    /// Some bytes arrived.
    Data,
    /// No bytes: the peer shut down its side.
    Eof,
    /// Nothing to read for now.
    WouldBlock,
    /// The read was interrupted before anything arrived.
    Interrupted,
    /// Any other failure.
    Error,
}

/// What one non-blocking accept on the listener returned.
#[derive(Clone, Copy, Debug, PartialEq, Eq, Structural)]
pub enum AcceptStatus {
    /// A new connection came in.
    Accepted,
    /// No connection is pending.
    WouldBlock,
    /// The accept was interrupted.
    Interrupted,
    /// Any other failure.
    Error,
}

/// What to do after an accept attempt.
#[derive(Clone, Copy, Debug, PartialEq, Eq, Structural)]
pub enum AcceptStep {
    /// Register the new connection, then accept again.
    Register,
    /// Accept again.
    Retry,
    /// Stop accepting until the listener is ready again.
    Stop,
    /// Report the failure and stop accepting until the listener is ready again;
    /// the relay keeps serving.
    ReportAndStop,
}

/// One payload and the connections it goes to.
pub struct Broadcast {
    pub payload: Vec<u8>,
    pub targets: Vec<usize>,
}

/// What to do after draining a client's socket.
pub struct ReadPlan {
    /// The payload to write to every other client, if there is one.
    pub broadcast: Option<Broadcast>,
    /// The message was dropped because it is not text.
    pub malformed: bool,
    /// The sender is to be deregistered.
    pub close: bool,
}

/// The event to handle for an event on `token` with the given flags: an error or
/// a hangup wins over readability; the listener's events are accepts; every
/// other event is data to read.
pub open spec fn dispatch_of(token: usize, ready: Readiness) -> Dispatch {
    if ready.error || ready.hup {
        Dispatch::Disconnect
    } else if token == SERVER {
        Dispatch::Accept
    } else {
        Dispatch::Read
    }
}

/// The connections that a message from `sender` goes to: every live one but the sender.
pub open spec fn peers<C>(conns: Map<usize, C>, sender: usize) -> Set<usize> {
    conns.dom().remove(sender)
}

pub fn dispatch(token: usize, ready: Readiness) -> (r: Dispatch)
    ensures
        r == dispatch_of(token, ready),
{
    if ready.error || ready.hup {
        Dispatch::Disconnect
    } else if token == SERVER {
        Dispatch::Accept
    } else {
        Dispatch::Read
    }
}

/// Where draining a client's socket stands after one read: `None` to keep
/// reading (bytes arrived, or the read was interrupted), else how the drain
/// ended. A read of no bytes is an orderly shutdown.
pub fn read_step(status: ReadStatus) -> (r: Option<ReadEnd>)
    ensures
        r == match status {
            ReadStatus::Data | ReadStatus::Interrupted => None,
            ReadStatus::Eof => Some(ReadEnd::Closed),
            ReadStatus::WouldBlock => Some(ReadEnd::WouldBlock),
            ReadStatus::Error => Some(ReadEnd::Failed),
        },
{
    match status {
        ReadStatus::Data | ReadStatus::Interrupted => None,
        ReadStatus::Eof => Some(ReadEnd::Closed),
        ReadStatus::WouldBlock => Some(ReadEnd::WouldBlock),
        ReadStatus::Error => Some(ReadEnd::Failed),
    }
}

/// Accepting goes on until the listener would block, since one readiness
/// event may stand for many pending connections; a failure ends this round
/// without ending the relay.
pub fn accept_step(status: AcceptStatus) -> (r: AcceptStep)
    ensures
        r == match status {
            AcceptStatus::Accepted => AcceptStep::Register,
            AcceptStatus::Interrupted => AcceptStep::Retry,
            AcceptStatus::WouldBlock => AcceptStep::Stop,
            AcceptStatus::Error => AcceptStep::ReportAndStop,
        },
{
    match status {
        AcceptStatus::Accepted => AcceptStep::Register,
        AcceptStatus::Interrupted => AcceptStep::Retry,
        AcceptStatus::WouldBlock => AcceptStep::Stop,
        AcceptStatus::Error => AcceptStep::ReportAndStop,
    }
}

/// The relay's state: the live connections and the broadcast mode. It is owned
/// by the single thread that runs the event loop.
pub struct Reactor<S> {
    conns: ConnectionRegistry<TcpConnection<S>>,
    anonymous: bool,
}

impl<S> View for Reactor<S> {
    type V = Map<usize, TcpConnection<S>>;

    closed spec fn view(&self) -> Map<usize, TcpConnection<S>> {
        self.conns@
    }
}

impl<S> Reactor<S> {
    pub closed spec fn wf(&self) -> bool {
        self.conns.wf()
    }

    /// Whether messages are relayed without the sender's address.
    pub closed spec fn is_anonymous(&self) -> bool {
        self.anonymous
    }

    /// The identifier that the next accepted connection receives.
    pub closed spec fn next_id(&self) -> usize {
        self.conns.next_id()
    }

    /// Every live identifier lies between 1 and the counter.
    pub proof fn lemma_ids_below_next(&self)
        requires
            self.wf(),
        ensures
            self@.dom().finite(),
            forall|k: usize| #[trigger] self@.contains_key(k) ==> 1 <= k < self.next_id(),
            !self@.contains_key(SERVER),
            !self@.contains_key(self.next_id()),
    {
        self.conns.lemma_ids_below_next();
    }

    pub fn new(anonymous: bool) -> (r: Reactor<S>)
        ensures
            r.wf(),
            r@ == Map::<usize, TcpConnection<S>>::empty(),
            r.next_id() == 1,
            r.is_anonymous() == anonymous,
    {
        Reactor { conns: ConnectionRegistry::new(), anonymous }
    }

    /// The number of live connections.
    pub fn len(&self) -> (r: usize)
        requires
            self.wf(),
        ensures
            r == self@.len(),
    {
        self.conns.len()
    }

    pub fn connection(&self, token: usize) -> (r: Option<&TcpConnection<S>>)
        requires
            self.wf(),
        ensures
            match r {
                Some(c) => self@.contains_key(token) && *c == self@[token],
                None => !self@.contains_key(token),
            },
    {
        self.conns.get(token)
    }

    /// Registers a newly accepted connection under a fresh identifier, which is
    /// returned. Once the identifiers are used up the connection is handed back.
    pub fn accept(&mut self, conn: TcpConnection<S>) -> (r: Result<usize, TcpConnection<S>>)
        requires
            old(self).wf(),
        ensures
            final(self).wf(),
            final(self).is_anonymous() == old(self).is_anonymous(),
            old(self).next_id() < usize::MAX ==> {
                &&& r == Ok::<usize, TcpConnection<S>>(old(self).next_id())
                &&& !old(self)@.contains_key(old(self).next_id())
                &&& final(self)@ == old(self)@.insert(old(self).next_id(), conn)
                &&& final(self).next_id() == old(self).next_id() + 1
            },
            old(self).next_id() == usize::MAX ==> {
                &&& r == Err::<usize, TcpConnection<S>>(conn)
                &&& final(self)@ == old(self)@
                &&& final(self).next_id() == old(self).next_id()
            },
    {
        self.conns.register(conn)
    }

    /// Deregisters the connection under `token` and hands it back for cleanup;
    /// `None` where no connection is registered under it.
    pub fn disconnect(&mut self, token: usize) -> (r: Option<TcpConnection<S>>)
        requires
            old(self).wf(),
        ensures
            final(self).wf(),
            final(self).is_anonymous() == old(self).is_anonymous(),
            final(self)@ == old(self)@.remove(token),
            final(self).next_id() == old(self).next_id(),
            match r {
                Some(c) => old(self)@.contains_key(token) && c == old(self)@[token],
                None => !old(self)@.contains_key(token),
            },
    {
        self.conns.remove(token)
    }

    /// Decides what follows from draining `data` from the client under `token`,
    /// the drain having ended as `end`.
    ///
    /// A non-empty message goes, framed once, to every other live connection,
    /// each named once; in attributed mode a message that is not UTF-8 text is
    /// dropped instead. Where the peer closed or the read failed, the sender is
    /// to be deregistered too. An event for an identifier that is not live
    /// calls for nothing.
    pub fn on_read(&self, token: usize, data: &[u8], end: ReadEnd) -> (r: ReadPlan)
        requires
            self.wf(),
        ensures
            !self@.contains_key(token) ==> r.broadcast is None && !r.malformed && !r.close,
            self@.contains_key(token) ==> {
                &&& r.close == (end != ReadEnd::WouldBlock)
                &&& r.malformed == (data@.len() > 0 && !relayable(data@, self.is_anonymous()))
                &&& (r.broadcast is Some <==> (data@.len() > 0 && relayable(
                    data@,
                    self.is_anonymous(),
                )))
            },
            match r.broadcast {
                Some(b) => {
                    &&& self@.contains_key(token)
                    &&& b.payload@ == envelope(self@[token].addr@, data@, self.is_anonymous())
                    &&& b.targets@.no_duplicates()
                    &&& b.targets@.to_set() == peers(self@, token)
                },
                None => true,
            },
    {
        let conn = match self.conns.get(token) {
            Some(c) => c,
            None => {
                return ReadPlan { broadcast: None, malformed: false, close: false };
            },
        };
        let close = end != ReadEnd::WouldBlock;
        if data.len() == 0 {
            return ReadPlan { broadcast: None, malformed: false, close };
        }
        match frame_message(conn.addr.as_str(), data, self.anonymous) {
            Some(payload) => {
                let targets = self.conns.ids_except(token);
                proof {
                    assert(targets@.to_set() =~= peers(self@, token));
                }
                ReadPlan { broadcast: Some(Broadcast { payload, targets }), malformed: false, close }
            },
            None => ReadPlan { broadcast: None, malformed: true, close },
        }
    }
}

} // verus!
