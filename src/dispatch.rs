use vstd::prelude::*;
use crate::connection::{ConnectionContext, BUFFSIZE, filled};
use crate::pool::{ConnectionSet, PoolModel};
use crate::tag::Tag;

verus! {

broadcast use ConnectionContext::lemma_fresh;

/// What one attempt to accept a pending connection gave.
#[derive(Clone, Copy, Debug, PartialEq, Eq, Structural)]
pub enum AcceptOutcome {
    /// A connection was accepted and made non-blocking; this is its descriptor.
    Accepted(i32),
    /// No connection is pending.
    WouldBlock,
    /// The accept call failed.
    Failed,
}

/// What one non-blocking read from a connection gave.
#[derive(Debug, PartialEq, Eq)]
pub enum ReadOutcome {
    /// The bytes received; none means the peer closed its write side.
    Received(Vec<u8>),
    /// Nothing was available after all.
    WouldBlock,
    /// The connection can no longer be used (reset and the like).
    Failed,
}

/// What the loop hands to the dispatcher.
#[derive(Debug, PartialEq, Eq)]
pub enum Event {
    /// The multiplexer reported the descriptor registered under this token
    /// as readable.
    Ready(u64),
    /// The result of an `Action::Accept`.
    Accept(AcceptOutcome),
    /// The result of an `Action::Read` on this slot.
    Read(usize, ReadOutcome),
}

/// What the dispatcher asks the loop to do next.
#[derive(Debug, PartialEq, Eq)]
pub enum Action {
    /// Accept one pending connection and report it as `Event::Accept`.
    Accept,
    /// Arm `fd` for read readiness under the token of `tag`, then accept the
    /// next pending connection.
    Register { fd: i32, tag: Tag },
    /// Close `fd`, which found no free slot, then accept the next pending
    /// connection.
    Reject { fd: i32 },
    /// Read once from `fd` and report it as `Event::Read(slot, ..)`.
    Read { slot: usize, fd: i32 },
    /// The connection in `slot` sent these bytes.
    Deliver { slot: usize, bytes: Vec<u8> },
    /// Shut down both directions of `fd`, deregister it, then close it:
    /// the connection of `slot` is gone.
    Teardown { slot: usize, fd: i32 },
    /// Nothing more to do for this event.
    Idle,
}

impl Action {
    /// How carrying out this action changes the multiplexer's registrations,
    /// seen as a map from tag to descriptor.
    pub open spec fn effect(self, reg: Map<Tag, i32>) -> Map<Tag, i32> {
        match self {
            Action::Register { fd, tag } => reg.insert(tag, fd),
            Action::Teardown { slot, fd } => reg.remove(Tag::Connection(slot)),
            _ => reg,
        }
    }
}

/// The loop-owned context: the pool of connections and the listening
/// socket's descriptor. It decides, event by event, what the loop does.
pub struct Dispatcher<const N: usize> {
    pool: ConnectionSet<N>,
    listener_fd: i32,
}

impl<const N: usize> Dispatcher<N> {
    pub closed spec fn pool_spec(&self) -> PoolModel {
        self.pool@
    }

    pub closed spec fn listener_spec(&self) -> i32 {
        self.listener_fd
    }

    pub open spec fn wf(&self) -> bool {
        &&& self.pool_spec().wf()
        &&& self.pool_spec().slots.len() == N
    }

    /// The registrations that the multiplexer holds while the loop has
    /// carried out every action asked of it: the listener under its tag, and
    /// each occupied slot's descriptor under that slot's tag.
    pub open spec fn registrations(&self) -> Map<Tag, i32> {
        Map::new(
            |t: Tag|
                match t {
                    Tag::Listener => true,
                    Tag::Connection(i) => self.pool_spec().occupied(i as int),
                },
            |t: Tag|
                match t {
                    Tag::Listener => self.listener_spec(),
                    Tag::Connection(i) => self.pool_spec().slots[i as int]->Some_0.fd_spec(),
                },
        )
    }

    pub fn new(listener_fd: i32) -> (r: Self)
        ensures
            r.wf(),
            r.pool_spec() == PoolModel::empty(N as nat),
            r.listener_spec() == listener_fd,
    {
        Dispatcher { pool: ConnectionSet::new(), listener_fd }
    }

    /// The one action that sets the multiplexer up before the first wait:
    /// after it, the registrations are those of a fresh dispatcher.
    pub fn startup(&self) -> (a: Action)
        requires
            self.wf(),
            self.pool_spec() == PoolModel::empty(N as nat),
        ensures
            a == (Action::Register { fd: self.listener_spec(), tag: Tag::Listener }),
            a.effect(Map::empty()) == self.registrations(),
    {
        let a = Action::Register { fd: self.listener_fd, tag: Tag::Listener };
        proof {
            assert(a.effect(Map::empty()) =~= self.registrations());
        }
        a
    }

    /// The pool of connections.
    pub fn pool(&self) -> (r: &ConnectionSet<N>)
        requires
            self.wf(),
        ensures
            r.wf(),
            r@ == self.pool_spec(),
    {
        &self.pool
    }

    /// Decides what to do about one event, updating the pool, and returns
    /// the action for the loop to carry out.
    pub fn handle(&mut self, event: Event) -> (a: Action)
        requires
            old(self).wf(),
            event matches Event::Read(_, ReadOutcome::Received(bytes)) ==> bytes@.len() <= BUFFSIZE,
        ensures
            final(self).wf(),
            final(self).listener_spec() == old(self).listener_spec(),
            final(self).registrations() == a.effect(old(self).registrations()),
            ({
                let p = old(self).pool_spec();
                let q = final(self).pool_spec();
                match event {
                    Event::Ready(token) => q == p && match Tag::from_token_spec(token) {
                        Some(Tag::Listener) => a == Action::Accept,
                        Some(Tag::Connection(i)) => if p.occupied(i as int) {
                            a == (Action::Read { slot: i, fd: p.slots[i as int]->Some_0.fd_spec() })
                        } else {
                            a == Action::Idle
                        },
                        None => a == Action::Idle,
                    },
                    Event::Accept(AcceptOutcome::Accepted(fd)) => match p.next_slot() {
                        Some(i) => {
                            &&& a == (Action::Register { fd, tag: Tag::Connection(i) })
                            &&& q == p.added(ConnectionContext::fresh(fd))
                        },
                        None => a == (Action::Reject { fd }) && q == p,
                    },
                    Event::Accept(_) => a == Action::Idle && q == p,
                    Event::Read(i, ReadOutcome::Received(bytes)) => if !p.occupied(i as int) {
                        a == Action::Idle && q == p
                    } else if bytes@.len() == 0 {
                        &&& a == (Action::Teardown { slot: i, fd: p.slots[i as int]->Some_0.fd_spec() })
                        &&& q == p.removed(i as int)
                    } else {
                        &&& a == (Action::Deliver { slot: i, bytes })
                        &&& q.free == p.free
                        &&& q.slots.len() == p.slots.len()
                        &&& forall|j: int| 0 <= j < p.slots.len() && j != i ==> #[trigger] q.slots[j] == p.slots[j]
                        &&& q.slots[i as int] is Some
                        &&& q.slots[i as int]->Some_0.fd_spec() == p.slots[i as int]->Some_0.fd_spec()
                        &&& q.slots[i as int]->Some_0.bytes() == filled(bytes@)
                    },
                    Event::Read(i, ReadOutcome::WouldBlock) => a == Action::Idle && q == p,
                    Event::Read(i, ReadOutcome::Failed) => if p.occupied(i as int) {
                        &&& a == (Action::Teardown { slot: i, fd: p.slots[i as int]->Some_0.fd_spec() })
                        &&& q == p.removed(i as int)
                    } else {
                        a == Action::Idle && q == p
                    },
                }
            }),
    {
        let ghost reg0 = old(self).registrations();
        match event {
            Event::Ready(token) => {
                match Tag::from_token(token) {
                    Some(Tag::Listener) => Action::Accept,
                    Some(Tag::Connection(i)) => match self.pool.conn(i) {
                        Some(c) => Action::Read { slot: i, fd: c.fd() },
                        None => Action::Idle,
                    },
                    None => Action::Idle,
                }
            },
            Event::Accept(AcceptOutcome::Accepted(fd)) => {
                let conn = ConnectionContext::new(fd);
                match self.pool.add(conn) {
                    Ok(i) => {
                        let a = Action::Register { fd, tag: Tag::Connection(i) };
                        proof {
                            assert(self.registrations() =~= a.effect(reg0));
                        }
                        a
                    },
                    Err(_) => Action::Reject { fd },
                }
            },
            Event::Accept(_) => Action::Idle,
            Event::Read(i, ReadOutcome::Received(bytes)) => {
                if bytes.len() == 0 {
                    self.teardown(i)
                } else {
                    match self.pool.read(i, bytes.as_slice()) {
                        Ok(_) => {
                            proof {
                                assert(self.registrations() =~= reg0);
                            }
                            Action::Deliver { slot: i, bytes }
                        },
                        Err(_) => Action::Idle,
                    }
                }
            },
            Event::Read(_, ReadOutcome::WouldBlock) => Action::Idle,
            Event::Read(i, ReadOutcome::Failed) => self.teardown(i),
        }
    }

    /// Empties slot `i` if it is occupied and asks for its descriptor to be
    /// torn down; otherwise asks for nothing.
    fn teardown(&mut self, i: usize) -> (a: Action)
        requires
            old(self).wf(),
        ensures
            final(self).wf(),
            final(self).listener_spec() == old(self).listener_spec(),
            final(self).registrations() == a.effect(old(self).registrations()),
            old(self).pool_spec().occupied(i as int) ==> {
                &&& a == (Action::Teardown { slot: i, fd: old(self).pool_spec().slots[i as int]->Some_0.fd_spec() })
                &&& final(self).pool_spec() == old(self).pool_spec().removed(i as int)
            },
            !old(self).pool_spec().occupied(i as int) ==> {
                &&& a == Action::Idle
                &&& final(self).pool_spec() == old(self).pool_spec()
            },
    {
        let ghost reg0 = old(self).registrations();
        if i >= N {
            return Action::Idle;
        }
        match self.pool.remove(i) {
            Some(c) => {
                let a = Action::Teardown { slot: i, fd: c.fd() };
                proof {
                    assert(self.registrations() =~= a.effect(reg0));
                }
                a
            },
            None => Action::Idle,
        }
    }
}

/// While a dispatcher is well formed, the registrations that its actions
/// have built up match its pool: every occupied slot's descriptor is
/// registered under that slot's tag, no empty slot has a registration, and
/// the listener is registered under its own tag.
pub proof fn lemma_registrations_match_slots<const N: usize>(d: Dispatcher<N>)
    requires
        d.wf(),
    ensures
        d.registrations().contains_key(Tag::Listener),
        d.registrations()[Tag::Listener] == d.listener_spec(),
        forall|i: usize|
            #![trigger d.registrations().contains_key(Tag::Connection(i))]
            (i as int) < d.pool_spec().slots.len() ==> (d.registrations().contains_key(
                Tag::Connection(i),
            ) <==> d.pool_spec().occupied(i as int)),
        forall|i: usize|
            #![trigger d.registrations()[Tag::Connection(i)]]
            d.pool_spec().occupied(i as int) ==> d.registrations()[Tag::Connection(i)]
                == d.pool_spec().slots[i as int]->Some_0.fd_spec(),
        forall|t: Tag| #[trigger] d.registrations().contains_key(t) ==> t.valid(),
{
}

} // verus!
