use vstd::prelude::*;
use std::collections::VecDeque;
use crate::connection::{ConnectionContext, BUFFSIZE, filled};

verus! {

/// Why a pool operation was refused.
#[derive(Clone, Copy, Debug, PartialEq, Eq, Structural)]
pub enum PoolError {
    /// Every slot is occupied.
    Exhausted,
    /// The slot named holds no connection (or lies outside the pool).
    NotOccupied,
}

/// The abstract state of a pool: what each slot holds, and the queue of
/// empty slot indices in the order in which they will be handed out.
pub struct PoolModel {
    pub slots: Seq<Option<ConnectionContext>>,
    pub free: Seq<usize>,
}

impl PoolModel {
    pub open spec fn occupied(self, i: int) -> bool {
        0 <= i < self.slots.len() && self.slots[i] is Some
    }

    /// The indices of the occupied slots.
    pub open spec fn occupied_set(self) -> Set<int> {
        Set::new(|i: int| self.occupied(i))
    }

    /// The free list holds exactly the empty slots, each once.
    pub open spec fn wf(self) -> bool {
        &&& self.free.no_duplicates()
        &&& forall|k: int|
            0 <= k < self.free.len() ==> {
                &&& (#[trigger] self.free[k] as int) < self.slots.len()
                &&& !self.occupied(self.free[k] as int)
            }
        &&& forall|i: int|
            0 <= i < self.slots.len() && !#[trigger] self.occupied(i) ==> self.free.contains(
                i as usize,
            )
    }

    /// A pool of `n` empty slots, handed out in increasing order.
    pub open spec fn empty(n: nat) -> PoolModel {
        PoolModel {
            slots: Seq::new(n, |i: int| None),
            free: Seq::new(n, |i: int| i as usize),
        }
    }

    /// The slot that the next `add` takes, if any.
    pub open spec fn next_slot(self) -> Option<usize> {
        if self.free.len() == 0 {
            None
        } else {
            Some(self.free[0])
        }
    }

    /// The state after `add(c)`: unchanged when the pool is full.
    pub open spec fn added(self, c: ConnectionContext) -> PoolModel {
        if self.free.len() == 0 {
            self
        } else {
            PoolModel {
                slots: self.slots.update(self.free[0] as int, Some(c)),
                free: self.free.drop_first(),
            }
        }
    }

    /// The state after `remove(i)`: unchanged when slot `i` is empty.
    pub open spec fn removed(self, i: int) -> PoolModel {
        if self.occupied(i) {
            PoolModel { slots: self.slots.update(i, None), free: self.free.push(i as usize) }
        } else {
            self
        }
    }

    pub proof fn lemma_empty_wf(n: nat)
        requires
            n <= usize::MAX,
        ensures
            Self::empty(n).wf(),
    {
        let m = Self::empty(n);
        assert forall|i: int| 0 <= i < m.slots.len() && !#[trigger] m.occupied(i) implies m.free.contains(
            i as usize,
        ) by {
            assert(m.free[i] == i as usize);
        }
    }

    pub proof fn lemma_added_wf(self, c: ConnectionContext)
        requires
            self.wf(),
            self.slots.len() <= usize::MAX,
        ensures
            self.added(c).wf(),
            self.added(c).slots.len() == self.slots.len(),
    {
        if self.free.len() > 0 {
            let m = self.added(c);
            let f = self.free[0];
            assert forall|k: int| 0 <= k < m.free.len() implies {
                &&& (#[trigger] m.free[k] as int) < m.slots.len()
                &&& !m.occupied(m.free[k] as int)
            } by {
                assert(m.free[k] == self.free[k + 1]);
                assert(self.free[k + 1] != self.free[0]);
            }
            assert forall|i: int| 0 <= i < m.slots.len() && !#[trigger] m.occupied(i) implies m.free.contains(
                i as usize,
            ) by {
                assert(!self.occupied(i));
                assert(self.free.contains(i as usize));
                let k = choose|k: int| 0 <= k < self.free.len() && self.free[k] == i as usize;
                assert(k != 0);
                assert(m.free[k - 1] == i as usize);
            }
        }
    }

    pub proof fn lemma_removed_wf(self, i: int)
        requires
            self.wf(),
            0 <= i < self.slots.len(),
            self.slots.len() <= usize::MAX,
        ensures
            self.removed(i).wf(),
            self.removed(i).slots.len() == self.slots.len(),
    {
        if self.occupied(i) {
            let m = self.removed(i);
            assert(!self.free.contains(i as usize));
            assert forall|j: int| 0 <= j < m.slots.len() && !#[trigger] m.occupied(j) implies m.free.contains(
                j as usize,
            ) by {
                if j == i {
                    assert(m.free[m.free.len() - 1] == i as usize);
                } else {
                    assert(!self.occupied(j));
                    assert(self.free.contains(j as usize));
                    let k = choose|k: int| 0 <= k < self.free.len() && self.free[k] == j as usize;
                    assert(m.free[k] == j as usize);
                }
            }
        }
    }
}

/// The occupied slots and the free list together account for every slot,
/// each exactly once: the number of occupied slots plus the length of the
/// free list is the pool's capacity, and no free-list entry is occupied.
pub proof fn lemma_slot_accounting(m: PoolModel)
    requires
        m.wf(),
        m.slots.len() <= usize::MAX,
    ensures
        m.occupied_set().finite(),
        m.occupied_set().len() + m.free.len() == m.slots.len(),
        m.free.no_duplicates(),
        forall|k: int| 0 <= k < m.free.len() ==> !m.occupied(#[trigger] m.free[k] as int),
{
    let n = m.slots.len() as int;
    let free_ints = Seq::new(m.free.len(), |k: int| m.free[k] as int);
    let empties = Set::new(|i: int| 0 <= i < n && !m.occupied(i));
    assert(free_ints.no_duplicates()) by {
        assert forall|a: int, b: int|
            0 <= a < free_ints.len() && 0 <= b < free_ints.len() && a != b implies free_ints[a]
            != free_ints[b] by {
            assert(m.free[a] != m.free[b]);
        }
    }
    free_ints.unique_seq_to_set();
    assert(free_ints.to_set() =~= empties) by {
        assert forall|i: int| empties.contains(i) implies free_ints.to_set().contains(i) by {
            assert(m.free.contains(i as usize));
            let k = choose|k: int| 0 <= k < m.free.len() && m.free[k] == i as usize;
            assert(free_ints[k] == i);
        }
        assert forall|i: int| free_ints.to_set().contains(i) implies empties.contains(i) by {
            let k = choose|k: int| 0 <= k < free_ints.len() && free_ints[k] == i;
            assert(m.free[k] as int == i);
        }
    }
    let range = vstd::set_lib::set_int_range(0, n);
    vstd::set_lib::lemma_int_range(0, n);
    assert(m.occupied_set() + empties =~= range);
    vstd::set_lib::lemma_len_subset(m.occupied_set(), range);
    vstd::set_lib::lemma_len_subset(empties, range);
    assert(m.occupied_set().disjoint(empties));
    vstd::set_lib::lemma_set_disjoint_lens(m.occupied_set(), empties);
}

/// Removing the same slot a second time changes nothing.
pub proof fn lemma_remove_idempotent(m: PoolModel, i: int)
    ensures
        m.removed(i).removed(i) == m.removed(i),
{
}

/// An `add` directly followed by the `remove` of the slot it returned gives
/// back every slot as it was, and a free list with the same members: the
/// slot handed out moves from the front of the queue to its back.
pub proof fn lemma_add_then_remove(m: PoolModel, c: ConnectionContext)
    requires
        m.wf(),
        m.next_slot() is Some,
    ensures
        m.added(c).removed(m.next_slot()->Some_0 as int).slots == m.slots,
        m.added(c).removed(m.next_slot()->Some_0 as int).free == m.free.drop_first().push(
            m.free[0],
        ),
        m.added(c).removed(m.next_slot()->Some_0 as int).free.to_set() == m.free.to_set(),
{
    let i = m.free[0];
    let r = m.added(c).removed(i as int);
    assert(r.slots =~= m.slots);
    assert(r.free.to_set() =~= m.free.to_set()) by {
        assert forall|x: usize| m.free.to_set().contains(x) implies r.free.to_set().contains(x) by {
            let k = choose|k: int| 0 <= k < m.free.len() && m.free[k] == x;
            if k == 0 {
                assert(r.free[r.free.len() - 1] == x);
            } else {
                assert(r.free[k - 1] == x);
            }
        }
        assert forall|x: usize| r.free.to_set().contains(x) implies m.free.to_set().contains(x) by {
            let k = choose|k: int| 0 <= k < r.free.len() && r.free[k] == x;
            if k == r.free.len() - 1 {
                assert(m.free[0] == x);
            } else {
                assert(m.free[k + 1] == x);
            }
        }
    }
}

impl PoolModel {
    /// The state after adding each connection of `cs`, first to last.
    pub open spec fn added_all(self, cs: Seq<ConnectionContext>) -> PoolModel
        decreases cs.len(),
    {
        if cs.len() == 0 {
            self
        } else {
            self.added_all(cs.drop_last()).added(cs.last())
        }
    }
}

proof fn lemma_fill_prefix(n: nat, cs: Seq<ConnectionContext>)
    requires
        cs.len() <= n,
        n <= usize::MAX,
    ensures
        PoolModel::empty(n).added_all(cs).slots == Seq::new(
            n,
            |j: int|
                if j < cs.len() {
                    Some(cs[j])
                } else {
                    None
                },
        ),
        PoolModel::empty(n).added_all(cs).free == Seq::new(
            (n - cs.len()) as nat,
            |j: int| (cs.len() + j) as usize,
        ),
    decreases cs.len(),
{
    if cs.len() > 0 {
        lemma_fill_prefix(n, cs.drop_last());
        let prev = PoolModel::empty(n).added_all(cs.drop_last());
        assert(prev.free.len() > 0);
        assert(prev.free[0] == (cs.len() - 1) as usize);
        let m = PoolModel::empty(n).added_all(cs);
        assert(m == prev.added(cs.last()));
        assert(m.slots =~= Seq::new(
            n,
            |j: int|
                if j < cs.len() {
                    Some(cs[j])
                } else {
                    None
                },
        ));
        assert(m.free =~= Seq::new((n - cs.len()) as nat, |j: int| (cs.len() + j) as usize));
    } else {
        assert(PoolModel::empty(n).added_all(cs).slots =~= Seq::new(
            n,
            |j: int|
                if j < cs.len() {
                    Some(cs[j])
                } else {
                    None
                },
        ));
        assert(PoolModel::empty(n).added_all(cs).free =~= Seq::new(
            (n - cs.len()) as nat,
            |j: int| (cs.len() + j) as usize,
        ));
    }
}

/// Starting from an empty pool of `n` slots, `n` additions in a row succeed,
/// taking the slots in increasing order; the next addition is refused and
/// leaves the pool unchanged.
pub proof fn lemma_capacity_boundary(n: nat, cs: Seq<ConnectionContext>, c: ConnectionContext)
    requires
        cs.len() == n,
        n <= usize::MAX,
    ensures
        forall|k: int|
            0 <= k < n ==> #[trigger] PoolModel::empty(n).added_all(cs.take(k)).next_slot() == Some(
                k as usize,
            ),
        PoolModel::empty(n).added_all(cs).next_slot() is None,
        PoolModel::empty(n).added_all(cs).added(c) == PoolModel::empty(n).added_all(cs),
{
    assert forall|k: int|
        0 <= k < n implies #[trigger] PoolModel::empty(n).added_all(cs.take(k)).next_slot() == Some(
        k as usize,
    ) by {
        lemma_fill_prefix(n, cs.take(k));
    }
    lemma_fill_prefix(n, cs);
}

/// A fixed number `N` of connection slots with a queue of the empty ones.
/// Each occupied slot's index is the tag under which its descriptor is
/// registered with the multiplexer.
pub struct ConnectionSet<const N: usize> {
    conns: Vec<Option<ConnectionContext>>,
    free_conns: VecDeque<usize>,
}

impl<const N: usize> View for ConnectionSet<N> {
    type V = PoolModel;

    closed spec fn view(&self) -> PoolModel {
        PoolModel { slots: self.conns@, free: self.free_conns@ }
    }
}

impl<const N: usize> ConnectionSet<N> {
    pub open spec fn wf(&self) -> bool {
        &&& self@.wf()
        &&& self@.slots.len() == N
    }

    /// A pool whose `N` slots are all empty, the free list holding every
    /// index in increasing order.
    pub fn new() -> (r: Self)
        ensures
            r.wf(),
            r@ == PoolModel::empty(N as nat),
    {
        let mut conns: Vec<Option<ConnectionContext>> = Vec::with_capacity(N);
        let mut free_conns: VecDeque<usize> = VecDeque::with_capacity(N);
        let mut i: usize = 0;
        while i < N
            invariant
                i <= N,
                conns@ =~= Seq::new(i as nat, |k: int| None::<ConnectionContext>),
                free_conns@ =~= Seq::new(i as nat, |k: int| k as usize),
            decreases N - i,
        {
            conns.push(None);
            free_conns.push_back(i);
            i = i + 1;
        }
        let r = Self { conns, free_conns };
        proof {
            PoolModel::lemma_empty_wf(N as nat);
            assert(r@ =~= PoolModel::empty(N as nat));
        }
        r
    }

    /// Puts a connection into the first slot of the free list and returns
    /// that slot's index; refuses with `Exhausted`, changing nothing, when
    /// no slot is free.
    pub fn add(&mut self, conn: ConnectionContext) -> (r: Result<usize, PoolError>)
        requires
            old(self).wf(),
        ensures
            final(self).wf(),
            final(self)@ == old(self)@.added(conn),
            match old(self)@.next_slot() {
                None => r == Err::<usize, PoolError>(PoolError::Exhausted),
                Some(i) => r == Ok::<usize, PoolError>(i),
            },
    {
        proof {
            self@.lemma_added_wf(conn);
        }
        match self.free_conns.pop_front() {
            None => Err(PoolError::Exhausted),
            Some(i) => {
                self.conns[i] = Some(conn);
                proof {
                    assert(self@ =~= old(self)@.added(conn));
                }
                Ok(i)
            },
        }
    }

    /// Empties slot `i` and puts its index at the back of the free list,
    /// handing back the connection it held; does nothing when the slot is
    /// already empty.
    pub fn remove(&mut self, i: usize) -> (r: Option<ConnectionContext>)
        requires
            old(self).wf(),
            i < N,
        ensures
            final(self).wf(),
            final(self)@ == old(self)@.removed(i as int),
            r == old(self)@.slots[i as int],
    {
        proof {
            self@.lemma_removed_wf(i as int);
        }
        if self.conns[i].is_none() {
            return None;
        }
        let conn = self.conns[i].take();
        self.free_conns.push_back(i);
        proof {
            assert(self@ =~= old(self)@.removed(i as int));
        }
        conn
    }

    /// Hands the bytes of one read to the connection in slot `i`, which
    /// zeroes its buffer and stores them at its start; returns how many there
    /// were. Refuses with `NotOccupied`, changing nothing, when the slot is
    /// empty or outside the pool.
    pub fn read(&mut self, i: usize, received: &[u8]) -> (r: Result<usize, PoolError>)
        requires
            old(self).wf(),
            received@.len() <= BUFFSIZE,
        ensures
            final(self).wf(),
            final(self)@.free == old(self)@.free,
            final(self)@.slots.len() == old(self)@.slots.len(),
            forall|j: int|
                0 <= j < old(self)@.slots.len() && j != i ==> #[trigger] final(self)@.slots[j]
                    == old(self)@.slots[j],
            old(self)@.occupied(i as int) ==> {
                &&& r == Ok::<usize, PoolError>(received@.len() as usize)
                &&& final(self)@.slots[i as int] is Some
                &&& final(self)@.slots[i as int]->Some_0.fd_spec() == old(self)@.slots[i as int]->Some_0.fd_spec()
                &&& final(self)@.slots[i as int]->Some_0.bytes() == filled(received@)
            },
            !old(self)@.occupied(i as int) ==> {
                &&& r == Err::<usize, PoolError>(PoolError::NotOccupied)
                &&& final(self)@ == old(self)@
            },
    {
        if i >= self.conns.len() || self.conns[i].is_none() {
            return Err(PoolError::NotOccupied);
        }
        let mut conn = self.conns[i].take().unwrap();
        let n = conn.read(received);
        self.conns[i] = Some(conn);
        proof {
            assert(self@.free == old(self)@.free);
            assert forall|j: int| 0 <= j < self@.slots.len() && !#[trigger] self@.occupied(j) implies self@.free.contains(
                j as usize,
            ) by {
                assert(!old(self)@.occupied(j));
            }
        }
        Ok(n)
    }

    /// The connection in slot `i`, if the slot is occupied.
    pub fn conn(&self, i: usize) -> (r: Option<&ConnectionContext>)
        requires
            self.wf(),
        ensures
            match r {
                Some(c) => self@.occupied(i as int) && self@.slots[i as int] == Some(*c),
                None => !self@.occupied(i as int),
            },
    {
        if i < self.conns.len() {
            self.conns[i].as_ref()
        } else {
            None
        }
    }

    /// How many slots are free.
    pub fn free_count(&self) -> (r: usize)
        ensures
            r == self@.free.len(),
    {
        self.free_conns.len()
    }

    /// The number of slots, occupied or not.
    pub fn capacity(&self) -> (r: usize)
        requires
            self.wf(),
        ensures
            r == self@.slots.len(),
    {
        N
    }
}

} // verus!
