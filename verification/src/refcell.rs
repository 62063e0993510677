//! A runtime-checked shared/exclusive borrow cell.

use crate::cell::Cell;
use vstd::prelude::*;

verus! {

/// The borrow tag of a cell: no lease out, `n >= 1` shared leases out, or
/// the one exclusive lease out.
#[derive(Clone, Copy, Debug, PartialEq, Eq, Structural)]
pub enum RefState {
    Unshared,
    Shared(usize),
    Exclusive,
}

/// One event at the cell's boundary: a lease was requested, or a granted
/// lease was given back.
#[derive(Clone, Copy, PartialEq, Eq, Structural)]
pub enum BorrowOp {
    AcquireShared,
    AcquireExclusive,
    ReleaseShared,
    ReleaseExclusive,
}

/// Whether the cell grants a request in a given state: a shared lease is
/// granted unless the exclusive lease is out; the exclusive lease only when
/// no lease at all is out. Releases are not requests and grant nothing.
pub open spec fn grants(state: RefState, op: BorrowOp) -> bool {
    match op {
        BorrowOp::AcquireShared => !(state is Exclusive),
        BorrowOp::AcquireExclusive => state is Unshared,
        BorrowOp::ReleaseShared => false,
        BorrowOp::ReleaseExclusive => false,
    }
}

/// How one event moves the borrow tag. A denied request leaves the tag
/// unchanged; a release undoes one grant.
pub open spec fn borrow_step(state: RefState, op: BorrowOp) -> RefState {
    match op {
        BorrowOp::AcquireShared => match state {
            RefState::Unshared => RefState::Shared(1),
            RefState::Shared(n) => RefState::Shared((n + 1) as usize),
            RefState::Exclusive => RefState::Exclusive,
        },
        BorrowOp::AcquireExclusive => match state {
            RefState::Unshared => RefState::Exclusive,
            _ => state,
        },
        BorrowOp::ReleaseShared => match state {
            RefState::Shared(n) => if n == 1 {
                RefState::Unshared
            } else {
                RefState::Shared((n - 1) as usize)
            },
            _ => state,
        },
        BorrowOp::ReleaseExclusive => match state {
            RefState::Exclusive => RefState::Unshared,
            _ => state,
        },
    }
}

/// The borrow tag after a history of events, starting from a fresh cell.
pub open spec fn state_after(ops: Seq<BorrowOp>) -> RefState
    decreases ops.len(),
{
    if ops.len() == 0 {
        RefState::Unshared
    } else {
        borrow_step(state_after(ops.drop_last()), ops.last())
    }
}

/// The shared leases a tag records.
pub open spec fn shared_leases(state: RefState) -> int {
    match state {
        RefState::Shared(n) => n as int,
        _ => 0,
    }
}

/// The exclusive leases a tag records: one or none.
pub open spec fn exclusive_leases(state: RefState) -> int {
    if state is Exclusive {
        1
    } else {
        0
    }
}

/// Whether one event is within the API in a given state: a release must give
/// back a lease that is actually out, and a shared request must not outgrow
/// the machine's count.
pub open spec fn event_allowed(state: RefState, op: BorrowOp) -> bool {
    match op {
        BorrowOp::AcquireShared => shared_leases(state) < usize::MAX,
        BorrowOp::AcquireExclusive => true,
        BorrowOp::ReleaseShared => state is Shared,
        BorrowOp::ReleaseExclusive => state is Exclusive,
    }
}

/// A history respects the API when every event is within it at its moment.
pub open spec fn respects_api(ops: Seq<BorrowOp>) -> bool {
    forall|i: int|
        0 <= i < ops.len() ==> event_allowed(state_after(#[trigger] ops.take(i)), ops[i])
}

/// Shared leases handed out and not yet given back, counted off the history
/// alone: a granted shared request adds one, a shared release takes one away.
pub open spec fn live_shared(ops: Seq<BorrowOp>) -> int
    decreases ops.len(),
{
    if ops.len() == 0 {
        0
    } else {
        let prev = live_shared(ops.drop_last());
        match ops.last() {
            BorrowOp::AcquireShared => if grants(
                state_after(ops.drop_last()),
                BorrowOp::AcquireShared,
            ) {
                prev + 1
            } else {
                prev
            },
            BorrowOp::ReleaseShared => prev - 1,
            _ => prev,
        }
    }
}

/// Exclusive leases handed out and not yet given back, counted off the
/// history alone.
pub open spec fn live_exclusive(ops: Seq<BorrowOp>) -> int
    decreases ops.len(),
{
    if ops.len() == 0 {
        0
    } else {
        let prev = live_exclusive(ops.drop_last());
        match ops.last() {
            BorrowOp::AcquireExclusive => if grants(
                state_after(ops.drop_last()),
                BorrowOp::AcquireExclusive,
            ) {
                prev + 1
            } else {
                prev
            },
            BorrowOp::ReleaseExclusive => prev - 1,
            _ => prev,
        }
    }
}

proof fn lemma_respects_api_prefix(ops: Seq<BorrowOp>, n: int)
    requires
        respects_api(ops),
        0 <= n <= ops.len(),
    ensures
        respects_api(ops.take(n)),
{
    let p = ops.take(n);
    assert forall|i: int|
        0 <= i < p.len() implies event_allowed(state_after(#[trigger] p.take(i)), p[i]) by {
        assert(p.take(i) =~= ops.take(i));
        assert(p[i] == ops[i]);
    }
}

/// The borrow tag tracks the live leases exactly: after any history that
/// respects the API, the shared count in the tag equals the shared leases
/// out, the tag is `Exclusive` exactly while the one exclusive lease is out,
/// and a `Shared` tag never records a zero count.
pub proof fn lemma_tag_counts_leases(ops: Seq<BorrowOp>)
    requires
        respects_api(ops),
    ensures
        shared_leases(state_after(ops)) == live_shared(ops),
        exclusive_leases(state_after(ops)) == live_exclusive(ops),
        state_after(ops) matches RefState::Shared(n) ==> n >= 1,
    decreases ops.len(),
{
    if ops.len() > 0 {
        let prefix = ops.drop_last();
        assert(prefix =~= ops.take(ops.len() - 1));
        lemma_respects_api_prefix(ops, ops.len() - 1);
        lemma_tag_counts_leases(prefix);
        assert(event_allowed(state_after(ops.take(ops.len() - 1)), ops[ops.len() - 1]));
    }
}

/// Law of the borrow discipline: an exclusive lease never coexists with a
/// shared lease. After every prefix of a history that respects the API,
/// either no exclusive lease is out or no shared lease is out; lease counts
/// never go negative, and at most one exclusive lease is ever out.
pub proof fn lemma_exclusive_never_with_shared(ops: Seq<BorrowOp>)
    requires
        respects_api(ops),
    ensures
        forall|i: int|
            0 <= i <= ops.len() ==> !(live_shared(#[trigger] ops.take(i)) > 0 && live_exclusive(
                ops.take(i),
            ) > 0),
        forall|i: int|
            0 <= i <= ops.len() ==> 0 <= live_shared(#[trigger] ops.take(i)) && 0 <= live_exclusive(
                ops.take(i),
            ) <= 1,
{
    assert forall|i: int| 0 <= i <= ops.len() implies !(live_shared(#[trigger] ops.take(i)) > 0
        && live_exclusive(ops.take(i)) > 0) && 0 <= live_shared(ops.take(i)) && 0 <= live_exclusive(
        ops.take(i),
    ) <= 1 by {
        lemma_respects_api_prefix(ops, i);
        lemma_tag_counts_leases(ops.take(i));
    }
}

/// Round trip of shared borrowing: a history of shared requests and shared
/// releases alone never reaches the exclusive tag, and the tag is back to
/// `Unshared` exactly when the last outstanding shared lease has been given
/// back, whatever order the leases were taken and returned in.
pub proof fn lemma_shared_round_trip(ops: Seq<BorrowOp>)
    requires
        respects_api(ops),
        forall|i: int|
            0 <= i < ops.len() ==> #[trigger] ops[i] is AcquireShared || ops[i] is ReleaseShared,
    ensures
        !(state_after(ops) is Exclusive),
        state_after(ops) is Unshared <==> live_shared(ops) == 0,
        live_shared(ops) > 0 ==> state_after(ops) == RefState::Shared(live_shared(ops) as usize),
    decreases ops.len(),
{
    if ops.len() > 0 {
        let prefix = ops.drop_last();
        assert(prefix =~= ops.take(ops.len() - 1));
        lemma_respects_api_prefix(ops, ops.len() - 1);
        assert forall|i: int|
            0 <= i < prefix.len() implies #[trigger] prefix[i] is AcquireShared || prefix[i]
            is ReleaseShared by {
            assert(prefix[i] == ops[i]);
        }
        lemma_shared_round_trip(prefix);
        assert(ops[ops.len() - 1] == ops.last());
        assert(event_allowed(state_after(ops.take(ops.len() - 1)), ops[ops.len() - 1]));
    }
    lemma_tag_counts_leases(ops);
}

/// One value beside a borrow tag kept in a [`Cell`]: leases on the value are
/// granted and given back at run time, under the discipline the tag records.
///
/// A granted lease is a token, [`Ref`] or [`RefMut`]; reading goes through a
/// live token, and giving the token back moves the tag the other way. The
/// tag lives in a `Cell`, not behind any synchronization: the cell is meant
/// for a single execution context, and exclusive access to the cell itself
/// is what the tag updates demand.
pub struct RefCell<T> {
    value: T,
    state: Cell<RefState>,
}

/// A shared lease on a [`RefCell`]'s value. Give it back with
/// [`RefCell::release`]; any number may be out at once.
pub struct Ref {
    _lease: (),
}

/// The exclusive lease on a [`RefCell`]'s value. Give it back with
/// [`RefCell::release_mut`]; at most one is ever out, and never beside a
/// shared lease.
pub struct RefMut {
    _lease: (),
}

impl<T> View for RefCell<T> {
    type V = T;

    closed spec fn view(&self) -> T {
        self.value
    }
}

impl<T> RefCell<T> {
    /// The borrow tag as the cell records it.
    pub closed spec fn borrow_state(&self) -> RefState {
        self.state@
    }

    /// A cell is well formed while a `Shared` tag records at least one
    /// lease; the tag `Shared(0)` means nothing and never arises.
    pub open spec fn wf(&self) -> bool {
        self.borrow_state() matches RefState::Shared(n) ==> n >= 1
    }

    /// Wraps a value; no lease is out on a fresh cell.
    pub fn new(value: T) -> (cell: Self)
        ensures
            cell@ == value,
            cell.borrow_state() == RefState::Unshared,
            cell.wf(),
    {
        RefCell { value, state: Cell::new(RefState::Unshared) }
    }

    /// The borrow tag, as an observer sees it now.
    pub fn state(&self) -> (state: RefState)
        ensures
            state == self.borrow_state(),
    {
        self.state.get()
    }

    /// Requests a shared lease. Granted — never blocking — unless the
    /// exclusive lease is out, in which case the request is denied and the
    /// cell is left as it was. The value is untouched either way.
    pub fn borrow(&mut self) -> (lease: Option<Ref>)
        requires
            old(self).wf(),
            shared_leases(old(self).borrow_state()) < usize::MAX,
        ensures
            final(self)@ == old(self)@,
            final(self).borrow_state() == borrow_step(
                old(self).borrow_state(),
                BorrowOp::AcquireShared,
            ),
            lease is Some <==> grants(old(self).borrow_state(), BorrowOp::AcquireShared),
            final(self).wf(),
    {
        match self.state.get() {
            RefState::Unshared => {
                self.state.set(RefState::Shared(1));
                Some(Ref { _lease: () })
            },
            RefState::Shared(n) => {
                self.state.set(RefState::Shared(n + 1));
                Some(Ref { _lease: () })
            },
            RefState::Exclusive => None,
        }
    }

    /// Requests the exclusive lease. Granted — never blocking — only while
    /// no lease at all is out; otherwise the request is denied and the cell
    /// is left as it was. The value is untouched either way.
    pub fn borrow_mut(&mut self) -> (lease: Option<RefMut>)
        requires
            old(self).wf(),
        ensures
            final(self)@ == old(self)@,
            final(self).borrow_state() == borrow_step(
                old(self).borrow_state(),
                BorrowOp::AcquireExclusive,
            ),
            lease is Some <==> grants(old(self).borrow_state(), BorrowOp::AcquireExclusive),
            final(self).wf(),
    {
        match self.state.get() {
            RefState::Unshared => {
                self.state.set(RefState::Exclusive);
                Some(RefMut { _lease: () })
            },
            _ => None,
        }
    }

    /// Read access through a shared lease, good for as long as the lease is
    /// held.
    pub fn read(&self, lease: &Ref) -> (value: &T)
        requires
            self.borrow_state() is Shared,
        ensures
            *value == self@,
    {
        &self.value
    }

    /// Read access through the exclusive lease.
    pub fn read_mut(&self, lease: &RefMut) -> (value: &T)
        requires
            self.borrow_state() is Exclusive,
        ensures
            *value == self@,
    {
        &self.value
    }

    /// Write access through the exclusive lease: replaces the value and
    /// leaves the borrow tag as it was. No other lease is out, so no reader
    /// can observe the value mid-change.
    pub fn write(&mut self, lease: &RefMut, value: T)
        requires
            old(self).borrow_state() is Exclusive,
        ensures
            final(self)@ == value,
            final(self).borrow_state() == old(self).borrow_state(),
    {
        self.value = value;
    }

    /// Gives a shared lease back: the tag records one shared lease fewer,
    /// and is back to `Unshared` when this was the last one out.
    pub fn release(&mut self, lease: Ref)
        requires
            old(self).wf(),
            old(self).borrow_state() is Shared,
        ensures
            final(self)@ == old(self)@,
            final(self).borrow_state() == borrow_step(
                old(self).borrow_state(),
                BorrowOp::ReleaseShared,
            ),
            final(self).wf(),
    {
        match self.state.get() {
            RefState::Shared(n) => {
                if n == 1 {
                    self.state.set(RefState::Unshared);
                } else {
                    self.state.set(RefState::Shared(n - 1));
                }
            },
            _ => {
                proof {
                    assert(false);
                }
            },
        }
    }

    /// Gives the exclusive lease back: the tag is back to `Unshared`.
    pub fn release_mut(&mut self, lease: RefMut)
        requires
            old(self).wf(),
            old(self).borrow_state() is Exclusive,
        ensures
            final(self)@ == old(self)@,
            final(self).borrow_state() == borrow_step(
                old(self).borrow_state(),
                BorrowOp::ReleaseExclusive,
            ),
            final(self).wf(),
    {
        self.state.set(RefState::Unshared);
    }
}

} // verus!
