//! A non-atomic reference-counted shared pointer.

use crate::cell::Cell;
use vstd::prelude::*;

verus! {

/// The control block of a reference-counted value: the value itself beside
/// the count of live handles, the count kept in a [`Cell`].
///
/// One `Rc` value stands for the block together with the handles on it.
/// `clone_handle` registers one more live handle; `drop_handle` destroys one
/// and consumes the block precisely when the last handle goes, so the block
/// is given up exactly once, and only after the last handle is dropped.
/// The count lives in a `Cell`, not behind any synchronization: the block is
/// meant for a single execution context, and exclusive access to it is what
/// `clone_handle` and `drop_handle` demand.
pub struct Rc<T> {
    value: T,
    refcount: Cell<usize>,
}

/// One event in the life of a control block: a handle was cloned from a live
/// one, or a live handle was dropped.
#[derive(Clone, Copy, PartialEq, Eq, Structural)]
pub enum HandleOp {
    Cloned,
    Dropped,
}

/// How one handle event moves the reference count.
pub open spec fn count_step(count: int, op: HandleOp) -> int {
    if op is Cloned {
        count + 1
    } else {
        count - 1
    }
}

/// The reference count after a history of handle events, starting from the
/// single handle that allocation returns.
pub open spec fn count_after(ops: Seq<HandleOp>) -> int
    decreases ops.len(),
{
    if ops.len() == 0 {
        1
    } else {
        count_step(count_after(ops.drop_last()), ops.last())
    }
}

/// A history is admissible when every event happens while the block is still
/// alive, that is, while at least one handle is live at that moment.
pub open spec fn live_history(ops: Seq<HandleOp>) -> bool {
    forall|i: int| 0 <= i < ops.len() ==> count_after(#[trigger] ops.take(i)) >= 1
}

/// How many of the events in a history are clones.
pub open spec fn cloned_events(ops: Seq<HandleOp>) -> int
    decreases ops.len(),
{
    if ops.len() == 0 {
        0
    } else {
        cloned_events(ops.drop_last()) + if ops.last() is Cloned {
            1int
        } else {
            0int
        }
    }
}

/// How many of the events in a history are drops.
pub open spec fn dropped_events(ops: Seq<HandleOp>) -> int
    decreases ops.len(),
{
    if ops.len() == 0 {
        0
    } else {
        dropped_events(ops.drop_last()) + if ops.last() is Dropped {
            1int
        } else {
            0int
        }
    }
}

/// The reference count always equals the number of live handles: the one
/// handle allocation returned, plus a handle per clone, less a handle per
/// drop.
pub proof fn lemma_count_is_live_handles(ops: Seq<HandleOp>)
    ensures
        count_after(ops) == 1 + cloned_events(ops) - dropped_events(ops),
    decreases ops.len(),
{
    if ops.len() > 0 {
        lemma_count_is_live_handles(ops.drop_last());
    }
}

/// For every admissible history of clones and drops, the count never goes
/// negative, and it reaches zero at most once: only as the very last event,
/// which is then a drop. The control block is therefore deallocated exactly
/// once, and only when the last handle is dropped.
pub proof fn lemma_block_freed_once(ops: Seq<HandleOp>)
    requires
        live_history(ops),
    ensures
        count_after(ops) >= 0,
        count_after(ops) == 0 ==> ops.len() > 0 && ops.last() is Dropped,
        forall|i: int|
            0 <= i <= ops.len() && count_after(#[trigger] ops.take(i)) == 0 ==> i == ops.len(),
{
    if ops.len() > 0 {
        let prefix = ops.take(ops.len() - 1);
        assert(prefix =~= ops.drop_last());
        assert(count_after(prefix) >= 1);
    }
    assert forall|i: int|
        0 <= i <= ops.len() && count_after(#[trigger] ops.take(i)) == 0 implies i == ops.len() by {
        if i < ops.len() {
            assert(count_after(ops.take(i)) >= 1);
        }
    }
}

impl<T> View for Rc<T> {
    type V = T;

    closed spec fn view(&self) -> T {
        self.value
    }
}

impl<T> Rc<T> {
    /// The count of live handles recorded in the control block.
    pub closed spec fn ref_count(&self) -> usize {
        self.refcount@
    }

    /// A block is well formed while at least one handle is live; a block
    /// whose count has reached zero no longer exists.
    pub open spec fn wf(&self) -> bool {
        self.ref_count() >= 1
    }

    /// Allocates a control block holding `value`, with a single live handle.
    pub fn new(value: T) -> (rc: Self)
        ensures
            rc@ == value,
            rc.ref_count() == 1,
            rc.wf(),
    {
        Rc { value, refcount: Cell::new(1) }
    }

    /// Registers one more live handle on the block: the count goes up by
    /// one, the value is untouched. The value itself is never duplicated; a
    /// new handle merely shares it.
    pub fn clone_handle(&mut self)
        requires
            old(self).wf(),
            old(self).ref_count() < usize::MAX,
        ensures
            final(self).ref_count() as int == count_step(
                old(self).ref_count() as int,
                HandleOp::Cloned,
            ),
            final(self)@ == old(self)@,
            final(self).wf(),
    {
        let count = self.refcount.get();
        self.refcount.set(count + 1);
    }

    /// The count of live handles, as an observer sees it now.
    pub fn count(&self) -> (count: usize)
        ensures
            count == self.ref_count(),
    {
        self.refcount.get()
    }

    /// Read access to the shared value, good while any handle is live.
    pub fn value(&self) -> (value: &T)
        ensures
            *value == self@,
    {
        &self.value
    }

    /// Drops one live handle. While other handles remain, the count goes
    /// down by one and the block survives; when the dropped handle was the
    /// last, the block is consumed — deallocated together with the value —
    /// and nothing is returned. The choice is read off the count before the
    /// drop, so the block is freed exactly at the drop that saw count one.
    pub fn drop_handle(self) -> (remainder: Option<Self>)
        requires
            self.wf(),
        ensures
            remainder is None <==> self.ref_count() == 1,
            remainder matches Some(rc) ==> rc.ref_count() as int == count_step(
                self.ref_count() as int,
                HandleOp::Dropped,
            ) && rc@ == self@ && rc.wf(),
    {
        let mut this = self;
        let count = this.refcount.get();
        if count == 1 {
            None
        } else {
            this.refcount.set(count - 1);
            Some(this)
        }
    }
}

} // verus!
