//! A single-owner storage slot that can be overwritten in place.

use vstd::prelude::*;

verus! {

/// The mutable cell the other primitives build on: the shared pointer keeps
/// its reference count in one, the borrow cell its borrow tag.
///
/// The cell owns its value outright and never hands out a reference to the
/// interior, so replacing the value can never invalidate an outstanding
/// borrow. Mutation requires the one exclusive handle to the cell itself,
/// which rules out two execution contexts racing on the slot by construction.
pub struct Cell<T> {
    value: T,
}

impl<T> View for Cell<T> {
    type V = T;

    closed spec fn view(&self) -> T {
        self.value
    }
}

impl<T> Cell<T> {
    /// Wraps an initial value.
    pub fn new(value: T) -> (cell: Self)
        ensures
            cell@ == value,
    {
        Cell { value }
    }

    /// Replaces the stored value. Always succeeds; the previous value is
    /// discarded.
    pub fn set(&mut self, value: T)
        ensures
            final(self)@ == value,
    {
        self.value = value;
    }
}

impl<T: Copy> Cell<T> {
    /// Returns a copy of the stored value; the slot is left unchanged.
    pub fn get(&self) -> (value: T)
        ensures
            value == self@,
    {
        self.value
    }
}

} // verus!
