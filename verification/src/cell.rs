//! A storage cell that owns one value.
//!
//! The cell keeps no bookkeeping of its own. [`rc::RcInner`](crate::rc::RcInner)
//! keeps its count in one and [`refcell::RefCell`](crate::refcell::RefCell)
//! its access state. Writing takes an exclusive reference; nothing here is
//! meant to be shared between threads.

use vstd::prelude::*;

verus! {

/// A cell that owns exactly one value.
pub struct Cell<T> {
    value: T,
}

impl<T> View for Cell<T> {
    type V = T;

    /// The value that the cell holds.
    closed spec fn view(&self) -> T {
        self.value
    }
}

impl<T> Cell<T> {
    /// Creates a cell that holds `value`.
    pub fn new(value: T) -> (cell: Self)
        ensures
            cell@ == value,
    {
        Cell { value }
    }

    /// Overwrites the stored value. This cannot fail.
    pub fn set(&mut self, value: T)
        ensures
            final(self)@ == value,
    {
        self.value = value;
    }

    /// Returns a copy of the stored value, which stays in the cell.
    pub fn get(&self) -> (value: T) where T: Copy
        ensures
            value == self@,
    {
        self.value
    }
}

} // verus!
