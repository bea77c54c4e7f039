//! A one-value container that is read out by copy and overwritten wholesale,
//! never exposing a reference into its storage.

use vstd::prelude::*;

verus! {

/// Holds exactly one value. All access is by value: `get` copies the value
/// out (only for types that admit a plain bit-for-bit duplicate) and `set`
/// replaces it wholesale, so no reference into the storage is ever handed
/// out. Overwriting goes through an exclusive handle, which is what rules out
/// two handles racing on the same storage: the exclusion is part of the type,
/// not a runtime check.
pub struct Cell<T> {
    value: T,
}

impl<T> View for Cell<T> {
    type V = T;

    closed spec fn view(&self) -> T {
        self.value
    }
}

impl<T> Cell<T> {
    /// The cell as it stands after an overwrite with `value`.
    pub closed spec fn after_set(self, value: T) -> Cell<T> {
        Cell { value }
    }

    /// Wraps `value` in a fresh cell.
    pub fn new(value: T) -> (cell: Cell<T>)
        ensures
            cell@ == value,
    {
        Cell { value }
    }

    /// Overwrites the stored value; the previous value is discarded. Copies
    /// read out earlier are unaffected, since they are values of their own.
    pub fn set(&mut self, value: T)
        ensures
            *final(self) == old(self).after_set(value),
            final(self)@ == value,
    {
        self.value = value;
    }
}

impl<T: Copy> Cell<T> {
    /// Returns a duplicate of the current value. Restricted to types that
    /// can be duplicated bit for bit, precisely because `get` must copy the
    /// value out rather than hand out a reference into the storage.
    pub fn get(&self) -> (value: T)
        ensures
            value == self@,
    {
        self.value
    }
}

/// Round trip: for every value `v`, overwriting a cell with `v` and reading
/// it back yields exactly `v`.
pub proof fn lemma_cell_round_trip<T>(cell: Cell<T>, v: T)
    ensures
        cell.after_set(v)@ == v,
{
}

/// Overwrite independence: a copy read out after `a` was written keeps the
/// value `a` even once `b` has been written, at which point the cell itself
/// reads `b`.
pub proof fn lemma_cell_overwrite_independence<T>(cell: Cell<T>, a: T, b: T)
    ensures
        cell.after_set(a)@ == a,
        cell.after_set(a).after_set(b)@ == b,
{
}

} // verus!
