//! A cell whose read/write exclusion is checked at access time: any number of
//! shared (read) guards, or exactly one exclusive (write) guard, may be
//! outstanding, and a conflicting request fails with an empty result instead
//! of blocking or panicking.
//!
//! The exclusion is a tagged state machine kept beside the value: `Unshared`,
//! `Shared(n)` with `n >= 1`, or `Exclusive`. Granting a borrow moves the
//! state forward; a guard's release is the only move back, and it must happen
//! exactly once per guard, on every path that ends the guard's life —
//! releasing is an explicit `drop` call that consumes the guard. The
//! contracts state every transition of the table, and the release calls prove
//! that a release can never observe a state that contradicts the guard it
//! ends.

use vstd::prelude::*;

use crate::cell::Cell;

verus! {

/// The borrow state of a `RefCell`: nothing outstanding, `n` shared (read)
/// guards outstanding, or one exclusive (write) guard outstanding.
#[derive(Clone, Copy)]
pub enum RefState {
    Unshared,
    Shared(usize),
    Exclusive,
}

/// One value together with its borrow state. The state lives in a `Cell`,
/// the crate's place for mutable runtime state; the value is reached only
/// through guards, and only while the state licenses it.
pub struct RefCell<T> {
    value: T,
    state: Cell<RefState>,
}

/// A shared (read) guard: evidence of one unit in the `Shared` count of the
/// cell it was granted on. It reads the value and cannot mutate it. Its
/// release is the one legal way that unit leaves the count.
pub struct Ref {
    _granted: (),
}

/// An exclusive (write) guard: evidence that its cell stands `Exclusive`.
/// While it is outstanding no other guard exists, so it may read and mutate
/// the value in place. Its release is the one legal way back to `Unshared`.
pub struct RefMut {
    _granted: (),
}

/// Whether a shared borrow is granted in state `s`: always, unless a write
/// guard is outstanding.
pub open spec fn borrow_succeeds(s: RefState) -> bool {
    !(s is Exclusive)
}

/// Whether an exclusive borrow is granted in state `s`: only with nothing
/// outstanding at all.
pub open spec fn borrow_mut_succeeds(s: RefState) -> bool {
    s is Unshared
}

/// The state after a shared borrow request: the shared count rises by one
/// when the request is granted; a refused request leaves the state alone.
pub open spec fn state_after_borrow(s: RefState) -> RefState {
    match s {
        RefState::Unshared => RefState::Shared(1),
        RefState::Shared(n) => RefState::Shared((n + 1) as usize),
        RefState::Exclusive => RefState::Exclusive,
    }
}

/// The state after an exclusive borrow request: `Exclusive` when granted,
/// unchanged when refused.
pub open spec fn state_after_borrow_mut(s: RefState) -> RefState {
    match s {
        RefState::Unshared => RefState::Exclusive,
        RefState::Shared(n) => RefState::Shared(n),
        RefState::Exclusive => RefState::Exclusive,
    }
}

/// The state after a shared guard is released: the last one returns the cell
/// to `Unshared`, any other lowers the count by one. Defined only where a
/// shared guard is outstanding; elsewhere it leaves the state alone.
pub open spec fn state_after_ref_drop(s: RefState) -> RefState {
    match s {
        RefState::Unshared => RefState::Unshared,
        RefState::Shared(n) => if n == 1 {
            RefState::Unshared
        } else {
            RefState::Shared((n - 1) as usize)
        },
        RefState::Exclusive => RefState::Exclusive,
    }
}

/// The state after the exclusive guard is released: back to `Unshared`.
/// Defined only where an exclusive guard is outstanding; elsewhere it leaves
/// the state alone.
pub open spec fn state_after_refmut_drop(s: RefState) -> RefState {
    match s {
        RefState::Unshared => RefState::Unshared,
        RefState::Shared(n) => RefState::Shared(n),
        RefState::Exclusive => RefState::Unshared,
    }
}

impl<T> View for RefCell<T> {
    type V = T;

    closed spec fn view(&self) -> T {
        self.value
    }
}

impl<T> RefCell<T> {
    /// The current borrow state.
    pub closed spec fn borrow_state(self) -> RefState {
        self.state@
    }

    /// Well-formed: a `Shared` tag always carries a count of at least one.
    pub open spec fn wf(self) -> bool {
        self.borrow_state() matches RefState::Shared(n) ==> n >= 1
    }

    /// Wraps `value` with nothing outstanding.
    pub fn new(value: T) -> (cell: RefCell<T>)
        ensures
            cell@ == value,
            cell.borrow_state() is Unshared,
            cell.wf(),
    {
        RefCell { value, state: Cell::new(RefState::Unshared) }
    }

    /// Requests a shared (read) guard. Granted — with the shared count one
    /// higher — unless a write guard is outstanding; refused with `None`, the
    /// state untouched, when one is. Never blocks: a caller who wants to wait
    /// out the conflict retries. The count's representation is a theoretical
    /// limit: a count already at that limit admits no further guard.
    pub fn borrow(&mut self) -> (r: Option<Ref>)
        requires
            old(self).wf(),
            old(self).borrow_state() matches RefState::Shared(n) ==> n < usize::MAX,
        ensures
            final(self)@ == old(self)@,
            final(self).wf(),
            r is Some <==> borrow_succeeds(old(self).borrow_state()),
            final(self).borrow_state() == state_after_borrow(old(self).borrow_state()),
    {
        match self.state.get() {
            RefState::Unshared => {
                self.state.set(RefState::Shared(1));
                Some(Ref { _granted: () })
            },
            RefState::Shared(n) => {
                self.state.set(RefState::Shared(n + 1));
                Some(Ref { _granted: () })
            },
            RefState::Exclusive => None,
        }
    }

    /// Requests the exclusive (write) guard. Granted only with nothing
    /// outstanding; refused with `None`, the state untouched, while any guard
    /// of either kind is out. Never blocks.
    pub fn borrow_mut(&mut self) -> (r: Option<RefMut>)
        requires
            old(self).wf(),
        ensures
            final(self)@ == old(self)@,
            final(self).wf(),
            r is Some <==> borrow_mut_succeeds(old(self).borrow_state()),
            final(self).borrow_state() == state_after_borrow_mut(old(self).borrow_state()),
    {
        match self.state.get() {
            RefState::Unshared => {
                self.state.set(RefState::Exclusive);
                Some(RefMut { _granted: () })
            },
            _ => None,
        }
    }
}

impl Ref {
    /// Reads the value this guard was granted on. A shared guard outstanding
    /// means the state is `Shared`, so no write guard exists and the read is
    /// safe.
    pub fn deref<'a, T>(&self, cell: &'a RefCell<T>) -> (r: &'a T)
        requires
            cell.borrow_state() matches RefState::Shared(_),
        ensures
            *r == cell@,
    {
        &cell.value
    }

    /// Releases this shared guard: the one transition a shared guard makes,
    /// made exactly once, by consuming the guard. The cell must stand
    /// `Shared` — a release observing any other state would contradict the
    /// guard's existence, and the match below proves those arms unreachable
    /// rather than handling them.
    pub fn drop<T>(self, cell: &mut RefCell<T>)
        requires
            old(cell).wf(),
            old(cell).borrow_state() matches RefState::Shared(_),
        ensures
            final(cell)@ == old(cell)@,
            final(cell).wf(),
            final(cell).borrow_state() == state_after_ref_drop(old(cell).borrow_state()),
    {
        match cell.state.get() {
            RefState::Unshared | RefState::Exclusive => unreached(),
            RefState::Shared(n) => {
                if n == 1 {
                    cell.state.set(RefState::Unshared);
                } else {
                    cell.state.set(RefState::Shared(n - 1));
                }
            },
        }
    }
}

impl RefMut {
    /// Reads the value this guard was granted on.
    pub fn deref<'a, T>(&self, cell: &'a RefCell<T>) -> (r: &'a T)
        requires
            cell.borrow_state() is Exclusive,
        ensures
            *r == cell@,
    {
        &cell.value
    }

    /// Mutable access to the value in place. An exclusive guard outstanding
    /// means the state is `Exclusive`, so no other guard exists and the
    /// mutation is safe; the borrow state itself is untouched.
    pub fn deref_mut<'a, T>(&self, cell: &'a mut RefCell<T>) -> (r: &'a mut T)
        requires
            old(cell).wf(),
            old(cell).borrow_state() is Exclusive,
        ensures
            *r == old(cell)@,
            final(cell)@ == *final(r),
            final(cell).borrow_state() == old(cell).borrow_state(),
            final(cell).wf(),
    {
        &mut cell.value
    }

    /// Releases the exclusive guard: back to `Unshared`, exactly once, by
    /// consuming the guard. The cell must stand `Exclusive` — any other state
    /// would contradict the guard's existence, and the match proves those
    /// arms unreachable.
    pub fn drop<T>(self, cell: &mut RefCell<T>)
        requires
            old(cell).wf(),
            old(cell).borrow_state() is Exclusive,
        ensures
            final(cell)@ == old(cell)@,
            final(cell).wf(),
            final(cell).borrow_state() == state_after_refmut_drop(old(cell).borrow_state()),
    {
        match cell.state.get() {
            RefState::Unshared | RefState::Shared(_) => unreached(),
            RefState::Exclusive => {
                cell.state.set(RefState::Unshared);
            },
        }
    }
}

/// The state after `k` shared borrow requests in a row.
pub open spec fn state_after_borrows(s: RefState, k: nat) -> RefState
    decreases k,
{
    if k == 0 {
        s
    } else {
        state_after_borrow(state_after_borrows(s, (k - 1) as nat))
    }
}

/// The state after `k` shared guards are released in a row.
pub open spec fn state_after_ref_drops(s: RefState, k: nat) -> RefState
    decreases k,
{
    if k == 0 {
        s
    } else {
        state_after_ref_drop(state_after_ref_drops(s, (k - 1) as nat))
    }
}

/// Exclusion, one step at a time: a shared borrow is granted exactly while no
/// write guard is out; an exclusive borrow is granted exactly while nothing
/// is out, and a refused request of either kind leaves the state exactly as
/// it was.
pub proof fn lemma_refcell_exclusion(s: RefState)
    ensures
        borrow_succeeds(s) <==> !(s is Exclusive),
        borrow_mut_succeeds(s) <==> s is Unshared,
        !borrow_succeeds(s) ==> state_after_borrow(s) == s,
        !borrow_mut_succeeds(s) ==> state_after_borrow_mut(s) == s,
{
}

/// From a fresh cell, shared borrows are granted over and over: `k` of them
/// in a row move the state `Unshared`, `Shared(1)`, ..., `Shared(k)`, and at
/// every point along the way the next shared borrow is still granted while
/// the next exclusive borrow is refused.
pub proof fn lemma_repeated_shared_borrows(k: nat)
    requires
        1 <= k <= usize::MAX,
    ensures
        state_after_borrows(RefState::Unshared, k) == RefState::Shared(k as usize),
        borrow_succeeds(state_after_borrows(RefState::Unshared, k)),
        !borrow_mut_succeeds(state_after_borrows(RefState::Unshared, k)),
    decreases k,
{
    if k == 1 {
        assert(state_after_borrows(RefState::Unshared, 0) == RefState::Unshared);
    } else {
        lemma_repeated_shared_borrows((k - 1) as nat);
    }
}

/// Releasing all `k` outstanding shared guards returns the cell to
/// `Unshared`, where either kind of borrow is granted again; releasing the
/// exclusive guard does the same in one step.
pub proof fn lemma_guards_release(k: nat)
    requires
        1 <= k <= usize::MAX,
    ensures
        state_after_ref_drops(RefState::Shared(k as usize), k) == RefState::Unshared,
        state_after_refmut_drop(RefState::Exclusive) == RefState::Unshared,
        borrow_succeeds(RefState::Unshared),
        borrow_mut_succeeds(RefState::Unshared),
    decreases k,
{
    if k > 1 {
        lemma_guards_release((k - 1) as nat);
        assert(state_after_ref_drops(RefState::Shared(k as usize), (k - 1) as nat)
            == RefState::Shared(1)) by {
            lemma_partial_release(k, (k - 1) as nat);
        }
    }
}

/// Releasing `m < k` of `k` outstanding shared guards leaves `Shared(k - m)`.
pub proof fn lemma_partial_release(k: nat, m: nat)
    requires
        m < k <= usize::MAX,
    ensures
        state_after_ref_drops(RefState::Shared(k as usize), m) == RefState::Shared(
            (k - m) as usize,
        ),
    decreases m,
{
    if m > 0 {
        lemma_partial_release(k, (m - 1) as nat);
    }
}

} // verus!
