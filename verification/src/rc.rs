//! A single-threaded reference-counted owner: a heap block holding one value
//! and a live-handle count, kept alive by any number of lightweight handles
//! and freed exactly when the last handle releases it.
//!
//! Safe Rust cannot alias one mutable block among several handles, so the
//! block is a value of its own (`RcInner`) that the caller keeps beside the
//! handles, and every operation names it explicitly. Releasing a handle is an
//! explicit `drop` call that either returns the surviving block or consumes
//! it — consuming it is the deallocation, and it happens exactly once, on the
//! call that saw the count at one.

use vstd::prelude::*;

use crate::cell::{lemma_cell_round_trip, Cell};

verus! {

/// The shared heap block: the stored value plus the count of handles that
/// keep it alive. The count lives in a `Cell`, the one place mutable runtime
/// state sits in this crate. Invariant: a block exists only while its count
/// is at least one; the drop that would take the count to zero consumes the
/// block instead.
pub struct RcInner<T> {
    value: T,
    ref_count: Cell<usize>,
}

/// A lightweight shared-ownership handle. Handles are interchangeable: a
/// clone is an equivalent handle on the same block, not a copy of the value.
/// Each live handle stands for exactly one unit of its block's count, a
/// discipline the contracts state through the count itself. No handle ever
/// exposes a mutable view of the value: mutation, when wanted, goes through a
/// `RefCell` or `Cell` stored inside the value.
pub struct Rc<T> {
    _marker: core::marker::PhantomData<T>,
}

impl<T> RcInner<T> {
    /// The value the block stores.
    pub closed spec fn stored(self) -> T {
        self.value
    }

    /// The live-handle count.
    pub closed spec fn count(self) -> nat {
        self.ref_count@ as nat
    }

    /// A block is live while at least one handle holds a unit of its count.
    pub open spec fn live(self) -> bool {
        self.count() >= 1
    }

    /// The block as it stands after one handle is cloned.
    pub closed spec fn after_clone(self) -> RcInner<T> {
        RcInner {
            value: self.value,
            ref_count: self.ref_count.after_set((self.ref_count@ + 1) as usize),
        }
    }

    /// What remains of the block after one handle releases it: the block with
    /// the count one lower, or nothing at all when the releasing handle held
    /// the last unit — that release deallocates the block.
    pub closed spec fn after_drop(self) -> Option<RcInner<T>> {
        if self.count() == 1 {
            None
        } else {
            Some(
                RcInner {
                    value: self.value,
                    ref_count: self.ref_count.after_set((self.ref_count@ - 1) as usize),
                },
            )
        }
    }

    /// The block after `n` clones in a row.
    pub closed spec fn after_clones(self, n: nat) -> RcInner<T>
        decreases n,
    {
        if n == 0 {
            self
        } else {
            self.after_clones((n - 1) as nat).after_clone()
        }
    }

    /// The block after `m` releases in a row, if it survives them all.
    pub closed spec fn after_drops(self, m: nat) -> Option<RcInner<T>>
        decreases m,
    {
        if m == 0 {
            Some(self)
        } else {
            match self.after_drops((m - 1) as nat) {
                Some(b) => b.after_drop(),
                None => None,
            }
        }
    }

    /// The block after a sequence of clones and releases, in the order given,
    /// if it survives them all.
    pub closed spec fn after_ops(self, ops: Seq<RcOp>) -> Option<RcInner<T>>
        decreases ops.len(),
    {
        if ops.len() == 0 {
            Some(self)
        } else {
            match self.after_ops(ops.drop_last()) {
                Some(b) => match ops.last() {
                    RcOp::Cloned => Some(b.after_clone()),
                    RcOp::Dropped => b.after_drop(),
                },
                None => None,
            }
        }
    }
}

/// One event in the life of a block: a handle on it was cloned, or a handle
/// on it was released.
pub enum RcOp {
    Cloned,
    Dropped,
}

/// The count a block starting at `c0` reaches after `ops`: one up for each
/// clone, one down for each release, in any order.
pub open spec fn net_count(c0: int, ops: Seq<RcOp>) -> int
    decreases ops.len(),
{
    if ops.len() == 0 {
        c0
    } else {
        net_count(c0, ops.drop_last()) + match ops.last() {
            RcOp::Cloned => 1,
            RcOp::Dropped => -1,
        }
    }
}

/// A sequence of events is admissible for a block starting at count `c0`
/// while, after every step, at least one handle remains and the count stays
/// within its representation — that is, while some handle is kept alive
/// throughout and no clone overflows the count.
pub open spec fn admissible(c0: int, ops: Seq<RcOp>) -> bool
    decreases ops.len(),
{
    ops.len() > 0 ==> admissible(c0, ops.drop_last()) && 1 <= net_count(c0, ops) <= usize::MAX
}

impl<T> Rc<T> {
    /// Allocates one block with count one and hands back the first handle on
    /// it. Allocation failure aborts the process; it is not a recoverable
    /// error in this design.
    pub fn new(value: T) -> (r: (Rc<T>, RcInner<T>))
        ensures
            r.1.stored() == value,
            r.1.count() == 1,
            r.1.live(),
    {
        let inner = RcInner { value, ref_count: Cell::new(1) };
        (Rc { _marker: core::marker::PhantomData }, inner)
    }

    /// A new handle on the same block: the count rises by one and the value
    /// is untouched. The count's representation is a theoretical limit: a
    /// count already at that limit admits no further clone.
    pub fn clone(&self, inner: &mut RcInner<T>) -> (r: Rc<T>)
        requires
            old(inner).live(),
            old(inner).count() < usize::MAX,
        ensures
            *final(inner) == old(inner).after_clone(),
            final(inner).stored() == old(inner).stored(),
            final(inner).count() == old(inner).count() + 1,
            final(inner).live(),
    {
        let count = inner.ref_count.get();
        inner.ref_count.set(count + 1);
        proof {
            lemma_cell_round_trip(old(inner).ref_count, (old(inner).ref_count@ + 1) as usize);
        }
        Rc { _marker: core::marker::PhantomData }
    }

    /// Read-only access to the value, always valid while a handle is live,
    /// since a live handle keeps the block from being deallocated.
    pub fn deref<'a>(&self, inner: &'a RcInner<T>) -> (r: &'a T)
        requires
            inner.live(),
        ensures
            *r == inner.stored(),
    {
        &inner.value
    }

    /// Releases this handle. If the count stood above one, the block survives
    /// with the count one lower and the value untouched; if this was the last
    /// handle, the block is consumed here — deallocated exactly once, by the
    /// one release that saw the count at one — and nothing is returned.
    pub fn drop(self, inner: RcInner<T>) -> (r: Option<RcInner<T>>)
        requires
            inner.live(),
        ensures
            r == inner.after_drop(),
            r is None <==> inner.count() == 1,
            r matches Some(b) ==> b.stored() == inner.stored() && b.count() == inner.count() - 1
                && b.live(),
    {
        let count = inner.ref_count.get();
        if count == 1 {
            // The last handle: letting the block go out of scope here is the
            // deallocation.
            None
        } else {
            let mut survivor = inner;
            survivor.ref_count.set(count - 1);
            proof {
                lemma_cell_round_trip(inner.ref_count, (inner.ref_count@ - 1) as usize);
            }
            Some(survivor)
        }
    }
}

/// Liveness and value stability: from a live block, making `n` clones and
/// then releasing any `m <= n` of the handles leaves the block live, with the
/// stored value unchanged and the count lowered accordingly — the value stays
/// accessible through whichever handle remains.
pub proof fn lemma_rc_liveness<T>(b: RcInner<T>, n: nat, m: nat)
    requires
        b.live(),
        b.count() + n <= usize::MAX,
        m <= n,
    ensures
        b.after_clones(n).after_drops(m) matches Some(a) && a.live() && a.stored() == b.stored()
            && a.count() == b.count() + n - m,
{
    lemma_clones_raise_count(b, n);
    lemma_drops_spare_the_block(b.after_clones(n), m);
}

/// Handles are interchangeable, so clones and releases may overlap in any
/// order: after every admissible sequence of events — one in which some
/// handle survives each step — the block is still live, the stored value is
/// untouched, and the count is the starting count plus the clones minus the
/// releases. In particular, the value outlives the handle that made the
/// allocation, as long as a clone made along the way survives it.
pub proof fn lemma_rc_any_order<T>(b: RcInner<T>, ops: Seq<RcOp>)
    requires
        b.live(),
        b.count() <= usize::MAX,
        admissible(b.count() as int, ops),
    ensures
        b.after_ops(ops) matches Some(a) && a.live() && a.stored() == b.stored() && a.count()
            == net_count(b.count() as int, ops),
    decreases ops.len(),
{
    if ops.len() > 0 {
        lemma_rc_any_order(b, ops.drop_last());
        let a = b.after_ops(ops.drop_last()).unwrap();
        match ops.last() {
            RcOp::Cloned => lemma_cell_round_trip(a.ref_count, (a.ref_count@ + 1) as usize),
            RcOp::Dropped => lemma_cell_round_trip(a.ref_count, (a.ref_count@ - 1) as usize),
        }
    }
}

/// Releasing the last handle deallocates the block, and only that release
/// does: `after_drop` yields nothing exactly when the count stood at one.
pub proof fn lemma_rc_last_drop_deallocates<T>(b: RcInner<T>)
    ensures
        b.after_drop() is None <==> b.count() == 1,
{
}

/// `n` clones raise the count by `n` and leave the value untouched.
proof fn lemma_clones_raise_count<T>(b: RcInner<T>, n: nat)
    requires
        b.count() + n <= usize::MAX,
    ensures
        b.after_clones(n).stored() == b.stored(),
        b.after_clones(n).count() == b.count() + n,
    decreases n,
{
    if n > 0 {
        lemma_clones_raise_count(b, (n - 1) as nat);
        let c = b.after_clones((n - 1) as nat);
        lemma_cell_round_trip(c.ref_count, (c.ref_count@ + 1) as usize);
    }
}

/// `m` releases, with fewer releases than the count, lower the count by `m`
/// and leave the block live with its value untouched.
proof fn lemma_drops_spare_the_block<T>(b: RcInner<T>, m: nat)
    requires
        m < b.count(),
        b.count() <= usize::MAX,
    ensures
        b.after_drops(m) matches Some(a) && a.stored() == b.stored() && a.count() == b.count()
            - m,
    decreases m,
{
    if m > 0 {
        lemma_drops_spare_the_block(b, (m - 1) as nat);
        let a = b.after_drops((m - 1) as nat).unwrap();
        lemma_cell_round_trip(a.ref_count, (a.ref_count@ - 1) as usize);
    }
}

} // verus!
