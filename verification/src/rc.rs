//! Shared ownership of one heap block, counted by hand.
//!
//! A block ([`RcInner`]) holds a value and the number of handles ([`Rc`])
//! that share it. Cloning a handle raises the count, dropping one lowers it,
//! and the block is freed by the drop that finds the count at one.
//!
//! The block lives in a slot, an `Option<Box<RcInner<T>>>`, which is `None`
//! once the block has been freed. A handle is a token without a pointer: each
//! operation on a handle names the slot of its block. The count is not
//! atomic, and a block whose value holds a handle to the same block is never
//! freed.

use crate::cell::Cell;
use std::marker::PhantomData;
use vstd::prelude::*;

verus! {

/// The shared block: a value and the number of handles that share it.
pub struct RcInner<T> {
    value: T,
    count: Cell<usize>,
}

/// A handle to a shared block.
pub struct Rc<T> {
    marker: PhantomData<RcInner<T>>,
}

/// What a slot accounts for: `Some(n)` for a block that `n` handles share,
/// `None` once the block has been freed.
pub open spec fn shares<T>(slot: Option<Box<RcInner<T>>>) -> Option<nat> {
    match slot {
        Some(inner) => Some(inner.count() as nat),
        None => None,
    }
}

/// The shares of a slot once a handle to its block has been cloned.
pub open spec fn after_clone(shares: Option<nat>) -> Option<nat>
    recommends
        shares is Some,
{
    match shares {
        Some(n) => Some(n + 1),
        None => None,
    }
}

/// The shares of a slot once a handle to its block has been dropped: the
/// drop that finds one share frees the block.
pub open spec fn after_drop(shares: Option<nat>) -> Option<nat>
    recommends
        shares matches Some(n) && n >= 1,
{
    match shares {
        Some(n) => if n > 1 {
            Some((n - 1) as nat)
        } else {
            None
        },
        None => None,
    }
}

impl<T> RcInner<T> {
    /// The value that the block holds.
    pub closed spec fn value(&self) -> T {
        self.value
    }

    /// The number of handles that the block accounts for.
    pub closed spec fn spec_count(&self) -> usize {
        self.count@
    }

    /// Returns the number of handles that the block accounts for.
    #[verifier::when_used_as_spec(spec_count)]
    pub fn count(&self) -> (count: usize)
        ensures
            count == self.count(),
    {
        self.count.get()
    }
}

impl<T> Rc<T> {
    /// Allocates a block that holds `value` and returns the first handle
    /// together with the slot of the block. The block accounts for that one
    /// handle.
    pub fn new(value: T) -> (created: (Self, Option<Box<RcInner<T>>>))
        ensures
            shares(created.1) == Some(1nat),
            created.1->0.value() == value,
    {
        let inner = Box::new(RcInner { value, count: Cell::new(1) });
        (Rc { marker: PhantomData }, Some(inner))
    }

    /// Returns a new handle to the block in `slot`, which accounts for one
    /// handle more afterwards.
    ///
    /// The block must exist, and its count must be below the largest number
    /// that the machine can hold: the count never wraps.
    pub fn clone(&self, slot: &mut Option<Box<RcInner<T>>>) -> (handle: Self)
        requires
            shares(*old(slot)) matches Some(n) && n < usize::MAX,
        ensures
            shares(*final(slot)) == after_clone(shares(*old(slot))),
            final(slot)->0.value() == old(slot)->0.value(),
    {
        match slot {
            Some(inner) => {
                let c = inner.count.get() + 1;
                inner.count.set(c);
            },
            None => {},
        }
        Rc { marker: PhantomData }
    }

    /// Reads the value of the block in `slot`. The block must exist.
    pub fn deref<'a>(&self, slot: &'a Option<Box<RcInner<T>>>) -> (value: &'a T)
        requires
            *slot is Some,
        ensures
            *value == slot->0.value(),
    {
        &slot.as_ref().unwrap().value
    }

    /// Gives the handle up.
    ///
    /// Where the block accounts for this handle alone, the block is freed
    /// and the slot is empty afterwards. Otherwise the block stays, with its
    /// value, and accounts for one handle less. The block must exist and
    /// account for at least one handle.
    pub fn drop(self, slot: &mut Option<Box<RcInner<T>>>)
        requires
            shares(*old(slot)) matches Some(n) && n >= 1,
        ensures
            shares(*final(slot)) == after_drop(shares(*old(slot))),
            *final(slot) is Some ==> final(slot)->0.value() == old(slot)->0.value(),
    {
        let freed = match slot {
            Some(inner) => {
                let c = inner.count.get();
                if c == 1 {
                    true
                } else {
                    inner.count.set(c - 1);
                    false
                }
            },
            None => false,
        };
        if freed {
            *slot = None;
        }
    }
}

/// One step in the life of the handles of a block.
pub enum HandleOp {
    /// A live handle is cloned.
    Clone,
    /// A live handle is dropped.
    Drop,
}

/// The number of live handles after `ops`, counted from the one handle that
/// `new` returns.
pub open spec fn live_handles(ops: Seq<HandleOp>) -> int
    decreases ops.len(),
{
    if ops.len() == 0 {
        1
    } else {
        live_handles(ops.drop_last()) + match ops.last() {
            HandleOp::Clone => 1int,
            HandleOp::Drop => -1int,
        }
    }
}

/// Every step of `ops` is taken through a handle that is live at that time.
pub open spec fn taken_through_live_handles(ops: Seq<HandleOp>) -> bool {
    forall|i: int| 0 <= i < ops.len() ==> live_handles(#[trigger] ops.take(i)) >= 1
}

/// The shares of the slot after `ops`, from the slot that `new` returns.
pub open spec fn shares_after(ops: Seq<HandleOp>) -> Option<nat>
    decreases ops.len(),
{
    if ops.len() == 0 {
        Some(1nat)
    } else {
        match ops.last() {
            HandleOp::Clone => after_clone(shares_after(ops.drop_last())),
            HandleOp::Drop => after_drop(shares_after(ops.drop_last())),
        }
    }
}

/// The number of steps of `ops` that free the block.
pub open spec fn frees(ops: Seq<HandleOp>) -> nat
    decreases ops.len(),
{
    if ops.len() == 0 {
        0
    } else if shares_after(ops.drop_last()) is Some && shares_after(ops) is None {
        frees(ops.drop_last()) + 1
    } else {
        frees(ops.drop_last())
    }
}

/// The block accounts for exactly the live handles: whatever clones and
/// drops are made through live handles, the block exists as long as a handle
/// is live and then counts the live handles, and it is freed once, by the
/// drop of the last handle.
pub proof fn lemma_block_lives_with_its_handles(ops: Seq<HandleOp>)
    requires
        taken_through_live_handles(ops),
    ensures
        live_handles(ops) >= 0,
        live_handles(ops) >= 1 ==> shares_after(ops) == Some(live_handles(ops) as nat),
        live_handles(ops) == 0 ==> shares_after(ops) is None,
        frees(ops) == (if live_handles(ops) == 0 { 1nat } else { 0nat }),
    decreases ops.len(),
{
    if ops.len() > 0 {
        let before = ops.drop_last();
        assert forall|i: int| 0 <= i < before.len() implies live_handles(
            #[trigger] before.take(i),
        ) >= 1 by {
            assert(before.take(i) =~= ops.take(i));
        }
        lemma_block_lives_with_its_handles(before);
    }
}

/// The handle that `new` returns is the only one: dropping it frees the
/// block.
pub proof fn lemma_sole_handle_frees_block()
    ensures
        after_drop(shares_after(Seq::<HandleOp>::empty())) is None,
{
}

} // verus!
