//! A cell that tracks shared and exclusive access at run time.
//!
//! A [`RefCell`] owns a value together with an access state. Read and write
//! access is handed out as guards: any number of read guards, or one write
//! guard, never both. A request that would break this rule is answered with
//! `None`; it never waits.
//!
//! The bookkeeping is explicit. A guard is a token without a pointer back to
//! its cell: every operation on a guard names the cell it belongs to, and a
//! guard is given up by handing it back with `drop`. This makes each state
//! change visible to the verifier, which a change behind a shared reference
//! would not be.

use crate::cell::Cell;
use std::marker::PhantomData;
use vstd::prelude::*;

verus! {

/// The access state of a [`RefCell`].
#[derive(Clone, Copy, Debug, PartialEq, Eq, Structural)]
pub enum RefState {
    /// No guard is outstanding.
    Unshared,
    /// One write guard is outstanding.
    Exclusive,
    /// That many read guards are outstanding.
    Shared(usize),
}

impl RefState {
    /// A shared state counts at least one reader.
    pub open spec fn wf(self) -> bool {
        self matches RefState::Shared(n) ==> n >= 1
    }

    /// The number of read guards that the state accounts for.
    pub open spec fn readers(self) -> nat {
        match self {
            RefState::Shared(n) => n as nat,
            _ => 0,
        }
    }

    /// The number of write guards that the state accounts for.
    pub open spec fn writers(self) -> nat {
        match self {
            RefState::Exclusive => 1,
            _ => 0,
        }
    }

    /// Whether a request for a read guard is granted in this state.
    ///
    /// It is granted unless a write guard is outstanding. The one other
    /// exception is a reader count that the machine cannot raise any further.
    pub open spec fn admits_reader(self) -> bool {
        match self {
            RefState::Unshared => true,
            RefState::Shared(n) => n < usize::MAX,
            RefState::Exclusive => false,
        }
    }

    /// Whether a request for a write guard is granted in this state.
    pub open spec fn admits_writer(self) -> bool {
        self is Unshared
    }

    /// The state once a request for a read guard has been answered.
    pub open spec fn after_borrow(self) -> RefState {
        match self {
            RefState::Unshared => RefState::Shared(1),
            RefState::Shared(n) => if n < usize::MAX {
                RefState::Shared((n + 1) as usize)
            } else {
                self
            },
            RefState::Exclusive => self,
        }
    }

    /// The state once a request for a write guard has been answered.
    pub open spec fn after_borrow_mut(self) -> RefState {
        match self {
            RefState::Unshared => RefState::Exclusive,
            _ => self,
        }
    }

    /// The state once one of the outstanding read guards has been given up.
    pub open spec fn after_read_release(self) -> RefState
        recommends
            self.readers() >= 1,
    {
        match self {
            RefState::Shared(n) => if n > 1 {
                RefState::Shared((n - 1) as usize)
            } else {
                RefState::Unshared
            },
            _ => self,
        }
    }

    /// The state once the outstanding write guard has been given up.
    pub open spec fn after_write_release(self) -> RefState
        recommends
            self.writers() == 1,
    {
        match self {
            RefState::Exclusive => RefState::Unshared,
            _ => self,
        }
    }
}

/// A value guarded by a run-time access state.
pub struct RefCell<T> {
    value: T,
    state: Cell<RefState>,
}

/// A read guard: the claim of one reader on a [`RefCell`].
pub struct Ref<T> {
    marker: PhantomData<T>,
}

/// A write guard: the claim of the single writer on a [`RefCell`].
pub struct RefMut<T> {
    marker: PhantomData<T>,
}

impl<T> RefCell<T> {
    /// The value that the cell holds.
    pub closed spec fn value(&self) -> T {
        self.value
    }

    /// The access state of the cell.
    pub closed spec fn spec_state(&self) -> RefState {
        self.state@
    }

    /// Creates a cell that holds `value` and has no guard outstanding.
    pub fn new(value: T) -> (cell: Self)
        ensures
            cell.value() == value,
            cell.state() == RefState::Unshared,
    {
        Self { value, state: Cell::new(RefState::Unshared) }
    }

    /// Returns the access state of the cell.
    #[verifier::when_used_as_spec(spec_state)]
    pub fn state(&self) -> (state: RefState)
        ensures
            state == self.state(),
    {
        self.state.get()
    }

    /// Requests a read guard.
    ///
    /// The guard is granted exactly when the state admits a reader, and the
    /// state then counts one reader more. Otherwise the answer is `None` and
    /// the cell is left as it was.
    pub fn borrow(&mut self) -> (guard: Option<Ref<T>>)
        ensures
            guard is Some <==> old(self).state().admits_reader(),
            final(self).state() == old(self).state().after_borrow(),
            final(self).value() == old(self).value(),
    {
        match self.state.get() {
            RefState::Unshared => {
                self.state.set(RefState::Shared(1));
                Some(Ref { marker: PhantomData })
            },
            RefState::Shared(n) => {
                if n < usize::MAX {
                    self.state.set(RefState::Shared(n + 1));
                    Some(Ref { marker: PhantomData })
                } else {
                    None
                }
            },
            RefState::Exclusive => None,
        }
    }

    /// Requests the write guard.
    ///
    /// The guard is granted exactly when no guard is outstanding, and the
    /// state then is `Exclusive`. Otherwise the answer is `None` and the cell
    /// is left as it was.
    pub fn borrow_mut(&mut self) -> (guard: Option<RefMut<T>>)
        ensures
            guard is Some <==> old(self).state().admits_writer(),
            final(self).state() == old(self).state().after_borrow_mut(),
            final(self).value() == old(self).value(),
    {
        if let RefState::Unshared = self.state.get() {
            self.state.set(RefState::Exclusive);
            Some(RefMut { marker: PhantomData })
        } else {
            None
        }
    }
}

impl<T> Ref<T> {
    /// Reads the value of the cell that issued this guard.
    pub fn deref<'a>(&self, refcell: &'a RefCell<T>) -> (value: &'a T)
        ensures
            *value == refcell.value(),
    {
        &refcell.value
    }

    /// Gives the guard up.
    ///
    /// The cell's state counts one reader less; with the last reader gone it
    /// is `Unshared` again. The cell must account for at least one reader.
    pub fn drop(self, refcell: &mut RefCell<T>)
        requires
            old(refcell).state().readers() >= 1,
        ensures
            final(refcell).state() == old(refcell).state().after_read_release(),
            final(refcell).value() == old(refcell).value(),
    {
        match refcell.state.get() {
            RefState::Shared(n) => {
                if n == 1 {
                    refcell.state.set(RefState::Unshared)
                } else {
                    refcell.state.set(RefState::Shared(n - 1))
                }
            },
            RefState::Unshared | RefState::Exclusive => {},
        }
    }
}

impl<T> RefMut<T> {
    /// Reads the value of the cell that issued this guard.
    pub fn deref<'a>(&self, refcell: &'a RefCell<T>) -> (value: &'a T)
        ensures
            *value == refcell.value(),
    {
        &refcell.value
    }

    /// Gives write access to the value of the cell that issued this guard.
    ///
    /// Whatever is written through the returned reference is the cell's
    /// value afterwards; the access state is not touched.
    pub fn deref_mut<'a>(&mut self, refcell: &'a mut RefCell<T>) -> (value: &'a mut T)
        ensures
            *value == old(refcell).value(),
            final(refcell).value() == *final(value),
            final(refcell).state() == old(refcell).state(),
    {
        &mut refcell.value
    }

    /// Gives the guard up.
    ///
    /// The cell is `Unshared` again. The cell must account for the writer.
    pub fn drop(self, refcell: &mut RefCell<T>)
        requires
            old(refcell).state().writers() == 1,
        ensures
            final(refcell).state() == old(refcell).state().after_write_release(),
            final(refcell).value() == old(refcell).value(),
    {
        match refcell.state.get() {
            RefState::Exclusive => refcell.state.set(RefState::Unshared),
            RefState::Unshared | RefState::Shared(_) => {},
        }
    }
}

/// One step in the life of the guards of a cell.
pub enum Access {
    /// A read guard is requested.
    Borrow,
    /// The write guard is requested.
    BorrowMut,
    /// A read guard is given up.
    ReleaseRead,
    /// The write guard is given up.
    ReleaseWrite,
}

/// The state that follows `state` on one step.
pub open spec fn step(state: RefState, access: Access) -> RefState {
    match access {
        Access::Borrow => state.after_borrow(),
        Access::BorrowMut => state.after_borrow_mut(),
        Access::ReleaseRead => state.after_read_release(),
        Access::ReleaseWrite => state.after_write_release(),
    }
}

/// The state of a new cell after the steps of `trace`.
pub open spec fn state_after(trace: Seq<Access>) -> RefState
    decreases trace.len(),
{
    if trace.len() == 0 {
        RefState::Unshared
    } else {
        step(state_after(trace.drop_last()), trace.last())
    }
}

/// The number of read guards that are outstanding after `trace`: those
/// granted less those given up.
pub open spec fn read_guards(trace: Seq<Access>) -> int
    decreases trace.len(),
{
    if trace.len() == 0 {
        0
    } else {
        let before = trace.drop_last();
        read_guards(before) + match trace.last() {
            Access::Borrow => if state_after(before).admits_reader() {
                1int
            } else {
                0int
            },
            Access::ReleaseRead => -1int,
            _ => 0int,
        }
    }
}

/// The number of write guards that are outstanding after `trace`: those
/// granted less those given up.
pub open spec fn write_guards(trace: Seq<Access>) -> int
    decreases trace.len(),
{
    if trace.len() == 0 {
        0
    } else {
        let before = trace.drop_last();
        write_guards(before) + match trace.last() {
            Access::BorrowMut => if state_after(before).admits_writer() {
                1int
            } else {
                0int
            },
            Access::ReleaseWrite => -1int,
            _ => 0int,
        }
    }
}

/// Every guard that `trace` gives up is outstanding at that time.
pub open spec fn gives_up_held_guards(trace: Seq<Access>) -> bool {
    forall|i: int|
        0 <= i < trace.len() ==> match #[trigger] trace[i] {
            Access::ReleaseRead => read_guards(trace.take(i)) >= 1,
            Access::ReleaseWrite => write_guards(trace.take(i)) >= 1,
            _ => true,
        }
}

/// `n` times the same step.
pub open spec fn repeated(access: Access, n: nat) -> Seq<Access> {
    Seq::new(n, |i: int| access)
}

/// The state accounts for exactly the outstanding guards: whatever is
/// requested of a new cell, as long as only held guards are given up, the
/// state is well formed and counts the outstanding read and write guards, at
/// most one write guard is outstanding, and none beside a read guard.
pub proof fn lemma_state_counts_guards(trace: Seq<Access>)
    requires
        gives_up_held_guards(trace),
    ensures
        state_after(trace).wf(),
        state_after(trace).readers() == read_guards(trace),
        state_after(trace).writers() == write_guards(trace),
        write_guards(trace) <= 1,
        write_guards(trace) == 1 ==> read_guards(trace) == 0,
    decreases trace.len(),
{
    if trace.len() > 0 {
        let before = trace.drop_last();
        assert forall|i: int| 0 <= i < before.len() implies match #[trigger] before[i] {
            Access::ReleaseRead => read_guards(before.take(i)) >= 1,
            Access::ReleaseWrite => write_guards(before.take(i)) >= 1,
            _ => true,
        } by {
            assert(before.take(i) =~= trace.take(i));
        }
        lemma_state_counts_guards(before);
    }
}

/// The write guard is granted exactly when no guard is outstanding.
pub proof fn lemma_writer_needs_no_guard(state: RefState)
    requires
        state.wf(),
    ensures
        state.admits_writer() <==> state.readers() == 0 && state.writers() == 0,
{
}

/// A read guard is granted exactly when no write guard is outstanding and
/// the count of readers can still be raised.
pub proof fn lemma_reader_needs_no_writer(state: RefState)
    requires
        state.wf(),
    ensures
        state.admits_reader() <==> state.writers() == 0 && state.readers() < usize::MAX,
{
}

/// A request that is denied leaves the state as it was.
pub proof fn lemma_denied_request_changes_nothing(state: RefState)
    ensures
        !state.admits_reader() ==> state.after_borrow() == state,
        !state.admits_writer() ==> state.after_borrow_mut() == state,
{
}

/// Giving a guard up undoes the request that granted it.
pub proof fn lemma_release_undoes_request(state: RefState)
    requires
        state.wf(),
    ensures
        state.admits_reader() ==> state.after_borrow().after_read_release() == state,
        state.admits_writer() ==> state.after_borrow_mut().after_write_release() == state,
{
}

/// While the write guard is outstanding every request is denied; once it is
/// given up, both kinds of request are granted again.
pub proof fn lemma_writer_excludes_all(state: RefState)
    requires
        state.admits_writer(),
    ensures
        state.after_borrow_mut() == RefState::Exclusive,
        !RefState::Exclusive.admits_reader(),
        !RefState::Exclusive.admits_writer(),
        RefState::Exclusive.after_write_release().admits_reader(),
        RefState::Exclusive.after_write_release().admits_writer(),
{
}

/// After `n` read guards have been granted to a new cell and `k` of them
/// given up, the state counts the `n - k` that are left, and the write guard
/// is granted exactly when none is left. The guards carry no mark, so the
/// order in which they are given up does not enter.
pub proof fn lemma_readers_hold_off_writer(n: nat, k: nat)
    requires
        k <= n <= usize::MAX,
    ensures
        state_after(repeated(Access::Borrow, n) + repeated(Access::ReleaseRead, k)).readers()
            == n - k,
        state_after(repeated(Access::Borrow, n) + repeated(Access::ReleaseRead, k)).writers()
            == 0,
        state_after(
            repeated(Access::Borrow, n) + repeated(Access::ReleaseRead, k),
        ).admits_writer() <==> k == n,
    decreases n + k,
{
    let trace = repeated(Access::Borrow, n) + repeated(Access::ReleaseRead, k);
    if k > 0 {
        let shorter = repeated(Access::Borrow, n) + repeated(Access::ReleaseRead, (k - 1) as nat);
        assert(trace.drop_last() =~= shorter);
        lemma_readers_hold_off_writer(n, (k - 1) as nat);
    } else if n > 0 {
        let shorter = repeated(Access::Borrow, (n - 1) as nat) + repeated(Access::ReleaseRead, 0);
        assert(trace.drop_last() =~= shorter);
        lemma_readers_hold_off_writer((n - 1) as nat, 0);
    } else {
        assert(trace =~= Seq::<Access>::empty());
    }
}

/// Every step keeps a well-formed state well formed, so the state of a cell
/// is well formed after any trace.
pub proof fn lemma_state_is_well_formed(trace: Seq<Access>)
    ensures
        state_after(trace).wf(),
    decreases trace.len(),
{
    if trace.len() > 0 {
        lemma_state_is_well_formed(trace.drop_last());
    }
}

} // verus!
