//! Synchronisation primitives of the hosted backend.
//!
//! The lock cell stands for a mutual-exclusion facility of the host and
//! records which thread holds it, so that a release by anyone else is caught.
use crate::sync::{LockCall, LockEvent};
use vstd::prelude::*;

verus! {

/// Lock cell that remembers its holder.
pub struct SpinlockInner {
    tid: u32,
    handle: bool,
}

impl SpinlockInner {
    /// Whether some thread currently holds the lock.
    pub closed spec fn is_held(&self) -> bool {
        self.handle
    }

    /// The thread that acquired the lock last.
    pub closed spec fn last_holder(&self) -> u32 {
        self.tid
    }

    /// The thread that holds the lock, if one does.
    pub open spec fn holder(&self) -> Option<u32> {
        if self.is_held() {
            Some(self.last_holder())
        } else {
            None
        }
    }

    /// A lock that nobody holds and nobody has held.
    pub closed spec fn spec_free() -> Self {
        SpinlockInner { tid: 0, handle: false }
    }

    /// The lock once `tid` has acquired it.
    pub closed spec fn spec_taken_by(self, tid: u32) -> Self {
        SpinlockInner { tid, handle: true }
    }

    /// The lock once its holder has released it.
    pub closed spec fn spec_released(self) -> Self {
        SpinlockInner { tid: self.tid, handle: false }
    }

    /// The lock as a non-blocking attempt by `tid` leaves it, and whether the
    /// attempt acquired it.
    pub open spec fn spec_try_lock(self, tid: u32) -> (Self, bool) {
        if self.is_held() {
            (self, false)
        } else {
            (self.spec_taken_by(tid), true)
        }
    }

    pub proof fn lemma_views(self, tid: u32)
        ensures
            !Self::spec_free().is_held(),
            self.spec_taken_by(tid).is_held(),
            self.spec_taken_by(tid).last_holder() == tid,
            !self.spec_released().is_held(),
            self.spec_released().last_holder() == self.last_holder(),
    {
    }

    pub fn new() -> (r: Self)
        ensures
            r == Self::spec_free(),
            r.holder() is None,
    {
        SpinlockInner { tid: 0, handle: false }
    }

    /// Non-blocking acquire by thread `tid`.
    pub fn try_inner_lock_cpu(&mut self, tid: u32) -> (acquired: bool)
        ensures
            (*final(self), acquired) == old(self).spec_try_lock(tid),
            acquired == old(self).holder() is None,
            acquired ==> final(self).holder() == Some(tid),
            !acquired ==> final(self).holder() == old(self).holder(),
    {
        if self.handle {
            false
        } else {
            self.tid = tid;
            self.handle = true;
            true
        }
    }

    /// Blocking acquire by thread `tid`. It returns once the lock went from
    /// free to held, so on a cell that only the caller can reach the lock
    /// must be free.
    pub fn inner_lock(&mut self, tid: u32)
        requires
            old(self).holder() is None,
        ensures
            *final(self) == old(self).spec_taken_by(tid),
            final(self).holder() == Some(tid),
    {
        self.tid = tid;
        self.handle = true;
    }

    /// Release by thread `tid`, which must be the holder.
    pub fn inner_release(&mut self, tid: u32)
        requires
            old(self).holder() == Some(tid),
        ensures
            *final(self) == old(self).spec_released(),
            final(self).holder() is None,
    {
        self.handle = false;
    }

    /// The thread that holds the lock, if one does.
    pub fn held_by(&self) -> (r: Option<u32>)
        ensures
            r == self.holder(),
    {
        if self.handle {
            Some(self.tid)
        } else {
            None
        }
    }
}

impl Default for SpinlockInner {
    fn default() -> (r: Self)
        ensures
            r == Self::spec_free(),
    {
        SpinlockInner { tid: 0, handle: false }
    }
}

/// The lock after the calls of `trace` have returned in that order, starting from a free lock.
pub open spec fn lock_after(trace: Seq<LockEvent>) -> SpinlockInner
    decreases trace.len(),
{
    if trace.len() == 0 {
        SpinlockInner::spec_free()
    } else {
        let before = lock_after(trace.drop_last());
        let caller = trace.last().caller;
        match trace.last().call {
            LockCall::TryLock => before.spec_try_lock(caller).0,
            LockCall::Lock => before.spec_taken_by(caller),
            LockCall::Unlock => before.spec_released(),
        }
    }
}

/// The callers that are inside the critical section after `trace`: those that
/// acquired the lock and have not released it since.
pub open spec fn inside_after(trace: Seq<LockEvent>) -> Set<u32>
    decreases trace.len(),
{
    if trace.len() == 0 {
        Set::empty()
    } else {
        let before = lock_after(trace.drop_last());
        let inside = inside_after(trace.drop_last());
        let caller = trace.last().caller;
        match trace.last().call {
            LockCall::TryLock => if before.spec_try_lock(caller).1 {
                inside.insert(caller)
            } else {
                inside
            },
            LockCall::Lock => inside.insert(caller),
            LockCall::Unlock => inside.remove(caller),
        }
    }
}

/// Every call of `trace` was made as its contract allows: a blocking acquire
/// returns only from a free lock, and only the holder releases.
pub open spec fn follows_protocol(trace: Seq<LockEvent>) -> bool
    decreases trace.len(),
{
    if trace.len() == 0 {
        true
    } else {
        let before = lock_after(trace.drop_last());
        &&& follows_protocol(trace.drop_last())
        &&& match trace.last().call {
            LockCall::TryLock => true,
            LockCall::Lock => before.holder() is None,
            LockCall::Unlock => before.holder() == Some(trace.last().caller),
        }
    }
}

/// Mutual exclusion: whatever the callers and the order of their calls, the
/// callers inside the critical section are the recorded holder and nobody
/// else, so there is never more than one.
pub proof fn lemma_mutual_exclusion(trace: Seq<LockEvent>)
    requires
        follows_protocol(trace),
    ensures
        inside_after(trace).finite(),
        inside_after(trace).len() <= 1,
        match lock_after(trace).holder() {
            Some(tid) => inside_after(trace) == set![tid],
            None => inside_after(trace) == Set::<u32>::empty(),
        },
    decreases trace.len(),
{
    if trace.len() > 0 {
        let rest = trace.drop_last();
        lemma_mutual_exclusion(rest);
        let before = lock_after(rest);
        let inside = inside_after(rest);
        let caller = trace.last().caller;
        before.lemma_views(caller);
        match before.holder() {
            Some(tid) => {
                assert(inside.remove(tid) =~= Set::<u32>::empty());
            },
            None => {
                assert(inside.insert(caller) =~= set![caller]);
            },
        }
        match lock_after(trace).holder() {
            Some(tid) => {
                assert(inside_after(trace) =~= set![tid]);
            },
            None => {
                assert(inside_after(trace) =~= Set::<u32>::empty());
            },
        }
    }
}

/// The same at every moment of a run: no prefix of a trace has two callers inside.
pub proof fn lemma_never_two_inside(trace: Seq<LockEvent>, n: int)
    requires
        follows_protocol(trace),
        0 <= n <= trace.len(),
    ensures
        follows_protocol(trace.take(n)),
        inside_after(trace.take(n)).len() <= 1,
    decreases trace.len() - n,
{
    if n == trace.len() {
        assert(trace.take(n) =~= trace);
        lemma_mutual_exclusion(trace);
    } else {
        lemma_never_two_inside(trace, n + 1);
        assert(trace.take(n + 1).drop_last() =~= trace.take(n));
        lemma_mutual_exclusion(trace.take(n));
    }
}

/// A handle for held interrupts. The host delivers no asynchronous events to
/// the kernel, so there is nothing to hold and nothing to give back.
pub struct HeldInterrupts(bool);

impl HeldInterrupts {
    /// Whether the scope holds anything that its end has to give back.
    pub closed spec fn holds_lock(&self) -> bool {
        self.0
    }

    pub fn is_holding(&self) -> (r: bool)
        ensures
            r == self.holds_lock(),
    {
        self.0
    }

    /// Ends the scope.
    pub fn release(self) {
    }
}

/// Opens a scope in which no asynchronous event is delivered.
pub fn hold_interrupts() -> (r: HeldInterrupts)
    ensures
        !r.holds_lock(),
{
    HeldInterrupts(false)
}

pub fn stop_interrupts() {
}

pub fn start_interrupts() {
}

} // verus!
