//! Low-level synchronisation primitives.
use crate::sync::{LockCall, LockEvent};
use vstd::prelude::*;

verus! {

/// Bit of the flags register that enables maskable interrupts.
pub const FLAG_IF: u64 = 0x200;

/// Lightweight protecting spinlock: a single exclusive-lock flag.
///
/// The cell gates access to data kept elsewhere; it owns none itself.
pub struct SpinlockInner {
    lock: bool,
}

impl SpinlockInner {
    /// Whether some caller currently holds the lock.
    pub closed spec fn is_held(&self) -> bool {
        self.lock
    }

    /// The lock as a non-blocking attempt leaves it, and whether the attempt acquired it.
    pub open spec fn spec_try_lock(self) -> (Self, bool) {
        (self.spec_taken(), !self.is_held())
    }

    /// A lock that nobody holds.
    pub closed spec fn spec_free() -> Self {
        SpinlockInner { lock: false }
    }

    /// The lock with the flag set.
    pub closed spec fn spec_taken(self) -> Self {
        SpinlockInner { lock: true }
    }

    /// The lock with the flag cleared.
    pub closed spec fn spec_released(self) -> Self {
        SpinlockInner { lock: false }
    }

    pub fn new() -> (r: Self)
        ensures
            r == Self::spec_free(),
            !r.is_held(),
    {
        SpinlockInner { lock: false }
    }

    /// Compare-and-swap of the flag from clear to set.
    pub fn try_inner_lock_cpu(&mut self) -> (acquired: bool)
        ensures
            (*final(self), acquired) == old(self).spec_try_lock(),
            acquired == !old(self).is_held(),
            final(self).is_held(),
    {
        let was_held = self.lock;
        self.lock = true;
        !was_held
    }

    /// Blocking acquire. It returns once the flag went from clear to set, so on
    /// a cell that only the caller can reach the flag must be clear.
    pub fn inner_lock(&mut self)
        requires
            !old(self).is_held(),
        ensures
            *final(self) == old(self).spec_taken(),
            final(self).is_held(),
    {
        self.lock = true;
    }

    /// Release. Only the holder may release.
    pub fn inner_release(&mut self)
        requires
            old(self).is_held(),
        ensures
            *final(self) == old(self).spec_released(),
            !final(self).is_held(),
    {
        self.lock = false;
    }

    /// Whether some caller currently holds the lock.
    pub fn held(&self) -> (r: bool)
        ensures
            r == self.is_held(),
    {
        self.lock
    }
}

/// The lock after the calls of `trace` have returned in that order, starting from a free lock.
pub open spec fn lock_after(trace: Seq<LockEvent>) -> SpinlockInner
    decreases trace.len(),
{
    if trace.len() == 0 {
        SpinlockInner::spec_free()
    } else {
        let before = lock_after(trace.drop_last());
        match trace.last().call {
            LockCall::TryLock => before.spec_try_lock().0,
            LockCall::Lock => before.spec_taken(),
            LockCall::Unlock => before.spec_released(),
        }
    }
}

/// The callers that are inside the critical section after `trace`: those that
/// acquired the lock and have not released it since.
pub open spec fn inside_after(trace: Seq<LockEvent>) -> Set<u32>
    decreases trace.len(),
{
    if trace.len() == 0 {
        Set::empty()
    } else {
        let before = lock_after(trace.drop_last());
        let inside = inside_after(trace.drop_last());
        let caller = trace.last().caller;
        match trace.last().call {
            LockCall::TryLock => if before.spec_try_lock().1 {
                inside.insert(caller)
            } else {
                inside
            },
            LockCall::Lock => inside.insert(caller),
            LockCall::Unlock => inside.remove(caller),
        }
    }
}

/// Every call of `trace` was made as its contract allows: a blocking acquire
/// returns only from a free lock, and only a caller inside the critical
/// section releases.
pub open spec fn follows_protocol(trace: Seq<LockEvent>) -> bool
    decreases trace.len(),
{
    if trace.len() == 0 {
        true
    } else {
        let before = lock_after(trace.drop_last());
        let inside = inside_after(trace.drop_last());
        &&& follows_protocol(trace.drop_last())
        &&& match trace.last().call {
            LockCall::TryLock => true,
            LockCall::Lock => !before.is_held(),
            LockCall::Unlock => before.is_held() && inside.contains(trace.last().caller),
        }
    }
}

/// Mutual exclusion: whatever the callers and the order of their calls, at
/// most one caller is inside the critical section, and one is inside exactly
/// while the lock is held.
pub proof fn lemma_mutual_exclusion(trace: Seq<LockEvent>)
    requires
        follows_protocol(trace),
    ensures
        inside_after(trace).finite(),
        inside_after(trace).len() <= 1,
        lock_after(trace).is_held() <==> inside_after(trace).len() == 1,
    decreases trace.len(),
{
    if trace.len() > 0 {
        let rest = trace.drop_last();
        lemma_mutual_exclusion(rest);
        let inside = inside_after(rest);
        let caller = trace.last().caller;
        if inside.len() == 1 {
            let holder = inside.choose();
            assert(inside.remove(holder).len() == 0);
            assert(inside =~= set![holder]);
            if inside.contains(caller) {
                assert(inside.remove(caller) =~= Set::<u32>::empty());
            }
        } else {
            assert(inside.len() == 0);
            assert(inside =~= Set::<u32>::empty());
            assert(inside.insert(caller) =~= set![caller]);
        }
    }
}

/// The same at every moment of a run: no prefix of a trace has two callers inside.
pub proof fn lemma_never_two_inside(trace: Seq<LockEvent>, n: int)
    requires
        follows_protocol(trace),
        0 <= n <= trace.len(),
    ensures
        follows_protocol(trace.take(n)),
        inside_after(trace.take(n)).len() <= 1,
    decreases trace.len() - n,
{
    if n == trace.len() {
        assert(trace.take(n) =~= trace);
        lemma_mutual_exclusion(trace);
    } else {
        lemma_never_two_inside(trace, n + 1);
        assert(trace.take(n + 1).drop_last() =~= trace.take(n));
        lemma_mutual_exclusion(trace.take(n));
    }
}

/// The processor's flags register, of which only the interrupt-enable bit matters here.
pub struct CpuFlags {
    rflags: u64,
}

impl CpuFlags {
    pub closed spec fn bits(&self) -> u64 {
        self.rflags
    }

    /// Whether maskable interrupts are delivered.
    pub open spec fn interrupts_enabled(&self) -> bool {
        self.bits() & FLAG_IF != 0
    }

    pub fn new(rflags: u64) -> (r: Self)
        ensures
            r.bits() == rflags,
    {
        CpuFlags { rflags }
    }

    pub fn raw(&self) -> (r: u64)
        ensures
            r == self.bits(),
    {
        self.rflags
    }

    pub fn enabled(&self) -> (r: bool)
        ensures
            r == self.interrupts_enabled(),
    {
        self.rflags & FLAG_IF != 0
    }
}

/// A handle for frozen interrupts: remembers whether they were enabled before.
pub struct HeldInterrupts(bool);

impl HeldInterrupts {
    /// Whether interrupts were enabled when the scope was opened.
    pub closed spec fn was_enabled(&self) -> bool {
        self.0
    }

    pub fn saved(&self) -> (r: bool)
        ensures
            r == self.was_enabled(),
    {
        self.0
    }

    /// Ends the scope: interrupts come back on only if the scope had found them on.
    pub fn release(self, flags: &mut CpuFlags)
        ensures
            final(flags).bits() == restored(old(flags).bits(), self.was_enabled()),
    {
        if self.0 {
            flags.rflags = flags.rflags | FLAG_IF;
        }
    }
}

/// The flags register with interrupt delivery switched off.
pub open spec fn suppressed(bits: u64) -> u64 {
    bits & !FLAG_IF
}

/// The flags register after a scope that had found interrupts `was_enabled` ends.
pub open spec fn restored(bits: u64, was_enabled: bool) -> u64 {
    if was_enabled {
        bits | FLAG_IF
    } else {
        bits
    }
}

/// Prevent interrupts from firing until the returned handle is released.
pub fn hold_interrupts(flags: &mut CpuFlags) -> (h: HeldInterrupts)
    ensures
        h.was_enabled() == old(flags).interrupts_enabled(),
        final(flags).bits() == suppressed(old(flags).bits()),
        !final(flags).interrupts_enabled(),
{
    let if_set = (flags.rflags & FLAG_IF) != 0;
    let before = flags.rflags;
    flags.rflags = before & !FLAG_IF;
    assert((before & !0x200u64) & 0x200u64 == 0) by (bit_vector);
    HeldInterrupts(if_set)
}

/// Unscoped: switch interrupt delivery off.
pub fn stop_interrupts(flags: &mut CpuFlags)
    ensures
        final(flags).bits() == suppressed(old(flags).bits()),
        !final(flags).interrupts_enabled(),
{
    let before = flags.rflags;
    flags.rflags = before & !FLAG_IF;
    assert((before & !0x200u64) & 0x200u64 == 0) by (bit_vector);
}

/// Unscoped: switch interrupt delivery on.
pub fn start_interrupts(flags: &mut CpuFlags)
    ensures
        final(flags).bits() == restored(old(flags).bits(), true),
        final(flags).interrupts_enabled(),
{
    let before = flags.rflags;
    flags.rflags = before | FLAG_IF;
    assert((before | 0x200u64) & 0x200u64 != 0) by (bit_vector);
}

/// Two nested scopes: closing the inner one leaves interrupts off, and closing
/// the outer one afterwards gives back exactly the flags from before the nesting.
pub proof fn lemma_nested_scopes_restore(bits: u64)
    ensures
        ({
            let outer_saw = bits & FLAG_IF != 0;
            let in_outer = suppressed(bits);
            let inner_saw = in_outer & FLAG_IF != 0;
            let in_inner = suppressed(in_outer);
            let after_inner = restored(in_inner, inner_saw);
            let after_outer = restored(after_inner, outer_saw);
            &&& !inner_saw
            &&& in_inner & FLAG_IF == 0
            &&& after_inner & FLAG_IF == 0
            &&& after_outer == bits
        }),
{
    assert((bits & !0x200u64) & 0x200u64 == 0) by (bit_vector);
    assert(((bits & !0x200u64) & !0x200u64) == (bits & !0x200u64)) by (bit_vector);
    assert(bits & 0x200u64 != 0 ==> ((bits & !0x200u64) | 0x200u64) == bits) by (bit_vector);
    assert(bits & 0x200u64 == 0 ==> (bits & !0x200u64) == bits) by (bit_vector);
}

} // verus!
