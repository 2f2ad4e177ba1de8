//! What the lock cells of all backends have in common: the calls that can be
//! made on one, as they appear in the history of a lock.
use vstd::prelude::*;

verus! {

/// One call on a lock cell, as seen when it returns.
pub enum LockCall {
    /// A non-blocking attempt to acquire.
    TryLock,
    /// A blocking acquire.
    Lock,
    /// A release.
    Unlock,
}

/// A call on a lock cell together with the caller that made it.
pub struct LockEvent {
    pub caller: u32,
    pub call: LockCall,
}

} // verus!
