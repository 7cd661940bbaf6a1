//! A spinlock: the smallest synchronization primitive layered beside the
//! runtime. The real lock spins on an atomic flag; the verified model
//! carries the flag under exclusive access, so each operation's effect is
//! exact, and acquiring a lock one already holds — the case on which the
//! real lock would spin forever — is ruled out by contract.

use vstd::prelude::*;

verus! {

/// A spinlock.
#[derive(Debug)]
pub struct SpinLock {
    /// Whether the lock is held.
    pub flag: bool,
}

impl SpinLock {
    /// Create a new spinlock, unlocked.
    pub fn new() -> (r: SpinLock)
        ensures
            !r.flag,
    {
        SpinLock { flag: false }
    }

    /// Try to take the lock: succeeds exactly when it was free, and the
    /// lock is held afterwards either way.
    pub fn try_lock(&mut self) -> (r: bool)
        ensures
            r == !old(self).flag,
            final(self).flag,
    {
        let was = self.flag;
        self.flag = true;
        !was
    }

    /// Spin until the lock is taken. Under exclusive access the lock must
    /// be free, else the spin would never end.
    pub fn lock(&mut self)
        requires
            !old(self).flag,
        ensures
            final(self).flag,
    {
        let mut acquired = self.try_lock();
        while !acquired
            invariant
                acquired,
                self.flag,
            decreases 0int,
        {
            acquired = self.try_lock();
        }
    }

    /// Release the lock.
    pub fn unlock(&mut self)
        ensures
            !final(self).flag,
    {
        self.flag = false;
    }
}

} // verus!
