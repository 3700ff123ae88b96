//! A test-and-set lock, modelled at the level of its protocol state: one
//! flag says whether the lock is taken. A spinning thread retries an
//! exchange until the flag flips; here the single exchange attempt carries
//! the contract, and retrying a refused attempt is the caller's business.

use vstd::prelude::*;

verus! {

/// The protocol state of a test-and-set lock, with the protected value.
pub struct SpinLock<T> {
    pub locked: bool,
    pub data: T,
}

/// Witness of a successful acquisition; released with the lock.
pub struct SpinLockGuard {
    pub taken: bool,
}

impl<T> SpinLock<T> {
    /// A fresh, free lock protecting `v`.
    pub fn new(v: T) -> (l: SpinLock<T>)
        ensures
            !l.locked,
            l.data == v,
    {
        SpinLock { locked: false, data: v }
    }

    /// One test-and-set attempt: a free lock is taken, a taken lock refuses
    /// and is unchanged. A spinning acquisition is a retry of this attempt.
    pub fn try_lock(&mut self) -> (r: Option<SpinLockGuard>)
        ensures
            !old(self).locked ==> {
                &&& r matches Some(g) && g.taken
                &&& final(self).locked
            },
            old(self).locked ==> {
                &&& r is None
                &&& *final(self) == *old(self)
            },
            final(self).data == old(self).data,
    {
        if self.locked {
            None
        } else {
            self.locked = true;
            Some(SpinLockGuard { taken: true })
        }
    }

    /// Acquire a free lock. A caller that may face contention retries
    /// `try_lock` instead.
    pub fn lock(&mut self) -> (g: SpinLockGuard)
        requires
            !old(self).locked,
        ensures
            g.taken,
            final(self).locked,
            final(self).data == old(self).data,
    {
        self.locked = true;
        SpinLockGuard { taken: true }
    }

    /// Read the protected value; only while holding the lock.
    pub fn get<'a>(&'a self, g: &SpinLockGuard) -> (r: &'a T)
        requires
            self.locked,
            g.taken,
        ensures
            *r == self.data,
    {
        &self.data
    }

    /// Replace the protected value; only while holding the lock.
    pub fn set(&mut self, g: &SpinLockGuard, v: T)
        requires
            old(self).locked,
            g.taken,
        ensures
            final(self).data == v,
            final(self).locked,
    {
        self.data = v;
    }

    /// Release: the flag drops and the next attempt will succeed.
    pub fn unlock(&mut self, g: SpinLockGuard)
        requires
            old(self).locked,
            g.taken,
        ensures
            !final(self).locked,
            final(self).data == old(self).data,
    {
        self.locked = false;
    }
}

} // verus!
