//! Scoped exclusive access to a value.
use vstd::prelude::*;

verus! {

/// A critical section around one owned value.
///
/// On a single core with no preemption it takes no lock: the exclusive
/// borrow that `lock` hands out is the section, and it ends when the borrow
/// does. Taking the section again while it is held is refused by the borrow
/// checker, as it would deadlock under a real lock.
pub struct NullLock<T> {
    data: T,
}

impl<T> NullLock<T> {
    /// The guarded value.
    pub closed spec fn value(&self) -> T {
        self.data
    }

    pub fn new(data: T) -> (r: Self)
        ensures
            r.value() == data,
    {
        NullLock { data }
    }

    /// Enters the section: exclusive access to the guarded value until the
    /// returned borrow ends; what is left there is the new value.
    pub fn lock(&mut self) -> (g: &mut T)
        ensures
            *g == old(self).value(),
            final(self).value() == *final(g),
    {
        &mut self.data
    }

    /// Shared access to the guarded value.
    pub fn read(&self) -> (r: &T)
        ensures
            *r == self.value(),
    {
        &self.data
    }
}

} // verus!
