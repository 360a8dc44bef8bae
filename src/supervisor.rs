//! The live routing state: readers take a shared snapshot, a reload
//! installs a new value, and a snapshot taken earlier stays as it was.
use vstd::prelude::*;
use std::sync::Arc;

verus! {

/// The value currently served, and how many reloads installed one.
pub struct LiveState<T> {
    pub current: Arc<T>,
    pub generation: u64,
}

impl<T> LiveState<T> {
    pub fn new(initial: T) -> (r: LiveState<T>)
        ensures
            *r.current == initial,
            r.generation == 0,
    {
        LiveState { current: Arc::new(initial), generation: 0 }
    }

    /// A shared handle on the value served now.
    pub fn snapshot(&self) -> (r: Arc<T>)
        ensures
            *r == *self.current,
    {
        Arc::clone(&self.current)
    }

    /// Serves `next` from now on.
    pub fn install(&mut self, next: T)
        ensures
            *final(self).current == next,
            final(self).generation == if old(self).generation < u64::MAX {
                (old(self).generation + 1) as u64
            } else {
                old(self).generation
            },
    {
        self.current = Arc::new(next);
        if self.generation < u64::MAX {
            self.generation = self.generation + 1;
        }
    }
}

} // verus!
