//! A leak check helper: an explicit registry counting how many tracked
//! instances have been created and how many have been dropped, so a test
//! can assert how many are still alive.

use vstd::prelude::*;

verus! {

/// The registry.  Creations and drops are recorded against it, and it
/// answers how many recorded instances are still living.
pub struct LifetimeTracker {
    created: usize,
    dropped: usize,
}

impl LifetimeTracker {
    pub closed spec fn created(&self) -> usize {
        self.created
    }

    pub closed spec fn dropped(&self) -> usize {
        self.dropped
    }

    /// No more drops than creations were recorded.
    pub open spec fn wf(&self) -> bool {
        self.dropped() <= self.created()
    }

    /// A fresh registry with nothing recorded.
    pub fn new() -> (r: LifetimeTracker)
        ensures
            r.created() == 0,
            r.dropped() == 0,
            r.wf(),
    {
        LifetimeTracker { created: 0, dropped: 0 }
    }

    /// Resets the registry: tracking starts over from zero.
    pub fn start_tracking(&mut self)
        ensures
            final(self).created() == 0,
            final(self).dropped() == 0,
            final(self).wf(),
    {
        self.created = 0;
        self.dropped = 0;
    }

    /// Records one instance coming alive.
    pub fn track_creation(&mut self)
        requires
            old(self).created() < usize::MAX,
        ensures
            final(self).created() == old(self).created() + 1,
            final(self).dropped() == old(self).dropped(),
    {
        self.created = self.created + 1;
    }

    /// Records one instance being dropped.
    pub fn track_drop(&mut self)
        requires
            old(self).dropped() < old(self).created(),
        ensures
            final(self).dropped() == old(self).dropped() + 1,
            final(self).created() == old(self).created(),
    {
        self.dropped = self.dropped + 1;
    }

    /// How many recorded instances are still alive: the creations not yet
    /// matched by a drop.
    pub fn number_of_living_instances(&self) -> (r: usize)
        requires
            self.wf(),
        ensures
            r == self.created() - self.dropped(),
    {
        self.created - self.dropped
    }
}

} // verus!
