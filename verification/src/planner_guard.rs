//! Planner changes that are made as a whole or not at all.
use crate::planner::ChunkPlanner;
use vstd::prelude::*;

verus! {

/// A planner together with a copy that is changed in its place. Changes are made
/// through `planner`, and `commit` makes them the planner's own. A guard that is let go
/// without that leaves the planner as it was.
pub struct PlannerGuard<'a> {
    /// The planner that is being guarded.
    pub guarded: &'a mut ChunkPlanner,
    /// What it is to become.
    pub changed: ChunkPlanner,
}

impl<'a> PlannerGuard<'a> {
    /// Guard a planner.
    pub fn new(planner: &'a mut ChunkPlanner) -> (guard: Self)
        requires
            planner.wf(),
        ensures
            *guard.guarded == *old(planner),
            *final(guard.guarded) == *final(planner),
            guard.changed.wf(),
            guard.changed.same_plan(old(planner)),
            guard.changed.listing() == old(planner).listing(),
    {
        let changed = planner.clone();
        PlannerGuard { guarded: planner, changed }
    }

    /// The planner, to be changed.
    pub fn planner(&mut self) -> (planner: &mut ChunkPlanner)
        ensures
            *planner == old(self).changed,
            *final(planner) == final(self).changed,
            *final(self).guarded == *old(self).guarded,
            *final(final(self).guarded) == *final(old(self).guarded),
    {
        &mut self.changed
    }

    /// Keep the changes.
    pub fn commit(self)
        ensures
            *final(self.guarded) == self.changed,
    {
        *self.guarded = self.changed;
    }
}

} // verus!
