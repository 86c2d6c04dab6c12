//! Giving way to other tasks.
use crate::aggregator::Polled;
use vstd::prelude::*;

verus! {

/// Gives way once: the first poll finds nothing yet and is to be followed by another,
/// which finds it done.
#[derive(Debug)]
pub struct YieldNow(pub bool);

/// Gives way once.
pub fn yield_now() -> (step: YieldNow)
    ensures
        step == YieldNow(false),
{
    YieldNow(false)
}

impl YieldNow {
    /// What a poll finds. After the first one the poller is to be woken at once.
    pub fn poll(&mut self) -> (polled: Polled<()>)
        ensures
            *final(self) == YieldNow(true),
            polled == if old(self).0 {
                Polled::Ready(Some(()))
            } else {
                Polled::Pending
            },
    {
        if !self.0 {
            self.0 = true;
            Polled::Pending
        } else {
            Polled::Ready(Some(()))
        }
    }
}

} // verus!
