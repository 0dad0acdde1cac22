//! The node's sync flag, kept as a count of the downloads under way.

use vstd::prelude::*;

verus! {

/// Counts the block downloads that are under way. The node is syncing
/// exactly while there is one.
#[derive(Debug)]
pub struct SyncTracker {
    running: usize,
}

impl SyncTracker {
    /// The number of downloads under way.
    pub closed spec fn running(&self) -> nat {
        self.running as nat
    }

    /// Whether the node is syncing.
    pub open spec fn syncing(&self) -> bool {
        self.running() > 0
    }

    /// A tracker with no download under way.
    pub fn new() -> (t: SyncTracker)
        ensures
            t.running() == 0,
            !t.syncing(),
    {
        SyncTracker { running: 0 }
    }

    /// Whether the node is syncing: whether at least one download is under
    /// way.
    pub fn is_syncing(&self) -> (r: bool)
        ensures
            r == self.syncing(),
            r == (self.running() > 0),
    {
        self.running > 0
    }

    /// Records that a download starts. Returns `false`, and records
    /// nothing, where the count cannot grow.
    pub fn begin(&mut self) -> (started: bool)
        ensures
            started == (old(self).running() < usize::MAX),
            started ==> final(self).running() == old(self).running() + 1,
            !started ==> final(self).running() == old(self).running(),
            final(self).syncing(),
    {
        if self.running < usize::MAX {
            self.running = self.running + 1;
            true
        } else {
            false
        }
    }

    /// Records that a download is over, however it ended. The flag clears
    /// exactly when this was the last one under way.
    pub fn finish(&mut self)
        ensures
            final(self).running() == if old(self).running() == 0 {
                0
            } else {
                old(self).running() - 1
            },
            !final(self).syncing() <==> old(self).running() <= 1,
    {
        if self.running > 0 {
            self.running = self.running - 1;
        }
    }
}

} // verus!
