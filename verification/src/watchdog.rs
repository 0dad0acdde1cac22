//! The watchdog that brings a node without peers back to its seed.

use vstd::prelude::*;

verus! {

/// Seconds between two looks of the watchdog at the peer registry.
pub const WATCHDOG_INTERVAL_SECS: u64 = 30;

/// What the watchdog does after a look at the registry.
#[derive(Clone, Copy, Debug, PartialEq, Eq)]
pub enum TickAction {
    /// Nothing; look again after the interval.
    Wait,
    /// Dial the seed peer at this position of the configured list.
    Redial { seed: usize },
}

/// What the watchdog does once a redial has ended.
#[derive(Clone, Copy, Debug, PartialEq, Eq)]
pub enum RedialAction {
    /// Enter the peer in the registry and run a block download against it.
    RegisterAndSync,
    /// Note the failure and look again after the interval.
    GiveUp,
}

/// What a look at a registry of `peers` connected peers asks for, with
/// `seeds` seed peers configured: the first seed is redialed where the
/// registry is empty and there is a seed to dial.
pub open spec fn tick_action(peers: usize, seeds: usize) -> TickAction {
    if peers == 0 && seeds > 0 {
        TickAction::Redial { seed: 0 }
    } else {
        TickAction::Wait
    }
}

/// What follows a redial: only a peer whose connection was established is
/// registered and synced against.
pub open spec fn redial_action(connected: bool) -> RedialAction {
    if connected {
        RedialAction::RegisterAndSync
    } else {
        RedialAction::GiveUp
    }
}

/// Decides what to do after the interval has passed.
pub fn on_tick(peers: usize, seeds: usize) -> (action: TickAction)
    ensures
        action == tick_action(peers, seeds),
        action matches TickAction::Redial { seed } ==> seed < seeds,
{
    if peers == 0 && seeds > 0 {
        TickAction::Redial { seed: 0 }
    } else {
        TickAction::Wait
    }
}

/// Decides what to do once a redial has ended.
pub fn on_redial(connected: bool) -> (action: RedialAction)
    ensures
        action == redial_action(connected),
{
    if connected {
        RedialAction::RegisterAndSync
    } else {
        RedialAction::GiveUp
    }
}

} // verus!
