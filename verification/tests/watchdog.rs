use snap_coin_node::watchdog::{on_redial, on_tick, RedialAction, TickAction, WATCHDOG_INTERVAL_SECS};

#[test]
fn watchdog_looks_every_thirty_seconds() {
    assert_eq!(WATCHDOG_INTERVAL_SECS, 30);
}

#[test]
fn watchdog_waits_while_a_peer_is_connected() {
    assert_eq!(on_tick(1, 1), TickAction::Wait);
    assert_eq!(on_tick(5, 2), TickAction::Wait);
    assert_eq!(on_tick(usize::MAX, 1), TickAction::Wait);
}

#[test]
fn watchdog_waits_without_a_seed() {
    assert_eq!(on_tick(0, 0), TickAction::Wait);
    assert_eq!(on_tick(3, 0), TickAction::Wait);
}

#[test]
fn watchdog_redials_the_first_seed_of_an_empty_registry() {
    assert_eq!(on_tick(0, 1), TickAction::Redial { seed: 0 });
    assert_eq!(on_tick(0, 4), TickAction::Redial { seed: 0 });
}

#[test]
fn peer_failure_and_watchdog() {
    // The node was dialed to one seed; the seed is gone and the registry empty.
    let mut peers = 0usize;
    assert_eq!(on_tick(peers, 1), TickAction::Redial { seed: 0 });
    // The seed is still down: nothing is registered.
    assert_eq!(on_redial(false), RedialAction::GiveUp);
    assert_eq!(on_tick(peers, 1), TickAction::Redial { seed: 0 });
    // The seed is back: the peer is registered and a download runs.
    assert_eq!(on_redial(true), RedialAction::RegisterAndSync);
    peers += 1;
    assert_eq!(on_tick(peers, 1), TickAction::Wait);
}
