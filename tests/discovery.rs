use aranet::discovery::{
    Discovery, DiscoveryAction, DiscoveryEvent, RSSI_ATTEMPTS, RSSI_POLL_INTERVAL_MS,
};
use aranet::error::Error;

const A: [u8; 6] = [0xED, 0x12, 0x89, 0x6C, 0x08, 0x37];
const B: [u8; 6] = [0x00, 0x11, 0x22, 0x33, 0x44, 0x55];
const C: [u8; 6] = [0xAA, 0xBB, 0xCC, 0xDD, 0xEE, 0xFF];
const STRANGER: [u8; 6] = [1, 2, 3, 4, 5, 6];

fn delivered(actions: &[DiscoveryAction]) -> Vec<[u8; 6]> {
    actions
        .iter()
        .filter_map(|a| match a {
            DiscoveryAction::Deliver(x) => Some(*x),
            _ => None,
        })
        .collect()
}

#[test]
fn every_target_delivered_once_despite_duplicate_adverts() {
    let mut d = Discovery::new(&[A, B, C], 15000);
    let mut actions = Vec::new();
    for t in [A, B, C] {
        for _ in 0..3 {
            actions.push(d.step(DiscoveryEvent::Advertised(t)));
            actions.push(d.step(DiscoveryEvent::Advertised(STRANGER)));
        }
    }
    for t in [A, B, C] {
        actions.push(d.step(DiscoveryEvent::Rssi(t, true)));
        actions.push(d.step(DiscoveryEvent::Advertised(t)));
        actions.push(d.step(DiscoveryEvent::Connected(t, true)));
        actions.push(d.step(DiscoveryEvent::Advertised(t)));
        actions.push(d.step(DiscoveryEvent::Rssi(t, true)));
        actions.push(d.step(DiscoveryEvent::Connected(t, true)));
    }
    assert_eq!(delivered(&actions), vec![A, B, C]);
    assert!(d.found());
    assert_eq!(d.step(DiscoveryEvent::Clock(20000)), DiscoveryAction::Ignore);
}

#[test]
fn advert_of_target_starts_signal_probe() {
    let mut d = Discovery::new(&[A], 15000);
    assert_eq!(d.step(DiscoveryEvent::Advertised(A)), DiscoveryAction::PollRssi(A));
    assert_eq!(d.step(DiscoveryEvent::Advertised(A)), DiscoveryAction::Ignore);
    assert_eq!(
        d.step(DiscoveryEvent::Rssi(A, false)),
        DiscoveryAction::PollRssiAfter(A, RSSI_POLL_INTERVAL_MS)
    );
    assert_eq!(d.step(DiscoveryEvent::Rssi(A, true)), DiscoveryAction::Connect(A));
    assert_eq!(d.step(DiscoveryEvent::Connected(A, true)), DiscoveryAction::Deliver(A));
}

#[test]
fn stranger_adverts_are_ignored() {
    let mut d = Discovery::new(&[A], 15000);
    assert_eq!(d.step(DiscoveryEvent::Advertised(STRANGER)), DiscoveryAction::Ignore);
    assert_eq!(d.step(DiscoveryEvent::Rssi(STRANGER, true)), DiscoveryAction::Ignore);
    assert_eq!(d.step(DiscoveryEvent::Connected(STRANGER, true)), DiscoveryAction::Ignore);
}

#[test]
fn probe_gives_up_after_retry_limit_and_may_restart() {
    let mut d = Discovery::new(&[A], 15000);
    assert_eq!(d.step(DiscoveryEvent::Advertised(A)), DiscoveryAction::PollRssi(A));
    for _ in 1..RSSI_ATTEMPTS {
        assert_eq!(
            d.step(DiscoveryEvent::Rssi(A, false)),
            DiscoveryAction::PollRssiAfter(A, RSSI_POLL_INTERVAL_MS)
        );
    }
    assert_eq!(d.step(DiscoveryEvent::Rssi(A, false)), DiscoveryAction::Abandon(A));
    assert_eq!(d.step(DiscoveryEvent::Rssi(A, true)), DiscoveryAction::Ignore);
    assert_eq!(d.step(DiscoveryEvent::Advertised(A)), DiscoveryAction::PollRssi(A));
}

#[test]
fn failed_connection_abandons_attempt() {
    let mut d = Discovery::new(&[A], 15000);
    d.step(DiscoveryEvent::Advertised(A));
    d.step(DiscoveryEvent::Rssi(A, true));
    assert_eq!(d.step(DiscoveryEvent::Connected(A, false)), DiscoveryAction::Abandon(A));
    assert!(!d.found());
    assert_eq!(d.step(DiscoveryEvent::Advertised(A)), DiscoveryAction::PollRssi(A));
}

#[test]
fn search_times_out_at_deadline_not_before() {
    let mut d = Discovery::new(&[A, B], 1000);
    assert_eq!(d.step(DiscoveryEvent::Advertised(STRANGER)), DiscoveryAction::Ignore);
    assert_eq!(d.step(DiscoveryEvent::Clock(0)), DiscoveryAction::Ignore);
    assert_eq!(d.step(DiscoveryEvent::Clock(999)), DiscoveryAction::Ignore);
    assert!(!d.timed_out());
    assert_eq!(
        d.step(DiscoveryEvent::Clock(1000)),
        DiscoveryAction::Fail(Error::DeviceSearchTimeout)
    );
    assert!(d.timed_out());
    assert_eq!(d.step(DiscoveryEvent::Clock(1200)), DiscoveryAction::Ignore);
    assert_eq!(d.step(DiscoveryEvent::Advertised(A)), DiscoveryAction::Ignore);
}

#[test]
fn repeated_configured_address_is_searched_once() {
    let mut d = Discovery::new(&[A, A], 15000);
    d.step(DiscoveryEvent::Advertised(A));
    d.step(DiscoveryEvent::Rssi(A, true));
    assert_eq!(d.step(DiscoveryEvent::Connected(A, true)), DiscoveryAction::Deliver(A));
    assert_eq!(d.step(DiscoveryEvent::Advertised(A)), DiscoveryAction::Ignore);
}

#[test]
fn empty_target_list_times_out() {
    let mut d = Discovery::new(&[], 10);
    assert_eq!(d.step(DiscoveryEvent::Advertised(A)), DiscoveryAction::Ignore);
    assert_eq!(d.step(DiscoveryEvent::Clock(10)), DiscoveryAction::Fail(Error::DeviceSearchTimeout));
}
