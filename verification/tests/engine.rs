use std::collections::HashSet;

use lumencache::config::ExpertSettings;
use lumencache::controller::{command_timeout, Worker};
use lumencache::discovery::{next_id, DiscoveryRun};
use lumencache::protocol::encoder::{ActivateSceneCommand, Commands, GetValueCommand};
use lumencache::throttle::Throttle;

#[test]
fn test_default_expert_settings() {
    let settings = ExpertSettings::default();
    assert_eq!(settings.max_id, 240);
    assert_eq!(settings.tx_delay_ms, 200);
    assert_eq!(settings.response_timeout_ms, 500);
}

#[test]
fn test_command_timeouts() {
    assert_eq!(command_timeout(&Commands::Hail, 500), 5000);
    assert_eq!(
        command_timeout(&Commands::ActivateScene(ActivateSceneCommand { id: 1 }), 500),
        3000
    );
    assert_eq!(
        command_timeout(&Commands::GetValue(GetValueCommand { id: 1 }), 750),
        750
    );
}

#[test]
fn test_throttle_spacing() {
    let mut throttle = Throttle::new(200);
    // The very first send never waits.
    assert_eq!(throttle.throttle(1000), 0);
    throttle.reset_start(1000);
    // 80 ms after the last send, 120 ms are still owed.
    assert_eq!(throttle.throttle(1080), 120);
    // After a full interval nothing is owed.
    assert_eq!(throttle.throttle(1200), 0);
    assert_eq!(throttle.throttle(1500), 0);
}

#[test]
fn test_throttle_timeout_does_not_reset_pacing() {
    let mut throttle = Throttle::new(200);
    throttle.reset_start(1000);
    // A timed-out request never calls reset_start, so the reference point
    // stays at the last completed send.
    assert_eq!(throttle.throttle(1100), 100);
    assert_eq!(throttle.throttle(1150), 50);
}

#[test]
fn test_worker_single_in_flight() {
    let mut worker = Worker::new();
    assert!(worker.begin_send());
    // While a command is in flight no second send is granted.
    assert!(!worker.begin_send());
    assert!(!worker.begin_send());
    worker.resolve();
    assert!(worker.begin_send());
}

#[test]
fn test_next_id_skips_known_addresses() {
    let mut known: HashSet<u8> = HashSet::new();
    known.insert(5);
    known.insert(6);
    known.insert(8);
    assert_eq!(next_id(&mut known), Some(7));
    assert_eq!(next_id(&mut known), Some(9));
    assert!(known.contains(&7));
}

#[test]
fn test_next_id_exhausts_range() {
    let mut known: HashSet<u8> = HashSet::new();
    for id in 5..=240 {
        known.insert(id);
    }
    assert_eq!(next_id(&mut known), None);
}

#[test]
fn test_discovery_round_assigns_distinct_free_addresses() {
    let mut run = DiscoveryRun::new(7);
    // Enumeration: 5 answers, 6 times out, 7 answers.
    assert_eq!(run.next_probe(), Some(5));
    run.record_probe(Some(5));
    assert_eq!(run.next_probe(), Some(6));
    run.record_probe(None);
    assert_eq!(run.next_probe(), Some(7));
    run.record_probe(Some(7));
    assert_eq!(run.next_probe(), None);
    // Assignment: the lowest free addresses, never an enumerated one,
    // pairwise distinct.
    assert_eq!(run.claim_address(), Some(6));
    assert_eq!(run.claim_address(), Some(8));
    assert_eq!(run.claim_address(), Some(9));
    assert!(!run.is_done());
    run.finish();
    assert!(run.is_done());
}

#[test]
fn test_discovery_round_ends_when_range_is_full() {
    let mut run = DiscoveryRun::new(4);
    // An empty probe range goes straight to assignment.
    assert_eq!(run.next_probe(), None);
    let mut seen: HashSet<u8> = HashSet::new();
    loop {
        match run.claim_address() {
            Some(id) => {
                assert!((5..=240).contains(&id));
                assert!(seen.insert(id));
            },
            None => break,
        }
    }
    assert_eq!(seen.len(), 236);
    assert!(run.is_done());
}
