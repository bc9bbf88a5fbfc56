//! Election of a leader.

use wren::model::time::Timestamp;
use wren::wren::leader_election::{
    decide, election_enabled, is_readable, lease_is_held_by_other, pick_name, resolve_identity,
    resolve_namespace, settle, LeaderElectionConfig, LeaseRead, LeaseSpec, Move, Outcome,
};

// --- resolve_identity ---

#[test]
fn test_resolve_identity_uses_pod_name_env() {
    let id = "my-pod-abc123".to_string();
    assert_eq!(resolve_identity(Some(id), Some("host".to_string())), "my-pod-abc123");
}

#[test]
fn test_resolve_identity_is_non_empty() {
    assert!(!resolve_identity(None, None).is_empty());
    assert!(!resolve_identity(Some(String::new()), Some(String::new())).is_empty());
    assert_eq!(resolve_identity(Some(String::new()), Some("host".to_string())), "host");
}

#[test]
fn test_resolve_identity_uuid_fallback_format() {
    let id = resolve_identity(None, None);
    assert_eq!(id.len(), 36);
    assert_eq!(id.split('-').map(str::len).collect::<Vec<_>>(), vec![8, 4, 4, 4, 12]);
    assert_ne!(id, resolve_identity(None, None));
}

#[test]
fn names_are_picked_in_order() {
    let name = |text: &str| Some(text.to_string());
    assert_eq!(pick_name(name("pod"), name("host")), name("pod"));
    assert_eq!(pick_name(name(""), name("host")), name("host"));
    assert_eq!(pick_name(None, name("")), None);
}

#[test]
fn the_usual_leader_renews_in_time() {
    let config = candidate("a");
    assert!(config.renew_interval < config.lease_duration);
    let read = LeaseRead::Found { lease: make_spec("a", 10, 15) };
    assert!(matches!(decide(&read, false, &candidate("b"), NOW), Move::Wait { .. }));
}

// --- resolve_namespace ---

#[test]
fn test_resolve_namespace_is_non_empty() {
    assert!(!resolve_namespace(None, None).is_empty());
    assert!(!resolve_namespace(Some(String::new()), Some("  \n".to_string())).is_empty());
}

#[test]
fn test_resolve_namespace_default_fallback() {
    assert_eq!(resolve_namespace(None, None), "default");
    assert_eq!(resolve_namespace(Some(String::new()), Some(" \n".to_string())), "default");
}

#[test]
fn namespace_is_set_or_read() {
    let text = |text: &str| Some(text.to_string());
    assert_eq!(resolve_namespace(text("hpc"), text("other")), "hpc");
    assert_eq!(resolve_namespace(None, text(" wren-system\n")), "wren-system");
}

#[test]
fn election_is_on_unless_it_is_switched_off() {
    assert!(election_enabled(None));
    assert!(election_enabled(Some("true")));
    assert!(election_enabled(Some("")));
    assert!(election_enabled(Some("falsely")));
    assert!(!election_enabled(Some("false")));
    assert!(!election_enabled(Some(" FaLSe\n")));
}

// --- LeaderElectionConfig defaults ---

fn make_config() -> LeaderElectionConfig {
    LeaderElectionConfig::new(resolve_identity(None, None), "default".to_string())
}

#[test]
fn test_default_config_lease_duration() {
    let cfg = make_config();
    assert_eq!(cfg.lease_duration, 15);
}

#[test]
fn test_default_config_renew_interval() {
    let cfg = make_config();
    assert_eq!(cfg.renew_interval, 10);
}

#[test]
fn test_default_config_retry_interval() {
    let cfg = make_config();
    assert_eq!(cfg.retry_interval, 2);
}

#[test]
fn test_default_config_lease_name() {
    let cfg = make_config();
    assert_eq!(cfg.lease_name, "wren-controller-leader");
}

#[test]
fn test_default_config_identity_non_empty() {
    let cfg = make_config();
    assert!(!cfg.identity.is_empty());
}

// --- lease_is_held_by_other ---

const NOW: Timestamp = Timestamp { seconds: 1_700_000_000, nanos: 500 };

fn seconds_ago(seconds: i64) -> Timestamp {
    Timestamp { seconds: NOW.seconds - seconds, nanos: NOW.nanos }
}

fn make_spec(holder: &str, renew_secs_ago: i64, duration_secs: i32) -> LeaseSpec {
    LeaseSpec {
        holder_identity: Some(holder.to_string()),
        lease_duration_seconds: Some(duration_secs),
        renew_time: Some(seconds_ago(renew_secs_ago)),
        acquire_time: None,
        lease_transitions: Some(0),
    }
}

#[test]
fn test_lease_held_by_other_active() {
    // Another holder renewed 5s ago, lease duration 15s — still valid.
    let spec = make_spec("other-pod", 5, 15);
    let now = NOW;
    assert!(lease_is_held_by_other(&spec, "my-pod", now));
}

#[test]
fn test_lease_held_by_other_expired() {
    // Another holder renewed 20s ago, lease duration 15s — expired.
    let spec = make_spec("other-pod", 20, 15);
    let now = NOW;
    assert!(!lease_is_held_by_other(&spec, "my-pod", now));
}

#[test]
fn test_lease_held_by_self_not_considered_other() {
    // Spec claims we hold it — not "other".
    let spec = make_spec("my-pod", 5, 15);
    let now = NOW;
    assert!(!lease_is_held_by_other(&spec, "my-pod", now));
}

#[test]
fn test_lease_no_holder_not_considered_other() {
    let spec = LeaseSpec {
        holder_identity: None,
        ..Default::default()
    };
    let now = NOW;
    assert!(!lease_is_held_by_other(&spec, "my-pod", now));
}

#[test]
fn test_lease_empty_holder_not_considered_other() {
    let spec = LeaseSpec {
        holder_identity: Some("".to_string()),
        ..Default::default()
    };
    let now = NOW;
    assert!(!lease_is_held_by_other(&spec, "my-pod", now));
}

#[test]
fn test_lease_boundary_exactly_expired() {
    // Renewed exactly `lease_duration` seconds ago — just expired.
    let spec = make_spec("other-pod", 15, 15);
    let now = NOW;
    assert!(!lease_is_held_by_other(&spec, "my-pod", now));
}

// --- lease_is_held_by_other edge cases ---

#[test]
fn test_lease_no_renew_time_not_held() {
    // Holder set but no renew_time — can't determine expiry, so not held
    let spec = LeaseSpec {
        holder_identity: Some("other-pod".to_string()),
        lease_duration_seconds: Some(15),
        renew_time: None,
        acquire_time: None,
        lease_transitions: Some(0),
    };
    let now = NOW;
    assert!(!lease_is_held_by_other(&spec, "my-pod", now));
}

#[test]
fn test_lease_held_by_other_just_renewed() {
    // Renewed 0 seconds ago, duration 15s — definitely held
    let spec = make_spec("other-pod", 0, 15);
    let now = NOW;
    assert!(lease_is_held_by_other(&spec, "my-pod", now));
}

#[test]
fn test_lease_held_by_other_one_second_left() {
    // Renewed 14s ago, duration 15s — still held (1s left)
    let spec = make_spec("other-pod", 14, 15);
    let now = NOW;
    assert!(lease_is_held_by_other(&spec, "my-pod", now));
}

#[test]
fn test_lease_default_duration_when_none() {
    // lease_duration_seconds is None — defaults to 15
    let spec = LeaseSpec {
        holder_identity: Some("other-pod".to_string()),
        lease_duration_seconds: None, // defaults to 15
        renew_time: Some(seconds_ago(5)),
        acquire_time: None,
        lease_transitions: Some(0),
    };
    let now = NOW;
    // 5s ago with default 15s duration — still held
    assert!(lease_is_held_by_other(&spec, "my-pod", now));
}

// --- election ---

fn candidate(name: &str) -> LeaderElectionConfig {
    LeaderElectionConfig::new(name.to_string(), "default".to_string())
}

fn written(step: Move) -> LeaseSpec {
    match step {
        Move::Write { lease } => lease,
        _ => panic!("expected the lease to be written"),
    }
}

#[test]
fn a_missing_lease_is_made() {
    match decide(&LeaseRead::Missing, false, &candidate("a"), NOW) {
        Move::Create { lease } => assert_eq!(
            lease,
            LeaseSpec {
                holder_identity: Some("a".to_string()),
                lease_duration_seconds: Some(15),
                acquire_time: Some(NOW),
                renew_time: Some(NOW),
                lease_transitions: Some(0),
            }
        ),
        _ => panic!("expected the lease to be made"),
    }
}

#[test]
fn a_lease_excludes_others_until_it_expires() {
    let lease = make_spec("a", 5, 15);
    let read = LeaseRead::Found { lease };
    assert!(matches!(decide(&read, true, &candidate("b"), NOW), Move::Wait { lead: false }));
    let later = Timestamp { seconds: NOW.seconds + 10, nanos: NOW.nanos };
    let taken = written(decide(&read, false, &candidate("b"), later));
    assert_eq!(taken.holder_identity.as_deref(), Some("b"));
    assert_eq!(taken.acquire_time, Some(later));
    assert_eq!(taken.lease_transitions, Some(1));
    let before = Timestamp { seconds: later.seconds, nanos: later.nanos - 1 };
    assert!(matches!(decide(&read, false, &candidate("b"), before), Move::Wait { lead: false }));
}

#[test]
fn a_renewal_keeps_the_acquisition() {
    let mut lease = make_spec("a", 100, 15);
    lease.acquire_time = Some(seconds_ago(500));
    lease.lease_transitions = Some(4);
    let read = LeaseRead::Found { lease };
    let renewed = written(decide(&read, true, &candidate("a"), NOW));
    assert_eq!(renewed.acquire_time, Some(seconds_ago(500)));
    assert_eq!(renewed.renew_time, Some(NOW));
    assert_eq!(renewed.lease_transitions, Some(4));
}

#[test]
fn an_own_lease_is_always_renewed() {
    let mut lease = make_spec("a", 5, -15);
    lease.lease_transitions = Some(i32::MAX);
    assert!(is_readable(&lease, "a", NOW));
    assert!(!is_readable(&lease, "b", NOW));
    lease.lease_duration_seconds = Some(15);
    assert!(is_readable(&lease, "b", NOW));
    let later = Timestamp { seconds: NOW.seconds + 10, nanos: NOW.nanos };
    assert!(!is_readable(&lease, "b", later));
    let read = LeaseRead::Found { lease };
    assert!(matches!(decide(&read, false, &candidate("b"), NOW), Move::Wait { lead: false }));
    let renewed = written(decide(&read, true, &candidate("a"), later));
    assert_eq!(renewed.lease_transitions, Some(i32::MAX));
}

#[test]
fn a_failed_read_changes_nothing() {
    assert!(matches!(
        decide(&LeaseRead::Failed, true, &candidate("a"), NOW),
        Move::Wait { lead: true }
    ));
    assert!(matches!(
        decide(&LeaseRead::Failed, false, &candidate("a"), NOW),
        Move::Wait { lead: false }
    ));
}

#[test]
fn leadership_follows_the_outcome() {
    let config = candidate("a");
    assert_eq!(settle(Outcome::Created, false, &config), (true, 10));
    assert_eq!(settle(Outcome::Written, false, &config), (true, 10));
    assert_eq!(settle(Outcome::NotWritten, true, &config), (false, 2));
    assert_eq!(settle(Outcome::NotCreated, true, &config), (true, 2));
    assert_eq!(settle(Outcome::NotCreated, false, &config), (false, 2));
    assert_eq!(settle(Outcome::Waited, true, &config), (true, 2));
}

#[test]
fn long_leases_wrap_around() {
    let mut config = candidate("a");
    config.lease_duration = 0x1_0000_0001;
    let lease = written(decide(
        &LeaseRead::Found { lease: LeaseSpec::default() },
        false,
        &config,
        NOW,
    ));
    assert_eq!(lease.lease_duration_seconds, Some(1));
    config.lease_duration = 0x8000_0000;
    let lease = written(decide(
        &LeaseRead::Found { lease: LeaseSpec::default() },
        false,
        &config,
        NOW,
    ));
    assert_eq!(lease.lease_duration_seconds, Some(i32::MIN));
}
