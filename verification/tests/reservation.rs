//! Reservations between placement and launch.

use wren::scheduler::gang::Placement;
use wren::scheduler::topology::PlacementScore;
use wren::controller::reservation::ReservationManager;

fn make_placement(nodes: &[&str]) -> Placement {
    Placement {
        nodes: nodes.iter().map(|s| s.to_string()).collect(),
        score: PlacementScore { points: 1, out_of: 1 },
    }
}

#[test]
fn test_reserve_and_release() {
    let mut mgr = ReservationManager::default();
    let placement = make_placement(&["node-0", "node-1"]);

    mgr.reserve("job-1", &placement, 4000, 8_000_000_000, 2, 0);
    assert_eq!(mgr.active_count(), 1);
    assert!(mgr.has_reservation("job-1"));

    assert!(mgr.release("job-1"));
    assert_eq!(mgr.active_count(), 0);
    assert!(!mgr.has_reservation("job-1"));
}

#[test]
fn test_release_nonexistent() {
    let mut mgr = ReservationManager::default();
    assert!(!mgr.release("nonexistent"));
}

#[test]
fn test_reserved_on_node() {
    let mut mgr = ReservationManager::default();

    mgr.reserve(
        "job-1",
        &make_placement(&["node-0", "node-1"]),
        4000,
        8_000_000_000,
        2,
        0,
    );
    mgr.reserve(
        "job-2",
        &make_placement(&["node-0", "node-2"]),
        2000,
        4_000_000_000,
        1,
        0,
    );

    // node-0 has reservations from both jobs
    let (cpu, mem, gpu) = mgr.reserved_on_node("node-0");
    assert_eq!(cpu, 6000);
    assert_eq!(mem, 12_000_000_000);
    assert_eq!(gpu, 3);

    // node-1 only from job-1
    let (cpu, mem, gpu) = mgr.reserved_on_node("node-1");
    assert_eq!(cpu, 4000);
    assert_eq!(mem, 8_000_000_000);
    assert_eq!(gpu, 2);

    // node-2 only from job-2
    let (cpu, mem, gpu) = mgr.reserved_on_node("node-2");
    assert_eq!(cpu, 2000);
    assert_eq!(mem, 4_000_000_000);
    assert_eq!(gpu, 1);

    // node-3 has no reservations
    let (cpu, mem, gpu) = mgr.reserved_on_node("node-3");
    assert_eq!(cpu, 0);
    assert_eq!(mem, 0);
    assert_eq!(gpu, 0);
}

#[test]
fn test_expire_stale() {
    let mut mgr = ReservationManager::new(10_000_000);
    mgr.reserve(
        "job-1",
        &make_placement(&["node-0"]),
        4000,
        8_000_000_000,
        0,
        1_000_000_000,
    );

    // Reservation should be active immediately
    assert_eq!(mgr.active_count(), 1);
    assert!(mgr.expire_stale(1_000_000_000).is_empty());
    assert!(mgr.expire_stale(1_010_000_000).is_empty());

    let expired = mgr.expire_stale(1_020_000_000);
    assert_eq!(expired, vec!["job-1".to_string()]);
    assert_eq!(mgr.active_count(), 0);
}

#[test]
fn test_multiple_reservations() {
    let mut mgr = ReservationManager::default();
    mgr.reserve(
        "job-1",
        &make_placement(&["node-0"]),
        4000,
        8_000_000_000,
        0,
        0,
    );
    mgr.reserve(
        "job-2",
        &make_placement(&["node-1"]),
        4000,
        8_000_000_000,
        0,
        0,
    );
    mgr.reserve(
        "job-3",
        &make_placement(&["node-2"]),
        4000,
        8_000_000_000,
        0,
        0,
    );

    assert_eq!(mgr.active_count(), 3);

    let mut jobs = mgr.reserved_jobs();
    jobs.sort();
    assert_eq!(jobs, vec!["job-1", "job-2", "job-3"]);

    mgr.release("job-2");
    assert_eq!(mgr.active_count(), 2);
    assert!(!mgr.has_reservation("job-2"));
}

#[test]
fn test_overwrite_reservation() {
    let mut mgr = ReservationManager::default();
    mgr.reserve(
        "job-1",
        &make_placement(&["node-0"]),
        4000,
        8_000_000_000,
        0,
        0,
    );
    mgr.reserve(
        "job-1",
        &make_placement(&["node-1"]),
        2000,
        4_000_000_000,
        0,
        0,
    );

    // Should overwrite — only 1 reservation
    assert_eq!(mgr.active_count(), 1);

    // node-0 should no longer be reserved
    let (cpu, _, _) = mgr.reserved_on_node("node-0");
    assert_eq!(cpu, 0);

    // node-1 should have the new reservation
    let (cpu, _, _) = mgr.reserved_on_node("node-1");
    assert_eq!(cpu, 2000);
}

#[test]
fn reservations_last_a_minute() {
    let mut mgr = ReservationManager::default();
    mgr.reserve("job-1", &make_placement(&["node-0"]), 1, 1, 0, 5);
    assert!(mgr.expire_stale(60_000_000_005).is_empty());
    assert_eq!(mgr.expire_stale(60_000_000_006), vec!["job-1"]);
    mgr.reserve("job-2", &make_placement(&["node-0"]), 1, 1, 0, 100);
    assert!(mgr.expire_stale(0).is_empty());
}

#[test]
fn release_undoes_a_reservation() {
    let mut mgr = ReservationManager::default();
    mgr.reserve("job-1", &make_placement(&["node-0"]), 5, 6, 1, 0);
    mgr.reserve("job-2", &make_placement(&["node-0", "node-1"]), 10, 20, 2, 0);
    assert_eq!(mgr.reserved_on_node("node-0"), (15, 26, 3));
    assert!(mgr.release("job-2"));
    assert_eq!(mgr.reserved_on_node("node-0"), (5, 6, 1));
    assert_eq!(mgr.reserved_on_node("node-1"), (0, 0, 0));
}
