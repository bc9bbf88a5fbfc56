//! What the controllers do with a job in each of its states.

use wren::bubo;
use wren::controller::booking::{book, is_bookable, release_job};
use wren::controller::reconcile::{
    advance, launch_failed, launch_succeeded, settle_allocations, stage_of, JobLookup, Stage,
    StatusPatch, Step,
};
use wren::controller::reservation::ReservationManager;
use wren::controller::walltime::{
    check_walltime_at, should_cleanup_at, span_exceeds, ttl_verdict, walltime_verdict,
};
use wren::model::backend::{BackendJobStatus, LaunchResult};
use wren::model::cluster::ClusterState;
use wren::model::crd::{ContainerSpec, MPIJobSpec, MPIJobStatus, TopologySpec};
use wren::model::time::{Moment, Timestamp};
use wren::model::types::{ExecutionBackendType, JobState, NodeAllocation, NodeResources};
use wren::model::walltime::WalltimeDuration;
use wren::string_map::StringMap;
use wren::wren::crd::{ReaperSpec, UserIdentity, WrenJobSpec, WrenJobStatus};
use wren::wren::reconciler::{
    check_walltime_exceeded, collect_allocated_job_names, handle_pending, handle_running,
    handle_scheduling, handle_terminal, identified, should_cleanup_pods, validate_job_spec, Attempt,
};

fn make_spec(
    nodes: u32,
    backend: ExecutionBackendType,
    container: Option<ContainerSpec>,
) -> WrenJobSpec {
    WrenJobSpec {
        queue: "default".to_string(),
        priority: 50,
        walltime: None,
        nodes,
        tasks_per_node: 1,
        backend,
        container,
        reaper: None,
        mpi: None,
        topology: None,
        dependencies: vec![],
        project: None,
    }
}

fn make_container_spec() -> ContainerSpec {
    ContainerSpec {
        image: "busybox".to_string(),
        command: vec![],
        args: vec![],
        resources: None,
        host_network: false,
        volume_mounts: vec![],
        env: vec![],
    }
}

// --- validate_job_spec tests ---

#[test]
fn test_validate_job_spec_valid() {
    let spec = make_spec(
        2,
        ExecutionBackendType::Container,
        Some(make_container_spec()),
    );
    assert!(validate_job_spec(&spec).is_ok());
}

#[test]
fn test_validate_job_spec_zero_nodes() {
    let spec = make_spec(
        0,
        ExecutionBackendType::Container,
        Some(make_container_spec()),
    );
    let err = validate_job_spec(&spec).unwrap_err();
    assert!(err.contains("nodes must be > 0"));
}

#[test]
fn test_validate_job_spec_container_backend_no_spec() {
    let spec = make_spec(2, ExecutionBackendType::Container, None);
    let err = validate_job_spec(&spec).unwrap_err();
    assert!(err.contains("container spec required"));
}

#[test]
fn test_validate_job_spec_reaper_backend_no_container_ok() {
    let spec = make_spec(2, ExecutionBackendType::Reaper, None);
    assert!(validate_job_spec(&spec).is_ok());
}

#[test]
fn test_validate_job_spec_single_node() {
    let spec = make_spec(
        1,
        ExecutionBackendType::Container,
        Some(make_container_spec()),
    );
    assert!(validate_job_spec(&spec).is_ok());
}

// --- check_walltime_exceeded tests ---

#[test]
fn test_check_walltime_no_walltime() {
    assert!(check_walltime_exceeded(None, Some("2024-01-01T00:00:00Z")).is_none());
}

#[test]
fn test_check_walltime_no_start_time() {
    assert!(check_walltime_exceeded(Some("1h"), None).is_none());
}

#[test]
fn test_check_walltime_not_exceeded() {
    // Start time is now, walltime is 1h - should not be exceeded
    let now = chrono::Utc::now().to_rfc3339();
    assert!(check_walltime_exceeded(Some("1h"), Some(&now)).is_none());
}

#[test]
fn test_check_walltime_exceeded() {
    // Start time is 2 hours ago, walltime is 1h - should be exceeded
    let two_hours_ago = (chrono::Utc::now() - chrono::Duration::hours(2)).to_rfc3339();
    let result = check_walltime_exceeded(Some("1h"), Some(&two_hours_ago));
    assert!(result.is_some());
    assert!(result.unwrap().contains("walltime of"));
}

#[test]
fn test_check_walltime_invalid_walltime_string() {
    let now = chrono::Utc::now().to_rfc3339();
    assert!(check_walltime_exceeded(Some("not-a-duration"), Some(&now)).is_none());
}

#[test]
fn test_check_walltime_invalid_start_time() {
    assert!(check_walltime_exceeded(Some("1h"), Some("not-a-timestamp")).is_none());
}

#[test]
fn test_check_walltime_both_none() {
    assert!(check_walltime_exceeded(None, None).is_none());
}

// --- should_cleanup_pods tests ---

#[test]
fn test_should_cleanup_no_times() {
    let status = WrenJobStatus::default();
    assert!(!should_cleanup_pods(&status));
}

#[test]
fn test_should_cleanup_recent_completion() {
    let status = WrenJobStatus {
        completion_time: Some(chrono::Utc::now().to_rfc3339()),
        ..Default::default()
    };
    assert!(!should_cleanup_pods(&status));
}

#[test]
fn test_should_cleanup_old_completion() {
    // 25 hours ago (TTL is 24h)
    let old = (chrono::Utc::now() - chrono::Duration::hours(25)).to_rfc3339();
    let status = WrenJobStatus {
        completion_time: Some(old),
        ..Default::default()
    };
    assert!(should_cleanup_pods(&status));
}

#[test]
fn test_should_cleanup_falls_back_to_start_time() {
    let old = (chrono::Utc::now() - chrono::Duration::hours(25)).to_rfc3339();
    let status = WrenJobStatus {
        completion_time: None,
        start_time: Some(old),
        ..Default::default()
    };
    assert!(should_cleanup_pods(&status));
}

#[test]
fn test_should_cleanup_invalid_time() {
    let status = WrenJobStatus {
        completion_time: Some("invalid".to_string()),
        ..Default::default()
    };
    assert!(!should_cleanup_pods(&status));
}

// --- collect_allocated_job_names tests ---

#[test]
fn test_collect_allocated_job_names_empty() {
    let cluster = ClusterState::default();
    let names = collect_allocated_job_names(&cluster);
    assert!(names.is_empty());
}

#[test]
fn test_collect_allocated_job_names_with_allocations() {
    let mut cluster = ClusterState::default();
    cluster.allocations.insert(
        "node-0".to_string(),
        NodeAllocation {
            used_cpu_millis: 1000,
            used_memory_bytes: 1_000_000_000,
            used_gpus: 0,
            jobs: vec!["job-a".to_string(), "job-b".to_string()],
        },
    );
    cluster.allocations.insert(
        "node-1".to_string(),
        NodeAllocation {
            used_cpu_millis: 1000,
            used_memory_bytes: 1_000_000_000,
            used_gpus: 0,
            jobs: vec!["job-a".to_string()],
        },
    );
    let mut names = collect_allocated_job_names(&cluster);
    names.sort();
    assert_eq!(names, vec!["job-a", "job-b"]);
}

#[test]
fn test_collect_allocated_job_names_single_job_single_node() {
    let mut cluster = ClusterState::default();
    cluster.allocations.insert(
        "node-0".to_string(),
        NodeAllocation {
            used_cpu_millis: 2000,
            used_memory_bytes: 2_000_000_000,
            used_gpus: 4,
            jobs: vec!["job-gpu".to_string()],
        },
    );
    let names = collect_allocated_job_names(&cluster);
    assert_eq!(names.len(), 1);
    assert_eq!(names[0], "job-gpu");
}

#[test]
fn test_collect_allocated_job_names_node_with_empty_job_list() {
    let mut cluster = ClusterState::default();
    cluster.allocations.insert(
        "node-0".to_string(),
        NodeAllocation {
            used_cpu_millis: 0,
            used_memory_bytes: 0,
            used_gpus: 0,
            jobs: vec![],
        },
    );
    let names = collect_allocated_job_names(&cluster);
    assert!(names.is_empty());
}

#[test]
fn test_collect_allocated_job_names_deduplicates_same_job_across_nodes() {
    // A multi-node gang job appears in allocations on every node it uses —
    // the result must contain it only once.
    let mut cluster = ClusterState::default();
    for node in ["node-0", "node-1", "node-2", "node-3"] {
        cluster.allocations.insert(
            node.to_string(),
            NodeAllocation {
                used_cpu_millis: 1000,
                used_memory_bytes: 1_000_000_000,
                used_gpus: 0,
                jobs: vec!["gang-job".to_string()],
            },
        );
    }
    let names = collect_allocated_job_names(&cluster);
    assert_eq!(names.len(), 1);
    assert_eq!(names[0], "gang-job");
}

// --- validate_job_spec additional edge-case tests ---

#[test]
fn test_validate_job_spec_reaper_backend_with_reaper_spec_ok() {
    // Providing a ReaperSpec is optional for the reaper backend but should
    // not cause validation to fail when it is present.
    let mut spec = make_spec(4, ExecutionBackendType::Reaper, None);
    spec.reaper = Some(ReaperSpec {
        script: Some("#!/bin/bash\n./app".to_string()),
        ..Default::default()
    });
    assert!(validate_job_spec(&spec).is_ok());
}

#[test]
fn test_validate_job_spec_container_backend_with_both_specs_ok() {
    // Having both a container spec and a reaper spec set is unusual but the
    // validator only enforces that the container spec is present for the
    // Container backend — extra fields are not rejected.
    let mut spec = make_spec(
        2,
        ExecutionBackendType::Container,
        Some(make_container_spec()),
    );
    spec.reaper = Some(ReaperSpec::default());
    assert!(validate_job_spec(&spec).is_ok());
}

#[test]
fn test_validate_job_spec_large_node_count_ok() {
    // The validator has no upper-bound check; large node counts are allowed
    // and will fail later at scheduling time if the cluster is too small.
    let spec = make_spec(
        1024,
        ExecutionBackendType::Container,
        Some(make_container_spec()),
    );
    assert!(validate_job_spec(&spec).is_ok());
}

#[test]
fn test_validate_job_spec_error_message_mentions_container_spec() {
    // Verify the error text is actionable — it tells the user what is missing.
    let spec = make_spec(1, ExecutionBackendType::Container, None);
    let err = validate_job_spec(&spec).unwrap_err();
    assert!(
        err.contains("container spec"),
        "expected error to mention 'container spec', got: {err}"
    );
}

#[test]
fn test_validate_job_spec_error_message_mentions_nodes() {
    // Verify the zero-nodes error is actionable.
    let spec = make_spec(0, ExecutionBackendType::Reaper, None);
    let err = validate_job_spec(&spec).unwrap_err();
    assert!(
        err.contains("nodes"),
        "expected error to mention 'nodes', got: {err}"
    );
}

// --- check_walltime_exceeded additional format/boundary tests ---

#[test]
fn test_check_walltime_exceeded_seconds_format() {
    // "3600" (bare integer) is a valid walltime meaning 3600 seconds.
    // A job started 2 hours ago has exceeded a 3600-second walltime.
    let two_hours_ago = (chrono::Utc::now() - chrono::Duration::hours(2)).to_rfc3339();
    let result = check_walltime_exceeded(Some("3600"), Some(&two_hours_ago));
    assert!(
        result.is_some(),
        "bare-seconds walltime should be recognised"
    );
}

#[test]
fn test_check_walltime_not_exceeded_seconds_format() {
    // A job started just now has not exceeded a 1-hour walltime expressed
    // as bare seconds.
    let now = chrono::Utc::now().to_rfc3339();
    assert!(check_walltime_exceeded(Some("3600"), Some(&now)).is_none());
}

#[test]
fn test_check_walltime_exceeded_days_format() {
    // "1d" = 86400 s. A job started 2 days ago should be exceeded.
    let two_days_ago = (chrono::Utc::now() - chrono::Duration::days(2)).to_rfc3339();
    let result = check_walltime_exceeded(Some("1d"), Some(&two_days_ago));
    assert!(result.is_some(), "days walltime should be recognised");
}

#[test]
fn test_check_walltime_exceeded_mixed_format() {
    // "1h30m" = 5400 s. A job started 2 hours ago should be exceeded.
    let two_hours_ago = (chrono::Utc::now() - chrono::Duration::hours(2)).to_rfc3339();
    let result = check_walltime_exceeded(Some("1h30m"), Some(&two_hours_ago));
    assert!(result.is_some());
}

#[test]
fn test_check_walltime_not_exceeded_mixed_format() {
    // "2h30m" = 9000 s. A job started 1 hour ago should NOT be exceeded.
    let one_hour_ago = (chrono::Utc::now() - chrono::Duration::hours(1)).to_rfc3339();
    assert!(check_walltime_exceeded(Some("2h30m"), Some(&one_hour_ago)).is_none());
}

#[test]
fn test_check_walltime_exceeded_message_contains_duration() {
    // The returned message must include the walltime string so operators can
    // understand why the job was terminated.
    let two_hours_ago = (chrono::Utc::now() - chrono::Duration::hours(2)).to_rfc3339();
    let msg = check_walltime_exceeded(Some("1h"), Some(&two_hours_ago)).unwrap();
    assert!(
        msg.contains("walltime"),
        "message should mention 'walltime', got: {msg}"
    );
}

// --- should_cleanup_pods additional boundary tests ---

#[test]
fn test_should_cleanup_completion_time_takes_precedence_over_start_time() {
    // completion_time is recent (should NOT trigger cleanup) but start_time
    // is old. completion_time must win — pods should be kept.
    let old = (chrono::Utc::now() - chrono::Duration::hours(25)).to_rfc3339();
    let recent = chrono::Utc::now().to_rfc3339();
    let status = WrenJobStatus {
        completion_time: Some(recent),
        start_time: Some(old),
        ..Default::default()
    };
    assert!(
        !should_cleanup_pods(&status),
        "recent completion_time should prevent cleanup even if start_time is old"
    );
}

#[test]
fn test_should_cleanup_pods_just_under_ttl() {
    // 23 hours — within the 24-hour TTL — must not trigger cleanup.
    let just_under = (chrono::Utc::now() - chrono::Duration::hours(23)).to_rfc3339();
    let status = WrenJobStatus {
        completion_time: Some(just_under),
        ..Default::default()
    };
    assert!(!should_cleanup_pods(&status));
}

#[test]
fn test_should_cleanup_pods_well_past_ttl() {
    // 48 hours — well past the 24-hour TTL — must trigger cleanup.
    let two_days_ago = (chrono::Utc::now() - chrono::Duration::hours(48)).to_rfc3339();
    let status = WrenJobStatus {
        completion_time: Some(two_days_ago),
        ..Default::default()
    };
    assert!(should_cleanup_pods(&status));
}


// --- the lifecycle ---

fn make_cluster_with_nodes(n: usize) -> ClusterState {
    let mut cluster = ClusterState::default();
    for i in 0..n {
        cluster.nodes.push(NodeResources {
            name: format!("node-{}", i),
            allocatable_cpu_millis: 4000,
            allocatable_memory_bytes: 4_000_000_000,
            allocatable_gpus: 0,
            labels: StringMap::new(),
            switch_group: None,
            rack: None,
        });
    }
    cluster
}

fn make_test_user() -> UserIdentity {
    UserIdentity {
        username: "testuser".to_string(),
        uid: 1001,
        gid: 1001,
        supplemental_groups: vec![],
        home_dir: None,
        default_project: None,
    }
}

fn container_job(nodes: u32) -> WrenJobSpec {
    make_spec(nodes, ExecutionBackendType::Container, Some(make_container_spec()))
}

fn failed(step: &Step) -> Option<&str> {
    match &step.patch {
        Some(StatusPatch::State { state: JobState::Failed, message: Some(reason) }) => {
            Some(reason)
        }
        _ => None,
    }
}

fn at_hours(hours: i64) -> Timestamp {
    Timestamp { seconds: 1_700_000_000 + hours * 3600, nanos: 0 }
}

fn moment(hours: i64) -> Moment {
    Moment::at(at_hours(hours)).unwrap()
}

const START: &str = "2023-11-14T22:13:20Z";

#[test]
fn states_lead_to_stages() {
    assert_eq!(stage_of(JobState::Pending), Stage::Pending);
    assert_eq!(stage_of(JobState::Scheduling), Stage::Scheduling);
    assert_eq!(stage_of(JobState::Running), Stage::Running);
    for state in [
        JobState::Succeeded,
        JobState::Failed,
        JobState::Cancelled,
        JobState::WalltimeExceeded,
    ] {
        assert_eq!(stage_of(state), Stage::Terminal);
    }
}

#[test]
fn test_handle_pending_invalid_job_zero_nodes() {
    let step = handle_pending(&container_job(0)).unwrap();
    assert_eq!(failed(&step), Some("nodes must be > 0"));
    assert_eq!(step.transition, None);
}

#[test]
fn test_handle_pending_invalid_job_no_container_spec() {
    let step = handle_pending(&make_spec(2, ExecutionBackendType::Container, None)).unwrap();
    assert_eq!(failed(&step), Some("container spec required for container backend"));
}

#[test]
fn test_handle_pending_valid_job_transitions_to_scheduling() {
    assert!(handle_pending(&container_job(2)).is_none());
    let step = identified(42);
    assert_eq!(step.patch, Some(StatusPatch::Scheduled { job_id: 42 }));
    assert_eq!(step.transition, Some((JobState::Pending, JobState::Scheduling)));
}

#[test]
fn pending_mpi_jobs_go_on_to_be_scheduled() {
    let mut spec = MPIJobSpec::with_nodes(2);
    let step = bubo::reconciler::handle_pending(&spec);
    assert_eq!(failed(&step), Some("container spec required for container backend"));
    spec.container = Some(make_container_spec());
    let step = bubo::reconciler::handle_pending(&spec);
    assert_eq!(
        step.patch,
        Some(StatusPatch::State { state: JobState::Scheduling, message: None })
    );
    assert_eq!(step.transition, Some((JobState::Pending, JobState::Scheduling)));
}

#[test]
fn test_handle_scheduling_successful_placement() {
    let mut cluster = make_cluster_with_nodes(2);
    let mut reservations = ReservationManager::default();
    let spec = container_job(2);
    let user = make_test_user();
    assert!(is_bookable(&cluster, 2));
    let placement = match handle_scheduling(
        &mut cluster,
        &mut reservations,
        "job-ok",
        &spec,
        Some(&user),
        7,
    ) {
        Attempt::Launch { placement } => placement,
        _ => panic!("expected a placement"),
    };
    assert_eq!(placement.nodes, vec!["node-0", "node-1"]);
    assert!(reservations.has_reservation("job-ok"));
    assert_eq!(reservations.reserved_on_node("node-1"), (1000, 1_000_000_000, 0));
    assert_eq!(cluster.available_resources("node-0"), Some((3000, 3_000_000_000, 0)));
    let launched = LaunchResult {
        resource_ids: vec!["pod-0".to_string()],
        message: "launched".to_string(),
    };
    let step = launch_succeeded(
        &mut reservations,
        "job-ok",
        2,
        &placement,
        launched,
        &moment(0),
    );
    assert!(!reservations.has_reservation("job-ok"));
    assert_eq!(
        step.patch,
        Some(StatusPatch::Started {
            message: "launched".to_string(),
            assigned_nodes: vec!["node-0".to_string(), "node-1".to_string()],
            start_time: "2023-11-14T22:13:20+00:00".to_string(),
            total_workers: 2,
        })
    );
    assert_eq!(step.transition, Some((JobState::Scheduling, JobState::Running)));
    assert_eq!(cluster.available_resources("node-0"), Some((3000, 3_000_000_000, 0)));
}

#[test]
fn test_handle_scheduling_no_feasible_placement() {
    let mut cluster = make_cluster_with_nodes(2);
    let mut reservations = ReservationManager::default();
    let user = make_test_user();
    let attempt = handle_scheduling(
        &mut cluster,
        &mut reservations,
        "job-no-nodes",
        &container_job(5),
        Some(&user),
        0,
    );
    assert!(matches!(attempt, Attempt::Retry));
    assert_eq!(reservations.active_count(), 0);
    assert_eq!(cluster.allocations.len(), 0);
}

#[test]
fn test_handle_scheduling_no_user_fails() {
    let mut cluster = make_cluster_with_nodes(2);
    let mut reservations = ReservationManager::default();
    let spec = make_spec(1, ExecutionBackendType::Reaper, None);
    match handle_scheduling(&mut cluster, &mut reservations, "job", &spec, None, 0) {
        Attempt::Refused { step } => assert_eq!(
            failed(&step),
            Some(
                "no valid WrenUser identity resolved — every job requires a \
                 wren.giar.dev/user annotation pointing to an existing WrenUser with non-root uid"
            )
        ),
        _ => panic!("expected a refusal"),
    }
    assert_eq!(cluster.allocations.len(), 0);
}

#[test]
fn test_handle_scheduling_container_no_user_fails() {
    let mut cluster = make_cluster_with_nodes(2);
    let mut reservations = ReservationManager::default();
    let attempt =
        handle_scheduling(&mut cluster, &mut reservations, "job", &container_job(1), None, 0);
    assert!(matches!(attempt, Attempt::Refused { .. }));
}

#[test]
fn test_handle_scheduling_reaper_with_user_ok() {
    let mut cluster = make_cluster_with_nodes(2);
    let mut reservations = ReservationManager::default();
    let user = make_test_user();
    let spec = make_spec(1, ExecutionBackendType::Reaper, None);
    let attempt =
        handle_scheduling(&mut cluster, &mut reservations, "job", &spec, Some(&user), 0);
    assert!(matches!(attempt, Attempt::Launch { .. }));
}

#[test]
fn test_handle_scheduling_launch_failure_releases_allocations() {
    let mut cluster = make_cluster_with_nodes(2);
    cluster.allocate("node-0", 500, 5, 0, "other");
    let mut reservations = ReservationManager::default();
    let user = make_test_user();
    let placement = match handle_scheduling(
        &mut cluster,
        &mut reservations,
        "job-fail-launch",
        &container_job(2),
        Some(&user),
        0,
    ) {
        Attempt::Launch { placement } => placement,
        _ => panic!("expected a placement"),
    };
    let step = launch_failed(
        &mut cluster,
        &mut reservations,
        "job-fail-launch",
        &placement,
        "simulated launch failure",
    );
    assert_eq!(failed(&step), Some("launch failed: simulated launch failure"));
    assert_eq!(step.transition, None);
    assert_eq!(reservations.active_count(), 0);
    assert_eq!(cluster.available_resources("node-0"), Some((3500, 3_999_999_995, 0)));
    assert_eq!(cluster.available_resources("node-1"), Some((4000, 4_000_000_000, 0)));
    assert_eq!(cluster.allocations.get("node-0").unwrap().jobs, vec!["other"]);
    assert!(cluster.allocations.get("node-1").unwrap().jobs.is_empty());
}

#[test]
fn mpi_jobs_are_booked_with_their_topology() {
    let mut cluster = make_cluster_with_nodes(3);
    cluster.nodes[1].switch_group = Some("sw-1".to_string());
    cluster.nodes[2].switch_group = Some("sw-1".to_string());
    let mut reservations = ReservationManager::default();
    let mut spec = MPIJobSpec::with_nodes(2);
    spec.topology = Some(TopologySpec {
        prefer_same_switch: true,
        max_hops: None,
        topology_key: None,
    });
    let placement = bubo::reconciler::handle_scheduling(
        &mut cluster,
        &mut reservations,
        "job",
        &spec,
        0,
    )
    .unwrap();
    assert_eq!(placement.nodes, vec!["node-1", "node-2"]);
    spec.nodes = 3;
    assert!(bubo::reconciler::handle_scheduling(
        &mut cluster,
        &mut reservations,
        "job-2",
        &spec,
        0
    )
    .is_none());
}

#[test]
fn bookings_never_exceed_a_node() {
    let mut cluster = make_cluster_with_nodes(1);
    let mut reservations = ReservationManager::default();
    for i in 0..4 {
        let name = format!("job-{}", i);
        assert!(book(&mut cluster, &mut reservations, &name, 1, None, 0).is_ok());
    }
    assert!(book(&mut cluster, &mut reservations, "job-4", 1, None, 0).is_err());
    assert_eq!(cluster.available_resources("node-0"), Some((0, 0, 0)));
    release_job(&mut cluster, "job-2");
    assert!(book(&mut cluster, &mut reservations, "job-4", 1, None, 0).is_ok());
}

#[test]
fn clusters_that_would_overflow_cannot_be_booked() {
    let mut cluster = make_cluster_with_nodes(2);
    cluster.nodes[1].name = "node-0".to_string();
    assert!(is_bookable(&cluster, 2));
    cluster.allocate("elsewhere", u64::MAX - 2000, 0, 0, "job");
    assert!(is_bookable(&cluster, 2));
    assert!(!is_bookable(&cluster, 3));
    cluster.nodes[1].name = "node-1".to_string();
    assert!(is_bookable(&cluster, 3));
}

fn running_step(status: BackendJobStatus) -> Step {
    handle_running(
        &container_job(1),
        &WrenJobStatus::default(),
        status,
        &moment(0),
    )
}

#[test]
fn test_handle_running_succeeded() {
    let step = running_step(BackendJobStatus::Succeeded);
    assert_eq!(
        step.patch,
        Some(StatusPatch::Completed {
            message: "Job completed successfully".to_string(),
            completion_time: "2023-11-14T22:13:20+00:00".to_string(),
        })
    );
    assert_eq!(step.transition, Some((JobState::Running, JobState::Succeeded)));
}

#[test]
fn test_handle_running_failed() {
    let step = running_step(BackendJobStatus::Failed { message: "OOM killed".to_string() });
    assert_eq!(failed(&step), Some("OOM killed"));
    assert_eq!(step.transition, Some((JobState::Running, JobState::Failed)));
}

#[test]
fn test_handle_running_walltime_exceeded() {
    let mut spec = container_job(1);
    spec.walltime = Some("1h".to_string());
    let status = WrenJobStatus { start_time: Some(START.to_string()), ..Default::default() };
    let step = handle_running(&spec, &status, BackendJobStatus::Running, &moment(2));
    assert!(step.terminate);
    assert_eq!(
        step.patch,
        Some(StatusPatch::State {
            state: JobState::WalltimeExceeded,
            message: Some("walltime of 1h0m exceeded".to_string()),
        })
    );
    assert_eq!(step.transition, Some((JobState::Running, JobState::WalltimeExceeded)));
    let step = handle_running(&spec, &status, BackendJobStatus::Running, &moment(1));
    assert_eq!(step, Step { terminate: false, patch: None, transition: None });
}

#[test]
fn walltimes_out_of_range_matter_only_to_jobs_that_run() {
    let mut spec = container_job(1);
    spec.walltime = Some("9999999999999999999h".to_string());
    assert!(!WalltimeDuration::fits(spec.walltime.as_deref().unwrap()));
    let status = WrenJobStatus { start_time: Some(START.to_string()), ..Default::default() };
    let step = handle_running(&spec, &status, BackendJobStatus::NotFound, &moment(1));
    assert_eq!(failed(&step), Some("backend resources disappeared"));
    let step = handle_running(&spec, &status, BackendJobStatus::Succeeded, &moment(1));
    assert_eq!(step.transition, Some((JobState::Running, JobState::Succeeded)));
}

#[test]
fn moments_are_read_back_from_their_texts() {
    let time = Timestamp { seconds: 1_700_000_000, nanos: 120_000_000 };
    let moment = Moment::at(time).unwrap();
    assert_eq!(moment.time(), time);
    assert_eq!(moment.text(), "2023-11-14T22:13:20.120+00:00");
    assert!(Moment::at(Timestamp { seconds: i64::MAX, nanos: 0 }).is_none());
    let text = moment.text();
    let whole = Timestamp { seconds: time.seconds + 60, nanos: time.nanos };
    let short = Timestamp { seconds: whole.seconds, nanos: whole.nanos - 1 };
    assert_eq!(check_walltime_at(Some("59s"), Some(&text), short), None);
    assert!(check_walltime_at(Some("59s"), Some(&text), whole).is_some());
}

#[test]
fn running_mpi_jobs_are_limited_too() {
    let mut spec = MPIJobSpec::with_nodes(1);
    spec.walltime = Some("90m".to_string());
    let status = MPIJobStatus { start_time: Some(START.to_string()), ..Default::default() };
    let step = bubo::reconciler::handle_running(
        &spec,
        &status,
        BackendJobStatus::Running,
        &moment(2),
    );
    assert!(step.terminate);
}

#[test]
fn test_handle_running_launching_updates_ready_workers() {
    let step = running_step(BackendJobStatus::Launching { ready: 1, total: 2 });
    assert_eq!(step.patch, Some(StatusPatch::Workers { ready: 1, total: 2 }));
    assert_eq!(step.transition, None);
}

#[test]
fn test_handle_running_not_found() {
    let step = running_step(BackendJobStatus::NotFound);
    assert_eq!(failed(&step), Some("backend resources disappeared"));
    assert_eq!(step.transition, None);
}

#[test]
fn a_job_within_its_walltime_is_left_alone() {
    let step = advance(BackendJobStatus::Running, None, "now".to_string());
    assert_eq!(step, Step { terminate: false, patch: None, transition: None });
    let over = Some("over".to_string());
    assert!(!advance(BackendJobStatus::Succeeded, over, "now".to_string()).terminate);
}

#[test]
fn test_handle_terminal_cleans_up_resources() {
    let mut cluster = make_cluster_with_nodes(2);
    cluster.allocate("node-0", 1000, 1_000_000_000, 0, "job-term");
    cluster.allocate("node-0", 1000, 1_000_000_000, 0, "job-else");
    let status = WrenJobStatus {
        completion_time: Some(START.to_string()),
        ..Default::default()
    };
    assert!(!handle_terminal(&mut cluster, "job-term", &status, at_hours(1)));
    assert_eq!(cluster.allocations.get("node-0").unwrap().jobs, vec!["job-else"]);
    assert_eq!(cluster.available_resources("node-0"), Some((3000, 3_000_000_000, 0)));
}

#[test]
fn test_handle_terminal_ttl_expired_calls_terminate() {
    let mut cluster = make_cluster_with_nodes(1);
    let status = WrenJobStatus {
        completion_time: Some(START.to_string()),
        ..Default::default()
    };
    assert!(!handle_terminal(&mut cluster, "job-ttl", &status, at_hours(24)));
    assert!(handle_terminal(&mut cluster, "job-ttl", &status, at_hours(25)));
    let status = MPIJobStatus { start_time: Some(START.to_string()), ..Default::default() };
    assert!(bubo::reconciler::handle_terminal(&mut cluster, "job-ttl", &status, at_hours(25)));
}

#[test]
fn test_handle_terminal_no_ttl_does_not_call_terminate() {
    let mut cluster = make_cluster_with_nodes(1);
    let status = WrenJobStatus {
        completion_time: Some(START.to_string()),
        ..Default::default()
    };
    assert!(!handle_terminal(&mut cluster, "job-no-ttl", &status, at_hours(0)));
}

#[test]
fn test_cleanup_stale_allocations_removes_deleted_jobs() {
    let mut cluster = make_cluster_with_nodes(2);
    cluster.allocate("node-0", 1000, 1_000_000_000, 0, "ghost-job");
    cluster.allocate("node-1", 1000, 1_000_000_000, 0, "ghost-job");
    assert_eq!(collect_allocated_job_names(&cluster), vec!["ghost-job"]);
    assert!(settle_allocations(&mut cluster, "ghost-job", JobLookup::Missing));
    assert!(collect_allocated_job_names(&cluster).is_empty());
    assert_eq!(cluster.available_resources("node-1"), Some((4000, 4_000_000_000, 0)));
}

#[test]
fn test_cleanup_stale_allocations_keeps_existing_jobs() {
    let mut cluster = make_cluster_with_nodes(2);
    cluster.allocate("node-0", 1000, 1_000_000_000, 0, "live-job");
    assert!(!settle_allocations(&mut cluster, "live-job", JobLookup::Exists));
    assert!(!settle_allocations(&mut cluster, "live-job", JobLookup::Unknown));
    assert_eq!(collect_allocated_job_names(&cluster), vec!["live-job"]);
}

#[test]
fn spans_into_the_future_have_no_length() {
    assert!(!span_exceeds(10, 10));
    assert!(span_exceeds(11, 10));
    assert!(!span_exceeds(-1, 0));
    assert!(!span_exceeds(i64::MIN, 0));
    assert!(span_exceeds(i64::MAX, i64::MAX as u64 - 1));
    assert!(!span_exceeds(i64::MAX, u64::MAX));
    assert!(!ttl_verdict(86400));
    assert!(ttl_verdict(86401));
    assert!(!ttl_verdict(-3600));
    let limit = WalltimeDuration { seconds: 90 };
    assert_eq!(walltime_verdict(&limit, 90), None);
    assert_eq!(walltime_verdict(&limit, 91).as_deref(), Some("walltime of 1m exceeded"));
    assert_eq!(walltime_verdict(&limit, -91), None);
}

#[test]
fn times_ahead_of_the_clock_exceed_nothing() {
    let midnight = Timestamp { seconds: 1_704_067_200, nanos: 0 };
    let ahead = "2024-01-01T01:00:00Z";
    assert_eq!(check_walltime_at(Some("1h"), Some(ahead), midnight), None);
    assert!(!should_cleanup_at(Some(ahead), None, midnight));
    assert!(!should_cleanup_at(None, Some(ahead), midnight));
    assert_eq!(check_walltime_exceeded(Some("1h"), Some("9999-01-01T00:00:00Z")), None);
    let status = WrenJobStatus {
        completion_time: Some("9999-01-01T00:00:00Z".to_string()),
        ..Default::default()
    };
    assert!(!should_cleanup_pods(&status));
    let mut cluster = make_cluster_with_nodes(1);
    assert!(!handle_terminal(&mut cluster, "job-ahead", &status, midnight));
}

#[test]
fn walltimes_are_checked_at_a_point_in_time() {
    let start = Some("2023-11-14T23:13:20+01:00");
    assert_eq!(check_walltime_at(Some("1h"), start, at_hours(1)), None);
    let late = Timestamp { seconds: at_hours(1).seconds + 1, nanos: 0 };
    assert_eq!(
        check_walltime_at(Some("1h"), start, late).as_deref(),
        Some("walltime of 1h0m exceeded")
    );
    assert_eq!(check_walltime_at(Some("1h"), Some("yesterday"), late), None);
    assert_eq!(check_walltime_at(Some("whenever"), start, late), None);
    assert!(should_cleanup_at(None, start, at_hours(25)));
    assert!(!should_cleanup_at(start, Some("1970-01-01T00:00:00Z"), at_hours(1)));
}
