//! Walltimes, cluster state, and defaults.

use wren::model::cluster::ClusterState;
use wren::model::crd::{MPIJobSpec, MPIJobStatus};
use wren::model::types::{ExecutionBackendType, JobState, NodeResources};
use wren::model::walltime::WalltimeDuration;
use wren::string_map::StringMap;

#[test]
fn test_walltime_parse_hours() {
    let wt = WalltimeDuration::parse("4h").unwrap();
    assert_eq!(wt.seconds, 14400);
}

#[test]
fn test_walltime_parse_minutes() {
    let wt = WalltimeDuration::parse("30m").unwrap();
    assert_eq!(wt.seconds, 1800);
}

#[test]
fn test_walltime_parse_days() {
    let wt = WalltimeDuration::parse("1d").unwrap();
    assert_eq!(wt.seconds, 86400);
}

#[test]
fn test_walltime_parse_combined() {
    let wt = WalltimeDuration::parse("2h30m").unwrap();
    assert_eq!(wt.seconds, 9000);
}

#[test]
fn test_walltime_parse_seconds_number() {
    let wt = WalltimeDuration::parse("3600").unwrap();
    assert_eq!(wt.seconds, 3600);
}

#[test]
fn test_walltime_parse_invalid() {
    assert!(WalltimeDuration::parse("").is_err());
    assert!(WalltimeDuration::parse("abc").is_err());
    assert!(WalltimeDuration::parse("4x").is_err());
}

#[test]
fn test_walltime_display() {
    assert_eq!(WalltimeDuration { seconds: 14400 }.to_string(), "4h0m");
    assert_eq!(WalltimeDuration { seconds: 90000 }.to_string(), "1d1h0m");
    assert_eq!(WalltimeDuration { seconds: 300 }.to_string(), "5m");
    assert_eq!(WalltimeDuration { seconds: 45 }.to_string(), "45s");
}

#[test]
fn test_cluster_state_available_resources() {
    let mut state = ClusterState::new();
    state.nodes.push(NodeResources {
        name: "node-0".to_string(),
        allocatable_cpu_millis: 8000,
        allocatable_memory_bytes: 16_000_000_000,
        allocatable_gpus: 4,
        labels: StringMap::new(),
        switch_group: None,
        rack: None,
    });
    state.allocate("node-0", 2000, 4_000_000_000, 1, "job-1");

    let (cpu, mem, gpu) = state.available_resources("node-0").unwrap();
    assert_eq!(cpu, 6000);
    assert_eq!(mem, 12_000_000_000);
    assert_eq!(gpu, 3);
}

#[test]
fn test_cluster_state_deallocate() {
    let mut state = ClusterState::new();
    state.nodes.push(NodeResources {
        name: "node-0".to_string(),
        allocatable_cpu_millis: 8000,
        allocatable_memory_bytes: 16_000_000_000,
        allocatable_gpus: 4,
        labels: StringMap::new(),
        switch_group: None,
        rack: None,
    });
    state.allocate("node-0", 2000, 4_000_000_000, 1, "job-1");
    state.deallocate("node-0", 2000, 4_000_000_000, 1, "job-1");

    let (cpu, mem, gpu) = state.available_resources("node-0").unwrap();
    assert_eq!(cpu, 8000);
    assert_eq!(mem, 16_000_000_000);
    assert_eq!(gpu, 4);
    assert!(state.allocations.get("node-0").unwrap().jobs.is_empty());
}

#[test]
fn test_job_state_display() {
    assert_eq!(JobState::Pending.to_string(), "Pending");
    assert_eq!(JobState::Running.to_string(), "Running");
    assert_eq!(JobState::Failed.to_string(), "Failed");
}

#[test]
fn test_job_status_defaults() {
    let status = MPIJobStatus::default();
    assert_eq!(status.state, JobState::Pending);
    assert!(status.message.is_none());
    assert!(status.assigned_nodes.is_empty());
    assert_eq!(status.ready_workers, 0);
}

#[test]
fn test_mpijob_spec_defaults() {
    let spec = MPIJobSpec::with_nodes(4);
    assert_eq!(spec.queue, "default");
    assert_eq!(spec.priority, 50);
    assert_eq!(spec.tasks_per_node, 1);
    assert_eq!(spec.backend, ExecutionBackendType::Container);
    assert_eq!(spec.nodes, 4);
    assert!(spec.dependencies.is_empty());
}
