//! What the command-line tools print.

use chrono::{Duration, Utc};
use wren::cli::logs::{build_label_selector, format_log, no_pods_message};
use wren::cli::queue::{age_of_seconds, format_age, format_age_at, format_queue, JobRow};
use wren::cli::status::{format_job_status, format_mpi_job_status};
use wren::cli::submit::{
    cancelled_message, namespace_of, override_mpijob, override_wrenjob, submitted_message,
};
use wren::model::crd::{
    ContainerSpec, DependencyType, JobDependency, MPIJobSpec, MPIJobStatus,
};
use wren::model::time::Timestamp;
use wren::model::types::{ExecutionBackendType, JobState};
use wren::wren::crd::{WrenJobSpec, WrenJobStatus};

fn stamp(time: chrono::DateTime<Utc>) -> Timestamp {
    Timestamp { seconds: time.timestamp(), nanos: time.timestamp_subsec_nanos() }
}

#[test]
fn test_build_label_selector_no_rank() {
    let sel = build_label_selector("my-job", None);
    assert_eq!(sel, "wren.giar.dev/job-name=my-job");
}

#[test]
fn test_build_label_selector_with_rank_zero() {
    let sel = build_label_selector("my-job", Some(0));
    assert_eq!(sel, "wren.giar.dev/job-name=my-job,wren.giar.dev/rank=0");
}

#[test]
fn test_build_label_selector_with_rank() {
    let sel = build_label_selector("my-job", Some(5));
    assert_eq!(sel, "wren.giar.dev/job-name=my-job,wren.giar.dev/rank=5");
}

#[test]
fn test_build_label_selector_special_chars_in_name() {
    let sel = build_label_selector("my-complex-job-123", None);
    assert_eq!(sel, "wren.giar.dev/job-name=my-complex-job-123");
}

#[test]
fn test_format_age_seconds() {
    let ts = stamp(Utc::now() - Duration::seconds(30));
    let age = format_age(&ts);
    assert!(age.ends_with('s'), "expected seconds suffix, got: {age}");
}

#[test]
fn test_format_age_minutes() {
    let ts = stamp(Utc::now() - Duration::minutes(5));
    let age = format_age(&ts);
    assert_eq!(age, "5m");
}

#[test]
fn test_format_age_hours() {
    let ts = stamp(Utc::now() - Duration::hours(3));
    let age = format_age(&ts);
    assert_eq!(age, "3h");
}

#[test]
fn test_format_age_days() {
    let ts = stamp(Utc::now() - Duration::days(7));
    let age = format_age(&ts);
    assert_eq!(age, "7d");
}

#[test]
fn test_format_age_future_timestamp() {
    // Future timestamps should clamp to 0s
    let ts = stamp(Utc::now() + Duration::hours(1));
    let age = format_age(&ts);
    assert_eq!(age, "0s");
}

fn make_spec() -> WrenJobSpec {
    WrenJobSpec {
        queue: "default".to_string(),
        priority: 50,
        walltime: None,
        nodes: 2,
        tasks_per_node: 1,
        backend: ExecutionBackendType::Container,
        container: Some(ContainerSpec {
            image: "busybox".to_string(),
            command: vec![],
            args: vec![],
            resources: None,
            host_network: false,
            volume_mounts: vec![],
            env: vec![],
        }),
        reaper: None,
        mpi: None,
        topology: None,
        dependencies: vec![],
        project: None,
    }
}

#[test]
fn test_format_job_status_basic() {
    let spec = make_spec();
    let output = format_job_status("my-job", "default", &spec, None);
    assert!(!output.contains("JobID:"));
    assert!(output.contains("Name:        my-job"));
    assert!(output.contains("Namespace:   default"));
    assert!(output.contains("Queue:       default"));
    assert!(output.contains("Nodes:       2"));
    assert!(output.contains("Unknown (no status subresource)"));
}

#[test]
fn test_format_job_status_with_status() {
    let spec = make_spec();
    let status = WrenJobStatus {
        job_id: Some(7),
        state: JobState::Running,
        message: Some("all workers ready".to_string()),
        assigned_nodes: vec!["node-0".to_string(), "node-1".to_string()],
        start_time: Some("2024-01-01T00:00:00Z".to_string()),
        completion_time: None,
        ready_workers: 2,
        total_workers: 2,
    };
    let output = format_job_status("my-job", "ns", &spec, Some(&status));
    assert!(output.contains("JobID:       7"));
    assert!(output.contains("Running"));
    assert!(output.contains("all workers ready"));
    assert!(output.contains("Workers:     2/2"));
    assert!(output.contains("node-0, node-1"));
    assert!(output.contains("2024-01-01T00:00:00Z"));
}

#[test]
fn test_format_job_status_with_walltime() {
    let mut spec = make_spec();
    spec.walltime = Some("4h".to_string());
    let output = format_job_status("job", "ns", &spec, None);
    assert!(output.contains("Walltime:    4h"));
}

#[test]
fn test_format_job_status_with_completion_time() {
    let spec = make_spec();
    let status = WrenJobStatus {
        state: JobState::Succeeded,
        completion_time: Some("2024-01-01T04:00:00Z".to_string()),
        ..Default::default()
    };
    let output = format_job_status("job", "ns", &spec, Some(&status));
    assert!(output.contains("End Time:    2024-01-01T04:00:00Z"));
}

#[test]
fn test_format_job_status_with_dependencies() {
    let mut spec = make_spec();
    spec.dependencies = vec![JobDependency {
        dep_type: DependencyType::AfterOk,
        job: "prev-job".to_string(),
    }];
    let output = format_job_status("job", "ns", &spec, None);
    assert!(output.contains("Dependencies:"));
    assert!(output.contains("AfterOk -> prev-job"));
}

#[test]
fn test_format_job_status_no_message() {
    let spec = make_spec();
    let status = WrenJobStatus {
        state: JobState::Pending,
        message: None,
        ..Default::default()
    };
    let output = format_job_status("job", "ns", &spec, Some(&status));
    assert!(!output.contains("Message:"));
}

#[test]
fn ages_are_in_the_largest_unit() {
    assert_eq!(age_of_seconds(-5), "0s");
    assert_eq!(age_of_seconds(59), "59s");
    assert_eq!(age_of_seconds(60), "1m");
    assert_eq!(age_of_seconds(3599), "59m");
    assert_eq!(age_of_seconds(3600), "1h");
    assert_eq!(age_of_seconds(86399), "23h");
    assert_eq!(age_of_seconds(86400), "1d");
    assert_eq!(age_of_seconds(i64::MAX), "106751991167300d");
}

#[test]
fn ages_between_two_points() {
    let start = Timestamp { seconds: 1_700_000_000, nanos: 900_000_000 };
    let end = Timestamp { seconds: 1_700_000_060, nanos: 800_000_000 };
    assert_eq!(format_age_at(&start, end), "59s");
    let out_of_range = Timestamp { seconds: i64::MAX, nanos: 0 };
    assert_eq!(format_age_at(&out_of_range, end), "<unknown>");
}

fn make_row(name: &str, queue: &str) -> JobRow {
    JobRow {
        job_id: Some(12),
        name: Some(name.to_string()),
        state: Some(JobState::Running),
        nodes: 4,
        queue: queue.to_string(),
        created: Some(Timestamp { seconds: 1000, nanos: 0 }),
    }
}

#[test]
fn queue_table() {
    let now = Timestamp { seconds: 1000 + 7200, nanos: 0 };
    let mut bare = make_row("x", "gpu");
    bare.job_id = None;
    bare.name = None;
    bare.state = None;
    bare.created = None;
    let rows = vec![make_row("sim", "default"), bare];
    let header = format!(
        "{:<8} {:<32} {:<16} {:<8} {:<16} {:<12}\n{}\n",
        "JOBID",
        "NAME",
        "STATE",
        "NODES",
        "QUEUE",
        "AGE",
        "-".repeat(96)
    );
    let first = format!(
        "{:<8} {:<32} {:<16} {:<8} {:<16} {:<12}\n",
        12, "sim", "Running", 4, "default", "2h"
    );
    let second = format!(
        "{:<8} {:<32} {:<16} {:<8} {:<16} {:<12}\n",
        "-", "<unknown>", "Unknown", 4, "gpu", "<unknown>"
    );
    assert_eq!(format_queue(&rows, None, now), format!("{header}{first}{second}"));
    assert_eq!(format_queue(&rows, Some("gpu"), now), format!("{header}{second}"));
    assert_eq!(format_queue(&rows, Some("none"), now), "No jobs found.\n");
    assert_eq!(format_queue(&vec![], None, now), "No jobs found.\n");
    let long = "a-name-that-is-longer-than-its-column";
    let table = format_queue(&vec![make_row(long, "default")], None, now);
    assert!(table.contains("12       a-name-that-is-longer-than-its-column Running"));
}

#[test]
fn logs_of_several_pods_are_labelled() {
    assert_eq!(format_log("p0", "a\nb\r\n\nc", true), "[p0] a\n[p0] b\n[p0] \n[p0] c\n");
    assert_eq!(format_log("p0", "a\n", true), "[p0] a\n");
    assert_eq!(format_log("p0", "a\r", true), "[p0] a\r\n");
    assert_eq!(format_log("p0", "", true), "");
    assert_eq!(format_log("p0", "a\nb", false), "a\nb");
}

#[test]
fn logs_without_pods() {
    assert_eq!(no_pods_message("sim", None, "ns"), "No pods found for job sim in namespace ns");
    assert_eq!(
        no_pods_message("sim", Some(3), "ns"),
        "No pods found for job sim rank 3 in namespace ns"
    );
}

#[test]
fn status_of_a_whole_job() {
    let mut spec = make_spec();
    spec.priority = -5;
    spec.walltime = Some("4h".to_string());
    spec.dependencies = vec![JobDependency {
        dep_type: DependencyType::AfterNotOk,
        job: "prev".to_string(),
    }];
    let status = WrenJobStatus {
        job_id: Some(7),
        state: JobState::Failed,
        message: Some("boom".to_string()),
        assigned_nodes: vec!["n0".to_string(), "n1".to_string()],
        start_time: Some("t0".to_string()),
        completion_time: Some("t1".to_string()),
        ready_workers: 1,
        total_workers: 2,
    };
    assert_eq!(
        format_job_status("job", "ns", &spec, Some(&status)),
        "JobID:       7\n\
         Name:        job\n\
         Namespace:   ns\n\
         Queue:       default\n\
         Priority:    -5\n\
         Nodes:       2\n\
         Tasks/Node:  1\n\
         Backend:     container\n\
         Walltime:    4h\n\
         \n\
         Status:\n\
         \x20 State:       Failed\n\
         \x20 Message:     boom\n\
         \x20 Workers:     1/2\n\
         \x20 Start Time:  t0\n\
         \x20 End Time:    t1\n\
         \x20 Nodes:       n0, n1\n\
         \n\
         Dependencies:\n\
         \x20 AfterNotOk -> prev\n"
    );
}

#[test]
fn status_of_an_mpi_job() {
    let mut spec = MPIJobSpec::with_nodes(2);
    spec.backend = ExecutionBackendType::Reaper;
    let text = format_mpi_job_status("job", "ns", &spec, None);
    assert!(text.starts_with("Name:        job\n"));
    assert!(text.contains("Backend:     reaper\n"));
    assert!(text.ends_with("Status:\n  State:       Unknown (no status subresource)\n"));
    let text = format_mpi_job_status("job", "ns", &spec, Some(&MPIJobStatus::default()));
    assert!(text.ends_with("Status:\n  State:       Pending\n  Workers:     0/0\n"));
}

#[test]
fn submission_overrides() {
    let mut spec = WrenJobSpec::with_nodes(2);
    override_wrenjob(&mut spec, Some("gpu"), None);
    assert_eq!((spec.queue.as_str(), spec.nodes), ("gpu", 2));
    override_wrenjob(&mut spec, None, Some(8));
    assert_eq!((spec.queue.as_str(), spec.nodes), ("gpu", 8));
    let mut spec = MPIJobSpec::with_nodes(2);
    override_mpijob(&mut spec, Some("gpu"), Some(3));
    assert_eq!((spec.queue.as_str(), spec.nodes), ("gpu", 3));
    assert_eq!(namespace_of(None), "default");
    assert_eq!(namespace_of(Some("hpc")), "hpc");
    assert_eq!(submitted_message(Some("sim"), "hpc"), "job/sim submitted to namespace hpc");
    assert_eq!(submitted_message(None, "hpc"), "job/<unknown> submitted to namespace hpc");
    assert_eq!(cancelled_message("sim"), "job/sim cancelled");
}
