//! The metrics of the controllers.

use std::collections::HashSet;
use wren::controller::metrics::{
    further_metric_list, record_job_state_change, shared_metric_list, MetricInfo, MetricKind,
    MetricUpdate,
};

fn find<'a>(list: &'a [MetricInfo], name: &str) -> &'a MetricInfo {
    list.iter().find(|m| m.name == name).unwrap()
}

#[test]
fn metrics_are_described() {
    let mut all = shared_metric_list("wren");
    all.extend(further_metric_list("wren"));
    assert_eq!(all.len(), 13);
    let names: HashSet<&str> = all.iter().map(|m| m.name.as_str()).collect();
    assert_eq!(names.len(), 13);
    let jobs = find(&all, "wren_jobs_total");
    assert_eq!(jobs.kind, MetricKind::Counter);
    assert_eq!(jobs.help, "Total number of jobs processed");
    assert_eq!(jobs.labels, vec!["state", "queue"]);
    let latency = find(&all, "wren_scheduling_latency_seconds");
    assert_eq!(latency.kind, MetricKind::Histogram);
    assert_eq!(latency.bucket_millis, vec![1, 5, 10, 50, 100, 500, 1000, 5000]);
    let wait = find(&all, "wren_job_wait_seconds");
    assert_eq!(wait.labels, vec!["queue"]);
    assert_eq!(wait.bucket_millis[8], 3_600_000);
    assert_eq!(find(&all, "wren_queue_depth").kind, MetricKind::Gauge);
    assert_eq!(find(&all, "wren_cluster_cpu_utilization_ratio").kind, MetricKind::Ratio);
    assert!(find(&all, "wren_active_reservations").labels.is_empty());
    assert_eq!(find(&all, "wren_topology_placement_score").bucket_millis.len(), 11);
    let few = shared_metric_list("bubo");
    assert_eq!(few.len(), 6);
    assert_eq!(find(&few, "bubo_nodes_allocatable").help, "Nodes with available resources");
}

#[test]
fn state_changes_move_a_job() {
    let state = |state: &str| (state.to_string(), "gpu".to_string());
    let (pending, queue) = state("Pending");
    assert_eq!(
        record_job_state_change("gpu", "", "Pending"),
        vec![
            MetricUpdate::ActiveUp { state: pending.clone(), queue: queue.clone() },
            MetricUpdate::TotalUp { state: pending.clone(), queue: queue.clone() },
        ]
    );
    let (running, _) = state("Running");
    assert_eq!(
        record_job_state_change("gpu", "Pending", "Running"),
        vec![
            MetricUpdate::ActiveDown { state: pending, queue: queue.clone() },
            MetricUpdate::ActiveUp { state: running.clone(), queue: queue.clone() },
            MetricUpdate::TotalUp { state: running, queue },
        ]
    );
}
