//! Queues and their limits.

use wren::model::error::BuboError;
use wren::model::time::Timestamp;
use wren::model::walltime::WalltimeDuration;
use wren::scheduler::queue::QueuedJob;
use wren::scheduler::queue_manager::{QueueConfig, QueueManager};

fn now() -> Timestamp {
    let now = chrono::Utc::now();
    Timestamp { seconds: now.timestamp(), nanos: now.timestamp_subsec_nanos() }
}

fn make_job(name: &str, queue: &str, namespace: &str, priority: i32, nodes: u32) -> QueuedJob {
    QueuedJob {
        name: name.to_string(),
        namespace: namespace.to_string(),
        queue: queue.to_string(),
        priority,
        nodes,
        tasks_per_node: 1,
        cpu_per_node_millis: 1000,
        memory_per_node_bytes: 1_000_000_000,
        gpus_per_node: 0,
        walltime: None,
        submit_time: now(),
    }
}

fn make_job_with_walltime(name: &str, queue: &str, walltime_secs: u64) -> QueuedJob {
    QueuedJob {
        name: name.to_string(),
        namespace: "default".to_string(),
        queue: queue.to_string(),
        priority: 50,
        nodes: 1,
        tasks_per_node: 1,
        cpu_per_node_millis: 1000,
        memory_per_node_bytes: 1_000_000_000,
        gpus_per_node: 0,
        walltime: Some(WalltimeDuration { seconds: walltime_secs }),
        submit_time: now(),
    }
}

fn default_config(max_nodes: u32) -> QueueConfig {
    QueueConfig {
        max_nodes,
        max_walltime: None,
        max_jobs_per_user: None,
        default_priority: 50,
    }
}

#[test]
fn test_register_and_list_queues() {
    let mut mgr = QueueManager::new("default");
    mgr.register_queue("gpu", default_config(64));
    mgr.register_queue("high", default_config(32));

    let names = mgr.queue_names();
    assert!(names.contains(&"default".to_string()));
    assert!(names.contains(&"gpu".to_string()));
    assert!(names.contains(&"high".to_string()));
    assert_eq!(names.len(), 3);
}

#[test]
fn test_submit_to_default_queue() {
    let mut mgr = QueueManager::new("default");
    let job = make_job("job-1", "default", "user-a", 50, 2);
    mgr.submit_job(job).unwrap();
    assert_eq!(mgr.queue_depth("default"), 1);
    assert_eq!(mgr.total_depth(), 1);
}

#[test]
fn test_submit_to_named_queue() {
    let mut mgr = QueueManager::new("default");
    mgr.register_queue("gpu", default_config(128));

    let job = make_job("job-1", "gpu", "user-a", 100, 4);
    mgr.submit_job(job).unwrap();

    assert_eq!(mgr.queue_depth("gpu"), 1);
    assert_eq!(mgr.queue_depth("default"), 0);
}

#[test]
fn test_submit_to_unknown_queue_fails() {
    let mut mgr = QueueManager::new("default");
    let job = make_job("job-1", "nonexistent", "user-a", 50, 1);
    let result = mgr.submit_job(job);
    assert!(matches!(result, Err(BuboError::QueueNotFound { .. })));
}

#[test]
fn test_max_nodes_enforcement() {
    let mut mgr = QueueManager::new("default");
    mgr.register_queue("small", default_config(8));

    // Job requests more nodes than the queue allows.
    let job = make_job("big-job", "small", "user-a", 50, 16);
    let result = mgr.submit_job(job);
    assert!(
        matches!(result, Err(BuboError::ValidationError { .. })),
        "expected ValidationError"
    );
}

#[test]
fn test_max_nodes_capacity() {
    let mut mgr = QueueManager::new("default");
    mgr.register_queue("limited", default_config(10));

    // Consume 8 nodes via a running job.
    mgr.record_job_started("limited", 8, "user-a");

    // Now submit a job that would push past capacity (8 + 4 = 12 > 10).
    let job = make_job("overflow", "limited", "user-a", 50, 4);
    let result = mgr.submit_job(job);
    assert!(
        matches!(result, Err(BuboError::ValidationError { .. })),
        "expected ValidationError for capacity overflow"
    );

    // But a smaller job fits (8 + 2 = 10 <= 10).
    let job2 = make_job("fits", "limited", "user-a", 50, 2);
    mgr.submit_job(job2).unwrap();
}

#[test]
fn test_max_walltime_enforcement() {
    let mut mgr = QueueManager::new("default");
    mgr.register_queue("short", QueueConfig {
        max_nodes: 100,
        max_walltime: Some(WalltimeDuration { seconds: 3600 }), // 1h
        max_jobs_per_user: None,
        default_priority: 50,
    });

    // Job with walltime exactly at the limit — should pass.
    let ok_job = make_job_with_walltime("ok-job", "short", 3600);
    mgr.submit_job(ok_job).unwrap();

    // Job exceeding the limit — should fail.
    let bad_job = make_job_with_walltime("long-job", "short", 7200);
    let result = mgr.submit_job(bad_job);
    assert!(
        matches!(result, Err(BuboError::ValidationError { .. })),
        "expected ValidationError for walltime exceed"
    );
}

#[test]
fn test_max_jobs_per_user() {
    let mut mgr = QueueManager::new("default");
    mgr.register_queue("fair", QueueConfig {
        max_nodes: 1000,
        max_walltime: None,
        max_jobs_per_user: Some(2),
        default_priority: 50,
    });

    // Simulate two active jobs for user-a.
    mgr.record_job_started("fair", 1, "user-a");
    mgr.record_job_started("fair", 1, "user-a");

    // Third submission from user-a should be rejected.
    let job = make_job("job-3", "fair", "user-a", 50, 1);
    let result = mgr.submit_job(job);
    assert!(
        matches!(result, Err(BuboError::ValidationError { .. })),
        "expected ValidationError for user job limit"
    );

    // user-b should still be able to submit.
    let job_b = make_job("job-b", "fair", "user-b", 50, 1);
    mgr.submit_job(job_b).unwrap();
}

#[test]
fn test_next_job_across_queues() {
    let mut mgr = QueueManager::new("default");
    mgr.register_queue("gpu", default_config(128));

    // Submit lower-priority job to gpu queue and higher-priority to default.
    mgr.submit_job(make_job("low", "gpu", "user-a", 10, 1)).unwrap();
    mgr.submit_job(make_job("high", "default", "user-a", 100, 1)).unwrap();
    mgr.submit_job(make_job("mid", "gpu", "user-a", 50, 1)).unwrap();

    // next_job should return the globally highest-priority job.
    let job = mgr.next_job().unwrap();
    assert_eq!(job.name, "high");

    let job = mgr.next_job().unwrap();
    assert_eq!(job.name, "mid");

    let job = mgr.next_job().unwrap();
    assert_eq!(job.name, "low");

    assert!(mgr.next_job().is_none());
}

#[test]
fn test_next_job_from_specific_queue() {
    let mut mgr = QueueManager::new("default");
    mgr.register_queue("gpu", default_config(128));

    mgr.submit_job(make_job("gpu-job", "gpu", "user-a", 100, 1)).unwrap();
    mgr.submit_job(make_job("default-job", "default", "user-a", 200, 1)).unwrap();

    // Drain gpu queue specifically — should not touch default.
    let job = mgr.next_job_from("gpu").unwrap();
    assert_eq!(job.name, "gpu-job");

    assert_eq!(mgr.queue_depth("default"), 1);
    assert_eq!(mgr.queue_depth("gpu"), 0);
}

#[test]
fn queue_manager_test_cancel_job() {
    let mut mgr = QueueManager::new("default");
    mgr.register_queue("gpu", default_config(128));

    mgr.submit_job(make_job("job-a", "default", "user-a", 50, 1)).unwrap();
    mgr.submit_job(make_job("job-b", "gpu", "user-a", 50, 1)).unwrap();

    // Cancel from a different queue than where it lives.
    let removed = mgr.cancel_job("job-b");
    assert!(removed.is_some());
    assert_eq!(removed.unwrap().name, "job-b");

    // job-a should still be there.
    assert_eq!(mgr.total_depth(), 1);

    // Cancelling a non-existent job returns None.
    assert!(mgr.cancel_job("nonexistent").is_none());
}

#[test]
fn test_record_job_lifecycle() {
    let mut mgr = QueueManager::new("default");

    mgr.record_job_started("default", 4, "user-a");
    mgr.record_job_started("default", 2, "user-a");

    let stats = mgr.queue_stats("default").unwrap();
    assert_eq!(stats.active_jobs, 2);
    assert_eq!(stats.used_nodes, 6);

    mgr.record_job_finished("default", 4, "user-a");

    let stats = mgr.queue_stats("default").unwrap();
    assert_eq!(stats.active_jobs, 1);
    assert_eq!(stats.used_nodes, 2);

    mgr.record_job_finished("default", 2, "user-a");

    let stats = mgr.queue_stats("default").unwrap();
    assert_eq!(stats.active_jobs, 0);
    assert_eq!(stats.used_nodes, 0);
}

#[test]
fn test_queue_stats() {
    let mut mgr = QueueManager::new("default");
    mgr.register_queue("test", default_config(50));

    mgr.submit_job(make_job("j1", "test", "user-a", 50, 3)).unwrap();
    mgr.submit_job(make_job("j2", "test", "user-a", 50, 2)).unwrap();
    mgr.record_job_started("test", 10, "user-b");

    let stats = mgr.queue_stats("test").unwrap();
    assert_eq!(stats.pending_jobs, 2);
    assert_eq!(stats.active_jobs, 1);
    assert_eq!(stats.used_nodes, 10);
    assert_eq!(stats.max_nodes, 50);

    assert!(mgr.queue_stats("unknown").is_none());
}

#[test]
fn used_nodes_beyond_what_can_be_counted_are_refused() {
    let mut mgr = QueueManager::new("default");
    mgr.register_queue("big", default_config(u32::MAX));
    mgr.record_job_started("big", 8, "user-a");
    let refused = mgr.submit_job(make_job("j", "big", "user-a", 50, 4_294_967_290));
    match refused {
        Err(BuboError::ValidationError { reason }) => assert_eq!(
            reason,
            "job 'j' requests 4294967290 nodes, but queue 'big' only has 4294967287 of \
             4294967295 nodes available"
        ),
        _ => panic!("expected the job to be refused"),
    }
    assert_eq!(mgr.queue_depth("big"), 0);
    mgr.submit_job(make_job("k", "big", "user-a", 50, 4_294_967_287)).unwrap();
    assert_eq!(mgr.queue_depth("big"), 1);
}

#[test]
fn the_total_depth_counts_what_came_in_and_went_out() {
    let mut mgr = QueueManager::new("default");
    mgr.register_queue("gpu", default_config(4));
    mgr.submit_job(make_job("a", "default", "user-a", 50, 1)).unwrap();
    mgr.submit_job(make_job("b", "gpu", "user-a", 60, 1)).unwrap();
    mgr.submit_job(make_job("c", "gpu", "user-a", 70, 1)).unwrap();
    mgr.submit_job(make_job("d", "default", "user-a", 10, 1)).unwrap();
    assert!(mgr.submit_job(make_job("e", "gpu", "user-a", 50, 5)).is_err());
    assert_eq!(mgr.total_depth(), 4);
    mgr.record_job_started("gpu", 2, "user-a");
    mgr.register_queue("gpu", default_config(8));
    mgr.record_job_finished("gpu", 2, "user-a");
    assert!(mgr.remove_queue("gpu").is_err());
    assert_eq!(mgr.total_depth(), 4);
    assert_eq!(mgr.next_job().unwrap().name, "c");
    assert_eq!(mgr.next_job_from("gpu").unwrap().name, "b");
    assert_eq!(mgr.cancel_job("d").unwrap().name, "d");
    assert!(mgr.cancel_job("d").is_none());
    assert!(mgr.next_job_from("gpu").is_none());
    assert_eq!(mgr.total_depth(), 4 - 3);
    mgr.remove_queue("gpu").unwrap();
    let sum: usize = mgr.queue_names().iter().map(|n| mgr.queue_depth(n)).sum();
    assert_eq!(mgr.total_depth(), sum);
    assert_eq!(mgr.queue_depth("gpu"), 0);
}
