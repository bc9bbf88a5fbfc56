//! What holds of the scheduler as a whole, on values.

use std::time::Duration;
use wren::model::cluster::ClusterState;
use wren::model::crd::{DependencyType, JobDependency, TopologySpec};
use wren::model::error::BuboError;
use wren::model::time::Timestamp;
use wren::model::types::{JobState, NodeResources};
use wren::model::walltime::WalltimeDuration;
use wren::scheduler::dependencies::{DependencyResolver, DependencyStatus};
use wren::scheduler::gang::{GangScheduler, MAX_CANDIDATES};
use wren::scheduler::job_array::JobArraySpec;
use wren::scheduler::queue::{PriorityQueue, QueuedJob};
use wren::scheduler::queue_manager::{QueueConfig, QueueManager};
use wren::scheduler::topology::{PlacementScore, TopologyScorer};
use wren::string_map::StringMap;

fn node(name: &str, switch: Option<&str>, rack: Option<&str>) -> NodeResources {
    NodeResources {
        name: name.to_string(),
        allocatable_cpu_millis: 4000,
        allocatable_memory_bytes: 8_000,
        allocatable_gpus: 2,
        labels: StringMap::new(),
        switch_group: switch.map(str::to_string),
        rack: rack.map(str::to_string),
    }
}

fn names(list: &[&str]) -> Vec<String> {
    list.iter().map(|s| s.to_string()).collect()
}

fn job(name: &str, priority: i32, submitted: i64) -> QueuedJob {
    QueuedJob {
        name: name.to_string(),
        namespace: "user".to_string(),
        queue: "default".to_string(),
        priority,
        nodes: 1,
        tasks_per_node: 1,
        cpu_per_node_millis: 1000,
        memory_per_node_bytes: 1000,
        gpus_per_node: 0,
        walltime: None,
        submit_time: Timestamp { seconds: submitted, nanos: 0 },
    }
}

#[test]
fn release_undoes_allocation_on_its_node_only() {
    let mut cluster = ClusterState::new();
    cluster.nodes = vec![node("a", None, None), node("b", None, None)];
    cluster.allocate("a", 1000, 10, 1, "first");
    cluster.allocate("a", 500, 20, 1, "second");
    assert_eq!(cluster.available_resources("a"), Some((2500, 7970, 0)));
    assert_eq!(cluster.available_resources("b"), Some((4000, 8000, 2)));
    cluster.deallocate("a", 500, 20, 1, "second");
    assert_eq!(cluster.available_resources("a"), Some((3000, 7990, 1)));
    assert_eq!(cluster.allocations.get("a").unwrap().jobs, vec!["first"]);
    cluster.deallocate("a", 9999, 9999, 9, "first");
    assert_eq!(cluster.available_resources("a"), Some((4000, 8000, 2)));
    cluster.deallocate("nowhere", 1, 1, 1, "first");
    assert_eq!(cluster.available_resources("nowhere"), None);
    assert_eq!(cluster.free_on(&cluster.nodes[1]), (4000, 8000, 2));
}

#[test]
fn walltimes_are_written_as_they_are_read() {
    for text in ["45s", "5m", "4h0m", "1d1h0m"] {
        assert_eq!(WalltimeDuration::parse(text).unwrap().to_string(), text);
    }
    for seconds in [1, 59, 60, 3599, 3600, 86399, 86400, 90061, u64::MAX] {
        let text = WalltimeDuration { seconds }.to_string();
        let read = WalltimeDuration::parse(&text).unwrap().seconds;
        assert_eq!(read, if seconds < 60 { seconds } else { seconds - seconds % 60 });
    }
    assert_eq!(WalltimeDuration { seconds: 90 }.as_duration(), Duration::from_secs(90));
}

#[test]
fn walltimes_that_make_no_sense_are_refused() {
    for text in ["", "  ", "h", "5", "0s", "0m0s", "4 h", "4h3", "-1h", "1w", "4H"] {
        let result = WalltimeDuration::parse(text);
        if text == "5" {
            assert_eq!(result.unwrap().seconds, 5);
        } else {
            assert_eq!(
                result.unwrap_err(),
                BuboError::InvalidWalltime { input: text.trim().to_string() }
            );
        }
    }
    assert_eq!(WalltimeDuration::parse(" 1d2h3m4s ").unwrap().seconds, 93784);
    assert_eq!(WalltimeDuration::parse("0").unwrap().seconds, 0);
    assert!(WalltimeDuration::fits("18446744073709551615s"));
    assert!(!WalltimeDuration::fits("18446744073709551615d"));
}

#[test]
fn dependencies_wait_pass_or_fail_for_good() {
    let mut resolver = DependencyResolver::new();
    let dep = |dep_type, job: &str| JobDependency { dep_type, job: job.to_string() };
    resolver.register_job(
        "c",
        vec![dep(DependencyType::AfterOk, "a"), dep(DependencyType::AfterNotOk, "b")],
    );
    assert_eq!(
        resolver.check_dependencies("c"),
        DependencyStatus::Waiting { pending_deps: names(&["a", "b"]) }
    );
    resolver.update_job_state("a", JobState::Succeeded);
    resolver.update_job_state("b", JobState::Cancelled);
    assert_eq!(resolver.check_dependencies("c"), DependencyStatus::Satisfied);
    resolver.update_job_state("c", JobState::Running);
    assert_eq!(resolver.check_dependencies("c"), DependencyStatus::Satisfied);
    resolver.register_job("d", vec![dep(DependencyType::AfterOk, "b")]);
    assert!(matches!(resolver.check_dependencies("d"), DependencyStatus::Failed { .. }));
}

#[test]
fn jobs_in_a_cycle_wait_for_each_other() {
    let mut resolver = DependencyResolver::new();
    for (job, other) in [("a", "b"), ("b", "c"), ("c", "a")] {
        resolver.register_job(
            job,
            vec![JobDependency { dep_type: DependencyType::AfterAny, job: other.to_string() }],
        );
    }
    assert!(resolver.validate_no_cycles().is_err());
    assert!(resolver.ready_jobs().is_empty());
    resolver.remove_job("c");
    assert!(resolver.validate_no_cycles().is_ok());
}

#[test]
fn arrays_expand_to_their_steps() {
    let array = JobArraySpec::parse("1-10:3").unwrap();
    assert_eq!(array.task_count(), 4);
    let tasks = array.expand("sim");
    assert_eq!(tasks.len(), 4);
    let indices: Vec<u32> = tasks.iter().map(|t| t.array_index).collect();
    assert_eq!(indices, vec![1, 4, 7, 10]);
    assert_eq!(tasks[1].name, "sim_4");
    assert!(tasks.iter().all(|t| t.parent_name == "sim"));
}

#[test]
fn hops_are_symmetric_and_bounded() {
    let nodes = vec![
        node("a", Some("s1"), Some("r1")),
        node("b", Some("s1"), Some("r1")),
        node("c", Some("s2"), Some("r1")),
        node("d", None, None),
    ];
    let scorer = TopologyScorer::new(&nodes);
    let all = ["a", "b", "c", "d", "unknown"];
    for x in all {
        for y in all {
            assert_eq!(scorer.hops_between(x, y), scorer.hops_between(y, x));
            assert!(scorer.hops_between(x, y) <= 3);
        }
    }
    assert_eq!(scorer.hops_between("a", "a"), 1);
    assert_eq!(scorer.hops_between("a", "b"), 1);
    assert_eq!(scorer.hops_between("a", "c"), 2);
    assert_eq!(scorer.hops_between("a", "d"), 3);
    assert!(scorer.check_max_hops(&names(&all), 3));
    assert!(scorer.check_prefer_same_switch(&names(&["a", "b"])));
    assert!(scorer.check_max_hops(&names(&["a", "b"]), 1));
}

#[test]
fn scores_are_exact_fractions() {
    let nodes = vec![
        node("a", Some("s1"), Some("r1")),
        node("b", Some("s1"), Some("r1")),
        node("c", Some("s2"), Some("r1")),
    ];
    let scorer = TopologyScorer::new(&nodes);
    let score = scorer.score(&names(&["a", "b", "c"]), None);
    // Two of three under a switch at 0.7, three of three in a rack at 0.3.
    assert_eq!(score, PlacementScore { points: 2 * 7 + 3 * 3, out_of: 30 });
    assert_eq!(scorer.score(&names(&[]), None).out_of, 1);
}

#[test]
fn candidates_are_runs_and_spreads_of_feasible_nodes() {
    let feasible = names(&["a", "b", "c", "d", "e", "f"]);
    let list = GangScheduler::generate_candidates(&feasible, 2, 10);
    assert_eq!(list[0], names(&["a", "b"]));
    assert_eq!(list[4], names(&["e", "f"]));
    assert_eq!(list[5], names(&["b", "e"]));
    assert_eq!(list[6], names(&["c", "f"]));
    assert_eq!(list.len(), 7);
    assert_eq!(GangScheduler::generate_candidates(&feasible, 2, 3).len(), 3);
    assert!(GangScheduler::generate_candidates(&feasible, 7, 10).is_empty());
    assert_eq!(GangScheduler::generate_candidates(&feasible, 0, 10), vec![Vec::<String>::new()]);
    assert_eq!(MAX_CANDIDATES, 10);
}

#[test]
fn of_equally_good_placements_the_last_is_taken() {
    let mut cluster = ClusterState::new();
    for (name, switch) in [("a", "s1"), ("b", "s1"), ("c", "s2"), ("d", "s2")] {
        cluster.nodes.push(node(name, Some(switch), None));
    }
    let spec = TopologySpec { prefer_same_switch: true, max_hops: None, topology_key: None };
    let placement =
        GangScheduler::schedule(&cluster, "job", 2, 1000, 10, 0, Some(&spec)).unwrap();
    assert_eq!(placement.nodes, names(&["c", "d"]));
    assert_eq!(placement.score, PlacementScore { points: 14, out_of: 20 });
    let strict = TopologySpec { max_hops: Some(0), ..spec };
    assert_eq!(
        GangScheduler::schedule(&cluster, "job", 2, 1000, 10, 0, Some(&strict)).unwrap_err(),
        BuboError::NoFeasiblePlacement {
            job_name: "job".to_string(),
            reason: "no feasible placement satisfies topology constraints".to_string(),
        }
    );
    assert_eq!(
        GangScheduler::schedule(&cluster, "job", 5, 1000, 10, 0, None).unwrap_err(),
        BuboError::NoFeasiblePlacement {
            job_name: "job".to_string(),
            reason: "need 5 nodes, only 4 feasible".to_string(),
        }
    );
}

#[test]
fn jobs_leave_a_queue_by_rank() {
    let mut queue = PriorityQueue::new();
    queue.push(job("low", 1, 10));
    queue.push(job("late", 50, 30));
    queue.push(job("early", 50, 20));
    queue.push(job("high", 100, 40));
    assert_eq!(queue.peek().unwrap().name, "high");
    assert_eq!(queue.remove_by_name("late").unwrap().name, "late");
    assert!(queue.remove_by_name("late").is_none());
    let mut order = Vec::new();
    while let Some(next) = queue.pop() {
        order.push(next.name);
    }
    assert_eq!(order, vec!["high", "early", "low"]);
    assert!(queue.is_empty());
}

#[test]
fn finishing_a_job_undoes_its_start() {
    let mut manager = QueueManager::new("default");
    manager.register_queue(
        "small",
        QueueConfig {
            max_nodes: 4,
            max_walltime: None,
            max_jobs_per_user: Some(1),
            default_priority: 50,
        },
    );
    let in_small = |name: &str| QueuedJob { queue: "small".to_string(), ..job(name, 50, 0) };
    manager.record_job_started("small", 4, "user");
    assert!(manager.submit_job(in_small("x")).is_err());
    manager.record_job_finished("small", 4, "user");
    assert!(manager.submit_job(in_small("x")).is_ok());
    assert_eq!(manager.total_depth(), 1);
    assert_eq!(manager.next_job_from("small").unwrap().name, "x");
    assert_eq!(manager.total_depth(), 0);
}

#[test]
fn queues_are_removed_when_they_are_known() {
    let mut manager = QueueManager::new("default");
    assert!(matches!(
        manager.remove_queue("gpu"),
        Err(BuboError::QueueNotFound { queue_name }) if queue_name == "gpu"
    ));
    manager.register_queue(
        "gpu",
        QueueConfig {
            max_nodes: 4,
            max_walltime: None,
            max_jobs_per_user: None,
            default_priority: 50,
        },
    );
    assert!(manager.remove_queue("gpu").is_ok());
    assert_eq!(manager.queue_names(), vec!["default"]);
}
