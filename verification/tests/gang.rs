//! Gang scheduling.

use wren::model::cluster::ClusterState;
use wren::model::crd::TopologySpec;
use wren::model::error::BuboError;
use wren::model::types::NodeResources;
use wren::scheduler::gang::GangScheduler;
use wren::scheduler::topology::{PlacementScore, TopologyScorer};
use wren::string_map::StringMap;

fn value(score: PlacementScore) -> f64 {
    score.points as f64 / score.out_of as f64
}

fn make_node(name: &str, cpu: u64, mem: u64, gpus: u32) -> NodeResources {
    NodeResources {
        name: name.to_string(),
        allocatable_cpu_millis: cpu,
        allocatable_memory_bytes: mem,
        allocatable_gpus: gpus,
        labels: StringMap::new(),
        switch_group: None,
        rack: None,
    }
}

fn make_node_topo(
    name: &str,
    switch: Option<&str>,
    rack: Option<&str>,
) -> NodeResources {
    NodeResources {
        name: name.to_string(),
        allocatable_cpu_millis: 8000,
        allocatable_memory_bytes: 16_000_000_000,
        allocatable_gpus: 0,
        labels: StringMap::new(),
        switch_group: switch.map(str::to_string),
        rack: rack.map(str::to_string),
    }
}

fn make_cluster(nodes: Vec<NodeResources>) -> ClusterState {
    ClusterState {
        nodes,
        allocations: StringMap::new(),
    }
}

#[test]
fn test_basic_gang_schedule() {
    let cluster = make_cluster(vec![
        make_node("node-0", 8000, 16_000_000_000, 2),
        make_node("node-1", 8000, 16_000_000_000, 2),
        make_node("node-2", 8000, 16_000_000_000, 2),
        make_node("node-3", 8000, 16_000_000_000, 2),
    ]);

    let placement =
        GangScheduler::schedule(&cluster, "test-job", 3, 4000, 8_000_000_000, 1, None)
            .unwrap();
    assert_eq!(placement.nodes.len(), 3);
    assert_eq!(value(placement.score), 1.0);
}

#[test]
fn test_exact_node_count() {
    let cluster = make_cluster(vec![
        make_node("node-0", 8000, 16_000_000_000, 0),
        make_node("node-1", 8000, 16_000_000_000, 0),
    ]);

    let placement =
        GangScheduler::schedule(&cluster, "test-job", 2, 4000, 8_000_000_000, 0, None)
            .unwrap();
    assert_eq!(placement.nodes.len(), 2);
    assert!(placement.nodes.contains(&"node-0".to_string()));
    assert!(placement.nodes.contains(&"node-1".to_string()));
}

#[test]
fn test_insufficient_nodes() {
    let cluster = make_cluster(vec![
        make_node("node-0", 8000, 16_000_000_000, 2),
        make_node("node-1", 8000, 16_000_000_000, 2),
    ]);

    let result =
        GangScheduler::schedule(&cluster, "test-job", 4, 4000, 8_000_000_000, 0, None);
    assert!(result.is_err());
    match result.unwrap_err() {
        BuboError::NoFeasiblePlacement { job_name, reason } => {
            assert_eq!(job_name, "test-job");
            assert!(reason.contains("need 4"));
            assert!(reason.contains("only 2"));
        }
        other => panic!("unexpected error: {:?}", other),
    }
}

#[test]
fn test_insufficient_cpu() {
    let cluster = make_cluster(vec![
        make_node("node-0", 2000, 16_000_000_000, 0),
        make_node("node-1", 2000, 16_000_000_000, 0),
    ]);

    let result =
        GangScheduler::schedule(&cluster, "test-job", 1, 4000, 8_000_000_000, 0, None);
    assert!(result.is_err());
}

#[test]
fn test_insufficient_memory() {
    let cluster = make_cluster(vec![
        make_node("node-0", 8000, 4_000_000_000, 0),
        make_node("node-1", 8000, 4_000_000_000, 0),
    ]);

    let result =
        GangScheduler::schedule(&cluster, "test-job", 1, 4000, 8_000_000_000, 0, None);
    assert!(result.is_err());
}

#[test]
fn test_insufficient_gpus() {
    let cluster = make_cluster(vec![
        make_node("node-0", 8000, 16_000_000_000, 1),
        make_node("node-1", 8000, 16_000_000_000, 1),
    ]);

    let result =
        GangScheduler::schedule(&cluster, "test-job", 1, 4000, 8_000_000_000, 2, None);
    assert!(result.is_err());
}

#[test]
fn test_respects_existing_allocations() {
    let mut cluster = make_cluster(vec![
        make_node("node-0", 8000, 16_000_000_000, 0),
        make_node("node-1", 8000, 16_000_000_000, 0),
        make_node("node-2", 8000, 16_000_000_000, 0),
    ]);

    cluster.allocate("node-0", 7000, 15_000_000_000, 0, "other-job");

    let placement =
        GangScheduler::schedule(&cluster, "test-job", 2, 4000, 8_000_000_000, 0, None)
            .unwrap();
    assert_eq!(placement.nodes.len(), 2);
    assert!(!placement.nodes.contains(&"node-0".to_string()));
    assert!(placement.nodes.contains(&"node-1".to_string()));
    assert!(placement.nodes.contains(&"node-2".to_string()));
}

#[test]
fn test_empty_cluster() {
    let cluster = make_cluster(vec![]);

    let result =
        GangScheduler::schedule(&cluster, "test-job", 1, 4000, 8_000_000_000, 0, None);
    assert!(result.is_err());
}

#[test]
fn test_zero_node_count() {
    let cluster = make_cluster(vec![make_node("node-0", 8000, 16_000_000_000, 0)]);

    let placement =
        GangScheduler::schedule(&cluster, "test-job", 0, 4000, 8_000_000_000, 0, None)
            .unwrap();
    assert_eq!(placement.nodes.len(), 0);
}

#[test]
fn test_no_gpu_requirement_ignores_gpu_capacity() {
    let cluster = make_cluster(vec![
        make_node("node-0", 8000, 16_000_000_000, 0),
        make_node("node-1", 8000, 16_000_000_000, 0),
    ]);

    let placement =
        GangScheduler::schedule(&cluster, "test-job", 2, 4000, 8_000_000_000, 0, None)
            .unwrap();
    assert_eq!(placement.nodes.len(), 2);
}

// ---- topology-aware tests ----

#[test]
fn test_topology_aware_scheduling() {
    // 4 nodes: n0+n1 on sw-1/rack-A, n2+n3 on sw-2/rack-B.
    // Requesting 2 nodes without topology → greedy picks n0,n1.
    // With topology (prefer_same_switch) → should still return 2 co-located nodes.
    let cluster = make_cluster(vec![
        make_node_topo("n0", Some("sw-1"), Some("rack-A")),
        make_node_topo("n1", Some("sw-1"), Some("rack-A")),
        make_node_topo("n2", Some("sw-2"), Some("rack-B")),
        make_node_topo("n3", Some("sw-2"), Some("rack-B")),
    ]);

    let spec = TopologySpec {
        prefer_same_switch: true,
        max_hops: None,
        topology_key: None,
    };

    let placement =
        GangScheduler::schedule(&cluster, "topo-job", 2, 4000, 8_000_000_000, 0, Some(&spec))
            .unwrap();
    assert_eq!(placement.nodes.len(), 2);

    let scorer = TopologyScorer::new(&cluster.nodes);
    assert!(
        scorer.check_prefer_same_switch(&placement.nodes),
        "nodes should share the same switch: {:?}",
        placement.nodes
    );
    // Score should be near 1.0 for perfectly co-located nodes.
    assert!(value(placement.score) > 0.9, "expected high score, got {}", value(placement.score));
}

#[test]
fn test_topology_constraint_max_hops() {
    // n0 and n1 are on different racks (3 hops apart).
    // max_hops = 1 should filter this out entirely → NoFeasiblePlacement.
    let cluster = make_cluster(vec![
        make_node_topo("n0", Some("sw-1"), Some("rack-A")),
        make_node_topo("n1", Some("sw-2"), Some("rack-B")),
    ]);

    let spec = TopologySpec {
        prefer_same_switch: false,
        max_hops: Some(1),
        topology_key: None,
    };

    let result =
        GangScheduler::schedule(&cluster, "hop-job", 2, 4000, 8_000_000_000, 0, Some(&spec));
    assert!(
        result.is_err(),
        "expected NoFeasiblePlacement when max_hops=1 and nodes are 3 hops apart"
    );
}

#[test]
fn test_topology_max_hops_satisfied() {
    // n0 and n1 on same switch (1 hop) — should succeed with max_hops=1.
    let cluster = make_cluster(vec![
        make_node_topo("n0", Some("sw-1"), Some("rack-A")),
        make_node_topo("n1", Some("sw-1"), Some("rack-A")),
        make_node_topo("n2", Some("sw-2"), Some("rack-B")),
    ]);

    let spec = TopologySpec {
        prefer_same_switch: false,
        max_hops: Some(1),
        topology_key: None,
    };

    let placement =
        GangScheduler::schedule(&cluster, "hop-job", 2, 4000, 8_000_000_000, 0, Some(&spec))
            .unwrap();
    assert_eq!(placement.nodes.len(), 2);
    // Must not contain n2 (it would be 3 hops from sw-1 nodes).
    assert!(!placement.nodes.contains(&"n2".to_string()));
}
