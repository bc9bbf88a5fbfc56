//! What is read of a cluster's nodes.

use wren::bubo::node_watcher::{
    parse_cpu, parse_integer, parse_memory, parse_node, sync_nodes, NodeReport,
};
use wren::model::cluster::ClusterState;
use wren::string_map::StringMap;

#[test]
fn test_parse_cpu_cores() {
    assert_eq!(parse_cpu("4"), 4000);
    assert_eq!(parse_cpu("16"), 16000);
}

#[test]
fn test_parse_cpu_millis() {
    assert_eq!(parse_cpu("4000m"), 4000);
    assert_eq!(parse_cpu("500m"), 500);
}

#[test]
fn test_parse_memory_gi() {
    assert_eq!(parse_memory("16Gi"), 17_179_869_184);
}

#[test]
fn test_parse_memory_mi() {
    assert_eq!(parse_memory("512Mi"), 536_870_912);
}

#[test]
fn test_parse_memory_bytes() {
    assert_eq!(
        parse_memory("17179869184"),
        17_179_869_184
    );
}

#[test]
fn test_parse_memory_decimal_suffixes() {
    assert_eq!(parse_memory("1G"), 1_000_000_000);
    assert_eq!(parse_memory("1M"), 1_000_000);
    assert_eq!(parse_memory("1K"), 1_000);
}

#[test]
fn test_parse_integer() {
    assert_eq!(parse_integer("4"), 4);
    assert_eq!(parse_integer("0"), 0);
}

#[test]
fn test_parse_node_basic() {
    let mut allocatable = StringMap::new();
    allocatable.insert("cpu".to_string(), "8".to_string());
    allocatable.insert("memory".to_string(), "32Gi".to_string());
    allocatable.insert("nvidia.com/gpu".to_string(), "4".to_string());

    let mut labels = StringMap::new();
    labels.insert(
        "network.bubo.io/switch-group".to_string(),
        "sw-rack-01".to_string(),
    );

    let node = NodeReport {
        name: Some("gpu-node-0".to_string()),
        labels: Some(labels),
        allocatable: Some(allocatable),
        unschedulable: Some(false),
        taint_effects: vec![],
    };

    assert!(node.is_countable());
    let nr = parse_node(&node).unwrap();
    assert_eq!(nr.name, "gpu-node-0");
    assert_eq!(nr.allocatable_cpu_millis, 8000);
    assert_eq!(nr.allocatable_memory_bytes, 34_359_738_368);
    assert_eq!(nr.allocatable_gpus, 4);
    assert_eq!(nr.switch_group.as_deref(), Some("sw-rack-01"));
}

#[test]
fn test_parse_node_skips_unschedulable() {
    let mut allocatable = StringMap::new();
    allocatable.insert("cpu".to_string(), "8".to_string());
    allocatable.insert("memory".to_string(), "32Gi".to_string());

    let node = NodeReport {
        name: Some("cordoned-node".to_string()),
        labels: None,
        allocatable: Some(allocatable),
        unschedulable: Some(true),
        taint_effects: vec![],
    };

    assert!(parse_node(&node).is_none());
}

fn plain_node(name: &str, cpu: &str, memory: &str) -> NodeReport {
    let mut allocatable = StringMap::new();
    allocatable.insert("cpu".to_string(), cpu.to_string());
    allocatable.insert("memory".to_string(), memory.to_string());
    NodeReport {
        name: Some(name.to_string()),
        labels: None,
        allocatable: Some(allocatable),
        unschedulable: None,
        taint_effects: vec![],
    }
}

#[test]
fn nodes_with_taints_are_skipped() {
    let mut node = plain_node("n0", "4", "1Gi");
    node.taint_effects = vec!["PreferNoSchedule".to_string()];
    assert!(parse_node(&node).is_some());
    node.taint_effects.push("NoSchedule".to_string());
    assert!(parse_node(&node).is_none());
}

#[test]
fn incomplete_nodes_are_skipped() {
    let mut node = plain_node("n0", "4", "1Gi");
    node.name = None;
    assert!(parse_node(&node).is_none());
    let mut node = plain_node("n0", "4", "1Gi");
    node.allocatable = None;
    assert!(parse_node(&node).is_none());
    let mut node = plain_node("n0", "4", "1Gi");
    node.allocatable.as_mut().unwrap().remove("memory");
    assert!(parse_node(&node).is_none());
}

#[test]
fn quantities_that_make_no_sense_count_as_nothing() {
    assert_eq!(parse_cpu("four"), 0);
    assert_eq!(parse_memory("1.5Gi"), 0);
    assert_eq!(parse_integer("-1"), 0);
    assert_eq!(parse_memory("2Ki"), 2048);
    assert_eq!(parse_memory("3Ti"), 3_298_534_883_328);
    assert_eq!(parse_memory("1T"), 1_000_000_000_000);
}

#[test]
fn quantities_beyond_the_counters_are_told() {
    assert!(plain_node("n0", "18446744073709551", "16777215Ti").is_countable());
    assert!(!plain_node("n0", "18446744073709552", "1Gi").is_countable());
    assert!(!plain_node("n0", "1", "16777216Ti").is_countable());
}

#[test]
fn syncing_nodes_keeps_allocations() {
    let mut cluster = ClusterState::new();
    let closed = NodeReport { unschedulable: Some(true), ..plain_node("n1", "8", "1Gi") };
    sync_nodes(&mut cluster, &vec![plain_node("n0", "4", "1Gi"), closed]);
    cluster.allocate("n0", 1000, 500, 0, "job");
    sync_nodes(&mut cluster, &vec![plain_node("n0", "8", "1Gi")]);
    assert_eq!(cluster.nodes.len(), 1);
    assert_eq!(cluster.available_resources("n0"), Some((7000, 1_073_741_324, 0)));
    assert_eq!(cluster.available_resources("n1"), None);
}
