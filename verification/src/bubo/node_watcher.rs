//! What a cluster's nodes offer, as read from what the cluster says of them.

use vstd::prelude::*;
use vstd::string::*;
use crate::controller::launch::Variables;
use crate::model::cluster::ClusterState;
use crate::model::types::{NodeResources, NodeView};
use crate::string_map::StringMap;
use crate::text::{bounded_value, contains_str, parse_bounded, str_eq};

verus! {

/// Whether `s` ends in `suffix`.
pub open spec fn ends_with(s: Seq<char>, suffix: Seq<char>) -> bool {
    s.len() >= suffix.len() && s.skip(s.len() - suffix.len()) == suffix
}

/// `s` without the suffix that it ends in.
pub open spec fn before_suffix(s: Seq<char>, suffix: Seq<char>) -> Seq<char> {
    s.take(s.len() - suffix.len())
}

/// The 64-bit number that a text denotes; 0 where it denotes none.
pub open spec fn number_or_zero(s: Seq<char>) -> nat {
    match bounded_value(s, u64::MAX as nat) {
        Some(n) => n,
        None => 0,
    }
}

/// Thousandths of a CPU that a quantity denotes.
pub open spec fn cpu_millis(s: Seq<char>) -> nat {
    if ends_with(s, "m"@) {
        number_or_zero(before_suffix(s, "m"@))
    } else {
        number_or_zero(s) * 1000
    }
}

/// Bytes that a quantity denotes: a number with a binary or a decimal suffix, or
/// without one.
pub open spec fn memory_bytes(s: Seq<char>) -> nat {
    if ends_with(s, "Ki"@) {
        number_or_zero(before_suffix(s, "Ki"@)) * 1024
    } else if ends_with(s, "Mi"@) {
        number_or_zero(before_suffix(s, "Mi"@)) * 1_048_576
    } else if ends_with(s, "Gi"@) {
        number_or_zero(before_suffix(s, "Gi"@)) * 1_073_741_824
    } else if ends_with(s, "Ti"@) {
        number_or_zero(before_suffix(s, "Ti"@)) * 1_099_511_627_776
    } else if ends_with(s, "K"@) {
        number_or_zero(before_suffix(s, "K"@)) * 1000
    } else if ends_with(s, "M"@) {
        number_or_zero(before_suffix(s, "M"@)) * 1_000_000
    } else if ends_with(s, "G"@) {
        number_or_zero(before_suffix(s, "G"@)) * 1_000_000_000
    } else if ends_with(s, "T"@) {
        number_or_zero(before_suffix(s, "T"@)) * 1_000_000_000_000
    } else {
        number_or_zero(s)
    }
}

/// The 32-bit number that a quantity denotes; 0 where it denotes none.
pub open spec fn integer_value(s: Seq<char>) -> nat {
    match bounded_value(s, u32::MAX as nat) {
        Some(n) => n,
        None => 0,
    }
}

/// What is read of a node of the cluster.
#[derive(Clone, Debug)]
pub struct NodeReport {
    pub name: Option<String>,
    pub labels: Option<StringMap<String>>,
    /// Quantities of the resources that can be allocated, where the node reports them.
    pub allocatable: Option<StringMap<String>>,
    /// Whether the node is marked as unschedulable, where it says so.
    pub unschedulable: Option<bool>,
    /// Effects of the node's taints.
    pub taint_effects: Vec<String>,
}

/// The label under which nodes bear their switch group.
pub open spec fn switch_label() -> Seq<char> {
    "network.bubo.io/switch-group"@
}

/// The label that stands for the rack.
pub open spec fn rack_label() -> Seq<char> {
    "topology.kubernetes.io/zone"@
}

/// Value under a key, where there is one.
pub open spec fn lookup(map: Variables, key: Seq<char>) -> Option<Seq<char>> {
    if map.dom().contains(key) {
        Some(map[key])
    } else {
        None
    }
}

impl NodeReport {
    /// Whether the node is open for jobs.
    pub open spec fn schedulable(self) -> bool {
        self.unschedulable != Some(true) && !self.taint_effects.deep_view().contains("NoSchedule"@)
    }

    /// Whether the node reports its name, and CPU and memory that can be allocated.
    pub open spec fn complete(self) -> bool {
        self.name is Some && self.allocatable is Some && lookup(self.allocatable->0@, "cpu"@) is Some
            && lookup(self.allocatable->0@, "memory"@) is Some
    }

    /// Labels of the node.
    pub open spec fn label_map(self) -> Variables {
        match self.labels {
            Some(labels) => labels@,
            None => Map::empty(),
        }
    }

    /// GPUs that can be allocated.
    pub open spec fn gpus(self) -> nat {
        match lookup(self.allocatable->0@, "nvidia.com/gpu"@) {
            Some(quantity) => integer_value(quantity),
            None => 0,
        }
    }

    /// What a complete node offers.
    pub open spec fn resources(self) -> NodeView {
        NodeView {
            name: self.name->0@,
            cpu: cpu_millis(lookup(self.allocatable->0@, "cpu"@)->0),
            memory: memory_bytes(lookup(self.allocatable->0@, "memory"@)->0),
            gpus: self.gpus(),
            labels: self.label_map(),
            switch_group: lookup(self.label_map(), switch_label()),
            rack: lookup(self.label_map(), rack_label()),
        }
    }

    /// Whether what the node offers fits in 64 bits.
    pub open spec fn fits(self) -> bool {
        self.complete() ==> self.resources().cpu <= u64::MAX && self.resources().memory <= u64::MAX
    }
}

fn strip_suffix<'a>(s: &'a str, suffix: &str) -> (r: Option<&'a str>)
    ensures
        match r {
            Some(rest) => ends_with(s@, suffix@) && rest@ == before_suffix(s@, suffix@),
            None => !ends_with(s@, suffix@),
        },
{
    let n = s.unicode_len();
    let k = suffix.unicode_len();
    if n < k {
        return None;
    }
    let end = s.substring_char(n - k, n);
    proof {
        assert(end@ =~= s@.skip(s@.len() - suffix@.len()));
    }
    if str_eq(end, suffix) {
        let rest = s.substring_char(0, n - k);
        proof {
            assert(rest@ =~= before_suffix(s@, suffix@));
        }
        Some(rest)
    } else {
        None
    }
}

fn parse_or_zero(s: &str) -> (r: u64)
    ensures
        r == number_or_zero(s@),
{
    match parse_bounded(s, u64::MAX) {
        Some(n) => n,
        None => 0,
    }
}

/// Thousandths of a CPU in a quantity such as "4" or "4000m".
pub fn parse_cpu(quantity: &str) -> (r: u64)
    requires
        cpu_millis(quantity@) <= u64::MAX,
    ensures
        r == cpu_millis(quantity@),
{
    match strip_suffix(quantity, "m") {
        Some(rest) => parse_or_zero(rest),
        None => parse_or_zero(quantity) * 1000,
    }
}

/// The number in a quantity of memory, and the bytes that it counts in.
fn split_memory(quantity: &str) -> (r: (u64, u64))
    ensures
        memory_bytes(quantity@) == r.0 * r.1,
        r.1 <= 1_099_511_627_776,
{
    if let Some(rest) = strip_suffix(quantity, "Ki") {
        (parse_or_zero(rest), 1024)
    } else if let Some(rest) = strip_suffix(quantity, "Mi") {
        (parse_or_zero(rest), 1_048_576)
    } else if let Some(rest) = strip_suffix(quantity, "Gi") {
        (parse_or_zero(rest), 1_073_741_824)
    } else if let Some(rest) = strip_suffix(quantity, "Ti") {
        (parse_or_zero(rest), 1_099_511_627_776)
    } else if let Some(rest) = strip_suffix(quantity, "K") {
        (parse_or_zero(rest), 1000)
    } else if let Some(rest) = strip_suffix(quantity, "M") {
        (parse_or_zero(rest), 1_000_000)
    } else if let Some(rest) = strip_suffix(quantity, "G") {
        (parse_or_zero(rest), 1_000_000_000)
    } else if let Some(rest) = strip_suffix(quantity, "T") {
        (parse_or_zero(rest), 1_000_000_000_000)
    } else {
        (parse_or_zero(quantity), 1)
    }
}

/// Bytes in a quantity such as "16Gi", "16384Mi" or "17179869184".
pub fn parse_memory(quantity: &str) -> (r: u64)
    requires
        memory_bytes(quantity@) <= u64::MAX,
    ensures
        r == memory_bytes(quantity@),
{
    let parts = split_memory(quantity);
    parts.0 * parts.1
}

fn cpu_fits(quantity: &str) -> (r: bool)
    ensures
        r == (cpu_millis(quantity@) <= u64::MAX),
{
    match strip_suffix(quantity, "m") {
        Some(_) => true,
        None => parse_or_zero(quantity) <= u64::MAX / 1000,
    }
}

fn memory_fits(quantity: &str) -> (r: bool)
    ensures
        r == (memory_bytes(quantity@) <= u64::MAX),
{
    let parts = split_memory(quantity);
    let number: u128 = parts.0 as u128;
    let unit: u128 = parts.1 as u128;
    proof {
        assert(number * unit <= u128::MAX) by (nonlinear_arith)
            requires
                number <= u64::MAX,
                unit <= u64::MAX,
        ;
        assert(number * unit == parts.0 * parts.1);
    }
    number * unit <= u64::MAX as u128
}

/// An integer quantity, such as a number of GPUs.
pub fn parse_integer(quantity: &str) -> (r: u32)
    ensures
        r == integer_value(quantity@),
{
    match parse_bounded(quantity, u32::MAX as u64) {
        Some(n) => n as u32,
        None => 0,
    }
}

fn label_value(labels: &Option<StringMap<String>>, key: &str) -> (r: Option<String>)
    ensures
        r.deep_view() == (match labels {
            Some(map) => lookup(map@, key@),
            None => None,
        }),
{
    match labels {
        Some(map) => match map.get(key) {
            Some(value) => Some(value.clone()),
            None => None,
        },
        None => None,
    }
}

impl NodeReport {
    /// Checks whether what the node offers fits in 64 bits, so that it can be handed to
    /// [`parse_node`].
    pub fn is_countable(&self) -> (r: bool)
        ensures
            r == self.fits(),
    {
        if self.name.is_none() {
            return true;
        }
        match &self.allocatable {
            Some(allocatable) => match (allocatable.get("cpu"), allocatable.get("memory")) {
                (Some(cpu), Some(memory)) => cpu_fits(cpu.as_str()) && memory_fits(
                    memory.as_str(),
                ),
                _ => true,
            },
            None => true,
        }
    }
}

/// What a node offers; nothing where it is closed for jobs or does not report its
/// name, CPU and memory.
pub fn parse_node(node: &NodeReport) -> (r: Option<NodeResources>)
    requires
        node.fits(),
    ensures
        match r {
            Some(resources) => node.complete() && node.schedulable() && resources.deep_view()
                == node.resources(),
            None => !node.complete() || !node.schedulable(),
        },
{
    let name = match &node.name {
        Some(name) => name,
        None => {
            return None;
        },
    };
    let allocatable = match &node.allocatable {
        Some(allocatable) => allocatable,
        None => {
            return None;
        },
    };
    let cpu = match allocatable.get("cpu") {
        Some(quantity) => quantity,
        None => {
            return None;
        },
    };
    let memory = match allocatable.get("memory") {
        Some(quantity) => quantity,
        None => {
            return None;
        },
    };
    let gpus: u32 = match allocatable.get("nvidia.com/gpu") {
        Some(quantity) => parse_integer(quantity.as_str()),
        None => 0,
    };
    match node.unschedulable {
        Some(closed) => {
            if closed {
                return None;
            }
        },
        None => {},
    }
    if contains_str(&node.taint_effects, "NoSchedule") {
        return None;
    }
    let labels = match &node.labels {
        Some(labels) => labels.duplicate(),
        None => StringMap::new(),
    };
    let switch_group = label_value(&node.labels, "network.bubo.io/switch-group");
    let rack = label_value(&node.labels, "topology.kubernetes.io/zone");
    Some(
        NodeResources {
            name: name.clone(),
            allocatable_cpu_millis: parse_cpu(cpu.as_str()),
            allocatable_memory_bytes: parse_memory(memory.as_str()),
            allocatable_gpus: gpus,
            labels,
            switch_group,
            rack,
        },
    )
}

/// What the nodes of a cluster offer that are open for jobs, in order.
pub open spec fn offered(nodes: Seq<NodeReport>) -> Seq<NodeView>
    decreases nodes.len(),
{
    if nodes.len() == 0 {
        Seq::empty()
    } else {
        let before = offered(nodes.drop_last());
        if nodes.last().complete() && nodes.last().schedulable() {
            before.push(nodes.last().resources())
        } else {
            before
        }
    }
}

/// What the nodes of a cluster offer that are open for jobs.
pub fn parse_nodes(nodes: &Vec<NodeReport>) -> (r: Vec<NodeResources>)
    requires
        forall|i: int| 0 <= i < nodes.len() ==> (#[trigger] nodes[i]).fits(),
    ensures
        r.deep_view() == offered(nodes@),
{
    let mut r: Vec<NodeResources> = Vec::new();
    let mut i: usize = 0;
    proof {
        assert(r.deep_view() =~= offered(nodes@.take(0)));
    }
    while i < nodes.len()
        invariant
            i <= nodes.len(),
            forall|i: int| 0 <= i < nodes.len() ==> (#[trigger] nodes[i]).fits(),
            r.deep_view() == offered(nodes@.take(i as int)),
        decreases nodes.len() - i,
    {
        let ghost before = r.deep_view();
        proof {
            assert(nodes@.take(i + 1).drop_last() =~= nodes@.take(i as int));
        }
        match parse_node(&nodes[i]) {
            Some(resources) => {
                r.push(resources);
                proof {
                    assert(r.deep_view() =~= before.push(nodes@[i as int].resources()));
                }
            },
            None => {},
        }
        i += 1;
    }
    proof {
        assert(nodes@.take(nodes.len() as int) =~= nodes@);
    }
    r
}

/// Takes over what the nodes of a cluster offer; what is allocated on them stays.
pub fn sync_nodes(cluster: &mut ClusterState, nodes: &Vec<NodeReport>)
    requires
        forall|i: int| 0 <= i < nodes.len() ==> (#[trigger] nodes[i]).fits(),
    ensures
        final(cluster)@.nodes == offered(nodes@),
        final(cluster)@.allocations == old(cluster)@.allocations,
{
    cluster.nodes = parse_nodes(nodes);
}

} // verus!
