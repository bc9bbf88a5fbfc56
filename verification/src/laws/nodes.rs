//! What nodes offer, as it is read from what they report.

use vstd::prelude::*;
use crate::bubo::node_watcher::{
    before_suffix, ends_with, offered, parse_cpu, parse_integer, parse_memory, parse_node,
    parse_nodes, sync_nodes, NodeReport,
};
use crate::laws::texts::lemma_read_back;
use crate::model::cluster::ClusterState;
use crate::model::types::NodeResources;
use crate::text::dec;

verus! {

/// Whether a node reports the amount `text` of a resource.
pub open spec fn reports(node: NodeReport, resource: Seq<char>, text: Seq<char>) -> bool {
    node.allocatable is Some && node.allocatable->0@.dom().contains(resource)
        && node.allocatable->0@[resource] == text
}

/// Whether a node reports some amount of a resource.
pub open spec fn reports_some(node: NodeReport, resource: Seq<char>) -> bool {
    node.allocatable is Some && node.allocatable->0@.dom().contains(resource)
}

/// Whether a node is closed for new jobs: it is marked so, or tainted so.
pub open spec fn closed_for_jobs(node: NodeReport) -> bool {
    node.unschedulable == Some(true) || exists|i: int|
        0 <= i < node.taint_effects@.len() && (#[trigger] node.taint_effects@[i])@ == "NoSchedule"@
}

/// A node is offered exactly where it has a name, reports CPU and memory, and is not closed
/// for jobs. It is offered under its name, and with the GPUs that it reports, none where it
/// reports none.
pub proof fn law_open_nodes_are_offered(node: &NodeReport, n: u32, r: Option<NodeResources>)
    requires
        call_ensures(parse_node, (node,), r),
    ensures
        r is Some <==> node.name is Some && reports_some(*node, "cpu"@) && reports_some(
            *node,
            "memory"@,
        ) && !closed_for_jobs(*node),
        r is Some ==> r->0.name@ == node.name->0@,
        r is Some && !reports_some(*node, "nvidia.com/gpu"@) ==> r->0.allocatable_gpus == 0,
        r is Some && reports(*node, "nvidia.com/gpu"@, dec(n as nat)) ==> r->0.allocatable_gpus
            == n,
{
    let effects = node.taint_effects.deep_view();
    assert(effects.contains("NoSchedule"@) <==> exists|i: int|
        0 <= i < node.taint_effects@.len() && (#[trigger] node.taint_effects@[i])@
            == "NoSchedule"@) by {
        if effects.contains("NoSchedule"@) {
            let i = effects.index_of("NoSchedule"@);
            assert(node.taint_effects@[i]@ == "NoSchedule"@);
        }
        if exists|i: int|
            0 <= i < node.taint_effects@.len() && (#[trigger] node.taint_effects@[i])@
                == "NoSchedule"@ {
            let i = choose|i: int|
                0 <= i < node.taint_effects@.len() && (#[trigger] node.taint_effects@[i])@
                    == "NoSchedule"@;
            assert(effects[i] == "NoSchedule"@);
        }
    }
    lemma_read_back(n as nat, u32::MAX as nat);
    if r is Some {
        assert(r->0.deep_view().gpus == node.gpus());
    }
}

/// CPU that is reported in whole CPUs counts a thousand each, and in thousandths one each.
pub proof fn law_cpu_is_counted_in_thousandths(
    node: &NodeReport,
    n: u64,
    r: Option<NodeResources>,
)
    requires
        call_ensures(parse_node, (node,), r),
        r is Some,
        n * 1000 <= u64::MAX,
    ensures
        reports(*node, "cpu"@, dec(n as nat)) ==> r->0.allocatable_cpu_millis == n * 1000,
        reports(*node, "cpu"@, dec(n as nat) + "m"@) ==> r->0.allocatable_cpu_millis == n,
{
    lemma_cpu(n as nat);
    assert(r->0.deep_view().cpu == node.resources().cpu);
}

proof fn lemma_plain(n: nat, suffix: Seq<char>)
    requires
        suffix.len() > 0,
        !('0' <= suffix.last() <= '9'),
    ensures
        !ends_with(dec(n), suffix),
{
    lemma_read_back(n, n);
    if ends_with(dec(n), suffix) {
        let s = dec(n);
        assert(s.skip(s.len() - suffix.len()).last() == suffix.last());
        assert(s[s.len() - 1] == suffix.last());
    }
}

proof fn lemma_own_suffix(n: nat, suffix: Seq<char>)
    ensures
        ends_with(dec(n) + suffix, suffix),
        before_suffix(dec(n) + suffix, suffix) == dec(n),
{
    let s = dec(n) + suffix;
    assert(s.skip(s.len() - suffix.len()) =~= suffix);
    assert(s.take(s.len() - suffix.len()) =~= dec(n));
}

proof fn lemma_other_suffix(n: nat, suffix: Seq<char>, other: Seq<char>)
    requires
        suffix.len() > 0,
        other.len() > 0,
        suffix.last() != other.last() || (suffix.len() == 2 && other.len() == 2 && suffix[0]
            != other[0]),
    ensures
        !ends_with(dec(n) + suffix, other),
{
    let s = dec(n) + suffix;
    if ends_with(s, other) {
        let t = s.skip(s.len() - other.len());
        assert(t.last() == s.last());
        assert(s.last() == suffix.last());
        if suffix.len() == 2 && other.len() == 2 {
            assert(t[0] == suffix[0]);
        }
    }
}

proof fn lemma_cpu(n: nat)
    requires
        n <= u64::MAX,
    ensures
        crate::bubo::node_watcher::cpu_millis(dec(n)) == n * 1000,
        crate::bubo::node_watcher::cpu_millis(dec(n) + "m"@) == n,
{
    reveal_strlit("m");
    lemma_read_back(n, u64::MAX as nat);
    lemma_plain(n, "m"@);
    lemma_own_suffix(n, "m"@);
}

/// Memory is counted in bytes: in powers of 1024 behind `Ki`, `Mi`, `Gi` and `Ti`, in powers
/// of 1000 behind `K`, `M`, `G` and `T`, and as it is without a unit.
pub proof fn law_memory_is_counted_in_bytes(quantity: &str, n: u64, r: u64)
    requires
        call_ensures(parse_memory, (quantity,), r),
    ensures
        quantity@ == dec(n as nat) ==> r == n,
        quantity@ == dec(n as nat) + "Ki"@ ==> r == n * 1024,
        quantity@ == dec(n as nat) + "Mi"@ ==> r == n * (1024 * 1024),
        quantity@ == dec(n as nat) + "Gi"@ ==> r == n * (1024 * 1024 * 1024),
        quantity@ == dec(n as nat) + "Ti"@ ==> r == n * (1024 * 1024 * 1024 * 1024),
        quantity@ == dec(n as nat) + "K"@ ==> r == n * 1000,
        quantity@ == dec(n as nat) + "M"@ ==> r == n * (1000 * 1000),
        quantity@ == dec(n as nat) + "G"@ ==> r == n * (1000 * 1000 * 1000),
        quantity@ == dec(n as nat) + "T"@ ==> r == n * (1000 * 1000 * 1000 * 1000),
{
    lemma_memory(n as nat);
}

proof fn lemma_memory(n: nat)
    requires
        n <= u64::MAX,
    ensures
        crate::bubo::node_watcher::memory_bytes(dec(n)) == n,
        crate::bubo::node_watcher::memory_bytes(dec(n) + "Ki"@) == n * 1024,
        crate::bubo::node_watcher::memory_bytes(dec(n) + "Mi"@) == n * 1_048_576,
        crate::bubo::node_watcher::memory_bytes(dec(n) + "Gi"@) == n * 1_073_741_824,
        crate::bubo::node_watcher::memory_bytes(dec(n) + "Ti"@) == n * 1_099_511_627_776,
        crate::bubo::node_watcher::memory_bytes(dec(n) + "K"@) == n * 1000,
        crate::bubo::node_watcher::memory_bytes(dec(n) + "M"@) == n * 1_000_000,
        crate::bubo::node_watcher::memory_bytes(dec(n) + "G"@) == n * 1_000_000_000,
        crate::bubo::node_watcher::memory_bytes(dec(n) + "T"@) == n * 1_000_000_000_000,
{
    reveal_strlit("Ki");
    reveal_strlit("Mi");
    reveal_strlit("Gi");
    reveal_strlit("Ti");
    reveal_strlit("K");
    reveal_strlit("M");
    reveal_strlit("G");
    reveal_strlit("T");
    lemma_read_back(n, u64::MAX as nat);
    let units = seq!["Ki"@, "Mi"@, "Gi"@, "Ti"@, "K"@, "M"@, "G"@, "T"@];
    assert forall|a: int| 0 <= a < 8 implies !ends_with(dec(n), #[trigger] units[a]) by {
        lemma_plain(n, units[a]);
    }
    assert forall|a: int| 0 <= a < 8 implies ends_with(dec(n) + #[trigger] units[a], units[a])
        && before_suffix(dec(n) + units[a], units[a]) == dec(n) by {
        lemma_own_suffix(n, units[a]);
    }
    assert forall|a: int, b: int| 0 <= a < 8 && 0 <= b < 8 && a != b implies !ends_with(
        dec(n) + #[trigger] units[a],
        #[trigger] units[b],
    ) by {
        lemma_other_suffix(n, units[a], units[b]);
    }
    assert(units[0] == "Ki"@);
    assert(units[1] == "Mi"@);
    assert(units[2] == "Gi"@);
    assert(units[3] == "Ti"@);
    assert(units[4] == "K"@);
    assert(units[5] == "M"@);
    assert(units[6] == "G"@);
    assert(units[7] == "T"@);
}

/// A node is offered with the memory that it reports.
pub proof fn law_memory_is_offered(
    node: &NodeReport,
    quantity: &str,
    memory: u64,
    r: Option<NodeResources>,
)
    requires
        call_ensures(parse_node, (node,), r),
        r is Some,
        reports(*node, "memory"@, quantity@),
        call_ensures(parse_memory, (quantity,), memory),
    ensures
        r->0.allocatable_memory_bytes == memory,
{
    assert(r->0.deep_view().memory == node.resources().memory);
}

/// The nodes of a cluster are those that are offered, in the order of the reports: a
/// further report adds its node at the end, or nothing where it is not offered. What is
/// allocated stays.
pub proof fn law_reported_nodes_are_taken_over(
    cluster: &mut ClusterState,
    reports: &Vec<NodeReport>,
    fewer: &Vec<NodeReport>,
    before: Vec<NodeResources>,
    last: &NodeReport,
    r: Option<NodeResources>,
)
    requires
        call_ensures(sync_nodes, (cluster, reports), ()),
        call_ensures(parse_nodes, (fewer,), before),
        reports@ == fewer@.push(*last),
        call_ensures(parse_node, (last,), r),
    ensures
        fewer@.len() == 0 ==> before@.len() == 0,
        final(cluster)@.nodes == (if r is Some {
            before.deep_view().push(r->0.deep_view())
        } else {
            before.deep_view()
        }),
        final(cluster)@.allocations == old(cluster)@.allocations,
{
    assert(reports@.drop_last() =~= fewer@);
    assert(before.deep_view().len() == before@.len());
}

/// What a node reports can be read whenever it can be counted.
pub proof fn law_countable_nodes_can_be_read(node: &NodeReport, cpu: u64, memory: u64, r: bool)
    requires
        call_ensures(NodeReport::is_countable, (node,), r),
    ensures
        node.name is None ==> r,
        node.name is Some && reports(*node, "cpu"@, dec(cpu as nat)) && reports(
            *node,
            "memory"@,
            dec(memory as nat),
        ) ==> (r <==> cpu * 1000 <= u64::MAX),
        node.name is Some && reports(*node, "cpu"@, dec(cpu as nat) + "m"@) && reports(
            *node,
            "memory"@,
            dec(memory as nat),
        ) ==> r,
{
    lemma_cpu(cpu as nat);
    lemma_memory(memory as nat);
}

/// A quantity is a number: of CPUs or of thousandths of one, or of whole things; what is no
/// number counts as nothing.
pub proof fn law_quantities_are_numbers(
    cpu: &str,
    integer: &str,
    n: u64,
    k: u32,
    r: u64,
    s: u32,
)
    requires
        call_ensures(parse_cpu, (cpu,), r),
        call_ensures(parse_integer, (integer,), s),
    ensures
        cpu@ == dec(n as nat) ==> r == n * 1000,
        cpu@ == dec(n as nat) + "m"@ ==> r == n,
        cpu@.len() == 0 ==> r == 0,
        integer@ == dec(k as nat) ==> s == k,
        integer@.len() == 0 ==> s == 0,
        integer@.len() > 0 && 'a' <= integer@[0] && integer@[0] <= 'z' ==> s == 0,
{
    lemma_cpu(n as nat);
    lemma_read_back(k as nat, u32::MAX as nat);
    reveal_strlit("m");
}

} // verus!
