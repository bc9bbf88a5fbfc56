//! Gang placement: all the nodes that a job needs, each with room for it, or none.

use vstd::prelude::*;
use crate::laws::topology::{distinct, lemma_node_by_name, near};
use crate::model::cluster::{Amounts, ClusterState, ClusterView};
use crate::model::crd::TopologySpec;
use crate::model::error::BuboError;
use crate::model::types::NodeView;
use crate::scheduler::gang::{
    candidates, feasible_among, law_placement_is_complete, windows, GangScheduler, Placement,
    MAX_CANDIDATES,
};
use crate::scheduler::topology::{hops, satisfies, switch_of, PlacementScore, TopologyScorer};

verus! {

/// Whether `demand` of something can be had of which `used` out of `total` is in use.
/// What is not asked for can always be had.
pub open spec fn leaves_room(total: nat, used: nat, demand: nat) -> bool {
    demand == 0 || used + demand <= total
}

/// Whether the node at position `j` has the CPU, the memory and the GPUs left, by its
/// own counters and those of what is allocated under its name.
pub open spec fn has_room(cluster: ClusterState, j: int, cpu: u64, memory: u64, gpus: u32) -> bool {
    let node = cluster.nodes@[j];
    let taken = cluster.allocations@;
    let known = taken.dom().contains(node.name@);
    &&& leaves_room(
        node.allocatable_cpu_millis as nat,
        if known {
            taken[node.name@].cpu
        } else {
            0
        },
        cpu as nat,
    )
    &&& leaves_room(
        node.allocatable_memory_bytes as nat,
        if known {
            taken[node.name@].memory
        } else {
            0
        },
        memory as nat,
    )
    &&& leaves_room(
        node.allocatable_gpus as nat,
        if known {
            taken[node.name@].gpus
        } else {
            0
        },
        gpus as nat,
    )
}

/// A job is placed on as many nodes as it needs, and on each of them what is in use and
/// what the job takes is no more than the node has, of CPU, memory and GPUs alike. No
/// node is counted twice where nodes have different names.
pub proof fn law_placed_nodes_have_room(
    cluster: &ClusterState,
    job_name: &str,
    node_count: u32,
    cpu: u64,
    memory: u64,
    gpus: u32,
    topology: Option<&TopologySpec>,
    r: Result<Placement, BuboError>,
)
    requires
        call_ensures(
            GangScheduler::schedule,
            (cluster, job_name, node_count, cpu, memory, gpus, topology),
            r,
        ),
        r is Ok,
    ensures
        r->Ok_0.nodes@.len() == node_count,
        forall|i: int|
            0 <= i < node_count ==> exists|j: int|
                0 <= j < cluster.nodes@.len() && (#[trigger] cluster.nodes@[j]).name@ == (
                #[trigger] r->Ok_0.nodes@[i])@ && has_room(*cluster, j, cpu, memory, gpus),
        (forall|a: int, b: int|
            0 <= a < b < cluster.nodes@.len() ==> (#[trigger] cluster.nodes@[a]).name@ != (
            #[trigger] cluster.nodes@[b]).name@) ==> forall|a: int, b: int|
            0 <= a < b < node_count ==> (#[trigger] r->Ok_0.nodes@[a])@ != (
            #[trigger] r->Ok_0.nodes@[b])@,
{
    let demand = Amounts { cpu: cpu as nat, memory: memory as nat, gpus: gpus as nat };
    let p = r->Ok_0;
    law_placement_is_complete(cluster@, demand, node_count as nat, topology, p);
    let chosen = p.nodes.deep_view();
    assert forall|i: int| 0 <= i < node_count implies exists|j: int|
        0 <= j < cluster.nodes@.len() && (#[trigger] cluster.nodes@[j]).name@ == (
        #[trigger] p.nodes@[i])@ && has_room(*cluster, j, cpu, memory, gpus) by {
        assert(chosen[i] == p.nodes@[i]@);
        let j = choose|j: int|
            0 <= j < cluster@.nodes.len() && (#[trigger] cluster@.nodes[j]).name == chosen[i]
                && cluster@.can_take(cluster@.nodes[j], demand);
        assert(cluster@.nodes[j] == cluster.nodes@[j].deep_view());
        assert(cluster.nodes@[j].name@ == p.nodes@[i]@);
        assert(has_room(*cluster, j, cpu, memory, gpus));
    }
    if forall|a: int, b: int|
        0 <= a < b < cluster.nodes@.len() ==> (#[trigger] cluster.nodes@[a]).name@ != (
        #[trigger] cluster.nodes@[b]).name@ {
        assert forall|a: int, b: int| 0 <= a < b < cluster@.nodes.len() implies (
        #[trigger] cluster@.nodes[a]).name != (#[trigger] cluster@.nodes[b]).name by {
            assert(cluster.nodes@[a].name@ != cluster.nodes@[b].name@);
        }
        lemma_feasible_distinct(cluster@, cluster@.nodes, demand);
        assert forall|a: int, b: int| 0 <= a < b < node_count implies (#[trigger] p.nodes@[a])@ != (
        #[trigger] p.nodes@[b])@ by {
            assert(chosen[a] != chosen[b]);
        }
    }
}

proof fn lemma_feasible_distinct(cluster: ClusterView, nodes: Seq<NodeView>, demand: Amounts)
    requires
        forall|a: int, b: int|
            0 <= a < b < nodes.len() ==> (#[trigger] nodes[a]).name != (#[trigger] nodes[b]).name,
    ensures
        feasible_among(cluster, nodes, demand).no_duplicates(),
        forall|name: Seq<char>| #[trigger]
            feasible_among(cluster, nodes, demand).contains(name) ==> exists|j: int|
                0 <= j < nodes.len() && (#[trigger] nodes[j]).name == name,
    decreases nodes.len(),
{
    if nodes.len() > 0 {
        let rest = nodes.drop_last();
        let last = nodes.len() - 1;
        assert forall|a: int, b: int| 0 <= a < b < rest.len() implies (#[trigger] rest[a]).name != (
        #[trigger] rest[b]).name by {
            assert(nodes[a].name != nodes[b].name);
        }
        lemma_feasible_distinct(cluster, rest, demand);
        let before = feasible_among(cluster, rest, demand);
        let all = feasible_among(cluster, nodes, demand);
        assert(!before.contains(nodes[last].name)) by {
            if before.contains(nodes[last].name) {
                let j = choose|j: int|
                    0 <= j < rest.len() && (#[trigger] rest[j]).name == nodes[last].name;
                assert(nodes[j].name != nodes[last].name);
            }
        }
        assert forall|name: Seq<char>| #[trigger] all.contains(name) implies exists|j: int|
            0 <= j < nodes.len() && (#[trigger] nodes[j]).name == name by {
            let k = all.index_of(name);
            if k < before.len() {
                assert(before.contains(before[k]));
                let j = choose|j: int| 0 <= j < rest.len() && (#[trigger] rest[j]).name == name;
                assert(nodes[j].name == name);
            } else {
                assert(nodes[last].name == name);
            }
        }
        assert forall|a: int, b: int| 0 <= a < all.len() && 0 <= b < all.len() && a != b implies all[a]
            != all[b] by {
            if a == before.len() {
                assert(before.contains(before[b]));
            } else if b == before.len() {
                assert(before.contains(before[a]));
            }
        }
    }
}

/// Positions of nodes, each once, that all have room.
pub open spec fn roomy_positions(
    cluster: ClusterState,
    positions: Seq<int>,
    cpu: u64,
    memory: u64,
    gpus: u32,
) -> bool {
    &&& positions.no_duplicates()
    &&& forall|k: int|
        0 <= k < positions.len() ==> 0 <= #[trigger] positions[k] < cluster.nodes@.len() && has_room(
            cluster,
            positions[k],
            cpu,
            memory,
            gpus,
        )
}

proof fn lemma_positions_are_counted(
    cluster: ClusterState,
    positions: Seq<int>,
    cpu: u64,
    memory: u64,
    gpus: u32,
    n: int,
)
    requires
        0 <= n <= cluster.nodes@.len(),
        roomy_positions(cluster, positions, cpu, memory, gpus),
        forall|k: int| 0 <= k < positions.len() ==> #[trigger] positions[k] < n,
    ensures
        positions.len() <= feasible_among(
            cluster@,
            cluster@.nodes.take(n),
            Amounts { cpu: cpu as nat, memory: memory as nat, gpus: gpus as nat },
        ).len(),
    decreases n,
{
    let demand = Amounts { cpu: cpu as nat, memory: memory as nat, gpus: gpus as nat };
    if n == 0 {
        if positions.len() > 0 {
            assert(positions[0] < n);
        }
    } else {
        let nodes = cluster@.nodes.take(n);
        assert(nodes.drop_last() =~= cluster@.nodes.take(n - 1));
        assert(nodes.last() == cluster.nodes@[n - 1].deep_view());
        if positions.contains(n - 1) {
            let at = positions.index_of(n - 1);
            let fewer = positions.remove(at);
            assert(has_room(cluster, positions[at], cpu, memory, gpus));
            assert forall|k: int| 0 <= k < fewer.len() implies 0 <= #[trigger] fewer[k] < n - 1
                && has_room(cluster, fewer[k], cpu, memory, gpus) by {
                let b = if k < at {
                    k
                } else {
                    k + 1
                };
                assert(fewer[k] == positions[b]);
                assert(positions[b] != positions[at]);
            }
            lemma_positions_are_counted(cluster, fewer, cpu, memory, gpus, n - 1);
            assert(cluster@.can_take(nodes.last(), demand));
        } else {
            assert forall|k: int| 0 <= k < positions.len() implies #[trigger] positions[k] < n - 1 by {
                assert(positions.contains(positions[k]));
            }
            lemma_positions_are_counted(cluster, positions, cpu, memory, gpus, n - 1);
        }
    }
}

/// A job that asks for no topology, or for one without constraints, is refused only
/// where there are too few nodes with room: as soon as there are as many as it needs, it
/// is placed. A refusal names the job.
pub proof fn law_job_is_placed_where_it_fits(
    cluster: &ClusterState,
    job_name: &str,
    node_count: u32,
    cpu: u64,
    memory: u64,
    gpus: u32,
    topology: Option<&TopologySpec>,
    positions: Seq<int>,
    r: Result<Placement, BuboError>,
)
    requires
        call_ensures(
            GangScheduler::schedule,
            (cluster, job_name, node_count, cpu, memory, gpus, topology),
            r,
        ),
        roomy_positions(*cluster, positions, cpu, memory, gpus),
    ensures
        positions.len() >= node_count && (topology is None || (topology->0.max_hops is None
            && !topology->0.prefer_same_switch)) ==> r is Ok,
        r is Err ==> r->Err_0 is NoFeasiblePlacement && (
        r->Err_0->NoFeasiblePlacement_job_name)@ == job_name@,
{
    lemma_positions_are_counted(
        *cluster,
        positions,
        cpu,
        memory,
        gpus,
        cluster.nodes@.len() as int,
    );
    assert(cluster@.nodes.take(cluster.nodes@.len() as int) =~= cluster@.nodes);
    let demand = Amounts { cpu: cpu as nat, memory: memory as nat, gpus: gpus as nat };
    let feasible = cluster@.feasible(demand);
    let n = node_count as nat;
    if positions.len() >= node_count && topology is Some && topology->0.max_hops is None
        && !topology->0.prefer_same_switch && r is Err {
        let list = candidates(feasible, n, MAX_CANDIDATES as nat);
        assert(list.len() > 0) by {
            assert(MAX_CANDIDATES > 0);
        }
        assert(satisfies(cluster@.nodes, list[0], *topology->0));
    }
}

/// A job that asks for a topology is placed on nodes that meet it: under a bound on hops
/// any two of them are near enough, and where one switch is asked for they are all
/// under one.
pub proof fn law_placed_nodes_are_near(
    cluster: &ClusterState,
    job_name: &str,
    node_count: u32,
    cpu: u64,
    memory: u64,
    gpus: u32,
    topology: &TopologySpec,
    r: Result<Placement, BuboError>,
    a: int,
    b: int,
    i: int,
    j: int,
)
    requires
        call_ensures(
            GangScheduler::schedule,
            (cluster, job_name, node_count, cpu, memory, gpus, Some(topology)),
            r,
        ),
        r is Ok,
        distinct(cluster@.nodes),
        0 <= a < r->Ok_0.nodes@.len(),
        0 <= b < r->Ok_0.nodes@.len(),
        a != b,
        0 <= i < cluster.nodes@.len(),
        0 <= j < cluster.nodes@.len(),
        cluster.nodes@[i].name@ == r->Ok_0.nodes@[a]@,
        cluster.nodes@[j].name@ == r->Ok_0.nodes@[b]@,
    ensures
        topology.max_hops is Some ==> near(
            cluster.nodes@[i],
            cluster.nodes@[j],
            topology.max_hops->0 as nat,
        ),
        topology.prefer_same_switch ==> near(cluster.nodes@[i], cluster.nodes@[j], 1),
{
    let p = r->Ok_0;
    let nodes = cluster@.nodes;
    let chosen = p.nodes.deep_view();
    assert(satisfies(nodes, chosen, *topology));
    assert(chosen[a] == p.nodes@[a]@);
    assert(chosen[b] == p.nodes@[b]@);
    assert(nodes[i] == cluster.nodes@[i].deep_view());
    assert(nodes[j] == cluster.nodes@[j].deep_view());
    lemma_node_by_name(nodes, i);
    lemma_node_by_name(nodes, j);
    if topology.max_hops is Some {
        if a < b {
            assert(hops(nodes, chosen[a], chosen[b]) <= topology.max_hops->0);
        } else {
            assert(hops(nodes, chosen[b], chosen[a]) <= topology.max_hops->0);
        }
    }
    if topology.prefer_same_switch {
        assert(switch_of(nodes, chosen[a]) == switch_of(nodes, chosen[0]));
        assert(switch_of(nodes, chosen[b]) == switch_of(nodes, chosen[0]));
    }
}

/// Where all nodes have room, each run of neighbours among the first few is looked at: if one
/// of them meets what the job asks of its nodes, the job is placed, and on nodes that score no
/// less.
pub proof fn law_neighbours_are_considered(
    cluster: &ClusterState,
    job_name: &str,
    node_count: u32,
    cpu: u64,
    memory: u64,
    gpus: u32,
    topology: &TopologySpec,
    start: int,
    scorer: &TopologyScorer,
    names: &[String],
    meets: bool,
    score: PlacementScore,
    r: Result<Placement, BuboError>,
)
    requires
        call_ensures(
            GangScheduler::schedule,
            (cluster, job_name, node_count, cpu, memory, gpus, Some(topology)),
            r,
        ),
        forall|j: int| 0 <= j < cluster.nodes@.len() ==> #[trigger] has_room(*cluster, j, cpu, memory, gpus),
        node_count > 0,
        0 <= start < 10,
        start + node_count <= cluster.nodes@.len(),
        names@.len() == node_count,
        forall|k: int|
            0 <= k < node_count ==> (#[trigger] names@[k])@ == cluster.nodes@[start + k].name@,
        scorer@ == cluster@.nodes,
        call_ensures(TopologyScorer::check_constraints, (scorer, names, topology), meets),
        call_ensures(TopologyScorer::score, (scorer, names, Some(topology)), score),
        meets,
    ensures
        r is Ok,
        r->Ok_0.score.points >= score.points,
        r->Ok_0.score.out_of == score.out_of,
{
    let demand = Amounts { cpu: cpu as nat, memory: memory as nat, gpus: gpus as nat };
    let nodes = cluster@.nodes;
    let feasible = cluster@.feasible(demand);
    let n = node_count as nat;
    lemma_all_feasible(*cluster, cpu, memory, gpus, nodes.len() as int);
    assert(nodes.take(nodes.len() as int) =~= nodes);
    let list = candidates(feasible, n, MAX_CANDIDATES as nat);
    let near_ones = windows(feasible, n);
    assert(list[start] == near_ones[start]);
    assert(list[start] =~= names.deep_view()) by {
        assert forall|k: int| 0 <= k < n implies list[start][k] == names.deep_view()[k] by {
            assert(names@[k]@ == cluster.nodes@[start + k].name@);
            assert(feasible[start + k] == nodes[start + k].name);
            assert(nodes[start + k] == cluster.nodes@[start + k].deep_view());
        }
    }
    assert(satisfies(nodes, list[start], *topology));
    if r is Ok {
        let p = r->Ok_0;
        crate::scheduler::gang::law_placement_meets_constraints(
            nodes,
            feasible,
            n,
            topology,
            p,
            start,
        );
        law_placement_is_complete(cluster@, demand, n, Some(topology), p);
    }
}

proof fn lemma_all_feasible(cluster: ClusterState, cpu: u64, memory: u64, gpus: u32, n: int)
    requires
        0 <= n <= cluster.nodes@.len(),
        forall|j: int| 0 <= j < cluster.nodes@.len() ==> #[trigger] has_room(cluster, j, cpu, memory, gpus),
    ensures
        ({
            let all = feasible_among(
                cluster@,
                cluster@.nodes.take(n),
                Amounts { cpu: cpu as nat, memory: memory as nat, gpus: gpus as nat },
            );
            all.len() == n && forall|k: int| 0 <= k < n ==> #[trigger] all[k] == cluster@.nodes[k].name
        }),
    decreases n,
{
    if n > 0 {
        let nodes = cluster@.nodes.take(n);
        assert(nodes.drop_last() =~= cluster@.nodes.take(n - 1));
        assert(nodes.last() == cluster.nodes@[n - 1].deep_view());
        assert(has_room(cluster, n - 1, cpu, memory, gpus));
        lemma_all_feasible(cluster, cpu, memory, gpus, n - 1);
    }
}

/// A job that asks for no topology takes the first nodes that have room, in order: on a cluster
/// all of whose nodes have room, the first ones.
pub proof fn law_first_nodes_are_taken(
    cluster: &ClusterState,
    job_name: &str,
    node_count: u32,
    cpu: u64,
    memory: u64,
    gpus: u32,
    r: Result<Placement, BuboError>,
    k: int,
)
    requires
        call_ensures(
            GangScheduler::schedule,
            (cluster, job_name, node_count, cpu, memory, gpus, None),
            r,
        ),
        forall|j: int| 0 <= j < cluster.nodes@.len() ==> #[trigger] has_room(*cluster, j, cpu, memory, gpus),
        0 <= k < node_count <= cluster.nodes@.len(),
    ensures
        r is Ok,
        r->Ok_0.nodes@[k]@ == cluster.nodes@[k].name@,
        r->Ok_0.score.points == r->Ok_0.score.out_of,
{
    let n = cluster.nodes@.len() as int;
    lemma_all_feasible(*cluster, cpu, memory, gpus, n);
    assert(cluster@.nodes.take(n) =~= cluster@.nodes);
    if r is Ok {
        let chosen = r->Ok_0.nodes.deep_view();
        assert(chosen.len() == r->Ok_0.nodes@.len());
        assert(chosen[k] == r->Ok_0.nodes@[k]@);
        assert(cluster@.nodes[k] == cluster.nodes@[k].deep_view());
    }
}

/// Where a job needs more than half of the nodes, and all have room, it is placed on a run of
/// neighbours; and of the first few that are equally good, on the last.
pub proof fn law_last_of_equals_is_taken(
    cluster: &ClusterState,
    job_name: &str,
    node_count: u32,
    cpu: u64,
    memory: u64,
    gpus: u32,
    topology: &TopologySpec,
    start: int,
    scorer: &TopologyScorer,
    names: &[String],
    score: PlacementScore,
    r: Result<Placement, BuboError>,
)
    requires
        call_ensures(
            GangScheduler::schedule,
            (cluster, job_name, node_count, cpu, memory, gpus, Some(topology)),
            r,
        ),
        forall|j: int| 0 <= j < cluster.nodes@.len() ==> #[trigger] has_room(*cluster, j, cpu, memory, gpus),
        node_count > 0,
        2 * node_count > cluster.nodes@.len(),
        0 <= start < 10,
        start + node_count <= cluster.nodes@.len(),
        names@.len() == node_count,
        forall|k: int|
            0 <= k < node_count ==> (#[trigger] names@[k])@ == cluster.nodes@[start + k].name@,
        scorer@ == cluster@.nodes,
        call_ensures(TopologyScorer::check_constraints, (scorer, names, topology), true),
        call_ensures(TopologyScorer::score, (scorer, names, Some(topology)), score),
    ensures
        r is Ok,
        exists|b: int|
            0 <= b && b + node_count <= cluster.nodes@.len() && #[trigger] is_run(
                *cluster,
                r->Ok_0.nodes.deep_view(),
                b,
            ) && (score.points == r->Ok_0.score.points ==> start <= b),
{
    law_neighbours_are_considered(
        cluster,
        job_name,
        node_count,
        cpu,
        memory,
        gpus,
        topology,
        start,
        scorer,
        names,
        true,
        score,
        r,
    );
    let demand = Amounts { cpu: cpu as nat, memory: memory as nat, gpus: gpus as nat };
    let nodes = cluster@.nodes;
    let feasible = cluster@.feasible(demand);
    let n = node_count as nat;
    lemma_all_feasible(*cluster, cpu, memory, gpus, nodes.len() as int);
    assert(nodes.take(nodes.len() as int) =~= nodes);
    let list = candidates(feasible, n, MAX_CANDIDATES as nat);
    let runs = windows(feasible, n);
    assert(feasible.len() / n == 1) by (nonlinear_arith)
        requires
            n > 0,
            n <= feasible.len(),
            feasible.len() < 2 * n,
    ;
    assert(runs + crate::scheduler::gang::spread_until(feasible, n, 1) =~= runs);
    let p = r->Ok_0;
    let b = choose|b: int|
        #![trigger list[b]]
        crate::scheduler::gang::is_choice(nodes, list, *topology, b) && p.nodes.deep_view()
            == list[b];
    assert(list[b] == runs[b]);
    assert(list[start] == runs[start]);
    assert(list[start] =~= names.deep_view()) by {
        assert forall|k: int| 0 <= k < n implies list[start][k] == names.deep_view()[k] by {
            assert(names@[k]@ == cluster.nodes@[start + k].name@);
            assert(feasible[start + k] == nodes[start + k].name);
            assert(nodes[start + k] == cluster.nodes@[start + k].deep_view());
        }
    }
    assert forall|k: int| 0 <= k < p.nodes.deep_view().len() implies #[trigger] p.nodes.deep_view()[k]
        == cluster.nodes@[b + k].name@ by {
        assert(feasible[b + k] == nodes[b + k].name);
        assert(nodes[b + k] == cluster.nodes@[b + k].deep_view());
    }
    assert(is_run(*cluster, p.nodes.deep_view(), b));
}

/// Whether `names` are the names of neighbours from position `b` on.
pub open spec fn is_run(cluster: ClusterState, names: Seq<Seq<char>>, b: int) -> bool {
    forall|k: int| 0 <= k < names.len() ==> #[trigger] names[k] == cluster.nodes@[b + k].name@
}

/// The candidates for a job are the runs of neighbours, in order, and then the groups that are
/// spread evenly, as many as are asked for; nothing else.
pub proof fn law_candidates_are_runs_and_spreads(
    feasible: &Vec<String>,
    n: usize,
    max: usize,
    r: Vec<Vec<String>>,
    start: int,
    offset: int,
    i: int,
)
    requires
        call_ensures(GangScheduler::generate_candidates, (feasible, n, max), r),
        0 < n <= feasible@.len(),
        0 <= i < n,
    ensures
        r@.len() <= max,
        0 <= start < max && start + n <= feasible@.len() ==> start < r@.len()
            && r@[start]@.len() == n && r@[start]@[i]@ == feasible@[start + i]@,
        ({
            let runs = feasible@.len() - n + 1;
            let stride = feasible@.len() as int / n as int;
            feasible.deep_view().no_duplicates() && 1 <= offset < stride && runs + offset <= max
                ==> runs + offset - 1 < r@.len() && r@[runs + offset - 1]@.len() == n
                && r@[runs + offset - 1]@[i]@ == feasible@[offset + i * stride]@
        }),
{
    let names = feasible.deep_view();
    let views = r.deep_view();
    let runs = windows(names, n as nat);
    let stride = names.len() / (n as nat);
    let spreads = crate::scheduler::gang::spread_until(names, n as nat, stride as int);
    let all = runs + spreads;
    assert(views.len() == r@.len());
    assert(names.len() == feasible@.len());
    if 0 <= start < max && start + n <= feasible@.len() {
        assert(views[start] == r@[start].deep_view());
        assert(views[start] == runs[start]);
        assert(r@[start].deep_view().len() == r@[start]@.len());
        assert(r@[start].deep_view()[i] == r@[start]@[i]@);
        assert(names[start + i] == feasible@[start + i]@);
    }
    let k = runs.len() + offset - 1;
    if names.no_duplicates() && 1 <= offset < stride && runs.len() + offset <= max {
        lemma_spreads(names, n as nat, stride as int);
        assert(all[k] == spreads[offset - 1]);
        assert(views[k] == all[k]);
        assert(views[k] == r@[k].deep_view());
        assert(r@[k].deep_view().len() == r@[k]@.len());
        assert(r@[k].deep_view()[i] == r@[k]@[i]@);
        crate::scheduler::gang::lemma_stride(
            names.len() as int,
            n as int,
            stride as int,
            offset,
            i,
        );
        assert(names[offset + i * stride] == feasible@[offset + i * stride]@);
    }
}

proof fn lemma_spreads(names: Seq<Seq<char>>, n: nat, end: int)
    requires
        names.no_duplicates(),
        0 < n <= names.len(),
        end <= names.len() / n,
    ensures
        crate::scheduler::gang::spread_until(names, n, end).len() == (if end <= 1 {
            0
        } else {
            end - 1
        }),
        forall|k: int|
            0 <= k < end - 1 ==> #[trigger] crate::scheduler::gang::spread_until(names, n, end)[k]
                == crate::scheduler::gang::strided(names, n, names.len() / n, k + 1),
    decreases end,
{
    if end > 1 {
        lemma_spreads(names, n, end - 1);
        let stride = names.len() / n;
        let group = crate::scheduler::gang::strided(names, n, stride, end - 1);
        assert forall|a: int, b: int| 0 <= a < group.len() && 0 <= b < group.len() && a != b implies
            group[a] != group[b] by {
            crate::scheduler::gang::lemma_stride(names.len() as int, n as int, stride as int, end - 1, a);
            crate::scheduler::gang::lemma_stride(names.len() as int, n as int, stride as int, end - 1, b);
            assert(a * stride != b * stride) by (nonlinear_arith)
                requires
                    a != b,
                    stride > 0,
            ;
        }
    }
}

} // verus!
