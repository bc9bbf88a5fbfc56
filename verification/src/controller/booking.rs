//! Booking of cluster resources for jobs, and their release.

use vstd::prelude::*;
use vstd::string::*;
use crate::controller::reservation::{ReservationManager, ReservationView, Reservations};
use crate::model::cluster::{
    first_named, floor_sub, lemma_first_named, lemma_without_absent, other_than, without, Amounts,
    ClusterState, ClusterView,
};
use crate::model::crd::TopologySpec;
use crate::model::error::{BuboError, ErrorView};
use crate::model::types::{NodeResources, NodeView};
use crate::scheduler::gang::{
    feasible_among, law_feasible_nodes_can_take, law_placement_is_complete, placed, refused,
    GangScheduler, Placement,
};
use crate::string_map::lemma_push_contains;
use crate::text::{contains_str, str_eq};

verus! {

/// CPU that a job takes on each node, in thousandths.
pub const CPU_PER_NODE: u64 = 1000;

/// Memory that a job takes on each node, in bytes.
pub const MEMORY_PER_NODE: u64 = 1_000_000_000;

/// GPUs that a job takes on each node.
pub const GPUS_PER_NODE: u32 = 0;

/// What a job takes on each node.
pub open spec fn share() -> Amounts {
    Amounts {
        cpu: CPU_PER_NODE as nat,
        memory: MEMORY_PER_NODE as nat,
        gpus: GPUS_PER_NODE as nat,
    }
}

/// After `job` has been given its share on each of `nodes`, in order.
pub open spec fn booked(c: ClusterView, nodes: Seq<Seq<char>>, job: Seq<char>) -> ClusterView
    decreases nodes.len(),
{
    if nodes.len() == 0 {
        c
    } else {
        booked(c, nodes.drop_last(), job).allocated(nodes.last(), share(), job)
    }
}

/// After `job` has given back its share on each of `nodes`, in order.
pub open spec fn unbooked(c: ClusterView, nodes: Seq<Seq<char>>, job: Seq<char>) -> ClusterView
    decreases nodes.len(),
{
    if nodes.len() == 0 {
        c
    } else {
        unbooked(c, nodes.drop_last(), job).deallocated(nodes.last(), share(), job)
    }
}

/// Whether no two nodes share a name.
pub open spec fn distinct_names(nodes: Seq<NodeView>) -> bool {
    forall|i: int, j: int|
        0 <= i < j < nodes.len() ==> (#[trigger] nodes[i]).name != (#[trigger] nodes[j]).name
}

/// Whether the counters of every node can take `n` shares.
pub open spec fn roomy(c: ClusterView, n: nat) -> bool {
    forall|name: Seq<char>|
        (#[trigger] c.allocation(name)).cpu + n * share().cpu <= u64::MAX && c.allocation(
            name,
        ).memory + n * share().memory <= u64::MAX
}

/// Whether `n` shares can be booked without overflow.
pub open spec fn can_book(c: ClusterView, n: nat) -> bool {
    distinct_names(c.nodes) || roomy(c, n)
}

/// After every allocation that lists `job` has given back the job's share.
pub open spec fn released(c: ClusterView, job: Seq<char>) -> ClusterView {
    ClusterView {
        nodes: c.nodes,
        allocations: Map::new(
            |node: Seq<char>| c.allocations.dom().contains(node),
            |node: Seq<char>|
                if c.allocations[node].jobs.contains(job) {
                    c.allocations[node].minus(share(), job)
                } else {
                    c.allocations[node]
                },
        ),
    }
}

/// Whether some allocation lists `job`.
pub open spec fn holds_something(c: ClusterView, job: Seq<char>) -> bool {
    exists|node: Seq<char>| #[trigger]
        c.allocations.dom().contains(node) && c.allocations[node].jobs.contains(job)
}

/// Gives back the share of a job on every node whose allocation lists it.
pub fn release_job(cluster: &mut ClusterState, job_name: &str)
    ensures
        final(cluster)@ == released(old(cluster)@, job_name@),
{
    let names = cluster.allocations.keys();
    let ghost keys = names.deep_view();
    let ghost before = cluster@;
    let ghost after = released(before, job_name@);
    let mut i: usize = 0;
    while i < names.len()
        invariant
            i <= names.len(),
            keys == names.deep_view(),
            keys.no_duplicates(),
            keys.to_set() == before.allocations.dom(),
            after == released(before, job_name@),
            cluster@.nodes == before.nodes,
            cluster@.allocations.dom() == before.allocations.dom(),
            forall|k: int|
                0 <= k < i ==> cluster@.allocations[#[trigger] keys[k]]
                    == after.allocations[keys[k]],
            forall|k: int|
                i <= k < names.len() ==> cluster@.allocations[#[trigger] keys[k]]
                    == before.allocations[keys[k]],
        decreases names.len() - i,
    {
        let ghost key = keys[i as int];
        proof {
            assert(keys.to_set().contains(key)) by {
                assert(keys.contains(key));
            }
        }
        let listed = match cluster.allocations.get(names[i].as_str()) {
            Some(used) => contains_str(&used.jobs, job_name),
            None => false,
        };
        if listed {
            cluster.deallocate(
                names[i].as_str(),
                CPU_PER_NODE,
                MEMORY_PER_NODE,
                GPUS_PER_NODE,
                job_name,
            );
            proof {
                assert(cluster@.allocations.dom() =~= before.allocations.dom());
            }
        }
        i += 1;
    }
    proof {
        assert forall|node: Seq<char>| before.allocations.dom().contains(node) implies #[trigger]
        cluster@.allocations[node] == after.allocations[node] by {
            assert(keys.to_set().contains(node));
            let k = keys.index_of(node);
            assert(cluster@.allocations[keys[k]] == after.allocations[keys[k]]);
        }
        assert(cluster@.allocations =~= after.allocations);
    }
}

/// The names of all jobs that hold something, each once.
pub fn collect_allocated_job_names(cluster: &ClusterState) -> (r: Vec<String>)
    ensures
        r.deep_view().no_duplicates(),
        forall|job: Seq<char>| #[trigger]
            r.deep_view().contains(job) <==> holds_something(cluster@, job),
{
    let n = cluster.allocations.len();
    let ghost keys = cluster.allocations.keys_seq();
    let ghost c = cluster@;
    let mut r: Vec<String> = Vec::new();
    let mut i: usize = 0;
    while i < n
        invariant
            i <= n,
            n == keys.len(),
            c == cluster@,
            keys == cluster.allocations.keys_seq(),
            cluster.allocations.entries_make_map(),
            r.deep_view().no_duplicates(),
            forall|job: Seq<char>| #[trigger]
                r.deep_view().contains(job) <==> exists|k: int|
                    0 <= k < i && c.allocations[#[trigger] keys[k]].jobs.contains(job),
        decreases n - i,
    {
        let used = cluster.allocations.value_at(i);
        let ghost jobs = used.jobs.deep_view();
        let ghost at_start = r.deep_view();
        let mut j: usize = 0;
        proof {
            assert(jobs.take(0) =~= Seq::<Seq<char>>::empty());
        }
        while j < used.jobs.len()
            invariant
                j <= used.jobs.len(),
                jobs == used.jobs.deep_view(),
                r.deep_view().no_duplicates(),
                forall|job: Seq<char>| #[trigger]
                    r.deep_view().contains(job) <==> at_start.contains(job) || jobs.take(
                        j as int,
                    ).contains(job),
            decreases used.jobs.len() - j,
        {
            let ghost before = r.deep_view();
            let ghost name = jobs[j as int];
            proof {
                assert(jobs.take(j + 1) =~= jobs.take(j as int).push(name));
            }
            if !contains_str(&r, used.jobs[j].as_str()) {
                r.push(used.jobs[j].clone());
                proof {
                    assert(r.deep_view() =~= before.push(name));
                }
            }
            proof {
                assert forall|job: Seq<char>| #[trigger]
                    r.deep_view().contains(job) <==> at_start.contains(job) || jobs.take(
                        j + 1,
                    ).contains(job) by {
                    lemma_push_contains(jobs.take(j as int), name, job);
                    lemma_push_contains(before, name, job);
                }
            }
            j += 1;
        }
        proof {
            assert(jobs.take(jobs.len() as int) =~= jobs);
            assert(c.allocations[keys[i as int]].jobs == jobs);
            assert forall|job: Seq<char>| #[trigger]
                r.deep_view().contains(job) <==> exists|k: int|
                    0 <= k < i + 1 && c.allocations[#[trigger] keys[k]].jobs.contains(job) by {
                if jobs.contains(job) {
                    assert(c.allocations[keys[i as int]].jobs.contains(job));
                }
            }
        }
        i += 1;
    }
    proof {
        assert forall|job: Seq<char>| #[trigger]
            r.deep_view().contains(job) <==> holds_something(c, job) by {
            if r.deep_view().contains(job) {
                let k = choose|k: int|
                    0 <= k < n && c.allocations[#[trigger] keys[k]].jobs.contains(job);
                assert(c.allocations.dom().contains(keys[k]));
            }
            if holds_something(c, job) {
                let node = choose|node: Seq<char>| #[trigger]
                    c.allocations.dom().contains(node) && c.allocations[node].jobs.contains(job);
                assert(keys.to_set().contains(node));
                let k = keys.index_of(node);
                assert(c.allocations[keys[k]].jobs.contains(job));
            }
        }
    }
    r
}

/// A released job holds nothing any more.
pub proof fn law_released_job_holds_nothing(c: ClusterView, job: Seq<char>)
    ensures
        !holds_something(released(c, job), job),
{
    assert forall|node: Seq<char>| released(c, job).allocations.dom().contains(
        node,
    ) implies !released(c, job).allocations[node].jobs.contains(job) by {
        crate::model::cluster::law_released_job_is_gone(c, node, share(), job);
    }
}

/// How often `name` occurs in `nodes`.
pub open spec fn occurrences(nodes: Seq<Seq<char>>, name: Seq<char>) -> nat
    decreases nodes.len(),
{
    if nodes.len() == 0 {
        0
    } else {
        occurrences(nodes.drop_last(), name) + (if nodes.last() == name {
            1nat
        } else {
            0
        })
    }
}

/// What a booking leaves in use on a node, and on which nodes.
pub proof fn lemma_booked(c: ClusterView, nodes: Seq<Seq<char>>, job: Seq<char>, name: Seq<char>)
    ensures
        ({
            let k = occurrences(nodes, name);
            let before = c.allocation(name);
            let after = booked(c, nodes, job).allocation(name);
            &&& booked(c, nodes, job).nodes == c.nodes
            &&& after.cpu == before.cpu + k * share().cpu
            &&& after.memory == before.memory + k * share().memory
            &&& after.gpus == before.gpus
            &&& without(after.jobs, job) == without(before.jobs, job)
            &&& k == 0 ==> after == before
            &&& k > 0 ==> booked(c, nodes, job).allocations.dom().contains(name)
            &&& k <= nodes.len()
            &&& c.allocations.dom().contains(name) ==> booked(
                c,
                nodes,
                job,
            ).allocations.dom().contains(name)
            &&& k == 0 ==> booked(c, nodes, job).allocations.dom().contains(name)
                == c.allocations.dom().contains(name)
        }),
    decreases nodes.len(),
{
    if nodes.len() > 0 {
        let rest = nodes.drop_last();
        lemma_booked(c, rest, job, name);
        let mid = booked(c, rest, job);
        mid.allocation(name).jobs.lemma_filter_push(job, other_than(job));
        let k = occurrences(rest, name);
        assert((k + 1) * share().cpu == k * share().cpu + share().cpu) by (nonlinear_arith);
        assert((k + 1) * share().memory == k * share().memory + share().memory)
            by (nonlinear_arith);
    } else {
        assert(0 * share().cpu == 0) by (nonlinear_arith);
        assert(0 * share().memory == 0) by (nonlinear_arith);
    }
}

proof fn lemma_floor_sub_twice(a: nat, k: nat, unit: nat)
    ensures
        floor_sub(floor_sub(a, k * unit), unit) == floor_sub(a, (k + 1) * unit),
{
    assert((k + 1) * unit == k * unit + unit) by (nonlinear_arith);
}

/// A name that is taken out of a list is not in it.
pub proof fn lemma_without_lacks(jobs: Seq<Seq<char>>, name: Seq<char>)
    ensures
        !without(jobs, name).contains(name),
{
    reveal(Seq::filter);
    let left = without(jobs, name);
    assert forall|k: int| 0 <= k < left.len() implies left[k] != name by {
        jobs.lemma_filter_pred(other_than(name), k);
    }
}

/// What giving a booking back leaves in use on a node.
pub proof fn lemma_unbooked(c: ClusterView, nodes: Seq<Seq<char>>, job: Seq<char>, name: Seq<char>)
    ensures
        ({
            let k = occurrences(nodes, name);
            let before = c.allocation(name);
            let after = unbooked(c, nodes, job).allocation(name);
            &&& unbooked(c, nodes, job).nodes == c.nodes
            &&& unbooked(c, nodes, job).allocations.dom().contains(name)
                == c.allocations.dom().contains(name)
            &&& k == 0 ==> after == before
            &&& c.allocations.dom().contains(name) ==> after.cpu == floor_sub(
                before.cpu,
                k * share().cpu,
            ) && after.memory == floor_sub(before.memory, k * share().memory) && after.gpus
                == before.gpus && (k > 0 ==> after.jobs == without(before.jobs, job))
        }),
    decreases nodes.len(),
{
    if nodes.len() > 0 {
        let rest = nodes.drop_last();
        lemma_unbooked(c, rest, job, name);
        let k = occurrences(rest, name);
        let before = c.allocation(name);
        lemma_floor_sub_twice(before.cpu, k, share().cpu);
        lemma_floor_sub_twice(before.memory, k, share().memory);
        lemma_without_lacks(before.jobs, job);
        lemma_without_absent(without(before.jobs, job), job);
    } else {
        assert(0 * share().cpu == 0) by (nonlinear_arith);
        assert(0 * share().memory == 0) by (nonlinear_arith);
    }
}

/// A name that does not stand in a list does not occur in it.
pub proof fn lemma_absent(nodes: Seq<Seq<char>>, name: Seq<char>)
    requires
        !nodes.contains(name),
    ensures
        occurrences(nodes, name) == 0,
    decreases nodes.len(),
{
    if nodes.len() > 0 {
        assert(nodes.contains(nodes.last()));
        assert forall|k: int| 0 <= k < nodes.drop_last().len() implies nodes.drop_last()[k]
            != name by {
            assert(nodes.contains(nodes[k]));
        }
        lemma_absent(nodes.drop_last(), name);
    }
}

proof fn lemma_feasible_distinct(c: ClusterView, nodes: Seq<NodeView>, demand: Amounts)
    requires
        distinct_names(nodes),
    ensures
        feasible_among(c, nodes, demand).no_duplicates(),
    decreases nodes.len(),
{
    if nodes.len() > 0 {
        let rest = nodes.drop_last();
        lemma_feasible_distinct(c, rest, demand);
        let before = feasible_among(c, rest, demand);
        law_feasible_nodes_can_take(c, rest, demand, nodes.last().name);
        assert(!before.contains(nodes.last().name)) by {
            if before.contains(nodes.last().name) {
                let j = choose|j: int|
                    0 <= j < rest.len() && (#[trigger] rest[j]).name == nodes.last().name
                        && c.can_take(rest[j], demand);
                assert(nodes[j].name != nodes[nodes.len() - 1].name);
            }
        }
        let all = feasible_among(c, nodes, demand);
        assert forall|a: int, b: int|
            0 <= a < all.len() && 0 <= b < all.len() && a != b implies all[a] != all[b] by {
            if a < before.len() {
                assert(before.contains(before[a]));
            }
            if b < before.len() {
                assert(before.contains(before[b]));
            }
        }
    }
}

/// The node for the next share of a booking has room for it.
proof fn lemma_room(
    c: ClusterView,
    n: nat,
    topology: Option<&TopologySpec>,
    p: Placement,
    job: Seq<char>,
    i: int,
)
    requires
        can_book(c, n),
        placed(c.nodes, c.feasible(share()), n, topology, p),
        0 <= i < p.nodes.len(),
        forall|j: int|
            0 <= j < c.nodes.len() ==> (#[trigger] c.nodes[j]).cpu <= u64::MAX
                && c.nodes[j].memory <= u64::MAX,
        c.allocation(p.nodes.deep_view()[i]).gpus <= u32::MAX,
    ensures
        booked(c, p.nodes.deep_view().take(i), job).allocation(
            p.nodes.deep_view()[i],
        ).has_room_for(share()),
{
    let nodes = p.nodes.deep_view();
    let name = nodes[i];
    let done = nodes.take(i);
    law_placement_is_complete(c, share(), n, topology, p);
    lemma_booked(c, done, job, name);
    let k = occurrences(done, name);
    if distinct_names(c.nodes) {
        lemma_feasible_distinct(c, c.nodes, share());
        assert(!done.contains(name)) by {
            if done.contains(name) {
                let d = done.index_of(name);
                assert(nodes[d] == nodes[i]);
            }
        }
        lemma_absent(done, name);
        let j = choose|j: int|
            0 <= j < c.nodes.len() && (#[trigger] c.nodes[j]).name == nodes[i] && c.can_take(
                c.nodes[j],
                share(),
            );
        assert(c.nodes[j].cpu <= u64::MAX);
    } else {
        assert((k + 1) * share().cpu <= n * share().cpu && (k + 1) * share().cpu == k
            * share().cpu + share().cpu) by (nonlinear_arith)
            requires
                k + 1 <= n,
        ;
        assert((k + 1) * share().memory <= n * share().memory && (k + 1) * share().memory == k
            * share().memory + share().memory) by (nonlinear_arith)
            requires
                k + 1 <= n,
        ;
    }
}

/// What is in use on a node: CPU in thousandths, memory in bytes, GPUs.
fn used_on(cluster: &ClusterState, name: &str) -> (r: (u64, u64, u32))
    ensures
        r.0 == cluster@.allocation(name@).cpu,
        r.1 == cluster@.allocation(name@).memory,
        r.2 == cluster@.allocation(name@).gpus,
{
    match cluster.allocations.get(name) {
        Some(used) => (used.used_cpu_millis, used.used_memory_bytes, used.used_gpus),
        None => (0, 0, 0),
    }
}

/// Whether no two nodes share a name.
fn have_distinct_names(nodes: &Vec<NodeResources>) -> (r: bool)
    ensures
        r == distinct_names(nodes.deep_view()),
{
    let ghost all = nodes.deep_view();
    let mut j: usize = 0;
    while j < nodes.len()
        invariant
            j <= nodes.len(),
            all == nodes.deep_view(),
            forall|a: int, b: int|
                0 <= a < b < j ==> (#[trigger] all[a]).name != (#[trigger] all[b]).name,
        decreases nodes.len() - j,
    {
        let mut i: usize = 0;
        while i < j
            invariant
                i <= j < nodes.len(),
                all == nodes.deep_view(),
                forall|a: int| 0 <= a < i ==> (#[trigger] all[a]).name != all[j as int].name,
            decreases j - i,
        {
            if str_eq(nodes[i].name.as_str(), nodes[j].name.as_str()) {
                proof {
                    assert(all[i as int].name == all[j as int].name);
                }
                return false;
            }
            i += 1;
        }
        j += 1;
    }
    true
}

/// Checks whether a job on `node_count` nodes can be booked without overflow. That
/// is so of every cluster whose nodes have different names.
pub fn is_bookable(cluster: &ClusterState, node_count: u32) -> (r: bool)
    ensures
        r == can_book(cluster@, node_count as nat),
{
    if have_distinct_names(&cluster.nodes) {
        return true;
    }
    let names = cluster.allocations.keys();
    let ghost keys = names.deep_view();
    let n: u128 = node_count as u128;
    let mut i: usize = 0;
    while i < names.len()
        invariant
            i <= names.len(),
            n == node_count,
            keys == names.deep_view(),
            forall|k: int|
                0 <= k < i ==> cluster@.allocation(#[trigger] keys[k]).cpu + node_count
                    * share().cpu <= u64::MAX && cluster@.allocation(keys[k]).memory + node_count
                    * share().memory <= u64::MAX,
            !distinct_names(cluster@.nodes),
        decreases names.len() - i,
    {
        let used = used_on(cluster, names[i].as_str());
        proof {
            assert(n * CPU_PER_NODE <= u64::MAX && n * MEMORY_PER_NODE <= u64::MAX)
                by (nonlinear_arith)
                requires
                    n <= u32::MAX,
                    CPU_PER_NODE == 1000,
                    MEMORY_PER_NODE == 1_000_000_000,
            ;
        }
        if used.0 as u128 + n * CPU_PER_NODE as u128 > u64::MAX as u128 || used.1 as u128 + n
            * MEMORY_PER_NODE as u128 > u64::MAX as u128 {
            proof {
                assert(cluster@.allocation(keys[i as int]).cpu == used.0);
            }
            return false;
        }
        i += 1;
    }
    proof {
        assert forall|name: Seq<char>|
            (#[trigger] cluster@.allocation(name)).cpu + node_count * share().cpu <= u64::MAX
                && cluster@.allocation(name).memory + node_count * share().memory
                <= u64::MAX by {
            if cluster@.allocations.dom().contains(name) {
                assert(keys.to_set().contains(name));
                let k = keys.index_of(name);
                assert(cluster@.allocation(keys[k]).cpu + node_count * share().cpu <= u64::MAX);
            }
        }
    }
    true
}

/// Whether `p` is a placement of a job on `n` nodes that leads from one state of the
/// cluster and of the reservations to another: the job has its share on each node of
/// the placement, and a reservation for them from `now` on.
pub open spec fn is_booking(
    before: ClusterView,
    reserved_before: Reservations,
    job: Seq<char>,
    n: nat,
    topology: Option<&TopologySpec>,
    now: nat,
    p: Placement,
    after: ClusterView,
    reserved_after: Reservations,
) -> bool {
    &&& placed(before.nodes, before.feasible(share()), n, topology, p)
    &&& after == booked(before, p.nodes.deep_view(), job)
    &&& reserved_after == reserved_before.insert(
        job,
        ReservationView {
            job_name: job,
            nodes: p.nodes.deep_view(),
            score: p.score,
            per_node: share(),
            created_at: now,
        },
    )
}

/// Whether a job on `n` nodes finds no place in a cluster now.
pub open spec fn has_no_place(
    c: ClusterView,
    n: nat,
    topology: Option<&TopologySpec>,
) -> bool {
    exists|reason: Seq<char>| refused(c.nodes, c.feasible(share()), n, topology, reason)
}

/// Finds nodes for a job and books its share on each of them, in the cluster and, so
/// that others keep off until the launch, as a reservation. Without enough nodes
/// nothing is booked.
pub fn book(
    cluster: &mut ClusterState,
    reservations: &mut ReservationManager,
    job_name: &str,
    node_count: u32,
    topology: Option<&TopologySpec>,
    now: u128,
) -> (r: Result<Placement, BuboError>)
    requires
        can_book(old(cluster)@, node_count as nat),
    ensures
        final(reservations).lifetime() == old(reservations).lifetime(),
        match r {
            Ok(p) => is_booking(
                old(cluster)@,
                old(reservations)@,
                job_name@,
                node_count as nat,
                topology,
                now as nat,
                p,
                final(cluster)@,
                final(reservations)@,
            ),
            Err(e) => final(cluster)@ == old(cluster)@ && final(reservations)@ == old(
                reservations,
            )@ && match e@ {
                ErrorView::NoFeasiblePlacement { job_name: name, reason } => name == job_name@
                    && refused(
                    old(cluster)@.nodes,
                    old(cluster)@.feasible(share()),
                    node_count as nat,
                    topology,
                    reason,
                ),
                _ => false,
            },
        },
{
    let ghost c = cluster@;
    let placement = match GangScheduler::schedule(
        cluster,
        job_name,
        node_count,
        CPU_PER_NODE,
        MEMORY_PER_NODE,
        GPUS_PER_NODE,
        topology,
    ) {
        Ok(placement) => placement,
        Err(e) => {
            return Err(e);
        },
    };
    reservations.reserve(
        job_name,
        &placement,
        CPU_PER_NODE,
        MEMORY_PER_NODE,
        GPUS_PER_NODE,
        now,
    );
    let ghost nodes = placement.nodes.deep_view();
    proof {
        assert(nodes.take(0) =~= Seq::empty());
        assert forall|j: int| 0 <= j < c.nodes.len() implies (#[trigger] c.nodes[j]).cpu
            <= u64::MAX && c.nodes[j].memory <= u64::MAX by {
            assert(c.nodes[j] == old(cluster).nodes[j].deep_view());
        }
    }
    let mut i: usize = 0;
    while i < placement.nodes.len()
        invariant
            i <= placement.nodes.len(),
            nodes == placement.nodes.deep_view(),
            can_book(c, node_count as nat),
            placed(c.nodes, c.feasible(share()), node_count as nat, topology, placement),
            forall|j: int|
                0 <= j < c.nodes.len() ==> (#[trigger] c.nodes[j]).cpu <= u64::MAX
                    && c.nodes[j].memory <= u64::MAX,
            cluster@ == booked(c, nodes.take(i as int), job_name@),
        decreases placement.nodes.len() - i,
    {
        let used = used_on(cluster, placement.nodes[i].as_str());
        proof {
            lemma_booked(c, nodes.take(i as int), job_name@, nodes[i as int]);
            assert(used.2 == c.allocation(nodes[i as int]).gpus);
            lemma_room(c, node_count as nat, topology, placement, job_name@, i as int);
            assert(nodes.take(i + 1).drop_last() =~= nodes.take(i as int));
        }
        cluster.allocate(
            placement.nodes[i].as_str(),
            CPU_PER_NODE,
            MEMORY_PER_NODE,
            GPUS_PER_NODE,
            job_name,
        );
        i += 1;
    }
    proof {
        assert(nodes.take(nodes.len() as int) =~= nodes);
    }
    Ok(placement)
}

/// Gives back the share of a job on each node of its placement.
pub fn unbook(cluster: &mut ClusterState, placement: &Placement, job_name: &str)
    ensures
        final(cluster)@ == unbooked(old(cluster)@, placement.nodes.deep_view(), job_name@),
{
    let ghost c = cluster@;
    let ghost nodes = placement.nodes.deep_view();
    proof {
        assert(nodes.take(0) =~= Seq::empty());
    }
    let mut i: usize = 0;
    while i < placement.nodes.len()
        invariant
            i <= placement.nodes.len(),
            nodes == placement.nodes.deep_view(),
            cluster@ == unbooked(c, nodes.take(i as int), job_name@),
        decreases placement.nodes.len() - i,
    {
        proof {
            assert(nodes.take(i + 1).drop_last() =~= nodes.take(i as int));
        }
        cluster.deallocate(
            placement.nodes[i].as_str(),
            CPU_PER_NODE,
            MEMORY_PER_NODE,
            GPUS_PER_NODE,
            job_name,
        );
        i += 1;
    }
    proof {
        assert(nodes.take(nodes.len() as int) =~= nodes);
    }
}

/// When a launch fails and the job gives its booking back, every node has available
/// what it had before the job was booked, and a node on which the job held nothing
/// before lists the same jobs as before, so the job holds nothing there again.
pub proof fn law_failed_launch_releases(
    c: ClusterView,
    nodes: Seq<Seq<char>>,
    job: Seq<char>,
    name: Seq<char>,
)
    ensures
        unbooked(booked(c, nodes, job), nodes, job).available(name) == c.available(name),
        !c.allocation(name).jobs.contains(job) ==> unbooked(
            booked(c, nodes, job),
            nodes,
            job,
        ).allocation(name) == c.allocation(name),
{
    let after = unbooked(booked(c, nodes, job), nodes, job);
    lemma_booked(c, nodes, job, name);
    lemma_unbooked(booked(c, nodes, job), nodes, job, name);
    if first_named(c.nodes, name) is Some {
        lemma_first_named(c.nodes, name);
    }
    if !c.allocation(name).jobs.contains(job) {
        lemma_without_absent(c.allocation(name).jobs, job);
    }
}

/// In a list without duplicates a name occurs at most once.
pub proof fn lemma_occurs_once(nodes: Seq<Seq<char>>, name: Seq<char>)
    requires
        nodes.no_duplicates(),
    ensures
        occurrences(nodes, name) <= 1,
    decreases nodes.len(),
{
    if nodes.len() > 0 {
        let rest = nodes.drop_last();
        lemma_occurs_once(rest, name);
        if nodes.last() == name {
            assert forall|k: int| 0 <= k < rest.len() implies rest[k] != name by {
                assert(nodes[k] != nodes[nodes.len() - 1]);
            }
            lemma_absent(rest, name);
        }
    }
}

/// No node is overbooked: where no more of a node was in use than it has, that is so
/// after a job has been booked on the nodes of its placement, too.
pub proof fn law_booking_stays_within_capacity(
    c: ClusterView,
    n: nat,
    topology: Option<&TopologySpec>,
    p: Placement,
    job: Seq<char>,
    k: int,
)
    requires
        distinct_names(c.nodes),
        placed(c.nodes, c.feasible(share()), n, topology, p),
        0 <= k < c.nodes.len(),
        c.allocation(c.nodes[k].name).cpu <= c.nodes[k].cpu,
        c.allocation(c.nodes[k].name).memory <= c.nodes[k].memory,
        c.allocation(c.nodes[k].name).gpus <= c.nodes[k].gpus,
    ensures
        ({
            let after = booked(c, p.nodes.deep_view(), job).allocation(c.nodes[k].name);
            &&& after.cpu <= c.nodes[k].cpu
            &&& after.memory <= c.nodes[k].memory
            &&& after.gpus <= c.nodes[k].gpus
        }),
{
    let nodes = p.nodes.deep_view();
    let name = c.nodes[k].name;
    law_placement_is_complete(c, share(), n, topology, p);
    lemma_feasible_distinct(c, c.nodes, share());
    lemma_occurs_once(nodes, name);
    lemma_booked(c, nodes, job, name);
    if nodes.contains(name) {
        let i = nodes.index_of(name);
        let j = choose|j: int|
            0 <= j < c.nodes.len() && (#[trigger] c.nodes[j]).name == nodes[i] && c.can_take(
                c.nodes[j],
                share(),
            );
        assert(j == k) by {
            if j < k {
                assert(c.nodes[j].name != c.nodes[k].name);
            } else if k < j {
                assert(c.nodes[k].name != c.nodes[j].name);
            }
        }
        let o = occurrences(nodes, name);
        assert(o * share().cpu <= share().cpu && o * share().memory <= share().memory)
            by (nonlinear_arith)
            requires
                o <= 1,
        ;
    } else {
        lemma_absent(nodes, name);
    }
}

/// A release leaves the listings of all other jobs as they are.
pub proof fn law_release_keeps_other_jobs(
    c: ClusterView,
    job: Seq<char>,
    other: Seq<char>,
    node: Seq<char>,
)
    requires
        other != job,
    ensures
        released(c, job).allocation(node).jobs.contains(other) <==> c.allocation(
            node,
        ).jobs.contains(other),
{
    let jobs = c.allocation(node).jobs;
    let keep = other_than(job);
    if without(jobs, job).contains(other) {
        let k = without(jobs, job).index_of(other);
        jobs.lemma_filter_contains_rev(keep, other);
    }
    if jobs.contains(other) {
        let k = jobs.index_of(other);
        jobs.lemma_filter_contains(keep, k);
    }
}

} // verus!
