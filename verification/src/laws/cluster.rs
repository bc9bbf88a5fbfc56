//! What is in use in a cluster, by whom, and what is left.

use vstd::prelude::*;
use crate::bubo;
use crate::controller::booking::{
    book, booked, collect_allocated_job_names, is_bookable, lemma_absent, lemma_booked,
    lemma_occurs_once, lemma_unbooked, lemma_without_lacks, occurrences, release_job, unbook,
};
use crate::controller::reconcile::{settle_allocations, JobLookup};
use crate::controller::reservation::ReservationManager;
use crate::model::cluster::{without, ClusterState, ClusterView};
use crate::model::crd::{MPIJobSpec, TopologySpec};
use crate::model::error::BuboError;
use crate::model::types::JobState;
use crate::scheduler::gang::Placement;
use crate::wren::crd::{UserIdentity, WrenJobSpec};
use crate::wren::reconciler::Attempt;
use crate::wren;

verus! {

/// CPU in use under a node's name.
pub open spec fn cpu_used(c: ClusterView, node: Seq<char>) -> nat {
    if c.allocations.dom().contains(node) {
        c.allocations[node].cpu
    } else {
        0
    }
}

/// Memory in use under a node's name.
pub open spec fn memory_used(c: ClusterView, node: Seq<char>) -> nat {
    if c.allocations.dom().contains(node) {
        c.allocations[node].memory
    } else {
        0
    }
}

/// GPUs in use under a node's name.
pub open spec fn gpus_used(c: ClusterView, node: Seq<char>) -> nat {
    if c.allocations.dom().contains(node) {
        c.allocations[node].gpus
    } else {
        0
    }
}

/// Whether a job is listed on a node.
pub open spec fn listed(c: ClusterView, node: Seq<char>, job: Seq<char>) -> bool {
    c.allocations.dom().contains(node) && c.allocations[node].jobs.contains(job)
}

/// Whether the same is in use on a node, by the same jobs.
pub open spec fn same_use(a: ClusterView, b: ClusterView, node: Seq<char>) -> bool {
    &&& cpu_used(a, node) == cpu_used(b, node)
    &&& memory_used(a, node) == memory_used(b, node)
    &&& gpus_used(a, node) == gpus_used(b, node)
    &&& forall|job: Seq<char>| #[trigger] listed(a, node, job) == listed(b, node, job)
}

/// What is left after giving back: never less than nothing.
pub open spec fn left(used: nat, given_back: nat) -> nat {
    if used >= given_back {
        (used - given_back) as nat
    } else {
        0
    }
}

/// An allocation adds what it takes to what is in use on its node, and lists its job there;
/// other nodes, and what the nodes have, stay as they are.
pub proof fn law_allocations_add_up(
    cluster: &mut ClusterState,
    node: &str,
    cpu: u64,
    memory: u64,
    gpus: u32,
    job: &str,
    other: Seq<char>,
)
    requires
        call_ensures(ClusterState::allocate, (cluster, node, cpu, memory, gpus, job), ()),
    ensures
        cpu_used(final(cluster)@, node@) == cpu_used(old(cluster)@, node@) + cpu,
        memory_used(final(cluster)@, node@) == memory_used(old(cluster)@, node@) + memory,
        gpus_used(final(cluster)@, node@) == gpus_used(old(cluster)@, node@) + gpus,
        listed(final(cluster)@, node@, job@),
        forall|j: Seq<char>|
            j != job@ ==> #[trigger] listed(final(cluster)@, node@, j) == listed(
                old(cluster)@,
                node@,
                j,
            ),
        other != node@ ==> same_use(final(cluster)@, old(cluster)@, other),
        final(cluster)@.nodes == old(cluster)@.nodes,
{
    let before = old(cluster)@.allocation(node@).jobs;
    let after = final(cluster)@.allocations[node@].jobs;
    assert(after =~= before.push(job@));
    assert(after[before.len() as int] == job@);
    assert forall|j: Seq<char>| j != job@ implies #[trigger] listed(final(cluster)@, node@, j)
        == listed(old(cluster)@, node@, j) by {
        crate::string_map::lemma_push_contains(before, job@, j);
    }
}

/// Giving back takes what is given back from what is in use on the node, as far as it is in
/// use, and the job from its list; other jobs, other nodes, and what the nodes have, stay as
/// they are, and so does all on a node on which nothing is in use.
pub proof fn law_giving_back_takes_away(
    cluster: &mut ClusterState,
    node: &str,
    cpu: u64,
    memory: u64,
    gpus: u32,
    job: &str,
    other: Seq<char>,
)
    requires
        call_ensures(ClusterState::deallocate, (cluster, node, cpu, memory, gpus, job), ()),
    ensures
        cpu_used(final(cluster)@, node@) == left(cpu_used(old(cluster)@, node@), cpu as nat),
        memory_used(final(cluster)@, node@) == left(
            memory_used(old(cluster)@, node@),
            memory as nat,
        ),
        gpus_used(final(cluster)@, node@) == left(gpus_used(old(cluster)@, node@), gpus as nat),
        !listed(final(cluster)@, node@, job@),
        forall|j: Seq<char>|
            j != job@ ==> #[trigger] listed(final(cluster)@, node@, j) == listed(
                old(cluster)@,
                node@,
                j,
            ),
        other != node@ ==> same_use(final(cluster)@, old(cluster)@, other),
        final(cluster)@.nodes == old(cluster)@.nodes,
{
    let before = old(cluster)@.allocations[node@].jobs;
    lemma_without_lacks(before, job@);
    assert forall|j: Seq<char>| j != job@ implies #[trigger] listed(final(cluster)@, node@, j)
        == listed(old(cluster)@, node@, j) by {
        lemma_others_stay(before, job@, j);
    }
}

proof fn lemma_others_stay(jobs: Seq<Seq<char>>, job: Seq<char>, other: Seq<char>)
    requires
        other != job,
    ensures
        without(jobs, job).contains(other) == jobs.contains(other),
    decreases jobs.len(),
{
    let keep = crate::model::cluster::other_than(job);
    if jobs.contains(other) {
        let k = jobs.index_of(other);
        jobs.lemma_filter_contains(keep, k);
    }
    if without(jobs, job).contains(other) {
        let k = without(jobs, job).index_of(other);
        jobs.lemma_filter_pred(keep, k);
        lemma_filter_from(jobs, keep, k);
    }
}

proof fn lemma_filter_from(s: Seq<Seq<char>>, keep: spec_fn(Seq<char>) -> bool, k: int)
    requires
        0 <= k < s.filter(keep).len(),
    ensures
        s.contains(s.filter(keep)[k]),
    decreases s.len(),
{
    reveal(Seq::filter);
    if s.len() > 0 {
        let rest = s.drop_last();
        let part = rest.filter(keep);
        if k < part.len() {
            lemma_filter_from(rest, keep, k);
            let i = rest.index_of(part[k]);
            assert(s[i] == part[k]);
        } else {
            assert(s[s.len() - 1] == s.filter(keep)[k]);
        }
    }
}

/// What is left of a node is what it has less what is in use under its name, and never less
/// than nothing; of a node that is not known nothing is said. Of nodes with one name the
/// first counts.
pub proof fn law_what_is_left_is_what_is_not_used(
    cluster: &ClusterState,
    node: &str,
    i: int,
    r: Option<(u64, u64, u32)>,
)
    requires
        call_ensures(ClusterState::available_resources, (cluster, node), r),
    ensures
        (forall|k: int| 0 <= k < cluster.nodes@.len() ==> (#[trigger] cluster.nodes@[k]).name@
            != node@) ==> r is None,
        0 <= i < cluster.nodes@.len() && cluster.nodes@[i].name@ == node@ && (forall|k: int|
            0 <= k < i ==> (#[trigger] cluster.nodes@[k]).name@ != node@) ==> {
            &&& r is Some
            &&& (r->0).0 == left(
                cluster.nodes@[i].allocatable_cpu_millis as nat,
                cpu_used(cluster@, node@),
            )
            &&& (r->0).1 == left(
                cluster.nodes@[i].allocatable_memory_bytes as nat,
                memory_used(cluster@, node@),
            )
            &&& (r->0).2 == left(
                cluster.nodes@[i].allocatable_gpus as nat,
                gpus_used(cluster@, node@),
            )
        },
{
    let nodes = cluster@.nodes;
    if forall|k: int| 0 <= k < cluster.nodes@.len() ==> (#[trigger] cluster.nodes@[k]).name@ != node@ {
        assert forall|k: int| 0 <= k < nodes.len() implies (#[trigger] nodes[k]).name != node@ by {
            assert(cluster.nodes@[k].name@ != node@);
        }
        lemma_nobody_named(nodes, node@);
    }
    if 0 <= i < cluster.nodes@.len() && cluster.nodes@[i].name@ == node@ && (forall|k: int|
        0 <= k < i ==> (#[trigger] cluster.nodes@[k]).name@ != node@) {
        assert forall|k: int| 0 <= k < i implies (#[trigger] nodes[k]).name != node@ by {
            assert(cluster.nodes@[k].name@ != node@);
        }
        assert(nodes[i] == cluster.nodes@[i].deep_view());
        lemma_first_is(nodes, node@, i);
    }
}

proof fn lemma_nobody_named(nodes: Seq<crate::model::types::NodeView>, name: Seq<char>)
    requires
        forall|k: int| 0 <= k < nodes.len() ==> (#[trigger] nodes[k]).name != name,
    ensures
        crate::model::cluster::first_named(nodes, name) is None,
    decreases nodes.len(),
{
    if nodes.len() > 0 {
        assert(nodes[0].name != name);
        assert forall|k: int| 0 <= k < nodes.drop_first().len() implies (
        #[trigger] nodes.drop_first()[k]).name != name by {
            assert(nodes[k + 1].name != name);
        }
        lemma_nobody_named(nodes.drop_first(), name);
    }
}

proof fn lemma_first_is(nodes: Seq<crate::model::types::NodeView>, name: Seq<char>, i: int)
    requires
        0 <= i < nodes.len(),
        nodes[i].name == name,
        forall|k: int| 0 <= k < i ==> (#[trigger] nodes[k]).name != name,
    ensures
        crate::model::cluster::first_named(nodes, name) == Some(nodes[i]),
    decreases nodes.len(),
{
    if i > 0 {
        assert(nodes[0].name != name);
        let rest = nodes.drop_first();
        assert forall|k: int| 0 <= k < i - 1 implies (#[trigger] rest[k]).name != name by {
            assert(nodes[k + 1].name != name);
        }
        assert(rest[i - 1] == nodes[i]);
        lemma_first_is(rest, name, i - 1);
    }
}

/// Whether a job holds its share on a node: one CPU and a thousand million bytes more than
/// before, no GPU more, and a place in the list of jobs.
pub open spec fn share_added(
    before: ClusterView,
    after: ClusterView,
    node: Seq<char>,
    job: Seq<char>,
) -> bool {
    &&& cpu_used(after, node) == cpu_used(before, node) + 1000
    &&& memory_used(after, node) == memory_used(before, node) + 1_000_000_000
    &&& gpus_used(after, node) == gpus_used(before, node)
    &&& listed(after, node, job)
}

proof fn lemma_booked_lists(c: ClusterView, nodes: Seq<Seq<char>>, job: Seq<char>, node: Seq<char>)
    requires
        nodes.contains(node),
    ensures
        listed(booked(c, nodes, job), node, job),
    decreases nodes.len(),
{
    let rest = nodes.drop_last();
    let before = booked(c, rest, job);
    let after = booked(c, nodes, job);
    if nodes.last() == node {
        let jobs = before.allocation(node).jobs;
        assert(after.allocations[node].jobs =~= jobs.push(job));
        assert(after.allocations[node].jobs[jobs.len() as int] == job);
    } else {
        let k = nodes.index_of(node);
        assert(rest[k] == node);
        lemma_booked_lists(c, rest, job, node);
    }
}

proof fn lemma_occurs(nodes: Seq<Seq<char>>, name: Seq<char>)
    requires
        nodes.contains(name),
    ensures
        occurrences(nodes, name) >= 1,
    decreases nodes.len(),
{
    if nodes.last() != name {
        let k = nodes.index_of(name);
        assert(nodes.drop_last()[k] == name);
        lemma_occurs(nodes.drop_last(), name);
    }
}

/// A job is booked on all of its nodes or on none. On each of them, when it is placed on no
/// node twice, it holds its share; elsewhere nothing changes. The nodes are reserved for
/// it. Where there is no place, nothing changes at all.
pub proof fn law_booking_is_all_or_nothing(
    cluster: &mut ClusterState,
    reservations: &mut ReservationManager,
    job: &str,
    node_count: u32,
    topology: Option<&TopologySpec>,
    now: u128,
    r: Result<Placement, BuboError>,
    node: Seq<char>,
)
    requires
        call_ensures(book, (cluster, reservations, job, node_count, topology, now), r),
    ensures
        r is Err ==> final(cluster)@ == old(cluster)@ && final(reservations)@ == old(
            reservations,
        )@,
        r is Ok ==> {
            let chosen = r->Ok_0.nodes.deep_view();
            &&& chosen.no_duplicates() && chosen.contains(node) ==> share_added(
                old(cluster)@,
                final(cluster)@,
                node,
                job@,
            )
            &&& !chosen.contains(node) ==> same_use(old(cluster)@, final(cluster)@, node)
            &&& final(cluster)@.nodes == old(cluster)@.nodes
            &&& final(reservations)@.dom().contains(job@)
            &&& final(reservations)@[job@].nodes == chosen
            &&& final(reservations)@[job@].per_node.cpu == 1000
            &&& final(reservations)@[job@].per_node.memory == 1_000_000_000
            &&& final(reservations)@[job@].per_node.gpus == 0
            &&& final(reservations)@[job@].created_at == now
        },
{
    if r is Ok {
        let chosen = r->Ok_0.nodes.deep_view();
        let before = old(cluster)@;
        let after = final(cluster)@;
        lemma_booked(before, chosen, job@, node);
        if chosen.contains(node) {
            lemma_booked_lists(before, chosen, job@, node);
            if chosen.no_duplicates() {
                lemma_occurs_once(chosen, node);
                lemma_occurs(chosen, node);
                assert(occurrences(chosen, node) == 1);
            }
        } else {
            lemma_absent(chosen, node);
            assert(before.allocation(node) == after.allocation(node));
            assert forall|j: Seq<char>| #[trigger] listed(before, node, j) == listed(after, node, j) by {}
        }
    }
}

/// Both controllers schedule by booking: a placement is booked for the job, or nothing
/// changes. A Wren job of which it is not known whom it runs as is refused, and no other is.
pub proof fn law_scheduling_is_booking(
    cluster: &mut ClusterState,
    reservations: &mut ReservationManager,
    name: &str,
    spec: &WrenJobSpec,
    user: Option<&UserIdentity>,
    now: u128,
    r: Attempt,
    node: Seq<char>,
)
    requires
        call_ensures(
            wren::reconciler::handle_scheduling,
            (cluster, reservations, name, spec, user, now),
            r,
        ),
    ensures
        r is Refused <==> user is None,
        r is Refused ==> !r->step.terminate && r->step.patch is Some && r->step.patch->0 is State
            && r->step.patch->0->state == JobState::Failed && r->step.transition is None,
        r is Refused || r is Retry ==> final(cluster)@ == old(cluster)@ && final(reservations)@
            == old(reservations)@,
        r is Launch ==> final(reservations)@.dom().contains(name@) && {
            let chosen = r->placement.nodes.deep_view();
            &&& chosen.len() == spec.nodes
            &&& chosen.no_duplicates() && chosen.contains(node) ==> share_added(
                old(cluster)@,
                final(cluster)@,
                node,
                name@,
            )
            &&& !chosen.contains(node) ==> same_use(old(cluster)@, final(cluster)@, node)
        },
{
    if r is Launch {
        let p = r->placement;
        let chosen = p.nodes.deep_view();
        let before = old(cluster)@;
        let after = final(cluster)@;
        crate::scheduler::gang::law_placement_is_complete(
            before,
            crate::controller::booking::share(),
            spec.nodes as nat,
            spec.topology_ref(),
            p,
        );
        lemma_booked(before, chosen, name@, node);
        if chosen.contains(node) {
            lemma_booked_lists(before, chosen, name@, node);
            if chosen.no_duplicates() {
                lemma_occurs_once(chosen, node);
                lemma_occurs(chosen, node);
                assert(occurrences(chosen, node) == 1);
            }
        } else {
            lemma_absent(chosen, node);
            assert(before.allocation(node) == after.allocation(node));
            assert forall|j: Seq<char>| #[trigger] listed(before, node, j) == listed(after, node, j) by {}
        }
    }
}

/// An MPI job is scheduled by booking: a placement is booked for it, or nothing changes.
pub proof fn law_mpi_scheduling_is_booking(
    cluster: &mut ClusterState,
    reservations: &mut ReservationManager,
    name: &str,
    spec: &MPIJobSpec,
    now: u128,
    r: Option<Placement>,
    node: Seq<char>,
)
    requires
        call_ensures(
            bubo::reconciler::handle_scheduling,
            (cluster, reservations, name, spec, now),
            r,
        ),
    ensures
        r is None ==> final(cluster)@ == old(cluster)@ && final(reservations)@ == old(
            reservations,
        )@,
        r is Some ==> final(reservations)@.dom().contains(name@) && {
            let chosen = r->0.nodes.deep_view();
            &&& chosen.len() == spec.nodes
            &&& chosen.no_duplicates() && chosen.contains(node) ==> share_added(
                old(cluster)@,
                final(cluster)@,
                node,
                name@,
            )
            &&& !chosen.contains(node) ==> same_use(old(cluster)@, final(cluster)@, node)
        },
{
    if r is Some {
        let p = r->0;
        let chosen = p.nodes.deep_view();
        let before = old(cluster)@;
        let after = final(cluster)@;
        crate::scheduler::gang::law_placement_is_complete(
            before,
            crate::controller::booking::share(),
            spec.nodes as nat,
            spec.topology_ref(),
            p,
        );
        lemma_booked(before, chosen, name@, node);
        if chosen.contains(node) {
            lemma_booked_lists(before, chosen, name@, node);
            if chosen.no_duplicates() {
                lemma_occurs_once(chosen, node);
                lemma_occurs(chosen, node);
                assert(occurrences(chosen, node) == 1);
            }
        } else {
            lemma_absent(chosen, node);
            assert(before.allocation(node) == after.allocation(node));
            assert forall|j: Seq<char>| #[trigger] listed(before, node, j) == listed(after, node, j) by {}
        }
    }
}

/// A released job is listed nowhere any more. Where it was listed, its share is given back;
/// where it was not, nothing changes; and no other job is taken from a list.
pub proof fn law_released_jobs_give_back_their_share(
    cluster: &mut ClusterState,
    job: &str,
    node: Seq<char>,
    other: Seq<char>,
)
    requires
        call_ensures(release_job, (cluster, job), ()),
    ensures
        !listed(final(cluster)@, node, job@),
        other != job@ ==> listed(final(cluster)@, node, other) == listed(
            old(cluster)@,
            node,
            other,
        ),
        listed(old(cluster)@, node, job@) ==> {
            &&& cpu_used(final(cluster)@, node) == left(cpu_used(old(cluster)@, node), 1000)
            &&& memory_used(final(cluster)@, node) == left(
                memory_used(old(cluster)@, node),
                1_000_000_000,
            )
            &&& gpus_used(final(cluster)@, node) == gpus_used(old(cluster)@, node)
        },
        !listed(old(cluster)@, node, job@) ==> same_use(final(cluster)@, old(cluster)@, node),
        final(cluster)@.nodes == old(cluster)@.nodes,
{
    let before = old(cluster)@;
    if listed(before, node, job@) {
        lemma_without_lacks(before.allocations[node].jobs, job@);
        if other != job@ {
            lemma_others_stay(before.allocations[node].jobs, job@, other);
        }
    }
}

/// A job that is known not to exist any more is released, and no other is.
pub proof fn law_only_missing_jobs_are_settled(
    cluster: &mut ClusterState,
    job: &str,
    lookup: JobLookup,
    r: bool,
    node: Seq<char>,
)
    requires
        call_ensures(settle_allocations, (cluster, job, lookup), r),
    ensures
        r <==> lookup == JobLookup::Missing,
        !r ==> final(cluster)@ == old(cluster)@,
        r ==> !listed(final(cluster)@, node, job@),
{
    if r && old(cluster)@.allocations.dom().contains(node) {
        lemma_without_lacks(old(cluster)@.allocations[node].jobs, job@);
    }
}

/// The jobs that hold something are exactly those that are listed on some node, each once.
pub proof fn law_holders_are_the_listed_jobs(
    cluster: &ClusterState,
    r: Vec<String>,
    job: Seq<char>,
    node: Seq<char>,
)
    requires
        call_ensures(collect_allocated_job_names, (cluster,), r),
    ensures
        r.deep_view().no_duplicates(),
        listed(cluster@, node, job) ==> r.deep_view().contains(job),
        r.deep_view().contains(job) ==> exists|n: Seq<char>| #[trigger] listed(cluster@, n, job),
{
    if r.deep_view().contains(job) {
        let n = choose|n: Seq<char>| #[trigger]
            cluster@.allocations.dom().contains(n) && cluster@.allocations[n].jobs.contains(job);
        assert(listed(cluster@, n, job));
    }
}

/// Giving a booking back undoes it: on each node of the placement, where no node stands
/// twice, the share is taken away again.
pub proof fn law_unbooking_gives_back_the_share(
    cluster: &mut ClusterState,
    placement: &Placement,
    job: &str,
    node: Seq<char>,
)
    requires
        call_ensures(unbook, (cluster, placement, job), ()),
    ensures
        ({
            let chosen = placement.nodes.deep_view();
            &&& chosen.no_duplicates() && chosen.contains(node) ==> {
                &&& cpu_used(final(cluster)@, node) == left(cpu_used(old(cluster)@, node), 1000)
                &&& memory_used(final(cluster)@, node) == left(
                    memory_used(old(cluster)@, node),
                    1_000_000_000,
                )
                &&& gpus_used(final(cluster)@, node) == gpus_used(old(cluster)@, node)
                &&& !listed(final(cluster)@, node, job@)
            }
            &&& !chosen.contains(node) ==> same_use(final(cluster)@, old(cluster)@, node)
        }),
{
    let chosen = placement.nodes.deep_view();
    let before = old(cluster)@;
    let after = final(cluster)@;
    lemma_unbooked(before, chosen, job@, node);
    if chosen.contains(node) {
        lemma_occurs_once_if(chosen, node);
        lemma_occurs(chosen, node);
        lemma_without_lacks(before.allocation(node).jobs, job@);
    } else {
        lemma_absent(chosen, node);
        assert(before.allocation(node) == after.allocation(node));
        assert forall|j: Seq<char>| #[trigger] listed(after, node, j) == listed(before, node, j) by {}
    }
}

proof fn lemma_occurs_once_if(nodes: Seq<Seq<char>>, name: Seq<char>)
    ensures
        nodes.no_duplicates() ==> occurrences(nodes, name) <= 1,
{
    if nodes.no_duplicates() {
        lemma_occurs_once(nodes, name);
    }
}

/// A cluster whose nodes have different names can always be booked.
pub proof fn law_distinct_nodes_can_be_booked(cluster: &ClusterState, node_count: u32, r: bool)
    requires
        call_ensures(is_bookable, (cluster, node_count), r),
        forall|a: int, b: int|
            0 <= a < b < cluster.nodes@.len() ==> (#[trigger] cluster.nodes@[a]).name@ != (
            #[trigger] cluster.nodes@[b]).name@,
    ensures
        r,
{
    assert forall|a: int, b: int| 0 <= a < b < cluster@.nodes.len() implies (
    #[trigger] cluster@.nodes[a]).name != (#[trigger] cluster@.nodes[b]).name by {
        assert(cluster.nodes@[a].name@ != cluster.nodes@[b].name@);
    }
}

/// A new cluster has no nodes, and nothing in use.
pub proof fn law_new_clusters_are_empty(cluster: ClusterState, node: Seq<char>, job: Seq<char>)
    requires
        call_ensures(ClusterState::new, (), cluster),
    ensures
        cluster.nodes@.len() == 0,
        cpu_used(cluster@, node) == 0,
        !listed(cluster@, node, job),
{
    assert(cluster@.nodes.len() == cluster.nodes@.len());
}

} // verus!
