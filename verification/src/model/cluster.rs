//! Cluster-wide resource state: what nodes offer and what jobs hold.

use vstd::prelude::*;
use vstd::string::*;
use crate::model::types::{AllocationView, NodeAllocation, NodeResources, NodeView};
use crate::string_map::StringMap;
use crate::text::str_eq;

verus! {

/// Difference, or nothing where the subtrahend is larger.
pub open spec fn floor_sub(a: nat, b: nat) -> nat {
    if a >= b {
        (a - b) as nat
    } else {
        0
    }
}

/// Whether a name is other than `name`.
pub open spec fn other_than(name: Seq<char>) -> spec_fn(Seq<char>) -> bool {
    |j: Seq<char>| j != name
}

/// The names in `jobs` other than `name`, in order.
pub open spec fn without(jobs: Seq<Seq<char>>, name: Seq<char>) -> Seq<Seq<char>> {
    jobs.filter(other_than(name))
}

/// The first node with the name `name`.
pub open spec fn first_named(nodes: Seq<NodeView>, name: Seq<char>) -> Option<NodeView>
    decreases nodes.len(),
{
    if nodes.len() == 0 {
        None
    } else if nodes[0].name == name {
        Some(nodes[0])
    } else {
        first_named(nodes.drop_first(), name)
    }
}

/// Amounts of the resources of one node.
pub ghost struct Amounts {
    pub cpu: nat,
    pub memory: nat,
    pub gpus: nat,
}

impl AllocationView {
    /// With a further allocation of `amount` to `job`.
    pub open spec fn plus(self, amount: Amounts, job: Seq<char>) -> AllocationView {
        AllocationView {
            cpu: self.cpu + amount.cpu,
            memory: self.memory + amount.memory,
            gpus: self.gpus + amount.gpus,
            jobs: self.jobs.push(job),
        }
    }

    /// With `amount` given back, as far as it is in use, and `job` gone.
    pub open spec fn minus(self, amount: Amounts, job: Seq<char>) -> AllocationView {
        AllocationView {
            cpu: floor_sub(self.cpu, amount.cpu),
            memory: floor_sub(self.memory, amount.memory),
            gpus: floor_sub(self.gpus, amount.gpus),
            jobs: without(self.jobs, job),
        }
    }

    /// Whether the counters of an allocation can take `amount` more.
    pub open spec fn has_room_for(self, amount: Amounts) -> bool {
        &&& self.cpu + amount.cpu <= u64::MAX
        &&& self.memory + amount.memory <= u64::MAX
        &&& self.gpus + amount.gpus <= u32::MAX
    }
}

/// Snapshot of cluster-wide resource state used by the scheduler.
#[derive(Clone, Debug)]
pub struct ClusterState {
    pub nodes: Vec<NodeResources>,
    pub allocations: StringMap<NodeAllocation>,
}

/// Content of a [`ClusterState`].
pub ghost struct ClusterView {
    pub nodes: Seq<NodeView>,
    pub allocations: Map<Seq<char>, AllocationView>,
}

impl View for ClusterState {
    type V = ClusterView;

    open spec fn view(&self) -> ClusterView {
        ClusterView { nodes: self.nodes.deep_view(), allocations: self.allocations@ }
    }
}

impl ClusterView {
    /// What is in use on the node `name`.
    pub open spec fn allocation(self, name: Seq<char>) -> AllocationView {
        if self.allocations.dom().contains(name) {
            self.allocations[name]
        } else {
            AllocationView::empty()
        }
    }

    /// What is left of `node` after what is in use under its name.
    pub open spec fn free(self, node: NodeView) -> Amounts {
        let used = self.allocation(node.name);
        Amounts {
            cpu: floor_sub(node.cpu, used.cpu),
            memory: floor_sub(node.memory, used.memory),
            gpus: floor_sub(node.gpus, used.gpus),
        }
    }

    /// What is left on the first node named `name`.
    pub open spec fn available(self, name: Seq<char>) -> Option<Amounts> {
        match first_named(self.nodes, name) {
            Some(node) => Some(self.free(node)),
            None => None,
        }
    }

    /// After an allocation of `amount` on `node` to `job`.
    pub open spec fn allocated(
        self,
        node: Seq<char>,
        amount: Amounts,
        job: Seq<char>,
    ) -> ClusterView {
        ClusterView {
            nodes: self.nodes,
            allocations: self.allocations.insert(node, self.allocation(node).plus(amount, job)),
        }
    }

    /// After a release of `amount` on `node` by `job`.
    pub open spec fn deallocated(
        self,
        node: Seq<char>,
        amount: Amounts,
        job: Seq<char>,
    ) -> ClusterView {
        if self.allocations.dom().contains(node) {
            ClusterView {
                nodes: self.nodes,
                allocations: self.allocations.insert(
                    node,
                    self.allocations[node].minus(amount, job),
                ),
            }
        } else {
            self
        }
    }
}

/// The names in `jobs` other than `name`, in order.
fn retain_other(jobs: &Vec<String>, name: &str) -> (r: Vec<String>)
    ensures
        r.deep_view() == without(jobs.deep_view(), name@),
{
    let mut r: Vec<String> = Vec::new();
    let mut i: usize = 0;
    let ghost all = jobs.deep_view();
    let ghost keep = other_than(name@);
    proof {
        reveal(Seq::filter);
        assert(r.deep_view() =~= all.take(0).filter(keep));
    }
    while i < jobs.len()
        invariant
            i <= jobs.len(),
            all == jobs.deep_view(),
            keep == other_than(name@),
            r.deep_view() == all.take(i as int).filter(keep),
        decreases jobs.len() - i,
    {
        let ghost before = r.deep_view();
        proof {
            assert(all.take(i + 1) =~= all.take(i as int).push(all[i as int]));
            all.take(i as int).lemma_filter_push(all[i as int], keep);
        }
        if !str_eq(jobs[i].as_str(), name) {
            r.push(jobs[i].clone());
            proof {
                assert(r.deep_view() =~= before.push(all[i as int]));
            }
        }
        i += 1;
    }
    proof {
        assert(all.take(all.len() as int) =~= all);
    }
    r
}

impl ClusterState {
    /// A cluster without nodes.
    pub fn new() -> (r: Self)
        ensures
            r@.nodes == Seq::<NodeView>::empty(),
            r@.allocations == Map::<Seq<char>, AllocationView>::empty(),
    {
        let r = ClusterState { nodes: Vec::new(), allocations: StringMap::new() };
        proof {
            assert(r@.nodes =~= Seq::<NodeView>::empty());
        }
        r
    }

    /// What is left of `node` after what is in use under its name.
    pub fn free_on(&self, node: &NodeResources) -> (r: (u64, u64, u32))
        ensures
            self@.free(node.deep_view()) == (Amounts {
                cpu: r.0 as nat,
                memory: r.1 as nat,
                gpus: r.2 as nat,
            }),
    {
        match self.allocations.get(node.name.as_str()) {
            Some(used) => (
                node.allocatable_cpu_millis.saturating_sub(used.used_cpu_millis),
                node.allocatable_memory_bytes.saturating_sub(used.used_memory_bytes),
                node.allocatable_gpus.saturating_sub(used.used_gpus),
            ),
            None => (
                node.allocatable_cpu_millis,
                node.allocatable_memory_bytes,
                node.allocatable_gpus,
            ),
        }
    }

    /// Available resources on a node after subtracting allocations: CPU in
    /// thousandths, memory in bytes, GPUs.
    pub fn available_resources(&self, node_name: &str) -> (r: Option<(u64, u64, u32)>)
        ensures
            self@.available(node_name@) == (match r {
                Some(a) => Some(
                    Amounts { cpu: a.0 as nat, memory: a.1 as nat, gpus: a.2 as nat },
                ),
                None => None,
            }),
    {
        let mut i: usize = 0;
        let ghost all = self@.nodes;
        proof {
            assert(all.skip(0) =~= all);
        }
        while i < self.nodes.len()
            invariant
                i <= self.nodes.len(),
                all == self.nodes.deep_view(),
                first_named(all, node_name@) == first_named(all.skip(i as int), node_name@),
            decreases self.nodes.len() - i,
        {
            proof {
                assert(all.skip(i as int)[0] == self.nodes[i as int].deep_view());
                assert(all.skip(i as int).drop_first() =~= all.skip(i + 1));
            }
            if str_eq(self.nodes[i].name.as_str(), node_name) {
                return Some(self.free_on(&self.nodes[i]));
            }
            i += 1;
        }
        None
    }

    /// Records a resource allocation on a node for a given job.
    pub fn allocate(
        &mut self,
        node_name: &str,
        cpu_millis: u64,
        memory_bytes: u64,
        gpus: u32,
        job_name: &str,
    )
        requires
            old(self)@.allocation(node_name@).has_room_for(
                Amounts { cpu: cpu_millis as nat, memory: memory_bytes as nat, gpus: gpus as nat },
            ),
        ensures
            final(self)@ == old(self)@.allocated(
                node_name@,
                Amounts { cpu: cpu_millis as nat, memory: memory_bytes as nat, gpus: gpus as nat },
                job_name@,
            ),
    {
        let ghost before = self@;
        let mut used = match self.allocations.remove(node_name) {
            Some(used) => used,
            None => NodeAllocation::default(),
        };
        let ghost start = used.deep_view();
        assert(start == before.allocation(node_name@));
        used.used_cpu_millis = used.used_cpu_millis + cpu_millis;
        used.used_memory_bytes = used.used_memory_bytes + memory_bytes;
        used.used_gpus = used.used_gpus + gpus;
        used.jobs.push(job_name.to_owned());
        proof {
            assert(used.jobs.deep_view() =~= start.jobs.push(job_name@));
        }
        self.allocations.insert(node_name.to_owned(), used);
        proof {
            let amount = Amounts {
                cpu: cpu_millis as nat,
                memory: memory_bytes as nat,
                gpus: gpus as nat,
            };
            assert(self@.allocations =~= before.allocated(
                node_name@,
                amount,
                job_name@,
            ).allocations);
        }
    }

    /// Releases a job's allocation from a node.
    pub fn deallocate(
        &mut self,
        node_name: &str,
        cpu_millis: u64,
        memory_bytes: u64,
        gpus: u32,
        job_name: &str,
    )
        ensures
            final(self)@ == old(self)@.deallocated(
                node_name@,
                Amounts { cpu: cpu_millis as nat, memory: memory_bytes as nat, gpus: gpus as nat },
                job_name@,
            ),
    {
        let ghost before = self@;
        match self.allocations.remove(node_name) {
            Some(used) => {
                let left = NodeAllocation {
                    used_cpu_millis: used.used_cpu_millis.saturating_sub(cpu_millis),
                    used_memory_bytes: used.used_memory_bytes.saturating_sub(memory_bytes),
                    used_gpus: used.used_gpus.saturating_sub(gpus),
                    jobs: retain_other(&used.jobs, job_name),
                };
                self.allocations.insert(node_name.to_owned(), left);
                proof {
                    let amount = Amounts {
                        cpu: cpu_millis as nat,
                        memory: memory_bytes as nat,
                        gpus: gpus as nat,
                    };
                    assert(self@.allocations =~= before.deallocated(
                        node_name@,
                        amount,
                        job_name@,
                    ).allocations);
                }
            },
            None => {
                proof {
                    assert(self@.allocations =~= before.allocations);
                }
            },
        }
    }
}

impl Default for ClusterState {
    fn default() -> (r: Self)
        ensures
            r@.nodes == Seq::<NodeView>::empty(),
            r@.allocations == Map::<Seq<char>, AllocationView>::empty(),
    {
        ClusterState::new()
    }
}

/// Nothing is left out where the name does not occur.
pub proof fn lemma_without_absent(jobs: Seq<Seq<char>>, name: Seq<char>)
    requires
        !jobs.contains(name),
    ensures
        without(jobs, name) == jobs,
    decreases jobs.len(),
{
    reveal(Seq::filter);
    if jobs.len() > 0 {
        assert forall|k: int| 0 <= k < jobs.drop_last().len() implies jobs.drop_last()[k]
            != name by {
            assert(jobs.contains(jobs[k]));
        }
        lemma_without_absent(jobs.drop_last(), name);
        assert(jobs.contains(jobs.last()));
        assert(jobs.drop_last().push(jobs.last()) =~= jobs);
    }
}

proof fn lemma_without_pushed(jobs: Seq<Seq<char>>, name: Seq<char>)
    requires
        !jobs.contains(name),
    ensures
        without(jobs.push(name), name) == jobs,
{
    lemma_without_absent(jobs, name);
    jobs.lemma_filter_push(name, other_than(name));
}

/// Releasing what was just allocated gives the node back as it was: the node's
/// counters and its job list return to what they were, provided that the job had
/// no other allocation on the node.
pub proof fn law_release_undoes_allocation(
    cluster: ClusterView,
    node: Seq<char>,
    amount: Amounts,
    job: Seq<char>,
)
    requires
        !cluster.allocation(node).jobs.contains(job),
    ensures
        cluster.allocated(node, amount, job).deallocated(node, amount, job).allocation(node)
            == cluster.allocation(node),
{
    lemma_without_pushed(cluster.allocation(node).jobs, job);
}

/// The counters return to what they were whatever else the job holds, so what the
/// cluster has available is the same on every node after an allocation and its
/// release.
pub proof fn law_release_restores_availability(
    cluster: ClusterView,
    node: Seq<char>,
    amount: Amounts,
    job: Seq<char>,
    name: Seq<char>,
)
    ensures
        cluster.allocated(node, amount, job).deallocated(node, amount, job).available(name)
            == cluster.available(name),
{
}

/// An allocation changes only the node that it is made on.
pub proof fn law_allocation_is_local(
    cluster: ClusterView,
    node: Seq<char>,
    amount: Amounts,
    job: Seq<char>,
    other: Seq<char>,
)
    requires
        other != node,
    ensures
        cluster.allocated(node, amount, job).allocation(other) == cluster.allocation(other),
        cluster.deallocated(node, amount, job).allocation(other) == cluster.allocation(other),
        cluster.allocated(node, amount, job).available(other) == cluster.available(other),
        cluster.deallocated(node, amount, job).available(other) == cluster.available(other),
{
    if first_named(cluster.nodes, other) is Some {
        lemma_first_named(cluster.nodes, other);
    }
}

/// The node that a name leads to bears that name.
pub proof fn lemma_first_named(nodes: Seq<NodeView>, name: Seq<char>)
    requires
        first_named(nodes, name) is Some,
    ensures
        first_named(nodes, name)->0.name == name,
        nodes.contains(first_named(nodes, name)->0),
    decreases nodes.len(),
{
    if nodes[0].name != name {
        lemma_first_named(nodes.drop_first(), name);
        let tail = nodes.drop_first();
        let k = tail.index_of(first_named(tail, name)->0);
        assert(nodes[k + 1] == tail[k]);
    }
}

/// A released job is no longer listed on the node.
pub proof fn law_released_job_is_gone(
    cluster: ClusterView,
    node: Seq<char>,
    amount: Amounts,
    job: Seq<char>,
)
    ensures
        !cluster.deallocated(node, amount, job).allocation(node).jobs.contains(job),
{
    reveal(Seq::filter);
    let jobs = cluster.allocation(node).jobs;
    let keep = other_than(job);
    let left = without(jobs, job);
    assert forall|k: int| 0 <= k < left.len() implies left[k] != job by {
        jobs.lemma_filter_pred(keep, k);
    }
}

} // verus!
