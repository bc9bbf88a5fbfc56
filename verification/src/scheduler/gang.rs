//! Gang scheduling: all the nodes of a job at once, or none.

use vstd::prelude::*;
use vstd::slice::*;
use vstd::string::*;
use crate::model::cluster::{Amounts, ClusterState, ClusterView};
use crate::model::crd::TopologySpec;
use crate::model::error::{BuboError, ErrorView};
use crate::model::types::NodeView;
use crate::scheduler::topology::{points, satisfies, PlacementScore, TopologyScorer};
use crate::text::{contains_str, dec, decimal};

verus! {

/// Number of candidate placements that are looked at when topology matters.
pub const MAX_CANDIDATES: usize = 10;

/// A scheduling decision: which nodes to place a job on.
#[derive(Clone, Debug)]
pub struct Placement {
    pub nodes: Vec<String>,
    /// Topology score; higher is better.
    pub score: PlacementScore,
}

impl ClusterView {
    /// Whether `node` has `demand` left.
    pub open spec fn can_take(self, node: NodeView, demand: Amounts) -> bool {
        let free = self.free(node);
        free.cpu >= demand.cpu && free.memory >= demand.memory && free.gpus >= demand.gpus
    }

    /// The names of the nodes that have `demand` left, in the order of the nodes.
    pub open spec fn feasible(self, demand: Amounts) -> Seq<Seq<char>> {
        feasible_among(self, self.nodes, demand)
    }
}

/// The names of the nodes among `nodes` that have `demand` left in `cluster`.
pub open spec fn feasible_among(
    cluster: ClusterView,
    nodes: Seq<NodeView>,
    demand: Amounts,
) -> Seq<Seq<char>>
    decreases nodes.len(),
{
    if nodes.len() == 0 {
        Seq::empty()
    } else {
        let before = feasible_among(cluster, nodes.drop_last(), demand);
        if cluster.can_take(nodes.last(), demand) {
            before.push(nodes.last().name)
        } else {
            before
        }
    }
}

/// The runs of `n` neighbours in `names`.
pub open spec fn windows(names: Seq<Seq<char>>, n: nat) -> Seq<Seq<Seq<char>>> {
    Seq::new((names.len() - n + 1) as nat, |start: int| names.subrange(start, start + n))
}

/// `n` names from `names`, `stride` apart, beginning at `offset`.
pub open spec fn strided(
    names: Seq<Seq<char>>,
    n: nat,
    stride: nat,
    offset: int,
) -> Seq<Seq<char>> {
    Seq::new(n, |i: int| names[offset + i * stride])
}

/// The groups of `n` names that are spread evenly, for offsets from 1 up to but not
/// including `end`, without those in which a name occurs twice.
pub open spec fn spread_until(names: Seq<Seq<char>>, n: nat, end: int) -> Seq<Seq<Seq<char>>>
    decreases end,
{
    if end <= 1 {
        Seq::empty()
    } else {
        let before = spread_until(names, n, end - 1);
        let group = strided(names, n, names.len() / n, end - 1);
        if group.no_duplicates() {
            before.push(group)
        } else {
            before
        }
    }
}

/// Candidate placements of `n` nodes out of `names`: first the runs of neighbours,
/// then the groups spread evenly through the list, at most `max` in all.
pub open spec fn candidates(names: Seq<Seq<char>>, n: nat, max: nat) -> Seq<Seq<Seq<char>>> {
    if n == 0 {
        seq![Seq::empty()]
    } else if names.len() < n {
        Seq::empty()
    } else {
        let all = windows(names, n) + spread_until(names, n, (names.len() / n) as int);
        if all.len() <= max {
            all
        } else {
            all.take(max as int)
        }
    }
}

/// Whether the candidate at position `b` is the one to take: it meets the demands
/// of `spec`, none that meets them has more points, and none after it has as many.
pub open spec fn is_choice(
    nodes: Seq<NodeView>,
    list: Seq<Seq<Seq<char>>>,
    spec: TopologySpec,
    b: int,
) -> bool {
    let key = spec.topology_key.deep_view();
    &&& 0 <= b < list.len()
    &&& satisfies(nodes, list[b], spec)
    &&& forall|k: int|
        0 <= k < list.len() && satisfies(nodes, #[trigger] list[k], spec) ==> points(
            nodes,
            list[k],
            key,
        ) <= points(nodes, list[b], key)
    &&& forall|k: int|
        b < k < list.len() && satisfies(nodes, #[trigger] list[k], spec) ==> points(
            nodes,
            list[k],
            key,
        ) < points(nodes, list[b], key)
}

/// Why a job does not get its nodes when too few can take it.
pub open spec fn shortage(needed: nat, found: nat) -> Seq<char> {
    "need "@ + dec(needed) + " nodes, only "@ + dec(found) + " feasible"@
}

/// Whether `p` is the placement of a job on `n` of the nodes `feasible`.
pub open spec fn placed(
    nodes: Seq<NodeView>,
    feasible: Seq<Seq<char>>,
    n: nat,
    topology: Option<&TopologySpec>,
    p: Placement,
) -> bool {
    &&& feasible.len() >= n
    &&& match topology {
        None => p.nodes.deep_view() == feasible.take(n as int) && p.score == (PlacementScore {
            points: 1,
            out_of: 1,
        }),
        Some(spec) => {
            let list = candidates(feasible, n, MAX_CANDIDATES as nat);
            exists|b: int|
                #![trigger list[b]]
                is_choice(nodes, list, *spec, b) && p.nodes.deep_view() == list[b]
                    && p.score.points == points(nodes, list[b], spec.topology_key.deep_view())
                    && p.score.out_of == (if list[b].len() == 0 {
                    1nat
                } else {
                    10 * list[b].len()
                })
        },
    }
}

/// Whether a job that needs `n` of the nodes `feasible` gets none, for `reason`.
pub open spec fn refused(
    nodes: Seq<NodeView>,
    feasible: Seq<Seq<char>>,
    n: nat,
    topology: Option<&TopologySpec>,
    reason: Seq<char>,
) -> bool {
    if feasible.len() < n {
        reason == shortage(n, feasible.len())
    } else {
        topology is Some && reason == "no feasible placement satisfies topology constraints"@
            && forall|k: int|
            0 <= k < candidates(feasible, n, MAX_CANDIDATES as nat).len() ==> !satisfies(
                nodes,
                #[trigger] candidates(feasible, n, MAX_CANDIDATES as nat)[k],
                *topology->0,
            )
    }
}

/// Gang scheduler: finds a set of nodes that can take a job. All or nothing: either
/// all nodes are available or the job is not scheduled.
pub struct GangScheduler;

fn has_duplicates(names: &Vec<String>) -> (r: bool)
    ensures
        r == !names.deep_view().no_duplicates(),
{
    let ghost all = names.deep_view();
    let mut seen: Vec<String> = Vec::new();
    let mut i: usize = 0;
    proof {
        assert(seen.deep_view() =~= all.take(0));
    }
    while i < names.len()
        invariant
            i <= names.len(),
            all == names.deep_view(),
            seen.deep_view() == all.take(i as int),
            all.take(i as int).no_duplicates(),
        decreases names.len() - i,
    {
        let ghost before = all.take(i as int);
        let ghost name = all[i as int];
        if contains_str(&seen, names[i].as_str()) {
            proof {
                let k = before.index_of(name);
                assert(all[k] == all[i as int]);
            }
            return true;
        }
        seen.push(names[i].clone());
        proof {
            assert(all.take(i + 1) =~= before.push(name));
            assert(seen.deep_view() =~= before.push(name));
            assert forall|a: int, b: int|
                0 <= a < i + 1 && 0 <= b < i + 1 && a != b implies before.push(name)[a]
                != before.push(name)[b] by {
                if a == i {
                    assert(before.contains(before[b]));
                } else if b == i {
                    assert(before.contains(before[a]));
                }
            }
        }
        i += 1;
    }
    proof {
        assert(all.take(all.len() as int) =~= all);
    }
    false
}

fn copy_range(names: &Vec<String>, start: usize, n: usize) -> (r: Vec<String>)
    requires
        start + n <= names.len(),
    ensures
        r.deep_view() == names.deep_view().subrange(start as int, start + n),
{
    let mut r: Vec<String> = Vec::new();
    let mut i: usize = 0;
    while i < n
        invariant
            i <= n,
            start + n <= names.len(),
            r.len() == i,
            forall|k: int| 0 <= k < i ==> #[trigger] r[k]@ == names[start + k]@,
        decreases n - i,
    {
        r.push(names[start + i].clone());
        i += 1;
    }
    proof {
        assert(r.deep_view() =~= names.deep_view().subrange(start as int, start + n));
    }
    r
}

/// The groups at `offset + i * stride` stay within the list.
pub proof fn lemma_stride(total: int, n: int, stride: int, offset: int, i: int)
    requires
        0 < n <= total,
        stride == total / n,
        0 <= offset < stride,
        0 <= i < n,
    ensures
        0 <= offset + i * stride < total,
        0 <= i * stride,
{
    assert(0 <= i * stride && offset + i * stride < total) by (nonlinear_arith)
        requires
            0 < n <= total,
            stride == total / n,
            0 <= offset < stride,
            0 <= i < n,
    {
        assert(n * (total / n) <= total);
        assert(i * stride <= (n - 1) * stride);
        assert((n - 1) * stride + stride == n * stride);
    }
}

fn copy_strided(names: &Vec<String>, n: usize, stride: usize, offset: usize) -> (r: Vec<String>)
    requires
        0 < n <= names.len(),
        stride == names.len() / n,
        offset < stride,
    ensures
        r.deep_view() == strided(names.deep_view(), n as nat, stride as nat, offset as int),
{
    let mut r: Vec<String> = Vec::new();
    let mut i: usize = 0;
    while i < n
        invariant
            i <= n,
            0 < n <= names.len(),
            stride == names.len() / n,
            offset < stride,
            r.len() == i,
            forall|k: int| 0 <= k < i ==> #[trigger] r[k]@ == names[offset + k * stride]@,
        decreases n - i,
    {
        proof {
            lemma_stride(names.len() as int, n as int, stride as int, offset as int, i as int);
        }
        r.push(names[offset + i * stride].clone());
        i += 1;
    }
    proof {
        let want = strided(names.deep_view(), n as nat, stride as nat, offset as int);
        assert forall|k: int| 0 <= k < n implies #[trigger] r.deep_view()[k] == want[k] by {
            lemma_stride(names.len() as int, n as int, stride as int, offset as int, k);
        }
        assert(r.deep_view() =~= want);
    }
    r
}

impl GangScheduler {
    /// The names of the nodes that have the demanded resources left.
    fn feasible_nodes(
        cluster: &ClusterState,
        cpu_per_node_millis: u64,
        memory_per_node_bytes: u64,
        gpus_per_node: u32,
    ) -> (r: Vec<String>)
        ensures
            r.deep_view() == cluster@.feasible(
                Amounts {
                    cpu: cpu_per_node_millis as nat,
                    memory: memory_per_node_bytes as nat,
                    gpus: gpus_per_node as nat,
                },
            ),
    {
        let ghost demand = Amounts {
            cpu: cpu_per_node_millis as nat,
            memory: memory_per_node_bytes as nat,
            gpus: gpus_per_node as nat,
        };
        let ghost all = cluster@.nodes;
        let mut r: Vec<String> = Vec::new();
        let mut i: usize = 0;
        proof {
            assert(r.deep_view() =~= feasible_among(cluster@, all.take(0), demand));
        }
        while i < cluster.nodes.len()
            invariant
                i <= cluster.nodes.len(),
                all == cluster.nodes.deep_view(),
                demand == (Amounts {
                    cpu: cpu_per_node_millis as nat,
                    memory: memory_per_node_bytes as nat,
                    gpus: gpus_per_node as nat,
                }),
                r.deep_view() == feasible_among(cluster@, all.take(i as int), demand),
            decreases cluster.nodes.len() - i,
        {
            let node = &cluster.nodes[i];
            let ghost before = r.deep_view();
            proof {
                assert(all.take(i + 1).drop_last() =~= all.take(i as int));
                assert(all.take(i + 1).last() == node.deep_view());
            }
            let (cpu, memory, gpus) = cluster.free_on(node);
            if cpu >= cpu_per_node_millis && memory >= memory_per_node_bytes && gpus
                >= gpus_per_node {
                r.push(node.name.clone());
                proof {
                    assert(r.deep_view() =~= before.push(node.name@));
                }
            }
            i += 1;
        }
        proof {
            assert(all.take(all.len() as int) =~= all);
        }
        r
    }

    /// Up to `max_candidates` combinations of `n` of the feasible nodes.
    pub fn generate_candidates(
        feasible: &Vec<String>,
        n: usize,
        max_candidates: usize,
    ) -> (r: Vec<Vec<String>>)
        ensures
            r.deep_view() == candidates(feasible.deep_view(), n as nat, max_candidates as nat),
    {
        let ghost names = feasible.deep_view();
        let total = feasible.len();
        let mut list: Vec<Vec<String>> = Vec::new();
        if n == 0 {
            list.push(Vec::new());
            proof {
                assert(list.deep_view()[0] =~= Seq::<Seq<char>>::empty());
                assert(list.deep_view() =~= seq![Seq::<Seq<char>>::empty()]);
            }
            return list;
        }
        if total < n {
            proof {
                assert(list.deep_view() =~= Seq::<Seq<Seq<char>>>::empty());
            }
            return list;
        }
        let ghost near = windows(names, n as nat);
        let mut start: usize = 0;
        while start < total - n + 1 && list.len() < max_candidates
            invariant
                0 < n <= total,
                total == feasible.len(),
                names == feasible.deep_view(),
                near == windows(names, n as nat),
                start <= total - n + 1,
                list.len() == start,
                start <= max_candidates,
                forall|k: int| 0 <= k < start ==> #[trigger] list[k].deep_view() == near[k],
            decreases total - n + 1 - start,
        {
            list.push(copy_range(feasible, start, n));
            start += 1;
        }
        let ghost stride_nat = names.len() / (n as nat);
        let ghost far = spread_until(names, n as nat, stride_nat as int);
        let ghost all = near + far;
        if list.len() < max_candidates {
            proof {
                assert(list.deep_view() =~= near);
                assert(near + spread_until(names, n as nat, 1) =~= near);
            }
            let stride: usize = total / n;
            let mut offset: usize = 1;
            while offset < stride && list.len() < max_candidates
                invariant
                    0 < n <= total,
                    total == feasible.len(),
                    names == feasible.deep_view(),
                    near == windows(names, n as nat),
                    stride == names.len() / (n as nat),
                    offset >= 1,
                    offset == 1 || offset <= stride,
                    list.len() <= max_candidates,
                    list.deep_view() == near + spread_until(names, n as nat, offset as int),
                decreases stride - offset,
            {
                let group = copy_strided(feasible, n, stride, offset);
                let ghost before = spread_until(names, n as nat, offset as int);
                let ghost listed = list.deep_view();
                let ghost group_view = group.deep_view();
                if !has_duplicates(&group) {
                    list.push(group);
                    proof {
                        assert(list.deep_view() =~= listed.push(group_view));
                        assert(near + before.push(group_view) =~= (near + before).push(
                            group_view,
                        ));
                    }
                }
                offset += 1;
            }
            proof {
                lemma_spread_prefix(names, n as nat, offset as int, stride as int);
                if offset < stride {
                    let so_far = near + spread_until(names, n as nat, offset as int);
                    assert(so_far =~= all.take(max_candidates as int));
                    if all.len() <= max_candidates {
                        assert(all.take(max_candidates as int) =~= all);
                    }
                } else {
                    lemma_spread_bound(names, n as nat, offset as int, stride as int);
                }
            }
        } else {
            proof {
                assert(list.deep_view() =~= all.take(max_candidates as int));
                if all.len() <= max_candidates {
                    assert(all.take(max_candidates as int) =~= all);
                }
            }
        }
        list
    }

    /// Attempt to find a placement for a job requiring `node_count` nodes, each with
    /// the given resources left.
    ///
    /// Without `topology` the first nodes that can take the job are taken. With it,
    /// up to [`MAX_CANDIDATES`] combinations of them are scored, and the best one
    /// that meets the constraints is taken; of equally good ones, the last.
    pub fn schedule(
        cluster: &ClusterState,
        job_name: &str,
        node_count: u32,
        cpu_per_node_millis: u64,
        memory_per_node_bytes: u64,
        gpus_per_node: u32,
        topology: Option<&TopologySpec>,
    ) -> (r: Result<Placement, BuboError>)
        ensures
            ({
                let feasible = cluster@.feasible(
                    Amounts {
                        cpu: cpu_per_node_millis as nat,
                        memory: memory_per_node_bytes as nat,
                        gpus: gpus_per_node as nat,
                    },
                );
                match r {
                    Ok(p) => placed(cluster@.nodes, feasible, node_count as nat, topology, p),
                    Err(e) => match e@ {
                        ErrorView::NoFeasiblePlacement { job_name: name, reason } => name
                            == job_name@ && refused(
                            cluster@.nodes,
                            feasible,
                            node_count as nat,
                            topology,
                            reason,
                        ),
                        _ => false,
                    },
                }
            }),
    {
        let feasible = GangScheduler::feasible_nodes(
            cluster,
            cpu_per_node_millis,
            memory_per_node_bytes,
            gpus_per_node,
        );
        let ghost names = feasible.deep_view();
        let ghost nodes = cluster@.nodes;
        if (feasible.len() as u64) < node_count as u64 {
            let mut reason = "need ".to_owned();
            reason.append(decimal(node_count as u64).as_str());
            reason.append(" nodes, only ");
            reason.append(decimal(feasible.len() as u64).as_str());
            reason.append(" feasible");
            return Err(
                BuboError::NoFeasiblePlacement { job_name: job_name.to_owned(), reason },
            );
        }
        let n: usize = node_count as usize;
        let spec = match topology {
            Some(spec) => spec,
            None => {
                let selected = copy_range(&feasible, 0, n);
                proof {
                    assert(names.subrange(0, n as int) =~= names.take(n as int));
                }
                return Ok(
                    Placement { nodes: selected, score: PlacementScore { points: 1, out_of: 1 } },
                );
            },
        };
        let scorer = TopologyScorer::new(cluster.nodes.as_slice());
        proof {
            assert(scorer@ =~= nodes);
        }
        let list = GangScheduler::generate_candidates(&feasible, n, MAX_CANDIDATES);
        let ghost views = list.deep_view();
        let ghost key = spec.topology_key.deep_view();
        let mut best: Option<usize> = None;
        let mut best_points: u128 = 0;
        let mut i: usize = 0;
        while i < list.len()
            invariant
                i <= list.len(),
                views == list.deep_view(),
                scorer@ == nodes,
                key == spec.topology_key.deep_view(),
                match best {
                    Some(b) => b < i && is_choice(nodes, views.take(i as int), *spec, b as int)
                        && best_points == points(nodes, views[b as int], key),
                    None => forall|k: int|
                        0 <= k < i ==> !satisfies(nodes, #[trigger] views[k], *spec),
                },
            decreases list.len() - i,
        {
            let names_slice = list[i].as_slice();
            proof {
                assert(names_slice.deep_view() =~= views[i as int]);
                assert(views.take(i + 1) =~= views.take(i as int).push(views[i as int]));
            }
            if scorer.check_constraints(names_slice, spec) {
                let score = scorer.score(names_slice, Some(spec));
                let better = match best {
                    Some(_) => score.points >= best_points,
                    None => true,
                };
                if better {
                    best = Some(i);
                    best_points = score.points;
                }
            }
            proof {
                assert(forall|k: int| 0 <= k < i ==> views.take(i + 1)[k] == #[trigger] views[k]);
                assert(forall|k: int|
                    0 <= k < i ==> views.take(i + 1)[k] == #[trigger] views.take(i as int)[k]);
            }
            i += 1;
        }
        match best {
            Some(b) => {
                proof {
                    assert(views.take(views.len() as int) =~= views);
                }
                let nodes_slice = list[b].as_slice();
                proof {
                    assert(nodes_slice.deep_view() =~= views[b as int]);
                }
                let score = scorer.score(nodes_slice, Some(spec));
                let chosen = copy_range(&list[b], 0, list[b].len());
                proof {
                    assert(chosen.deep_view() =~= views[b as int]);
                }
                Ok(Placement { nodes: chosen, score })
            },
            None => Err(
                BuboError::NoFeasiblePlacement {
                    job_name: job_name.to_owned(),
                    reason: "no feasible placement satisfies topology constraints".to_owned(),
                },
            ),
        }
    }
}

/// The groups up to a smaller offset come first.
proof fn lemma_spread_prefix(names: Seq<Seq<char>>, n: nat, a: int, b: int)
    requires
        a <= b || a <= 1,
    ensures
        spread_until(names, n, a).len() <= spread_until(names, n, b).len(),
        spread_until(names, n, a) == spread_until(names, n, b).take(
            spread_until(names, n, a).len() as int,
        ),
    decreases b,
{
    if a <= 1 {
        assert(spread_until(names, n, a) =~= spread_until(names, n, b).take(0));
    } else if a == b {
        assert(spread_until(names, n, a) =~= spread_until(names, n, b).take(
            spread_until(names, n, a).len() as int,
        ));
    } else {
        lemma_spread_prefix(names, n, a, b - 1);
        let small = spread_until(names, n, a);
        assert(spread_until(names, n, b).take(small.len() as int) =~= spread_until(
            names,
            n,
            b - 1,
        ).take(small.len() as int));
    }
}

/// At an end beyond the stride there is nothing more.
proof fn lemma_spread_bound(names: Seq<Seq<char>>, n: nat, offset: int, stride: int)
    requires
        offset == 1 || offset <= stride,
        offset >= stride,
    ensures
        spread_until(names, n, offset) == spread_until(names, n, stride),
{
}

/// Whether `group` is made of `n` names that stand at different positions of `names`.
pub open spec fn drawn_from(group: Seq<Seq<char>>, names: Seq<Seq<char>>, n: nat) -> bool {
    &&& group.len() == n
    &&& forall|i: int| 0 <= i < n ==> names.contains(#[trigger] group[i])
    &&& names.no_duplicates() ==> group.no_duplicates()
}

proof fn lemma_window_drawn(names: Seq<Seq<char>>, n: nat, start: int)
    requires
        0 <= start,
        start + n <= names.len(),
    ensures
        drawn_from(names.subrange(start, start + n), names, n),
{
    let group = names.subrange(start, start + n);
    assert forall|i: int| 0 <= i < n implies names.contains(#[trigger] group[i]) by {
        assert(names[start + i] == group[i]);
    }
    if names.no_duplicates() {
        assert forall|a: int, b: int|
            0 <= a < n && 0 <= b < n && a != b implies group[a] != group[b] by {
            assert(names[start + a] != names[start + b]);
        }
    }
}

proof fn lemma_spread_drawn(names: Seq<Seq<char>>, n: nat, end: int)
    requires
        0 < n <= names.len(),
        end <= names.len() / n,
    ensures
        forall|k: int|
            0 <= k < spread_until(names, n, end).len() ==> drawn_from(
                #[trigger] spread_until(names, n, end)[k],
                names,
                n,
            ),
    decreases end,
{
    if end > 1 {
        lemma_spread_drawn(names, n, end - 1);
        let stride = names.len() / n;
        let group = strided(names, n, stride, end - 1);
        if group.no_duplicates() {
            assert forall|i: int| 0 <= i < n implies names.contains(#[trigger] group[i]) by {
                lemma_stride(names.len() as int, n as int, stride as int, end - 1, i);
                assert(names[end - 1 + i * stride] == group[i]);
            }
            assert(drawn_from(group, names, n));
        }
        let before = spread_until(names, n, end - 1);
        let all = spread_until(names, n, end);
        assert forall|k: int| 0 <= k < all.len() implies drawn_from(
            #[trigger] all[k],
            names,
            n,
        ) by {
            if k < before.len() {
                assert(drawn_from(before[k], names, n));
            }
        }
    }
}

/// Each candidate has as many nodes as were asked for, all of them feasible, and
/// none twice where the feasible nodes have different names.
pub proof fn law_candidates_are_feasible(names: Seq<Seq<char>>, n: nat, max: nat, k: int)
    requires
        0 <= k < candidates(names, n, max).len(),
    ensures
        drawn_from(candidates(names, n, max)[k], names, n),
{
    if n > 0 {
        let near = windows(names, n);
        let far = spread_until(names, n, (names.len() / n) as int);
        let all = near + far;
        lemma_spread_drawn(names, n, (names.len() / n) as int);
        assert(candidates(names, n, max)[k] == all[k]);
        if k < near.len() {
            lemma_window_drawn(names, n, k);
        } else {
            assert(all[k] == far[k - near.len()]);
        }
    }
}

/// All or nothing: a placement has exactly the number of nodes that the job needs,
/// and each of them had the demanded resources left.
pub proof fn law_placement_is_complete(
    cluster: ClusterView,
    demand: Amounts,
    n: nat,
    topology: Option<&TopologySpec>,
    p: Placement,
)
    requires
        placed(cluster.nodes, cluster.feasible(demand), n, topology, p),
    ensures
        drawn_from(p.nodes.deep_view(), cluster.feasible(demand), n),
        forall|i: int|
            0 <= i < n ==> exists|j: int|
                0 <= j < cluster.nodes.len() && (#[trigger] cluster.nodes[j]).name
                    == #[trigger] p.nodes.deep_view()[i] && cluster.can_take(
                    cluster.nodes[j],
                    demand,
                ),
{
    let feasible = cluster.feasible(demand);
    let chosen = p.nodes.deep_view();
    match topology {
        None => {
            assert(feasible.subrange(0, 0int + n) =~= feasible.take(n as int));
            lemma_window_drawn(feasible, n, 0);
        },
        Some(spec) => {
            let list = candidates(feasible, n, MAX_CANDIDATES as nat);
            let b = choose|b: int|
                #![trigger list[b]]
                is_choice(cluster.nodes, list, *spec, b) && chosen == list[b];
            law_candidates_are_feasible(feasible, n, MAX_CANDIDATES as nat, b);
        },
    }
    assert forall|i: int| 0 <= i < n implies exists|j: int|
        0 <= j < cluster.nodes.len() && (#[trigger] cluster.nodes[j]).name
            == #[trigger] chosen[i] && cluster.can_take(cluster.nodes[j], demand) by {
        law_feasible_nodes_can_take(cluster, cluster.nodes, demand, chosen[i]);
    }
}

/// The feasible names are exactly the names of the nodes that have the demand left.
pub proof fn law_feasible_nodes_can_take(
    cluster: ClusterView,
    nodes: Seq<NodeView>,
    demand: Amounts,
    name: Seq<char>,
)
    ensures
        feasible_among(cluster, nodes, demand).contains(name) <==> exists|j: int|
            0 <= j < nodes.len() && (#[trigger] nodes[j]).name == name && cluster.can_take(
                nodes[j],
                demand,
            ),
    decreases nodes.len(),
{
    if nodes.len() > 0 {
        let rest = nodes.drop_last();
        law_feasible_nodes_can_take(cluster, rest, demand, name);
        let before = feasible_among(cluster, rest, demand);
        let all = feasible_among(cluster, nodes, demand);
        let last = nodes.len() - 1;
        if all.contains(name) {
            let k = all.index_of(name);
            if k < before.len() {
                assert(before.contains(before[k]));
                let j = choose|j: int|
                    0 <= j < rest.len() && (#[trigger] rest[j]).name == name && cluster.can_take(
                        rest[j],
                        demand,
                    );
                assert(nodes[j] == rest[j]);
            } else {
                assert(nodes[last].name == name);
            }
        }
        if exists|j: int|
            0 <= j < nodes.len() && (#[trigger] nodes[j]).name == name && cluster.can_take(
                nodes[j],
                demand,
            ) {
            let j = choose|j: int|
                0 <= j < nodes.len() && (#[trigger] nodes[j]).name == name && cluster.can_take(
                    nodes[j],
                    demand,
                );
            if j < last {
                assert(rest[j] == nodes[j]);
                let k = before.index_of(name);
                assert(all[k] == name);
            } else {
                assert(all[before.len() as int] == name);
            }
        }
    }
}

/// A placement made for a topology meets its constraints, and no candidate that
/// meets them scores higher.
pub proof fn law_placement_meets_constraints(
    nodes: Seq<NodeView>,
    feasible: Seq<Seq<char>>,
    n: nat,
    spec: &TopologySpec,
    p: Placement,
    k: int,
)
    requires
        placed(nodes, feasible, n, Some(spec), p),
        0 <= k < candidates(feasible, n, MAX_CANDIDATES as nat).len(),
        satisfies(nodes, candidates(feasible, n, MAX_CANDIDATES as nat)[k], *spec),
    ensures
        satisfies(nodes, p.nodes.deep_view(), *spec),
        points(
            nodes,
            candidates(feasible, n, MAX_CANDIDATES as nat)[k],
            spec.topology_key.deep_view(),
        ) <= p.score.points,
{
}

} // verus!
