//! Network proximity of the nodes of a placement.

use vstd::prelude::*;
use vstd::slice::*;
use vstd::string::*;
use crate::model::crd::TopologySpec;
use crate::model::types::{NodeResources, NodeView};
use crate::text::str_eq;

verus! {

/// The last node with the name `name`.
pub open spec fn last_named(nodes: Seq<NodeView>, name: Seq<char>) -> Option<NodeView>
    decreases nodes.len(),
{
    if nodes.len() == 0 {
        None
    } else if nodes.last().name == name {
        Some(nodes.last())
    } else {
        last_named(nodes.drop_last(), name)
    }
}

/// Switch group of the node with the name `name`.
pub open spec fn switch_of(nodes: Seq<NodeView>, name: Seq<char>) -> Option<Seq<char>> {
    match last_named(nodes, name) {
        Some(node) => node.switch_group,
        None => None,
    }
}

/// Rack of the node with the name `name`.
pub open spec fn rack_of(nodes: Seq<NodeView>, name: Seq<char>) -> Option<Seq<char>> {
    match last_named(nodes, name) {
        Some(node) => node.rack,
        None => None,
    }
}

/// Switch group of a node by name, or else the value of its label `key`.
pub open spec fn switch_or_label(
    nodes: Seq<NodeView>,
    name: Seq<char>,
    key: Option<Seq<char>>,
) -> Option<Seq<char>> {
    match last_named(nodes, name) {
        Some(node) => if node.switch_group is Some {
            node.switch_group
        } else if key is Some && node.labels.dom().contains(key->0) {
            Some(node.labels[key->0])
        } else {
            None
        },
        None => None,
    }
}

/// Network hops between two nodes: 1 under the same switch, 2 in the same rack, else
/// 3, also where nothing is known of one of them.
pub open spec fn hops(nodes: Seq<NodeView>, a: Seq<char>, b: Seq<char>) -> nat {
    if switch_of(nodes, a) is Some && switch_of(nodes, a) == switch_of(nodes, b) {
        1
    } else if rack_of(nodes, a) is Some && rack_of(nodes, a) == rack_of(nodes, b) {
        2
    } else {
        3
    }
}

/// Whether all pairs of nodes are within `max` hops of each other.
pub open spec fn within_hops(nodes: Seq<NodeView>, names: Seq<Seq<char>>, max: nat) -> bool {
    forall|i: int, j: int|
        0 <= i < j < names.len() ==> hops(nodes, #[trigger] names[i], #[trigger] names[j]) <= max
}

/// Whether all nodes are under one switch. With no nodes it holds.
pub open spec fn share_switch(nodes: Seq<NodeView>, names: Seq<Seq<char>>) -> bool {
    names.len() > 0 ==> switch_of(nodes, names[0]) is Some && forall|i: int|
        0 <= i < names.len() ==> switch_of(nodes, #[trigger] names[i]) == switch_of(
            nodes,
            names[0],
        )
}

/// Whether a set of nodes meets the demands of `spec`.
pub open spec fn satisfies(
    nodes: Seq<NodeView>,
    names: Seq<Seq<char>>,
    spec: TopologySpec,
) -> bool {
    &&& spec.max_hops is Some ==> within_hops(nodes, names, spec.max_hops->0 as nat)
    &&& spec.prefer_same_switch ==> share_switch(nodes, names)
}

/// How many of `groups` are the group `g`.
pub open spec fn group_size(groups: Seq<Option<Seq<char>>>, g: Seq<char>) -> nat
    decreases groups.len(),
{
    if groups.len() == 0 {
        0
    } else {
        group_size(groups.drop_last(), g) + if groups.last() == Some(g) {
            1nat
        } else {
            0nat
        }
    }
}

/// Size of the largest group that the first `n` of `groups` name.
pub open spec fn largest_named(groups: Seq<Option<Seq<char>>>, n: nat) -> nat
    decreases n,
{
    if n == 0 {
        0
    } else {
        let before = largest_named(groups, (n - 1) as nat);
        match groups[n - 1] {
            Some(g) => if group_size(groups, g) > before {
                group_size(groups, g)
            } else {
                before
            },
            None => before,
        }
    }
}

/// Size of the largest group.
pub open spec fn largest_group(groups: Seq<Option<Seq<char>>>) -> nat {
    largest_named(groups, groups.len())
}

/// The switch groups of nodes, where known.
pub open spec fn switch_groups(
    nodes: Seq<NodeView>,
    names: Seq<Seq<char>>,
    key: Option<Seq<char>>,
) -> Seq<Option<Seq<char>>> {
    Seq::new(names.len(), |i: int| switch_or_label(nodes, names[i], key))
}

/// The racks of nodes, where known.
pub open spec fn rack_groups(nodes: Seq<NodeView>, names: Seq<Seq<char>>) -> Seq<
    Option<Seq<char>>,
> {
    Seq::new(names.len(), |i: int| rack_of(nodes, names[i]))
}

/// Label key of a topology specification.
pub open spec fn key_of(spec: Option<&TopologySpec>) -> Option<Seq<char>> {
    match spec {
        Some(t) => t.topology_key.deep_view(),
        None => None,
    }
}

/// Points of a placement: the largest switch group counts seven for each of its
/// nodes, the largest rack three.
pub open spec fn points(
    nodes: Seq<NodeView>,
    names: Seq<Seq<char>>,
    key: Option<Seq<char>>,
) -> nat {
    7 * largest_group(switch_groups(nodes, names, key)) + 3 * largest_group(
        rack_groups(nodes, names),
    )
}

/// Score of a placement, as a fraction: `points` out of `out_of`.
#[derive(Clone, Copy, Debug, PartialEq, Eq, Structural)]
pub struct PlacementScore {
    pub points: u128,
    pub out_of: u128,
}

/// Scores candidate placements by network proximity.
pub struct TopologyScorer<'a> {
    nodes: &'a [NodeResources],
}

impl<'a> View for TopologyScorer<'a> {
    type V = Seq<NodeView>;

    closed spec fn view(&self) -> Seq<NodeView> {
        self.nodes.deep_view()
    }
}

/// Number of entries of `groups` that are the group `g`.
fn count_group(groups: &Vec<Option<&String>>, g: &str) -> (r: usize)
    ensures
        r == group_size(groups.deep_view(), g@),
        r <= groups.len(),
{
    let mut r: usize = 0;
    let mut i: usize = 0;
    let ghost all = groups.deep_view();
    while i < groups.len()
        invariant
            i <= groups.len(),
            all == groups.deep_view(),
            r <= i,
            r == group_size(all.take(i as int), g@),
        decreases groups.len() - i,
    {
        proof {
            assert(all.take(i + 1).drop_last() =~= all.take(i as int));
            assert(all.take(i + 1).last() == groups[i as int].deep_view());
        }
        match groups[i] {
            Some(other) => {
                if str_eq(other.as_str(), g) {
                    r += 1;
                }
            },
            None => {},
        }
        i += 1;
    }
    proof {
        assert(all.take(all.len() as int) =~= all);
    }
    r
}

/// Size of the largest group in `groups`.
fn largest_count(groups: &Vec<Option<&String>>) -> (r: usize)
    ensures
        r == largest_group(groups.deep_view()),
        r <= groups.len(),
{
    let mut r: usize = 0;
    let mut i: usize = 0;
    let ghost all = groups.deep_view();
    while i < groups.len()
        invariant
            i <= groups.len(),
            all == groups.deep_view(),
            r <= groups.len(),
            r == largest_named(all, i as nat),
        decreases groups.len() - i,
    {
        proof {
            assert(all[i as int] == groups[i as int].deep_view());
        }
        match groups[i] {
            Some(g) => {
                let size = count_group(groups, g.as_str());
                if size > r {
                    r = size;
                }
            },
            None => {},
        }
        i += 1;
    }
    r
}

fn same_text(a: &Option<String>, b: &Option<String>) -> (r: bool)
    ensures
        r == (a.deep_view() is Some && a.deep_view() == b.deep_view()),
{
    match (a, b) {
        (Some(x), Some(y)) => str_eq(x.as_str(), y.as_str()),
        _ => false,
    }
}

impl<'a> TopologyScorer<'a> {
    /// A scorer over the nodes of a cluster. Where two share a name, the later one
    /// counts.
    pub fn new(nodes: &'a [NodeResources]) -> (r: Self)
        ensures
            r@ == nodes.deep_view(),
    {
        TopologyScorer { nodes }
    }

    fn node(&self, name: &str) -> (r: Option<&'a NodeResources>)
        ensures
            r.deep_view() == last_named(self@, name@),
    {
        let mut i: usize = self.nodes.len();
        let ghost all = self@;
        proof {
            assert(all.take(i as int) =~= all);
        }
        while i > 0
            invariant
                i <= self.nodes@.len(),
                all == self.nodes.deep_view(),
                last_named(all, name@) == last_named(all.take(i as int), name@),
            decreases i,
        {
            i -= 1;
            proof {
                assert(all.take(i + 1).drop_last() =~= all.take(i as int));
                assert(all.take(i + 1).last() == self.nodes@[i as int].deep_view());
            }
            if str_eq(self.nodes[i].name.as_str(), name) {
                return Some(&self.nodes[i]);
            }
        }
        None
    }

    /// Score of a set of nodes, between 0 and 1: seven tenths for the share of the
    /// nodes in the largest switch group, three tenths for the share in the largest
    /// rack. A node without a switch group counts to the group that its label
    /// `topology_key` names. Without nodes the score is 0.
    pub fn score(
        &self,
        node_names: &[String],
        topology_spec: Option<&TopologySpec>,
    ) -> (r: PlacementScore)
        ensures
            r.points == points(self@, node_names.deep_view(), key_of(topology_spec)),
            r.out_of == (if node_names@.len() == 0 {
                1nat
            } else {
                10 * node_names@.len()
            }),
    {
        let total = node_names.len();
        let ghost names = node_names.deep_view();
        let key: Option<&String> = match topology_spec {
            Some(t) => t.topology_key.as_ref(),
            None => None,
        };
        let ghost key_text = key_of(topology_spec);
        let mut switches: Vec<Option<&String>> = Vec::new();
        let mut racks: Vec<Option<&String>> = Vec::new();
        let mut i: usize = 0;
        while i < total
            invariant
                i <= total,
                total == node_names@.len(),
                names == node_names.deep_view(),
                key.deep_view() == key_text,
                switches.len() == i,
                racks.len() == i,
                forall|k: int|
                    0 <= k < i ==> #[trigger] switches[k].deep_view() == switch_or_label(
                        self@,
                        names[k],
                        key_text,
                    ),
                forall|k: int|
                    0 <= k < i ==> #[trigger] racks[k].deep_view() == rack_of(self@, names[k]),
            decreases total - i,
        {
            let mut switch: Option<&String> = None;
            let mut rack: Option<&String> = None;
            match self.node(node_names[i].as_str()) {
                Some(node) => {
                    switch = node.switch_group.as_ref();
                    if switch.is_none() {
                        switch = match key {
                            Some(k) => node.labels.get(k.as_str()),
                            None => None,
                        };
                    }
                    rack = node.rack.as_ref();
                },
                None => {},
            }
            switches.push(switch);
            racks.push(rack);
            i += 1;
        }
        proof {
            assert(switches.deep_view() =~= switch_groups(self@, names, key_text));
            assert(racks.deep_view() =~= rack_groups(self@, names));
        }
        let switch = largest_count(&switches);
        let rack = largest_count(&racks);
        if total == 0 {
            return PlacementScore { points: 0, out_of: 1 };
        }
        PlacementScore {
            points: 7 * switch as u128 + 3 * rack as u128,
            out_of: 10 * total as u128,
        }
    }

    /// Network hops between two nodes.
    pub fn hops_between(&self, a: &str, b: &str) -> (r: u32)
        ensures
            r == hops(self@, a@, b@),
    {
        match (self.node(a), self.node(b)) {
            (Some(x), Some(y)) => {
                if same_text(&x.switch_group, &y.switch_group) {
                    return 1;
                }
                if same_text(&x.rack, &y.rack) {
                    2
                } else {
                    3
                }
            },
            _ => 3,
        }
    }

    /// Check that all pairs of nodes are within `max_hops` of each other.
    pub fn check_max_hops(&self, node_names: &[String], max_hops: u32) -> (r: bool)
        ensures
            r == within_hops(self@, node_names.deep_view(), max_hops as nat),
    {
        let ghost names = node_names.deep_view();
        let n = node_names.len();
        let mut i: usize = 0;
        while i < n
            invariant
                i <= n,
                n == node_names@.len(),
                names == node_names.deep_view(),
                forall|a: int, b: int|
                    0 <= a < i && a < b < n ==> hops(
                        self@,
                        #[trigger] names[a],
                        #[trigger] names[b],
                    ) <= max_hops,
            decreases n - i,
        {
            let mut j: usize = i + 1;
            while j < n
                invariant
                    i < j <= n,
                    n == node_names@.len(),
                    names == node_names.deep_view(),
                    forall|a: int, b: int|
                        0 <= a < i && a < b < n ==> hops(
                            self@,
                            #[trigger] names[a],
                            #[trigger] names[b],
                        ) <= max_hops,
                    forall|b: int|
                        i < b < j ==> hops(self@, names[i as int], #[trigger] names[b])
                            <= max_hops,
                decreases n - j,
            {
                if self.hops_between(node_names[i].as_str(), node_names[j].as_str()) > max_hops {
                    proof {
                        assert(hops(self@, names[i as int], names[j as int]) > max_hops);
                    }
                    return false;
                }
                j += 1;
            }
            i += 1;
        }
        true
    }

    /// Check that all nodes are under the same switch.
    pub fn check_prefer_same_switch(&self, node_names: &[String]) -> (r: bool)
        ensures
            r == share_switch(self@, node_names.deep_view()),
    {
        let ghost names = node_names.deep_view();
        let n = node_names.len();
        if n == 0 {
            return true;
        }
        let reference = match self.node(node_names[0].as_str()) {
            Some(node) => match &node.switch_group {
                Some(s) => s,
                None => {
                    return false;
                },
            },
            None => {
                return false;
            },
        };
        let mut i: usize = 0;
        while i < n
            invariant
                i <= n,
                n == node_names@.len(),
                names == node_names.deep_view(),
                switch_of(self@, names[0]) == Some(reference@),
                forall|k: int|
                    0 <= k < i ==> switch_of(self@, #[trigger] names[k]) == Some(reference@),
            decreases n - i,
        {
            let same = match self.node(node_names[i].as_str()) {
                Some(node) => match &node.switch_group {
                    Some(s) => str_eq(s.as_str(), reference.as_str()),
                    None => false,
                },
                None => false,
            };
            if !same {
                proof {
                    assert(switch_of(self@, names[i as int]) != Some(reference@));
                }
                return false;
            }
            i += 1;
        }
        true
    }

    /// Check whether a candidate placement satisfies all constraints in `spec`.
    pub fn check_constraints(&self, node_names: &[String], spec: &TopologySpec) -> (r: bool)
        ensures
            r == satisfies(self@, node_names.deep_view(), *spec),
    {
        match spec.max_hops {
            Some(max_hops) => {
                if !self.check_max_hops(node_names, max_hops) {
                    return false;
                }
            },
            None => {},
        }
        !spec.prefer_same_switch || self.check_prefer_same_switch(node_names)
    }
}

/// Hops are the same in both directions, at least 1 and at most 3.
pub proof fn law_hops_are_symmetric(nodes: Seq<NodeView>, a: Seq<char>, b: Seq<char>)
    ensures
        hops(nodes, a, b) == hops(nodes, b, a),
        1 <= hops(nodes, a, b) <= 3,
{
}

/// A looser bound on hops admits whatever a tighter one admits, and a bound of 3
/// admits every set of nodes.
pub proof fn law_hop_bounds(nodes: Seq<NodeView>, names: Seq<Seq<char>>, max: nat, more: nat)
    requires
        max <= more,
    ensures
        within_hops(nodes, names, max) ==> within_hops(nodes, names, more),
        within_hops(nodes, names, 3),
{
}

/// Nodes under one switch are one hop apart.
pub proof fn law_shared_switch_is_one_hop(nodes: Seq<NodeView>, names: Seq<Seq<char>>)
    requires
        share_switch(nodes, names),
    ensures
        within_hops(nodes, names, 1),
{
}

proof fn lemma_group_size(groups: Seq<Option<Seq<char>>>, g: Seq<char>)
    ensures
        group_size(groups, g) <= groups.len(),
        group_size(groups, g) == groups.len() <==> forall|i: int|
            0 <= i < groups.len() ==> #[trigger] groups[i] == Some(g),
        group_size(groups, g) == 0 <==> forall|i: int|
            0 <= i < groups.len() ==> #[trigger] groups[i] != Some(g),
    decreases groups.len(),
{
    if groups.len() > 0 {
        let rest = groups.drop_last();
        lemma_group_size(rest, g);
        assert(groups =~= rest.push(groups.last()));
        if group_size(groups, g) == groups.len() {
            assert forall|i: int| 0 <= i < groups.len() implies #[trigger] groups[i] == Some(g) by {
                if i < rest.len() {
                    assert(rest[i] == Some(g));
                }
            }
        }
        if forall|i: int| 0 <= i < groups.len() ==> #[trigger] groups[i] == Some(g) {
            assert forall|i: int| 0 <= i < rest.len() implies #[trigger] rest[i] == Some(g) by {
                assert(groups[i] == Some(g));
            }
            assert(groups[groups.len() - 1] == Some(g));
        }
        if group_size(groups, g) == 0 {
            assert forall|i: int| 0 <= i < groups.len() implies #[trigger] groups[i] != Some(g) by {
                if i < rest.len() {
                    assert(rest[i] != Some(g));
                }
            }
        }
        if forall|i: int| 0 <= i < groups.len() ==> #[trigger] groups[i] != Some(g) {
            assert forall|i: int| 0 <= i < rest.len() implies #[trigger] rest[i] != Some(g) by {
                assert(groups[i] != Some(g));
            }
            assert(groups[groups.len() - 1] != Some(g));
        }
    }
}

proof fn lemma_largest_named(groups: Seq<Option<Seq<char>>>, n: nat)
    requires
        n <= groups.len(),
    ensures
        largest_named(groups, n) <= groups.len(),
        forall|i: int|
            0 <= i < n && (#[trigger] groups[i]) is Some ==> group_size(groups, groups[i]->0)
                <= largest_named(groups, n),
        largest_named(groups, n) == 0 || exists|i: int|
            0 <= i < n && (#[trigger] groups[i]) is Some && group_size(groups, groups[i]->0)
                == largest_named(groups, n),
    decreases n,
{
    if n > 0 {
        lemma_largest_named(groups, (n - 1) as nat);
        if groups[n - 1] is Some {
            lemma_group_size(groups, groups[n - 1]->0);
        }
        if largest_named(groups, n) != 0 && largest_named(groups, n) == largest_named(
            groups,
            (n - 1) as nat,
        ) {
            let i = choose|i: int|
                0 <= i < n - 1 && (#[trigger] groups[i]) is Some && group_size(groups, groups[i]->0)
                    == largest_named(groups, (n - 1) as nat);
            assert(groups[i] is Some);
        }
    }
}

/// The largest group is a group that occurs, and no group is larger.
pub proof fn law_largest_group(groups: Seq<Option<Seq<char>>>, g: Seq<char>)
    ensures
        group_size(groups, g) <= largest_group(groups) <= groups.len(),
        largest_group(groups) == 0 || exists|h: Seq<char>| #[trigger]
            group_size(groups, h) == largest_group(groups),
{
    lemma_largest_named(groups, groups.len());
    lemma_group_size(groups, g);
    if group_size(groups, g) > 0 {
        let i = choose|i: int| 0 <= i < groups.len() && #[trigger] groups[i] == Some(g);
        assert(groups[i] is Some);
    }
    if largest_group(groups) != 0 {
        let i = choose|i: int|
            0 <= i < groups.len() && (#[trigger] groups[i]) is Some && group_size(
                groups,
                groups[i]->0,
            ) == largest_group(groups);
        assert(group_size(groups, groups[i]->0) == largest_group(groups));
    }
}

/// Whether all entries are one and the same group.
pub open spec fn one_group(groups: Seq<Option<Seq<char>>>) -> bool {
    groups.len() > 0 && groups[0] is Some && forall|i: int|
        0 <= i < groups.len() ==> #[trigger] groups[i] == groups[0]
}

proof fn lemma_one_group(groups: Seq<Option<Seq<char>>>)
    requires
        groups.len() > 0,
    ensures
        largest_group(groups) == groups.len() <==> one_group(groups),
{
    lemma_largest_named(groups, groups.len());
    if largest_group(groups) == groups.len() {
        let i = choose|i: int|
            0 <= i < groups.len() && (#[trigger] groups[i]) is Some && group_size(
                groups,
                groups[i]->0,
            ) == largest_group(groups);
        lemma_group_size(groups, groups[i]->0);
        assert(groups[0] == Some(groups[i]->0));
    }
    if one_group(groups) {
        lemma_group_size(groups, groups[0]->0);
        assert forall|i: int| 0 <= i < groups.len() implies #[trigger] groups[i] == Some(
            groups[0]->0,
        ) by {}
        assert(groups[0] is Some);
    }
}

/// A score lies between 0 and 1. It is 1 exactly when all nodes are in one switch
/// group and one rack, and 0 exactly when nothing is known of where any of them is.
pub proof fn law_score_range(
    nodes: Seq<NodeView>,
    names: Seq<Seq<char>>,
    key: Option<Seq<char>>,
)
    requires
        names.len() > 0,
    ensures
        points(nodes, names, key) <= 10 * names.len(),
        points(nodes, names, key) == 10 * names.len() <==> one_group(
            switch_groups(nodes, names, key),
        ) && one_group(rack_groups(nodes, names)),
        points(nodes, names, key) == 0 <==> forall|i: int|
            0 <= i < names.len() ==> switch_or_label(nodes, #[trigger] names[i], key) is None
                && rack_of(nodes, names[i]) is None,
{
    let switches = switch_groups(nodes, names, key);
    let racks = rack_groups(nodes, names);
    lemma_largest_named(switches, switches.len());
    lemma_largest_named(racks, racks.len());
    lemma_one_group(switches);
    lemma_one_group(racks);
    if points(nodes, names, key) == 0 {
        assert forall|i: int| 0 <= i < names.len() implies switch_or_label(
            nodes,
            #[trigger] names[i],
            key,
        ) is None && rack_of(nodes, names[i]) is None by {
            if switches[i] is Some {
                lemma_group_size(switches, switches[i]->0);
            }
            if racks[i] is Some {
                lemma_group_size(racks, racks[i]->0);
            }
        }
    }
    if forall|i: int|
        0 <= i < names.len() ==> switch_or_label(nodes, #[trigger] names[i], key) is None
            && rack_of(nodes, names[i]) is None {
        assert forall|i: int| 0 <= i < names.len() implies switches[i] is None && racks[i] is None by {
            assert(switch_or_label(nodes, names[i], key) is None);
        }
    }
}

} // verus!
