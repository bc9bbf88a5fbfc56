//! Where nodes are, and how far from each other.

use vstd::prelude::*;
use crate::bubo::node_watcher::{parse_node, NodeReport};
use crate::model::crd::TopologySpec;
use crate::model::types::{NodeResources, NodeView};
use crate::scheduler::topology::{
    group_size, hops, key_of, largest_group, last_named, law_largest_group, points, rack_groups,
    switch_groups, PlacementScore, TopologyScorer,
};

verus! {

/// Whether no two nodes share a name.
pub open spec fn distinct(nodes: Seq<NodeView>) -> bool {
    forall|a: int, b: int|
        0 <= a < b < nodes.len() ==> (#[trigger] nodes[a]).name != (#[trigger] nodes[b]).name
}

/// Whether two nodes are known to be under one switch.
pub open spec fn under_one_switch(a: NodeResources, b: NodeResources) -> bool {
    a.switch_group is Some && b.switch_group is Some && a.switch_group->0@ == b.switch_group->0@
}

/// Whether two nodes are known to stand in one rack.
pub open spec fn in_one_rack(a: NodeResources, b: NodeResources) -> bool {
    a.rack is Some && b.rack is Some && a.rack->0@ == b.rack->0@
}

/// Whether two nodes are near enough for a bound on hops: one hop leads to the same
/// switch, two to the same rack, and three anywhere.
pub open spec fn near(a: NodeResources, b: NodeResources, max_hops: nat) -> bool {
    if max_hops == 0 {
        false
    } else if max_hops == 1 {
        under_one_switch(a, b)
    } else if max_hops == 2 {
        under_one_switch(a, b) || in_one_rack(a, b)
    } else {
        true
    }
}

/// Where names are distinct, a node is found by its name.
pub proof fn lemma_node_by_name(nodes: Seq<NodeView>, i: int)
    requires
        distinct(nodes),
        0 <= i < nodes.len(),
    ensures
        last_named(nodes, nodes[i].name) == Some(nodes[i]),
    decreases nodes.len(),
{
    let last = nodes.len() - 1;
    if i < last {
        let rest = nodes.drop_last();
        assert forall|a: int, b: int| 0 <= a < b < rest.len() implies (#[trigger] rest[a]).name != (
        #[trigger] rest[b]).name by {
            assert(nodes[a].name != nodes[b].name);
        }
        assert(nodes[i].name != nodes[last].name);
        lemma_node_by_name(rest, i);
        assert(rest[i] == nodes[i]);
    }
}

/// The label `key` of a reported node.
pub open spec fn reported_label(node: NodeReport, key: Seq<char>) -> Option<Seq<char>> {
    if node.labels is Some && node.labels->0@.dom().contains(key) {
        Some(node.labels->0@[key])
    } else {
        None
    }
}

/// The rack of a reported node is what its zone label says, and its switch group what
/// its label for that says; a node without the label is in none that is known.
pub proof fn law_location_is_labelled(node: &NodeReport, r: Option<NodeResources>)
    requires
        call_ensures(parse_node, (node,), r),
        r is Some,
    ensures
        r->0.rack is Some <==> reported_label(*node, "topology.kubernetes.io/zone"@) is Some,
        r->0.rack is Some ==> r->0.rack->0@ == reported_label(
            *node,
            "topology.kubernetes.io/zone"@,
        )->0,
        r->0.switch_group is Some <==> reported_label(
            *node,
            "network.bubo.io/switch-group"@,
        ) is Some,
        r->0.switch_group is Some ==> r->0.switch_group->0@ == reported_label(
            *node,
            "network.bubo.io/switch-group"@,
        )->0,
        node.labels is Some ==> r->0.labels@ == node.labels->0@,
        node.labels is None ==> r->0.labels@ == Map::<Seq<char>, Seq<char>>::empty(),
{
    assert(r->0.deep_view().rack == r->0.rack.deep_view());
    assert(r->0.deep_view().switch_group == r->0.switch_group.deep_view());
}

/// Hops between two nodes tell where they are: one exactly under the same switch, at
/// most two exactly under the same switch or in the same rack, and never more than
/// three.
pub proof fn law_hops_tell_proximity(
    nodes: &[NodeResources],
    scorer: &TopologyScorer,
    a: &str,
    b: &str,
    i: int,
    j: int,
    r: u32,
)
    requires
        scorer@ == nodes.deep_view(),
        call_ensures(TopologyScorer::hops_between, (scorer, a, b), r),
        distinct(nodes.deep_view()),
        0 <= i < nodes@.len(),
        0 <= j < nodes@.len(),
        nodes@[i].name@ == a@,
        nodes@[j].name@ == b@,
    ensures
        1 <= r <= 3,
        r == 1 <==> under_one_switch(nodes@[i], nodes@[j]),
        r <= 2 <==> under_one_switch(nodes@[i], nodes@[j]) || in_one_rack(nodes@[i], nodes@[j]),
{
    let views = nodes.deep_view();
    assert(views[i] == nodes@[i].deep_view());
    assert(views[j] == nodes@[j].deep_view());
    lemma_node_by_name(views, i);
    lemma_node_by_name(views, j);
}

/// Of a node of which nothing is known, nothing is near: it counts as three hops away.
pub proof fn law_unknown_nodes_are_far(
    nodes: &[NodeResources],
    scorer: &TopologyScorer,
    a: &str,
    b: &str,
    r: u32,
)
    requires
        scorer@ == nodes.deep_view(),
        call_ensures(TopologyScorer::hops_between, (scorer, a, b), r),
        forall|i: int| 0 <= i < nodes@.len() ==> (#[trigger] nodes@[i]).name@ != a@,
    ensures
        r == 3,
{
    let views = nodes.deep_view();
    assert forall|i: int| 0 <= i < views.len() implies (#[trigger] views[i]).name != a@ by {
        assert(nodes@[i].name@ != a@);
    }
    lemma_no_node(views, a@);
}

proof fn lemma_no_node(nodes: Seq<NodeView>, name: Seq<char>)
    requires
        forall|i: int| 0 <= i < nodes.len() ==> (#[trigger] nodes[i]).name != name,
    ensures
        last_named(nodes, name) is None,
    decreases nodes.len(),
{
    if nodes.len() > 0 {
        assert(nodes[nodes.len() - 1].name != name);
        assert forall|i: int| 0 <= i < nodes.drop_last().len() implies (
        #[trigger] nodes.drop_last()[i]).name != name by {
            assert(nodes[i].name != name);
        }
        lemma_no_node(nodes.drop_last(), name);
    }
}

/// Two nodes that report the same zone are at most two hops apart, and two that report
/// the same switch group are one.
pub proof fn law_reported_zone_brings_near(
    reports: (&NodeReport, &NodeReport),
    nodes: &[NodeResources],
    scorer: &TopologyScorer,
    a: &str,
    b: &str,
    r: u32,
)
    requires
        nodes@.len() == 2,
        call_ensures(parse_node, (reports.0,), Some(nodes@[0])),
        call_ensures(parse_node, (reports.1,), Some(nodes@[1])),
        nodes@[0].name@ != nodes@[1].name@,
        nodes@[0].name@ == a@,
        nodes@[1].name@ == b@,
        scorer@ == nodes.deep_view(),
        call_ensures(TopologyScorer::hops_between, (scorer, a, b), r),
    ensures
        ({
            let zone = "topology.kubernetes.io/zone"@;
            reported_label(*reports.0, zone) is Some && reported_label(*reports.0, zone)
                == reported_label(*reports.1, zone) ==> r <= 2
        }),
        ({
            let group = "network.bubo.io/switch-group"@;
            reported_label(*reports.0, group) is Some && reported_label(*reports.0, group)
                == reported_label(*reports.1, group) <==> r == 1
        }),
{
    law_location_is_labelled(reports.0, Some(nodes@[0]));
    law_location_is_labelled(reports.1, Some(nodes@[1]));
    let views = nodes.deep_view();
    assert(views[0] == nodes@[0].deep_view());
    assert(views[1] == nodes@[1].deep_view());
    assert(distinct(views));
    law_hops_tell_proximity(nodes, scorer, a, b, 0, 1, r);
}

/// A set of nodes meets constraints exactly where any two of them are near enough for the
/// bound on hops, and all are under one switch if that is asked for.
pub proof fn law_constraints_are_about_proximity(
    nodes: &[NodeResources],
    scorer: &TopologyScorer,
    names: &[String],
    spec: &TopologySpec,
    at: Seq<int>,
    r: bool,
)
    requires
        scorer@ == nodes.deep_view(),
        call_ensures(TopologyScorer::check_constraints, (scorer, names, spec), r),
        distinct(nodes.deep_view()),
        at.len() == names@.len(),
        forall|k: int|
            0 <= k < at.len() ==> 0 <= #[trigger] at[k] < nodes@.len() && nodes@[at[k]].name@
                == names@[k]@,
    ensures
        r <==> (spec.max_hops is Some ==> forall|i: int, j: int|
            0 <= i < j < at.len() ==> near(
                nodes@[#[trigger] at[i]],
                nodes@[#[trigger] at[j]],
                spec.max_hops->0 as nat,
            )) && (spec.prefer_same_switch ==> forall|i: int|
            0 <= i < at.len() ==> under_one_switch(nodes@[at[0]], nodes@[#[trigger] at[i]])),
{
    let views = nodes.deep_view();
    let list = names.deep_view();
    assert forall|k: int| 0 <= k < at.len() implies last_named(views, list[k]) == Some(
        nodes@[#[trigger] at[k]].deep_view(),
    ) by {
        assert(views[at[k]] == nodes@[at[k]].deep_view());
        lemma_node_by_name(views, at[k]);
        assert(list[k] == names@[k]@);
    }
    if spec.max_hops is Some {
        let max = spec.max_hops->0 as nat;
        assert forall|i: int, j: int| 0 <= i < j < at.len() implies (hops(
            views,
            #[trigger] list[i],
            #[trigger] list[j],
        ) <= max <==> near(nodes@[at[i]], nodes@[at[j]], max)) by {
            assert(last_named(views, list[i]) == Some(nodes@[at[i]].deep_view()));
            assert(last_named(views, list[j]) == Some(nodes@[at[j]].deep_view()));
        }
        if r {
            assert forall|i: int, j: int| 0 <= i < j < at.len() implies near(
                nodes@[#[trigger] at[i]],
                nodes@[#[trigger] at[j]],
                max,
            ) by {
                assert(hops(views, list[i], list[j]) <= max);
            }
        }
        if forall|i: int, j: int|
            0 <= i < j < at.len() ==> near(nodes@[#[trigger] at[i]], nodes@[#[trigger] at[j]], max) {
            assert forall|i: int, j: int| 0 <= i < j < list.len() implies hops(
                views,
                #[trigger] list[i],
                #[trigger] list[j],
            ) <= max by {
                assert(near(nodes@[at[i]], nodes@[at[j]], max));
            }
        }
    }
    if spec.prefer_same_switch && at.len() > 0 {
        assert(last_named(views, list[0]) == Some(nodes@[at[0]].deep_view()));
        assert forall|i: int| 0 <= i < at.len() implies (crate::scheduler::topology::switch_of(
            views,
            #[trigger] list[i],
        ) == nodes@[at[i]].switch_group.deep_view()) by {
            assert(last_named(views, list[i]) == Some(nodes@[at[i]].deep_view()));
        }
        if r {
            assert forall|i: int| 0 <= i < at.len() implies under_one_switch(
                nodes@[at[0]],
                nodes@[#[trigger] at[i]],
            ) by {
                assert(crate::scheduler::topology::switch_of(views, list[i])
                    == crate::scheduler::topology::switch_of(views, list[0]));
            }
        }
        if forall|i: int|
            0 <= i < at.len() ==> under_one_switch(nodes@[at[0]], nodes@[#[trigger] at[i]]) {
            assert(under_one_switch(nodes@[at[0]], nodes@[at[0]]));
            assert forall|i: int| 0 <= i < list.len() implies
                crate::scheduler::topology::switch_of(views, #[trigger] list[i])
                == crate::scheduler::topology::switch_of(views, list[0]) by {
                assert(under_one_switch(nodes@[at[0]], nodes@[at[i]]));
            }
        }
    }
}

proof fn lemma_members_are_counted(groups: Seq<Option<Seq<char>>>, g: Seq<char>, members: Seq<int>)
    requires
        members.no_duplicates(),
        forall|k: int|
            0 <= k < members.len() ==> 0 <= #[trigger] members[k] < groups.len()
                && groups[members[k]] == Some(g),
    ensures
        members.len() <= group_size(groups, g),
    decreases groups.len(),
{
    if groups.len() == 0 {
        if members.len() > 0 {
            assert(0 <= members[0] < groups.len());
        }
    } else {
        let last = groups.len() - 1;
        let rest = groups.drop_last();
        if members.contains(last) {
            let at = members.index_of(last);
            let fewer = members.remove(at);
            assert forall|k: int| 0 <= k < fewer.len() implies 0 <= #[trigger] fewer[k]
                < rest.len() && rest[fewer[k]] == Some(g) by {
                let b = if k < at {
                    k
                } else {
                    k + 1
                };
                assert(fewer[k] == members[b]);
                assert(members[b] != members[at]);
            }
            lemma_members_are_counted(rest, g, fewer);
            assert(groups[members[at]] == Some(g));
        } else {
            assert forall|k: int| 0 <= k < members.len() implies 0 <= #[trigger] members[k]
                < rest.len() && rest[members[k]] == Some(g) by {
                assert(members.contains(members[k]));
            }
            lemma_members_are_counted(rest, g, members);
        }
    }
}

/// A placement on no nodes has no points.
pub proof fn law_nothing_scores_nothing(
    scorer: &TopologyScorer,
    names: &[String],
    topology: Option<&TopologySpec>,
    r: PlacementScore,
)
    requires
        call_ensures(TopologyScorer::score, (scorer, names, topology), r),
        names@.len() == 0,
    ensures
        r.points == 0,
        r.out_of == 1,
{
    let none = names.deep_view();
    assert(none.len() == 0);
    lemma_no_group(switch_groups(scorer@, none, key_of(topology)));
    lemma_no_group(rack_groups(scorer@, none));
}

/// Sharing a switch counts seven tenths of a score and sharing a rack three: nodes of the
/// placement under one switch bring seven points each, nodes in one rack three, out of
/// ten for each node. Where no rack is known, no more than seven tenths are reached, and
/// where no switch is known, no more than three.
pub proof fn law_score_weighs_switch_over_rack(
    nodes: &[NodeResources],
    scorer: &TopologyScorer,
    names: &[String],
    topology: Option<&TopologySpec>,
    at: Seq<int>,
    members: Seq<int>,
    g: Seq<char>,
    r: PlacementScore,
)
    requires
        scorer@ == nodes.deep_view(),
        call_ensures(TopologyScorer::score, (scorer, names, topology), r),
        distinct(nodes.deep_view()),
        at.len() == names@.len(),
        at.len() > 0,
        forall|k: int|
            0 <= k < at.len() ==> 0 <= #[trigger] at[k] < nodes@.len() && nodes@[at[k]].name@
                == names@[k]@,
        members.no_duplicates(),
        forall|k: int| 0 <= k < members.len() ==> 0 <= #[trigger] members[k] < at.len(),
    ensures
        r.out_of == 10 * names@.len(),
        r.points <= r.out_of,
        (forall|k: int|
            0 <= k < members.len() ==> (#[trigger] nodes@[at[members[k]]]).switch_group is Some
                && nodes@[at[members[k]]].switch_group->0@ == g) ==> r.points >= 7 * members.len(),
        (forall|k: int|
            0 <= k < members.len() ==> (#[trigger] nodes@[at[members[k]]]).rack is Some
                && nodes@[at[members[k]]].rack->0@ == g) ==> r.points >= 3 * members.len(),
        (forall|k: int| 0 <= k < at.len() ==> (#[trigger] nodes@[at[k]]).rack is None) ==> r.points
            <= 7 * names@.len(),
        topology is None && (forall|k: int|
            0 <= k < at.len() ==> (#[trigger] nodes@[at[k]]).switch_group is None) ==> r.points <= 3
            * names@.len(),
        topology is Some && topology->0.topology_key is Some && (forall|k: int|
            0 <= k < members.len() ==> (#[trigger] nodes@[at[members[k]]]).switch_group is None
                && nodes@[at[members[k]]].labels@.dom().contains(topology->0.topology_key->0@)
                && nodes@[at[members[k]]].labels@[topology->0.topology_key->0@] == g) ==> r.points
            >= 7 * members.len(),
{
    let views = nodes.deep_view();
    let list = names.deep_view();
    let key = key_of(topology);
    let switches = switch_groups(views, list, key);
    let racks = rack_groups(views, list);
    assert forall|k: int| 0 <= k < at.len() implies last_named(views, list[k]) == Some(
        (#[trigger] nodes@[at[k]]).deep_view(),
    ) by {
        assert(views[at[k]] == nodes@[at[k]].deep_view());
        lemma_node_by_name(views, at[k]);
        assert(list[k] == names@[k]@);
    }
    law_largest_group(switches, g);
    law_largest_group(racks, g);
    if forall|k: int|
        0 <= k < members.len() ==> (#[trigger] nodes@[at[members[k]]]).switch_group is Some
            && nodes@[at[members[k]]].switch_group->0@ == g {
        assert forall|k: int| 0 <= k < members.len() implies 0 <= #[trigger] members[k]
            < switches.len() && switches[members[k]] == Some(g) by {
            assert(nodes@[at[members[k]]].switch_group is Some);
        }
        lemma_members_are_counted(switches, g, members);
    }
    if forall|k: int|
        0 <= k < members.len() ==> (#[trigger] nodes@[at[members[k]]]).rack is Some
            && nodes@[at[members[k]]].rack->0@ == g {
        assert forall|k: int| 0 <= k < members.len() implies 0 <= #[trigger] members[k]
            < racks.len() && racks[members[k]] == Some(g) by {
            assert(nodes@[at[members[k]]].rack is Some);
        }
        lemma_members_are_counted(racks, g, members);
    }
    if forall|k: int| 0 <= k < at.len() ==> (#[trigger] nodes@[at[k]]).rack is None {
        assert forall|k: int| 0 <= k < racks.len() implies #[trigger] racks[k] is None by {
            assert(nodes@[at[k]].rack is None);
        }
        lemma_no_group(racks);
    }
    if topology is None && forall|k: int|
        0 <= k < at.len() ==> (#[trigger] nodes@[at[k]]).switch_group is None {
        assert forall|k: int| 0 <= k < switches.len() implies #[trigger] switches[k] is None by {
            assert(nodes@[at[k]].switch_group is None);
        }
        lemma_no_group(switches);
    }
    if topology is Some && topology->0.topology_key is Some && forall|k: int|
        0 <= k < members.len() ==> (#[trigger] nodes@[at[members[k]]]).switch_group is None
            && nodes@[at[members[k]]].labels@.dom().contains(topology->0.topology_key->0@)
            && nodes@[at[members[k]]].labels@[topology->0.topology_key->0@] == g {
        assert forall|k: int| 0 <= k < members.len() implies 0 <= #[trigger] members[k]
            < switches.len() && switches[members[k]] == Some(g) by {
            assert(nodes@[at[members[k]]].switch_group is None);
        }
        lemma_members_are_counted(switches, g, members);
    }
}

proof fn lemma_no_group(groups: Seq<Option<Seq<char>>>)
    requires
        forall|k: int| 0 <= k < groups.len() ==> #[trigger] groups[k] is None,
    ensures
        largest_group(groups) == 0,
{
    law_largest_group(groups, Seq::empty());
    if largest_group(groups) != 0 {
        let h = choose|h: Seq<char>| #[trigger] group_size(groups, h) == largest_group(groups);
        lemma_no_member(groups, h);
    }
}

proof fn lemma_no_member(groups: Seq<Option<Seq<char>>>, g: Seq<char>)
    requires
        forall|k: int| 0 <= k < groups.len() ==> #[trigger] groups[k] is None,
    ensures
        group_size(groups, g) == 0,
    decreases groups.len(),
{
    if groups.len() > 0 {
        assert(groups[groups.len() - 1] is None);
        assert forall|k: int| 0 <= k < groups.drop_last().len() implies #[trigger] groups.drop_last()[k] is None by {
            assert(groups[k] is None);
        }
        lemma_no_member(groups.drop_last(), g);
    }
}

/// Constraints are met exactly where the bound on hops is met, if there is one, and one switch
/// is shared, if that is asked for.
pub proof fn law_constraints_combine(
    scorer: &TopologyScorer,
    names: &[String],
    spec: &TopologySpec,
    max_hops: u32,
    r: bool,
    within: bool,
    shared: bool,
)
    requires
        call_ensures(TopologyScorer::check_constraints, (scorer, names, spec), r),
        call_ensures(TopologyScorer::check_max_hops, (scorer, names, max_hops), within),
        call_ensures(TopologyScorer::check_prefer_same_switch, (scorer, names), shared),
        spec.max_hops is Some ==> spec.max_hops->0 == max_hops,
    ensures
        r <==> (spec.max_hops is Some ==> within) && (spec.prefer_same_switch ==> shared),
        names@.len() <= 1 ==> within,
        max_hops >= 3 ==> within,
        shared && max_hops >= 1 ==> within,
{
    let list = names.deep_view();
    assert(list.len() == names@.len());
    crate::scheduler::topology::law_hop_bounds(scorer@, list, 3, if max_hops >= 3 {
        max_hops as nat
    } else {
        3
    });
    if shared {
        crate::scheduler::topology::law_shared_switch_is_one_hop(scorer@, list);
        if max_hops >= 1 {
            crate::scheduler::topology::law_hop_bounds(scorer@, list, 1, max_hops as nat);
        }
    }
}

} // verus!
