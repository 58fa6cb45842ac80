//! What holds of a pipeline after it reads a description: each created node
//! is found under its name, and the setup steps give a node an image only
//! after the node that makes it has run.
use crate::name_index::{assoc_get, lemma_insert_get};
use crate::node_kind::NodeKind;
use crate::rip::pipeline::{SetupStep, WindowEvent, edge_lookup, keeps_running, names_entered, node_steps, runs_after, setup_plan};
use crate::schedule_laws::{connection_ok, parents_before};
use vstd::prelude::*;

verus! {

/// A node is found under its name at its index, unless a later node has the
/// same name (the later one is found then).
pub proof fn lemma_created_node_found(
    map: Seq<(Seq<char>, nat)>,
    nodes: Seq<(Seq<char>, NodeKind)>,
    i: int,
)
    requires
        0 <= i < nodes.len(),
        forall|j: int| i < j < nodes.len() ==> #[trigger] nodes[j].0 != nodes[i].0,
    ensures
        assoc_get(names_entered(map, nodes), nodes[i].0) == Some(i as nat),
    decreases nodes.len(),
{
    let rest = nodes.drop_last();
    lemma_insert_get(names_entered(map, rest), nodes.last().0, (nodes.len() - 1) as nat, nodes[i].0);
    if i < nodes.len() - 1 {
        assert(nodes.last().0 != nodes[i].0);
        assert forall|j: int| i < j < rest.len() implies #[trigger] rest[j].0 != rest[i].0 by {
            assert(rest[j] == nodes[j]);
        }
        lemma_created_node_found(map, rest, i);
    }
}

/// A name that no created node has is found as it was before the nodes were
/// entered.
pub proof fn lemma_other_names_kept(
    map: Seq<(Seq<char>, nat)>,
    nodes: Seq<(Seq<char>, NodeKind)>,
    name: Seq<char>,
)
    requires
        forall|j: int| 0 <= j < nodes.len() ==> #[trigger] nodes[j].0 != name,
    ensures
        assoc_get(names_entered(map, nodes), name) == assoc_get(map, name),
    decreases nodes.len(),
{
    if nodes.len() > 0 {
        let rest = nodes.drop_last();
        lemma_insert_get(names_entered(map, rest), nodes.last().0, (nodes.len() - 1) as nat, name);
        assert(nodes[nodes.len() - 1].0 != name);
        assert forall|j: int| 0 <= j < rest.len() implies #[trigger] rest[j].0 != name by {
            assert(rest[j] == nodes[j]);
        }
        lemma_other_names_kept(map, rest, name);
    }
}

/// After any sequence of window events, a pipeline still runs exactly when
/// it ran before and none of the events was a quit request or a closed
/// window; in particular, once stopped it stays stopped.
pub proof fn lemma_runs_after_events(running: bool, events: Seq<WindowEvent>)
    ensures
        runs_after(running, events) == (running && forall|i: int|
            0 <= i < events.len() ==> #[trigger] events[i] == WindowEvent::Other),
        !running ==> !runs_after(running, events),
    decreases events.len(),
{
    if events.len() > 0 {
        let prev = events.drop_last();
        lemma_runs_after_events(running, prev);
        assert forall|i: int| 0 <= i < prev.len() implies #[trigger] prev[i] == events[i] by {}
        if !(forall|i: int| 0 <= i < events.len() ==> #[trigger] events[i] == WindowEvent::Other) {
            let i = choose|i: int| 0 <= i < events.len() && #[trigger] events[i] != WindowEvent::Other;
            if i < prev.len() {
                assert(prev[i] == events[i]);
            }
        }
    }
}

/// A stopped pipeline stays stopped, whatever event comes.
pub proof fn lemma_stopped_stays_stopped(event: WindowEvent)
    ensures
        !keeps_running(false, event),
{
}

/// The plan of the first `q` nodes of the order, extended by one node.
proof fn lemma_plan_step(order: Seq<u32>, edges: Seq<(u32, Seq<u32>)>, q: int)
    requires
        0 <= q < order.len(),
    ensures
        setup_plan(order.take(q + 1), edges) == setup_plan(order.take(q), edges) + node_steps(
            order[q],
            edges,
        ),
{
    assert(order.take(q + 1).drop_last() =~= order.take(q));
    assert(order.take(q + 1).last() == order[q]);
}

/// The plan of the first `q` nodes runs each of them.
proof fn lemma_plan_runs(order: Seq<u32>, edges: Seq<(u32, Seq<u32>)>, q: int, p: int)
    requires
        0 <= p < q <= order.len(),
    ensures
        exists|j: int|
            0 <= j < setup_plan(order.take(q), edges).len() && #[trigger] setup_plan(
                order.take(q),
                edges,
            )[j] == (SetupStep::Execute { node: order[p] }),
    decreases q,
{
    lemma_plan_step(order, edges, q - 1);
    let prev = setup_plan(order.take(q - 1), edges);
    let ns = node_steps(order[q - 1], edges);
    let plan = setup_plan(order.take(q), edges);
    if p == q - 1 {
        let j = prev.len() + ns.len() - 1;
        assert(plan[j] == ns[ns.len() - 1]);
    } else {
        lemma_plan_runs(order, edges, q - 1, p);
        let j = choose|j: int|
            0 <= j < prev.len() && #[trigger] prev[j] == (SetupStep::Execute { node: order[p] });
        assert(plan[j] == prev[j]);
    }
}

/// The first connection under `key` is one of the connections.
pub proof fn lemma_edge_lookup_found(edges: Seq<(u32, Seq<u32>)>, key: u32)
    ensures
        edge_lookup(edges, key) matches Some(ids) ==> exists|k: int|
            0 <= k < edges.len() && #[trigger] edges[k] == (key, ids),
    decreases edges.len(),
{
    if edges.len() > 0 && edges[0].0 != key {
        lemma_edge_lookup_found(edges.drop_first(), key);
        if let Some(ids) = edge_lookup(edges, key) {
            let k = choose|k: int|
                0 <= k < edges.drop_first().len() && #[trigger] edges.drop_first()[k] == (key, ids);
            assert(edges[k + 1] == (key, ids));
        }
    }
}

/// The schedule conditions under which the setup steps are ready.
pub open spec fn plan_ready(order: Seq<u32>, edges: Seq<(u32, Seq<u32>)>) -> bool {
    &&& order.len() <= u32::MAX
    &&& order.no_duplicates()
    &&& forall|k: int| 0 <= k < edges.len() ==> connection_ok(order, #[trigger] edges[k])
    &&& forall|k: int|
        0 <= k < edges.len() ==> (#[trigger] edges[k]).0 < order.len() && order[edges[k].0 as int]
            == edges[k].0
}

/// Every input step of the plan of the first `q` nodes comes after the step
/// that runs the node whose image it gives.
proof fn lemma_plan_prefix_ready(order: Seq<u32>, edges: Seq<(u32, Seq<u32>)>, q: int)
    requires
        0 <= q <= order.len(),
        plan_ready(order, edges),
    ensures
        ({
            let plan = setup_plan(order.take(q), edges);
            forall|i: int|
                0 <= i < plan.len() && (#[trigger] plan[i] matches SetupStep::Input { image, .. })
                    ==> exists|j: int|
                    0 <= j < i && plan[j] == (SetupStep::Execute { node: plan[i]->image })
        }),
    decreases q,
{
    if q > 0 {
        lemma_plan_prefix_ready(order, edges, q - 1);
        lemma_plan_step(order, edges, q - 1);
        let prev = setup_plan(order.take(q - 1), edges);
        let n = order[q - 1];
        let ns = node_steps(n, edges);
        let plan = setup_plan(order.take(q), edges);
        assert forall|i: int|
            0 <= i < plan.len() && (#[trigger] plan[i] matches SetupStep::Input {
                image,
                ..
            }) implies exists|j: int|
            0 <= j < i && plan[j] == (SetupStep::Execute { node: plan[i]->image }) by {
            if i < prev.len() {
                assert(plan[i] == prev[i]);
                let j = choose|j: int|
                    0 <= j < i && prev[j] == (SetupStep::Execute { node: prev[i]->image });
                assert(plan[j] == prev[j]);
            } else {
                let t = i - prev.len();
                assert(plan[i] == ns[t]);
                lemma_edge_lookup_found(edges, n);
                let ids = edge_lookup(edges, n)->Some_0;
                assert(edge_lookup(edges, n) is Some);
                let m = t - 1;
                assert(ns[t] == (SetupStep::Input { node: n, image: ids[m] }));
                let k = choose|k: int| 0 <= k < edges.len() && #[trigger] edges[k] == (n, ids);
                assert(connection_ok(order, edges[k]));
                let pos = choose|pos: int|
                    0 <= pos < order.len() && edges[k].0 == pos as u32 && #[trigger] parents_before(
                        order,
                        edges[k].1,
                        pos,
                    );
                assert(order[n as int] == n);
                assert(pos == n as int);
                assert(pos == q - 1);
                assert(order.take(pos).contains(ids[m]));
                let p = choose|p: int| 0 <= p < pos && order.take(pos)[p] == ids[m];
                lemma_plan_runs(order, edges, q - 1, p);
                let j = choose|j: int|
                    0 <= j < prev.len() && #[trigger] prev[j] == (SetupStep::Execute { node: order[p] });
                assert(plan[j] == prev[j]);
            }
        }
    }
}

/// The steps that set up the nodes give a node the image of another node
/// only after that other node has run, provided the order lists each node
/// once and each connection is keyed by the position of a node whose index
/// equals that position, with its inputs earlier in the order.
pub proof fn lemma_plan_inputs_ready(order: Seq<u32>, edges: Seq<(u32, Seq<u32>)>)
    requires
        plan_ready(order, edges),
    ensures
        ({
            let plan = setup_plan(order, edges);
            forall|i: int|
                0 <= i < plan.len() && (#[trigger] plan[i] matches SetupStep::Input { image, .. })
                    ==> exists|j: int|
                    0 <= j < i && plan[j] == (SetupStep::Execute { node: plan[i]->image })
        }),
{
    lemma_plan_prefix_ready(order, edges, order.len() as int);
    assert(order.take(order.len() as int) =~= order);
}

} // verus!
