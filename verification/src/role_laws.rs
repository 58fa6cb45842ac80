//! What the schedule and setup steps of every read description satisfy:
//! each node is scheduled once, starters receive no image, finishers give no
//! image to another node, and an image is given only after it is made.
use crate::description::{TablesView, ids_from, read_nodes};
use crate::description_laws::{created_parts, decl_names, lemma_ids_from_distinct, lemma_read_nodes_schedule};
use crate::json_doc::Json;
use crate::name_index::assoc_get;
use crate::rip::pipeline::{SetupStep, edge_lookup, node_steps, setup_plan};
use crate::rip::pipeline_laws::{lemma_edge_lookup_found, lemma_plan_inputs_ready, plan_ready};
use crate::schedule::{EntryView, SchedState, entries_view_of, initial_state, parent_ids, pass, run_phase, schedule, visit};
use crate::schedule_laws::{ids_in, lemma_find_in, lemma_parent_ids, lemma_schedule_shape, parent_of};
use vstd::prelude::*;

verus! {

/// Connection `c` is keyed by position `pos` of the order.
pub open spec fn keyed_at(c: (u32, Seq<u32>), pos: int) -> bool {
    c.0 == pos as u32
}

/// Connection `c` is keyed by a position from `s` up to `len`.
pub open spec fn keyed_after(c: (u32, Seq<u32>), s: nat, len: nat) -> bool {
    exists|pos: int| s <= pos < len && #[trigger] keyed_at(c, pos)
}

/// Every connection is keyed by a position at or after `s`, and every input
/// it lists is below `bound`.
pub open spec fn roles_inv(st: SchedState, s: nat, bound: nat) -> bool {
    &&& s <= st.order.len()
    &&& forall|k: int|
        0 <= k < st.connections.len() ==> keyed_after(#[trigger] st.connections[k], s, st.order.len())
    &&& forall|k: int, m: int|
        0 <= k < st.connections.len() && 0 <= m < st.connections[k].1.len() ==> (
        #[trigger] st.connections[k].1[m]) < bound
}

/// Every input name resolves to an index below `bound`.
pub open spec fn parents_below(sids: Seq<(Seq<char>, nat)>, nids: Seq<(Seq<char>, nat)>, bound: nat) -> bool {
    &&& bound <= u32::MAX
    &&& forall|n: Seq<char>| (#[trigger] parent_of(n, sids, nids)) matches Some(v) ==> v < bound
}

proof fn lemma_visit_roles(
    st: SchedState,
    e: EntryView,
    ids: Seq<(Seq<char>, nat)>,
    sids: Seq<(Seq<char>, nat)>,
    nids: Seq<(Seq<char>, nat)>,
    s: nat,
    bound: nat,
)
    requires
        roles_inv(st, s, bound),
        parents_below(sids, nids, bound),
        visit(st, e, ids, sids, nids) is Ok,
    ensures
        ({
            let (st2, b) = visit(st, e, ids, sids, nids)->Ok_0;
            &&& roles_inv(st2, s, bound)
            &&& st2.order.len() == st.order.len() + if b { 1int } else { 0int }
        }),
{
    let (st2, b) = visit(st, e, ids, sids, nids)->Ok_0;
    if b {
        let deps = e.deps->0;
        let ps = parent_ids(deps, sids, nids)->0;
        lemma_parent_ids(deps, sids, nids);
        assert forall|k: int| 0 <= k < st2.connections.len() implies keyed_after(
            #[trigger] st2.connections[k],
            s,
            st2.order.len(),
        ) by {
            if k < st.connections.len() {
                assert(st2.connections[k] == st.connections[k]);
                let pos = choose|pos: int| s <= pos < st.order.len() && #[trigger] keyed_at(st.connections[k], pos);
                assert(keyed_at(st2.connections[k], pos));
            } else {
                assert(keyed_at(st2.connections[k], st.order.len() as int));
            }
        }
        assert forall|k: int, m: int|
            0 <= k < st2.connections.len() && 0 <= m < st2.connections[k].1.len() implies (
            #[trigger] st2.connections[k].1[m]) < bound by {
            if k < st.connections.len() {
                assert(st2.connections[k] == st.connections[k]);
            } else {
                assert(st2.connections[k].1 == ps);
                let v = parent_of(deps[m], sids, nids)->0;
                assert(parent_of(deps[m], sids, nids) is Some);
                assert(v < bound);
                assert(ps[m] == v as u32);
            }
        }
        assert(roles_inv(st2, s, bound));
    } else {
        assert(st2 == st);
        assert(roles_inv(st2, s, bound));
    }
}

proof fn lemma_pass_roles(
    st: SchedState,
    es: Seq<EntryView>,
    ids: Seq<(Seq<char>, nat)>,
    sids: Seq<(Seq<char>, nat)>,
    nids: Seq<(Seq<char>, nat)>,
    s: nat,
    bound: nat,
)
    requires
        roles_inv(st, s, bound),
        parents_below(sids, nids, bound),
        pass(st, es, ids, sids, nids) is Ok,
    ensures
        ({
            let (st2, k) = pass(st, es, ids, sids, nids)->Ok_0;
            &&& roles_inv(st2, s, bound)
            &&& st2.order.len() == st.order.len() + k
        }),
    decreases es.len(),
{
    if es.len() > 0 {
        lemma_pass_roles(st, es.drop_last(), ids, sids, nids, s, bound);
        let (st1, k1) = pass(st, es.drop_last(), ids, sids, nids)->Ok_0;
        lemma_visit_roles(st1, es.last(), ids, sids, nids, s, bound);
    }
}

proof fn lemma_run_phase_roles(
    st: SchedState,
    num: nat,
    es: Seq<EntryView>,
    ids: Seq<(Seq<char>, nat)>,
    sids: Seq<(Seq<char>, nat)>,
    nids: Seq<(Seq<char>, nat)>,
    fuel: nat,
    s: nat,
    bound: nat,
)
    requires
        roles_inv(st, s, bound),
        parents_below(sids, nids, bound),
        run_phase(st, num, es, ids, sids, nids, fuel) is Ok,
    ensures
        ({
            let st2 = run_phase(st, num, es, ids, sids, nids, fuel)->Ok_0;
            &&& roles_inv(st2, s, bound)
            &&& st2.order.len() + num == st.order.len() + ids.len()
        }),
    decreases fuel,
{
    if num != ids.len() {
        lemma_pass_roles(st, es, ids, sids, nids, s, bound);
        let (st2, k) = pass(st, es, ids, sids, nids)->Ok_0;
        lemma_run_phase_roles(st2, num + k, es, ids, sids, nids, (fuel - 1) as nat, s, bound);
    }
}

/// The indices of a category table start at `base` and stay below
/// `base + ds.len()`.
proof fn lemma_ids_from_values(ds: Seq<(Seq<char>, crate::node_kind::NodeKind)>, base: nat, n: Seq<char>)
    requires
        decl_names(ds).no_duplicates(),
    ensures
        assoc_get(ids_from(ds, base), n) matches Some(v) ==> base <= v < base + ds.len(),
{
    lemma_ids_from_distinct(ds, base);
    lemma_find_in(ids_from(ds, base), n);
}

/// In a description read with distinct names within each category and at
/// most `u32::MAX` nodes, every connection is keyed by the position of a
/// node scheduled after the starters, and every input it lists is the index
/// of a starter or an image processor, never of a finisher.
pub proof fn lemma_read_nodes_roles(
    root: Json,
    tables: TablesView,
    reserved: Seq<(Seq<char>, Seq<char>)>,
    numbers: bool,
    allow_arrays: bool,
)
    requires
        read_nodes(root, tables, reserved, numbers, allow_arrays) is Ok,
        decl_names(created_parts(root, tables).0).no_duplicates(),
        decl_names(created_parts(root, tables).1).no_duplicates(),
        decl_names(created_parts(root, tables).2).no_duplicates(),
        read_nodes(root, tables, reserved, numbers, allow_arrays)->Ok_0.nodes.len() <= u32::MAX,
    ensures
        ({
            let d = read_nodes(root, tables, reserved, numbers, allow_arrays)->Ok_0;
            let s = created_parts(root, tables).0.len();
            let n = created_parts(root, tables).1.len();
            &&& d.order.len() == d.nodes.len()
            &&& forall|k: int|
                0 <= k < d.connections.len() ==> s <= (#[trigger] d.connections[k]).0 < d.order.len()
            &&& forall|k: int, m: int|
                0 <= k < d.connections.len() && 0 <= m < d.connections[k].1.len() ==> (
                #[trigger] d.connections[k].1[m]) < s + n
        }),
{
    let (sd, nd, fd) = created_parts(root, tables);
    let d = read_nodes(root, tables, reserved, numbers, allow_arrays)->Ok_0;
    let s = sd.len();
    let bound = sd.len() + nd.len();
    lemma_ids_from_distinct(sd, 0);
    lemma_ids_from_distinct(nd, s);
    lemma_ids_from_distinct(fd, s + nd.len());
    let sids = ids_from(sd, 0);
    let nids = ids_from(nd, s);
    let fids = ids_from(fd, s + nd.len());
    assert(d.nodes == sd + nd + fd);
    assert forall|name: Seq<char>| (#[trigger] parent_of(name, sids, nids)) is Some implies parent_of(
        name,
        sids,
        nids,
    )->0 < bound by {
        lemma_ids_from_values(sd, 0, name);
        lemma_ids_from_values(nd, s, name);
    }
    let node_es = entries_view_of(root.at_key("imgproc"@).entries(), allow_arrays);
    let fin_es = entries_view_of(root.at_key("finishers"@).entries(), allow_arrays);
    let st0 = initial_state(sids);
    assert(st0.connections.len() == 0);
    assert(roles_inv(st0, s, bound));
    lemma_run_phase_roles(st0, 0, node_es, nids, sids, nids, node_es.len() + 1, s, bound);
    let st1 = run_phase(st0, 0, node_es, nids, sids, nids, node_es.len() + 1)->Ok_0;
    lemma_run_phase_roles(st1, 0, fin_es, fids, sids, nids, fin_es.len() + 1, s, bound);
    let st2 = schedule(sids, nids, fids, node_es, fin_es)->Ok_0;
    assert(d.order == st2.order && d.connections == st2.connections);
    assert(st2.order.len() == s + nd.len() + fd.len());
    assert forall|k: int| 0 <= k < d.connections.len() implies s <= (
    #[trigger] d.connections[k]).0 < d.order.len() by {
        assert(st2.connections[k] == d.connections[k]);
        assert(keyed_after(st2.connections[k], s, st2.order.len()));
        let pos = choose|pos: int| s <= pos < st2.order.len() && #[trigger] keyed_at(st2.connections[k], pos);
        assert(pos <= u32::MAX);
    }
}

/// A description read with distinct names within each category and at most
/// `u32::MAX` nodes schedules each node exactly once.
pub proof fn lemma_read_nodes_order_distinct(
    root: Json,
    tables: TablesView,
    reserved: Seq<(Seq<char>, Seq<char>)>,
    numbers: bool,
    allow_arrays: bool,
)
    requires
        read_nodes(root, tables, reserved, numbers, allow_arrays) is Ok,
        decl_names(created_parts(root, tables).0).no_duplicates(),
        decl_names(created_parts(root, tables).1).no_duplicates(),
        decl_names(created_parts(root, tables).2).no_duplicates(),
        read_nodes(root, tables, reserved, numbers, allow_arrays)->Ok_0.nodes.len() <= u32::MAX,
    ensures
        read_nodes(root, tables, reserved, numbers, allow_arrays)->Ok_0.order.no_duplicates(),
{
    let d = read_nodes(root, tables, reserved, numbers, allow_arrays)->Ok_0;
    lemma_read_nodes_schedule(root, tables, reserved, numbers, allow_arrays);
    lemma_read_nodes_roles(root, tables, reserved, numbers, allow_arrays);
    let n = d.order.len() as int;
    let ints = d.order.map_values(|x: u32| x as int);
    vstd::set_lib::lemma_int_range(0, n);
    assert forall|i: int| vstd::set_lib::set_int_range(0, n).contains(i) implies ints.to_set().contains(
        i,
    ) by {
        assert(d.order.contains(i as u32));
        let j = choose|j: int| 0 <= j < d.order.len() && d.order[j] == i as u32;
        assert(ints[j] == i);
    }
    ints.lemma_cardinality_of_set();
    vstd::set_lib::lemma_len_subset(vstd::set_lib::set_int_range(0, n), ints.to_set());
    ints.lemma_no_dup_set_cardinality();
    assert forall|a: int, b: int| 0 <= a < d.order.len() && 0 <= b < d.order.len() && a != b implies d.order[a]
        != d.order[b] by {
        assert(ints[a] != ints[b]);
    }
}

/// In a description read with distinct names within each category and at
/// most `u32::MAX` nodes, where every node with inputs is scheduled at the
/// position equal to its index, the setup steps give a node the image of
/// another node only after that other node has run.
pub proof fn lemma_read_nodes_plan_ready(
    root: Json,
    tables: TablesView,
    reserved: Seq<(Seq<char>, Seq<char>)>,
    numbers: bool,
    allow_arrays: bool,
)
    requires
        read_nodes(root, tables, reserved, numbers, allow_arrays) is Ok,
        decl_names(created_parts(root, tables).0).no_duplicates(),
        decl_names(created_parts(root, tables).1).no_duplicates(),
        decl_names(created_parts(root, tables).2).no_duplicates(),
        read_nodes(root, tables, reserved, numbers, allow_arrays)->Ok_0.nodes.len() <= u32::MAX,
        ({
            let d = read_nodes(root, tables, reserved, numbers, allow_arrays)->Ok_0;
            forall|k: int|
                0 <= k < d.connections.len() ==> d.order[(#[trigger] d.connections[k]).0 as int]
                    == d.connections[k].0
        }),
    ensures
        ({
            let d = read_nodes(root, tables, reserved, numbers, allow_arrays)->Ok_0;
            let plan = setup_plan(d.order, d.connections);
            forall|i: int|
                0 <= i < plan.len() && (#[trigger] plan[i] matches SetupStep::Input { image, .. })
                    ==> exists|j: int|
                    0 <= j < i && plan[j] == (SetupStep::Execute { node: plan[i]->image })
        }),
{
    let d = read_nodes(root, tables, reserved, numbers, allow_arrays)->Ok_0;
    lemma_read_nodes_schedule(root, tables, reserved, numbers, allow_arrays);
    lemma_read_nodes_roles(root, tables, reserved, numbers, allow_arrays);
    lemma_read_nodes_order_distinct(root, tables, reserved, numbers, allow_arrays);
    assert(plan_ready(d.order, d.connections));
    lemma_plan_inputs_ready(d.order, d.connections);
}

/// Every input step of a plan gives a node an image that a connection under
/// that node's index lists.
proof fn lemma_plan_input_source(order: Seq<u32>, edges: Seq<(u32, Seq<u32>)>)
    ensures
        forall|i: int|
            0 <= i < setup_plan(order, edges).len() && (#[trigger] setup_plan(order, edges)[i] matches SetupStep::Input { node, image })
                ==> exists|k: int, m: int|
                0 <= k < edges.len() && 0 <= m < edges[k].1.len() && #[trigger] edges[k].0
                    == setup_plan(order, edges)[i]->Input_node && #[trigger] edges[k].1[m]
                    == setup_plan(order, edges)[i]->image,
    decreases order.len(),
{
    if order.len() > 0 {
        let prev = setup_plan(order.drop_last(), edges);
        let n = order.last();
        let ns = node_steps(n, edges);
        let plan = setup_plan(order, edges);
        lemma_plan_input_source(order.drop_last(), edges);
        assert(plan == prev + ns);
        assert forall|i: int|
            0 <= i < plan.len() && (#[trigger] plan[i] matches SetupStep::Input { node, image })
                implies exists|k: int, m: int|
                0 <= k < edges.len() && 0 <= m < edges[k].1.len() && #[trigger] edges[k].0
                    == plan[i]->Input_node && #[trigger] edges[k].1[m] == plan[i]->image by {
            if i < prev.len() {
                assert(plan[i] == prev[i]);
                let (k, m) = choose|k: int, m: int|
                    0 <= k < edges.len() && 0 <= m < edges[k].1.len() && #[trigger] edges[k].0
                        == prev[i]->Input_node && #[trigger] edges[k].1[m] == prev[i]->image;
                assert(edges[k].0 == plan[i]->Input_node && edges[k].1[m] == plan[i]->image);
            } else {
                let t = i - prev.len();
                assert(plan[i] == ns[t]);
                lemma_edge_lookup_found(edges, n);
                let ids = edge_lookup(edges, n)->Some_0;
                let m = t - 1;
                assert(ns[t] == (SetupStep::Input { node: n, image: ids[m] }));
                let k = choose|k: int| 0 <= k < edges.len() && #[trigger] edges[k] == (n, ids);
                assert(0 <= m < edges[k].1.len());
                assert(edges[k].0 == plan[i]->Input_node && edges[k].1[m] == plan[i]->image);
            }
        }
    }
}

/// In the setup steps of a description read with distinct names within each
/// category and at most `u32::MAX` nodes, no starter is given an image, and
/// no node is given the image of a finisher.
pub proof fn lemma_plan_roles(
    root: Json,
    tables: TablesView,
    reserved: Seq<(Seq<char>, Seq<char>)>,
    numbers: bool,
    allow_arrays: bool,
)
    requires
        read_nodes(root, tables, reserved, numbers, allow_arrays) is Ok,
        decl_names(created_parts(root, tables).0).no_duplicates(),
        decl_names(created_parts(root, tables).1).no_duplicates(),
        decl_names(created_parts(root, tables).2).no_duplicates(),
        read_nodes(root, tables, reserved, numbers, allow_arrays)->Ok_0.nodes.len() <= u32::MAX,
    ensures
        ({
            let d = read_nodes(root, tables, reserved, numbers, allow_arrays)->Ok_0;
            let plan = setup_plan(d.order, d.connections);
            let s = created_parts(root, tables).0.len();
            let n = created_parts(root, tables).1.len();
            forall|i: int|
                0 <= i < plan.len() && (#[trigger] plan[i] matches SetupStep::Input { node, image })
                    ==> s <= plan[i]->Input_node && plan[i]->image < s + n
        }),
{
    let d = read_nodes(root, tables, reserved, numbers, allow_arrays)->Ok_0;
    lemma_read_nodes_roles(root, tables, reserved, numbers, allow_arrays);
    lemma_plan_input_source(d.order, d.connections);
}


/// In a description read with distinct names within each category and at
/// most `u32::MAX` nodes, the execution order lists every node index exactly
/// once, in three segments: the starters `0..s` in their order, then the
/// processors `s..s+n`, then the finishers `s+n..`.
pub proof fn lemma_read_nodes_segments(
    root: Json,
    tables: TablesView,
    reserved: Seq<(Seq<char>, Seq<char>)>,
    numbers: bool,
    allow_arrays: bool,
)
    requires
        read_nodes(root, tables, reserved, numbers, allow_arrays) is Ok,
        decl_names(created_parts(root, tables).0).no_duplicates(),
        decl_names(created_parts(root, tables).1).no_duplicates(),
        decl_names(created_parts(root, tables).2).no_duplicates(),
        read_nodes(root, tables, reserved, numbers, allow_arrays)->Ok_0.nodes.len() <= u32::MAX,
    ensures
        ({
            let d = read_nodes(root, tables, reserved, numbers, allow_arrays)->Ok_0;
            let s = created_parts(root, tables).0.len() as int;
            let n = created_parts(root, tables).1.len() as int;
            let t = d.nodes.len() as int;
            &&& d.order.len() == t
            &&& d.order.no_duplicates()
            &&& forall|p: int| 0 <= p < s ==> #[trigger] d.order[p] == p
            &&& forall|p: int| s <= p < s + n ==> s <= #[trigger] d.order[p] < s + n
            &&& forall|p: int| s + n <= p < t ==> s + n <= #[trigger] d.order[p] < t
            &&& forall|v: int| 0 <= v < t ==> #[trigger] d.order.contains(v as u32)
        }),
{
    let (sd, nd, fd) = created_parts(root, tables);
    let d = read_nodes(root, tables, reserved, numbers, allow_arrays)->Ok_0;
    let s = sd.len() as int;
    let n = nd.len() as int;
    let t = d.nodes.len() as int;
    lemma_read_nodes_schedule(root, tables, reserved, numbers, allow_arrays);
    lemma_read_nodes_roles(root, tables, reserved, numbers, allow_arrays);
    lemma_read_nodes_order_distinct(root, tables, reserved, numbers, allow_arrays);
    lemma_ids_from_distinct(sd, 0);
    lemma_ids_from_distinct(nd, s as nat);
    lemma_ids_from_distinct(fd, (s + n) as nat);
    let sids = ids_from(sd, 0);
    let nids = ids_from(nd, s as nat);
    let fids = ids_from(fd, (s + n) as nat);
    assert(d.nodes == sd + nd + fd);
    assert forall|name: Seq<char>| (#[trigger] assoc_get(nids, name)) is Some implies s <= assoc_get(
        nids,
        name,
    )->0 < s + n by {
        lemma_ids_from_values(nd, s as nat, name);
    }
    assert forall|name: Seq<char>| (#[trigger] assoc_get(fids, name)) is Some implies s + n <= assoc_get(
        fids,
        name,
    )->0 < t by {
        lemma_ids_from_values(fd, (s + n) as nat, name);
    }
    assert(ids_in(nids, s, s + n));
    assert(ids_in(fids, s + n, t));
    let node_es = entries_view_of(root.at_key("imgproc"@).entries(), allow_arrays);
    let fin_es = entries_view_of(root.at_key("finishers"@).entries(), allow_arrays);
    lemma_schedule_shape(sids, nids, fids, node_es, fin_es, s, s + n, t);
    let st = schedule(sids, nids, fids, node_es, fin_es)->Ok_0;
    assert(d.order == st.order);
    assert forall|p: int| 0 <= p < s implies #[trigger] d.order[p] == p by {
        assert(st.order[p] == sids[p].1 as u32);
    }
}

} // verus!
