//! What every successfully read description satisfies.
use crate::description::{DescriptionView, TablesView, created, ids_from, read_nodes};
use crate::json_doc::Json;
use crate::name_index::{assoc_find, assoc_insert};
use crate::node_kind::NodeKind;
use crate::schedule::{entries_view_of, initial_state, schedule};
use crate::schedule_laws::{assoc_keys, connection_ok, keys_unique, lemma_find_iff, lemma_schedule_order};
use vstd::prelude::*;

verus! {

/// The names of created nodes.
pub open spec fn decl_names(ds: Seq<(Seq<char>, NodeKind)>) -> Seq<Seq<char>> {
    ds.map_values(|d: (Seq<char>, NodeKind)| d.0)
}

/// With distinct names, the table of a category holds every created node
/// under its own index.
pub proof fn lemma_ids_from_distinct(ds: Seq<(Seq<char>, NodeKind)>, base: nat)
    requires
        decl_names(ds).no_duplicates(),
    ensures
        ids_from(ds, base) == Seq::new(ds.len(), |j: int| (ds[j].0, (base + j) as nat)),
        keys_unique(ids_from(ds, base)),
    decreases ds.len(),
{
    let target = Seq::new(ds.len(), |j: int| (ds[j].0, (base + j) as nat));
    if ds.len() == 0 {
        assert(ids_from(ds, base) =~= target);
        assert(assoc_keys(ids_from(ds, base)) =~= Seq::<Seq<char>>::empty());
    } else {
        let prev = ds.drop_last();
        assert forall|a: int, b: int| 0 <= a < b < prev.len() implies decl_names(prev)[a] != decl_names(prev)[b] by {
            assert(decl_names(prev)[a] == decl_names(ds)[a]);
            assert(decl_names(prev)[b] == decl_names(ds)[b]);
        }
        assert(decl_names(prev).no_duplicates());
        lemma_ids_from_distinct(prev, base);
        let p = ids_from(prev, base);
        let n = ds.last().0;
        lemma_find_iff(p, n);
        if assoc_keys(p).contains(n) {
            let k = choose|k: int| 0 <= k < assoc_keys(p).len() && assoc_keys(p)[k] == n;
            assert(decl_names(ds)[k] == decl_names(ds)[ds.len() - 1]);
        }
        assert(assoc_find(p, n) is None);
        assert(ids_from(ds, base) == p.push((n, (base + ds.len() - 1) as nat)));
        assert(ids_from(ds, base) =~= target);
        assert(assoc_keys(ids_from(ds, base)) =~= decl_names(ds));
    }
}

/// The nodes a description creates in each category.
pub open spec fn created_parts(root: Json, tables: TablesView) -> (
    Seq<(Seq<char>, NodeKind)>,
    Seq<(Seq<char>, NodeKind)>,
    Seq<(Seq<char>, NodeKind)>,
) {
    (
        created(root.at_key("starters"@).entries(), tables.starters)->Ok_0,
        created(root.at_key("imgproc"@).entries(), tables.processors)->Ok_0,
        created(root.at_key("finishers"@).entries(), tables.finishers)->Ok_0,
    )
}

/// Reading a description whose nodes have distinct names within each
/// category yields an execution order that starts with the starters in the
/// order of the description, holds the index of every created node, and
/// lists each node with inputs only after its inputs: every connection is
/// keyed by a position of the order and each input it lists appears at an
/// earlier position.
pub proof fn lemma_read_nodes_schedule(
    root: Json,
    tables: TablesView,
    reserved: Seq<(Seq<char>, Seq<char>)>,
    numbers: bool,
    allow_arrays: bool,
)
    requires
        read_nodes(root, tables, reserved, numbers, allow_arrays) is Ok,
        decl_names(created_parts(root, tables).0).no_duplicates(),
        decl_names(created_parts(root, tables).1).no_duplicates(),
        decl_names(created_parts(root, tables).2).no_duplicates(),
    ensures
        ({
            let d = read_nodes(root, tables, reserved, numbers, allow_arrays)->Ok_0;
            let s = created_parts(root, tables).0.len();
            &&& s <= d.order.len()
            &&& forall|i: int| 0 <= i < s ==> d.order[i] == i as u32
            &&& forall|i: int| 0 <= i < d.nodes.len() ==> d.order.contains(#[trigger] (i as u32))
            &&& forall|k: int|
                0 <= k < d.connections.len() ==> connection_ok(d.order, #[trigger] d.connections[k])
        }),
{
    let (sd, nd, fd) = created_parts(root, tables);
    let d = read_nodes(root, tables, reserved, numbers, allow_arrays)->Ok_0;
    lemma_ids_from_distinct(sd, 0);
    lemma_ids_from_distinct(nd, sd.len());
    lemma_ids_from_distinct(fd, sd.len() + nd.len());
    let sids = ids_from(sd, 0);
    let nids = ids_from(nd, sd.len());
    let fids = ids_from(fd, sd.len() + nd.len());
    let node_es = entries_view_of(root.at_key("imgproc"@).entries(), allow_arrays);
    let fin_es = entries_view_of(root.at_key("finishers"@).entries(), allow_arrays);
    lemma_schedule_order(sids, nids, fids, node_es, fin_es);
    let st = schedule(sids, nids, fids, node_es, fin_es)->Ok_0;
    assert(d.order == st.order);
    assert(d.nodes == sd + nd + fd);
    assert forall|i: int| 0 <= i < sd.len() implies d.order[i] == i as u32 by {
        assert(st.order.take(sd.len() as int)[i] == initial_state(sids).order[i]);
        assert(sids[i].1 == i);
    }
    assert forall|i: int| 0 <= i < d.nodes.len() implies d.order.contains(#[trigger] (i as u32)) by {
        if i < sd.len() {
            assert(sids[i].1 == i);
            assert(st.order.contains(sids[i].1 as u32));
        } else if i < sd.len() + nd.len() {
            let j = i - sd.len();
            assert(nids[j].1 == i);
            assert(st.order.contains(nids[j].1 as u32));
        } else {
            let j = i - sd.len() - nd.len();
            assert(fids[j].1 == i);
            assert(st.order.contains(fids[j].1 as u32));
        }
    }
}

} // verus!
