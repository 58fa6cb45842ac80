//! What every schedule satisfies: starters come first, every node of the
//! tables is scheduled, a node is scheduled only after the nodes its input
//! names, the order falls into a starter, a processor and a finisher
//! segment, and each connection belongs to the node at its position.
use crate::name_index::{assoc_find, assoc_get, assoc_insert};
use crate::schedule::{EntryView, SchedState, initial_state, parent_ids, pass, run_phase, schedule, visit};
use crate::role_laws::keyed_at;
use vstd::prelude::*;

verus! {

/// The names of a name to index table.
pub open spec fn assoc_keys(a: Seq<(Seq<char>, nat)>) -> Seq<Seq<char>> {
    a.map_values(|p: (Seq<char>, nat)| p.0)
}

/// No name occurs twice in the table.
pub open spec fn keys_unique(a: Seq<(Seq<char>, nat)>) -> bool {
    assoc_keys(a).no_duplicates()
}

/// The index an input name resolves to: a starter's, else a processor's.
pub open spec fn parent_of(n: Seq<char>, sids: Seq<(Seq<char>, nat)>, nids: Seq<(Seq<char>, nat)>) -> Option<nat> {
    match assoc_get(sids, n) {
        Some(v) => Some(v),
        None => assoc_get(nids, n),
    }
}

/// The parents listed in connection `c` all come before its position in
/// `order`, and that position is in `order`.
pub open spec fn connection_ok(order: Seq<u32>, c: (u32, Seq<u32>)) -> bool {
    exists|pos: int| 0 <= pos < order.len() && c.0 == pos as u32 && #[trigger] parents_before(order, c.1, pos)
}

/// Every index of `ps` appears in `order` before position `pos`.
pub open spec fn parents_before(order: Seq<u32>, ps: Seq<u32>, pos: int) -> bool {
    forall|m: int| 0 <= m < ps.len() ==> order.take(pos).contains(#[trigger] ps[m])
}

/// `parents_before` survives appending to the order.
proof fn lemma_parents_before_extend(order: Seq<u32>, order2: Seq<u32>, ps: Seq<u32>, pos: int)
    requires
        parents_before(order, ps, pos),
        0 <= pos <= order.len() <= order2.len(),
        order2.take(order.len() as int) == order,
    ensures
        parents_before(order2, ps, pos),
{
    assert(order2.take(pos) =~= order.take(pos));
}

/// Indices already in the order come before its end.
proof fn lemma_parents_in_order(order: Seq<u32>, order2: Seq<u32>, ps: Seq<u32>)
    requires
        forall|m: int| 0 <= m < ps.len() ==> order.contains(#[trigger] ps[m]),
        order.len() <= order2.len(),
        order2.take(order.len() as int) == order,
    ensures
        parents_before(order2, ps, order.len() as int),
{
    assert forall|m: int| 0 <= m < ps.len() implies order2.take(order.len() as int).contains(#[trigger] ps[m]) by {
        assert(order.contains(ps[m]));
    }
}

/// What holds of every state the scheduler passes through.
pub open spec fn sched_inv(st: SchedState, sids: Seq<(Seq<char>, nat)>, nids: Seq<(Seq<char>, nat)>) -> bool {
    &&& forall|i: int| 0 <= i < sids.len() ==> st.order.contains(#[trigger] sids[i].1 as u32)
    &&& forall|i: int|
        0 <= i < st.inserted.len() && (#[trigger] parent_of(st.inserted[i], sids, nids)) is Some
            ==> st.order.contains(parent_of(st.inserted[i], sids, nids)->0 as u32)
    &&& forall|k: int| 0 <= k < st.connections.len() ==> connection_ok(st.order, #[trigger] st.connections[k])
}

/// `st` is `st0` followed by `num` newly scheduled nodes of table `ids`,
/// each named once and scheduled under its index.
pub open spec fn phase_rel(st0: SchedState, st: SchedState, ids: Seq<(Seq<char>, nat)>, num: nat) -> bool {
    &&& st.inserted.len() == st0.inserted.len() + num
    &&& st.inserted.take(st0.inserted.len() as int) == st0.inserted
    &&& st0.order.len() <= st.order.len()
    &&& st.order.take(st0.order.len() as int) == st0.order
    &&& st0.connections.len() <= st.connections.len()
    &&& st.connections.take(st0.connections.len() as int) == st0.connections
    &&& forall|i: int|
        st0.inserted.len() <= i < st.inserted.len() ==> {
            &&& (#[trigger] assoc_get(ids, st.inserted[i])) is Some
            &&& st.order.contains(assoc_get(ids, st.inserted[i])->0 as u32)
            &&& !st.inserted.take(i).contains(st.inserted[i])
        }
}

/// The parents that `parent_ids` yields are the resolved input names.
pub proof fn lemma_parent_ids(deps: Seq<Seq<char>>, sids: Seq<(Seq<char>, nat)>, nids: Seq<(Seq<char>, nat)>)
    requires
        parent_ids(deps, sids, nids) is Some,
    ensures
        parent_ids(deps, sids, nids)->0.len() == deps.len(),
        forall|m: int|
            0 <= m < deps.len() ==> (#[trigger] parent_of(deps[m], sids, nids)) is Some
                && parent_ids(deps, sids, nids)->0[m] == parent_of(deps[m], sids, nids)->0 as u32,
    decreases deps.len(),
{
    if deps.len() > 0 {
        lemma_parent_ids(deps.drop_last(), sids, nids);
        assert forall|m: int| 0 <= m < deps.len() - 1 implies #[trigger] deps[m] == deps.drop_last()[m] by {}
    }
}

/// A visit keeps the invariant; one that schedules adds one name.
proof fn lemma_visit(
    st: SchedState,
    e: EntryView,
    ids: Seq<(Seq<char>, nat)>,
    sids: Seq<(Seq<char>, nat)>,
    nids: Seq<(Seq<char>, nat)>,
)
    requires
        sched_inv(st, sids, nids),
        ids == nids || forall|n: Seq<char>| #[trigger] assoc_get(nids, n) is Some ==> st.inserted.contains(n),
        visit(st, e, ids, sids, nids) is Ok,
    ensures
        ({
            let (st2, b) = visit(st, e, ids, sids, nids)->Ok_0;
            &&& sched_inv(st2, sids, nids)
            &&& phase_rel(st, st2, ids, if b { 1 } else { 0 })
        }),
{
    let (st2, b) = visit(st, e, ids, sids, nids)->Ok_0;
    if !b {
        assert(st2.inserted.take(st.inserted.len() as int) =~= st.inserted);
        assert(st2.order.take(st.order.len() as int) =~= st.order);
        assert(st2.connections.take(st.connections.len() as int) =~= st.connections);
    } else {
        let idx = assoc_get(ids, e.name)->0;
        let deps = e.deps->0;
        let ps = parent_ids(deps, sids, nids)->0;
        lemma_parent_ids(deps, sids, nids);
        let pos = st.order.len() as int;
        assert(st2.inserted.take(st.inserted.len() as int) =~= st.inserted);
        assert(st2.order.take(st.order.len() as int) =~= st.order);
        assert(st2.connections.take(st.connections.len() as int) =~= st.connections);
        // order only grows
        assert forall|i: int| 0 <= i < sids.len() implies st2.order.contains(#[trigger] sids[i].1 as u32) by {
            assert(st.order.contains(sids[i].1 as u32));
            let j = choose|j: int| 0 <= j < st.order.len() && st.order[j] == sids[i].1 as u32;
            assert(st2.order[j] == st.order[j]);
        }
        assert(st2.order[pos] == idx as u32);
        assert forall|i: int|
            0 <= i < st2.inserted.len() && (#[trigger] parent_of(st2.inserted[i], sids, nids)) is Some
                implies st2.order.contains(parent_of(st2.inserted[i], sids, nids)->0 as u32) by {
            let n = st2.inserted[i];
            let p = parent_of(n, sids, nids)->0;
            if i < st.inserted.len() {
                assert(st2.inserted[i] == st.inserted[i]);
                assert(st.order.contains(p as u32));
                let j = choose|j: int| 0 <= j < st.order.len() && st.order[j] == p as u32;
                assert(st2.order[j] == st.order[j]);
            } else {
                assert(n == e.name);
                if assoc_get(sids, n) is Some {
                    let k = assoc_find(sids, n)->0;
                    lemma_find_in(sids, n);
                    assert(st.order.contains(sids[k].1 as u32));
                    let j = choose|j: int| 0 <= j < st.order.len() && st.order[j] == sids[k].1 as u32;
                    assert(st2.order[j] == st.order[j]);
                } else if ids == nids {
                    assert(p == idx);
                } else {
                    assert(assoc_get(nids, n) is None);
                }
            }
        }
        assert forall|k: int| 0 <= k < st2.connections.len() implies connection_ok(
            st2.order,
            #[trigger] st2.connections[k],
        ) by {
            if k < st.connections.len() {
                assert(st2.connections[k] == st.connections[k]);
                let c = st.connections[k];
                assert(connection_ok(st.order, c));
                let p0 = choose|p0: int|
                    0 <= p0 < st.order.len() && c.0 == p0 as u32 && #[trigger] parents_before(st.order, c.1, p0);
                lemma_parents_before_extend(st.order, st2.order, c.1, p0);
                assert(0 <= p0 < st2.order.len() && st2.connections[k].0 == p0 as u32
                    && parents_before(st2.order, st2.connections[k].1, p0));
            } else {
                let c = st2.connections[k];
                assert(c == (pos as u32, ps));
                assert forall|m: int| 0 <= m < ps.len() implies st.order.contains(#[trigger] ps[m]) by {
                    let d = deps[m];
                    assert(st.inserted.contains(d));
                    let i = choose|i: int| 0 <= i < st.inserted.len() && st.inserted[i] == d;
                    assert(parent_of(st.inserted[i], sids, nids) is Some);
                    assert(st.order.contains(parent_of(d, sids, nids)->0 as u32));
                }
                lemma_parents_in_order(st.order, st2.order, ps);
                assert(0 <= pos < st2.order.len() && st2.connections[k].0 == pos as u32
                    && parents_before(st2.order, st2.connections[k].1, pos));
            }
        }
        // the new name
        assert(!st2.inserted.take(st.inserted.len() as int).contains(e.name));
        assert(st2.order.contains(idx as u32));
    }
}

/// Where `assoc_find` points.
pub proof fn lemma_find_in(a: Seq<(Seq<char>, nat)>, n: Seq<char>)
    ensures
        assoc_find(a, n) matches Some(i) ==> 0 <= i < a.len() && a[i].0 == n && assoc_get(a, n) == Some(
            a[i].1,
        ),
        assoc_find(a, n) is None ==> !assoc_keys(a).contains(n),
    decreases a.len(),
{
    if a.len() > 0 {
        lemma_find_in(a.drop_last(), n);
        if assoc_find(a.drop_last(), n) is None && a.last().0 != n {
            assert forall|j: int| 0 <= j < a.len() implies #[trigger] assoc_keys(a)[j] != n by {
                if j < a.len() - 1 {
                    assert(assoc_keys(a.drop_last())[j] == assoc_keys(a)[j]);
                }
            }
        }
        if let Some(i) = assoc_find(a.drop_last(), n) {
            assert(a.drop_last()[i] == a[i]);
        }
    }
}

/// A name is found exactly when the table holds it.
pub proof fn lemma_find_iff(a: Seq<(Seq<char>, nat)>, n: Seq<char>)
    ensures
        assoc_find(a, n) is Some <==> assoc_keys(a).contains(n),
    decreases a.len(),
{
    lemma_find_in(a, n);
    if assoc_find(a, n) is Some {
        let i = assoc_find(a, n)->0;
        assert(assoc_keys(a)[i] == n);
    }
}

/// `phase_rel` composes.
proof fn lemma_phase_rel_trans(
    a: SchedState,
    b: SchedState,
    c: SchedState,
    ids: Seq<(Seq<char>, nat)>,
    n: nat,
    k: nat,
)
    requires
        phase_rel(a, b, ids, n),
        phase_rel(b, c, ids, k),
    ensures
        phase_rel(a, c, ids, n + k),
{
    assert(c.inserted.take(a.inserted.len() as int) =~= b.inserted.take(a.inserted.len() as int));
    assert(c.order.take(a.order.len() as int) =~= b.order.take(a.order.len() as int));
    assert(c.connections.take(a.connections.len() as int) =~= b.connections.take(
        a.connections.len() as int,
    ));
    assert forall|i: int| a.inserted.len() <= i < c.inserted.len() implies {
        &&& (#[trigger] assoc_get(ids, c.inserted[i])) is Some
        &&& c.order.contains(assoc_get(ids, c.inserted[i])->0 as u32)
        &&& !c.inserted.take(i).contains(c.inserted[i])
    } by {
        if i < b.inserted.len() {
            assert(c.inserted[i] == b.inserted[i]);
            assert(c.inserted.take(i) =~= b.inserted.take(i));
            let v = assoc_get(ids, b.inserted[i])->0 as u32;
            let j = choose|j: int| 0 <= j < b.order.len() && b.order[j] == v;
            assert(c.order[j] == b.order[j]);
        }
    }
}

/// A pass keeps the invariant and adds the names it scheduled.
proof fn lemma_pass(
    st: SchedState,
    es: Seq<EntryView>,
    ids: Seq<(Seq<char>, nat)>,
    sids: Seq<(Seq<char>, nat)>,
    nids: Seq<(Seq<char>, nat)>,
)
    requires
        sched_inv(st, sids, nids),
        ids == nids || forall|n: Seq<char>| #[trigger] assoc_get(nids, n) is Some ==> st.inserted.contains(n),
        pass(st, es, ids, sids, nids) is Ok,
    ensures
        ({
            let (st2, k) = pass(st, es, ids, sids, nids)->Ok_0;
            &&& sched_inv(st2, sids, nids)
            &&& phase_rel(st, st2, ids, k)
        }),
    decreases es.len(),
{
    if es.len() == 0 {
        assert(st.inserted.take(st.inserted.len() as int) =~= st.inserted);
        assert(st.order.take(st.order.len() as int) =~= st.order);
        assert(st.connections.take(st.connections.len() as int) =~= st.connections);
    } else {
        lemma_pass(st, es.drop_last(), ids, sids, nids);
        let (st1, k1) = pass(st, es.drop_last(), ids, sids, nids)->Ok_0;
        assert forall|n: Seq<char>| ids != nids && #[trigger] assoc_get(nids, n) is Some implies st1.inserted.contains(n) by {
            assert(st.inserted.contains(n));
            let i = choose|i: int| 0 <= i < st.inserted.len() && st.inserted[i] == n;
            assert(st1.inserted[i] == st.inserted[i]);
        }
        lemma_visit(st1, es.last(), ids, sids, nids);
        let (st2, b) = visit(st1, es.last(), ids, sids, nids)->Ok_0;
        lemma_phase_rel_trans(st, st1, st2, ids, k1, if b { 1 } else { 0 });
    }
}

/// A phase that ends keeps the invariant and schedules exactly one node per
/// name of its table.
proof fn lemma_run_phase(
    st0: SchedState,
    st: SchedState,
    num: nat,
    es: Seq<EntryView>,
    ids: Seq<(Seq<char>, nat)>,
    sids: Seq<(Seq<char>, nat)>,
    nids: Seq<(Seq<char>, nat)>,
    fuel: nat,
)
    requires
        sched_inv(st, sids, nids),
        phase_rel(st0, st, ids, num),
        ids == nids || forall|n: Seq<char>| #[trigger] assoc_get(nids, n) is Some ==> st0.inserted.contains(n),
        run_phase(st, num, es, ids, sids, nids, fuel) is Ok,
    ensures
        sched_inv(run_phase(st, num, es, ids, sids, nids, fuel)->Ok_0, sids, nids),
        phase_rel(st0, run_phase(st, num, es, ids, sids, nids, fuel)->Ok_0, ids, ids.len()),
    decreases fuel,
{
    if num != ids.len() {
        assert forall|n: Seq<char>| ids != nids && #[trigger] assoc_get(nids, n) is Some implies st.inserted.contains(n) by {
            assert(st0.inserted.contains(n));
            let i = choose|i: int| 0 <= i < st0.inserted.len() && st0.inserted[i] == n;
            assert(st.inserted.take(st0.inserted.len() as int)[i] == st0.inserted[i]);
        }
        lemma_pass(st, es, ids, sids, nids);
        let (st2, k) = pass(st, es, ids, sids, nids)->Ok_0;
        lemma_phase_rel_trans(st0, st, st2, ids, num, k);
        lemma_run_phase(st0, st2, num + k, es, ids, sids, nids, (fuel - 1) as nat);
    }
}

/// Every name of a table with unique names is scheduled once the phase for
/// that table ends, under its index, and none of them was scheduled before.
proof fn lemma_phase_complete(st0: SchedState, st: SchedState, ids: Seq<(Seq<char>, nat)>)
    requires
        phase_rel(st0, st, ids, ids.len()),
        keys_unique(ids),
    ensures
        forall|i: int|
            0 <= i < ids.len() ==> st.inserted.contains(#[trigger] ids[i].0) && st.order.contains(
                ids[i].1 as u32,
            ) && !st0.inserted.contains(ids[i].0),
{
    let base = st0.inserted.len() as int;
    let added = st.inserted.skip(base);
    let keys = assoc_keys(ids);
    assert(added.len() == ids.len());
    assert forall|a: int, b: int| 0 <= a < added.len() && 0 <= b < added.len() && a != b implies added[a]
        != added[b] by {
        let (lo, hi) = if a < b { (a, b) } else { (b, a) };
        assert(added[lo] == st.inserted[base + lo]);
        assert(added[hi] == st.inserted[base + hi]);
        assert(assoc_get(ids, st.inserted[base + hi]) is Some);
        assert(st.inserted.take(base + hi)[base + lo] == st.inserted[base + lo]);
    }
    assert(added.no_duplicates());
    assert forall|x: Seq<char>| added.to_set().contains(x) implies keys.to_set().contains(x) by {
        let a = choose|a: int| 0 <= a < added.len() && added[a] == x;
        assert(added[a] == st.inserted[base + a]);
        assert(assoc_get(ids, x) is Some);
        lemma_find_in(ids, x);
        let k = assoc_find(ids, x)->0;
        assert(keys[k] == x);
    }
    added.unique_seq_to_set();
    keys.unique_seq_to_set();
    vstd::set_lib::lemma_subset_equality(added.to_set(), keys.to_set());
    assert forall|i: int| 0 <= i < ids.len() implies st.inserted.contains(#[trigger] ids[i].0)
        && st.order.contains(ids[i].1 as u32) && !st0.inserted.contains(ids[i].0) by {
        let x = ids[i].0;
        assert(keys[i] == x);
        assert(keys.to_set().contains(x));
        assert(added.to_set().contains(x));
        let a = choose|a: int| 0 <= a < added.len() && added[a] == x;
        assert(st.inserted[base + a] == x);
        lemma_find_in(ids, x);
        let k = assoc_find(ids, x)->0;
        assert(keys[k] == x);
        assert(k == i);
        assert(assoc_get(ids, x) == Some(ids[i].1));
        if st0.inserted.contains(x) {
            let j = choose|j: int| 0 <= j < st0.inserted.len() && st0.inserted[j] == x;
            assert(st.inserted.take(base + a)[j] == st.inserted.take(base)[j]);
        }
    }
}

/// The initial state satisfies the invariant.
proof fn lemma_initial(sids: Seq<(Seq<char>, nat)>, nids: Seq<(Seq<char>, nat)>)
    ensures
        sched_inv(initial_state(sids), sids, nids),
        phase_rel(initial_state(sids), initial_state(sids), nids, 0),
{
    let st = initial_state(sids);
    assert forall|i: int| 0 <= i < sids.len() implies st.order.contains(#[trigger] sids[i].1 as u32) by {
        assert(st.order[i] == sids[i].1 as u32);
    }
    assert forall|i: int|
        0 <= i < st.inserted.len() && (#[trigger] parent_of(st.inserted[i], sids, nids)) is Some
            implies st.order.contains(parent_of(st.inserted[i], sids, nids)->0 as u32) by {
        let n = st.inserted[i];
        assert(n == sids[i].0);
        lemma_find_in(sids, n);
        let k = assoc_find(sids, n)->0;
        assert(st.order[k] == sids[k].1 as u32);
    }
    assert(st.inserted.take(st.inserted.len() as int) =~= st.inserted);
    assert(st.order.take(st.order.len() as int) =~= st.order);
    assert(st.connections.take(0) =~= st.connections);
}

/// The schedule of a pipeline whose processor and finisher tables name each
/// node once runs the starters first, in the order of the starter table;
/// schedules every node of the three tables; and schedules a node only after
/// every node its input names: each connection is keyed by a position of the
/// execution order, and each input index it lists appears at an earlier
/// position.
pub proof fn lemma_schedule_order(
    sids: Seq<(Seq<char>, nat)>,
    nids: Seq<(Seq<char>, nat)>,
    fids: Seq<(Seq<char>, nat)>,
    node_es: Seq<EntryView>,
    fin_es: Seq<EntryView>,
)
    requires
        keys_unique(nids),
        keys_unique(fids),
        schedule(sids, nids, fids, node_es, fin_es) is Ok,
    ensures
        ({
            let st = schedule(sids, nids, fids, node_es, fin_es)->Ok_0;
            &&& sids.len() <= st.order.len()
            &&& st.order.take(sids.len() as int) == initial_state(sids).order
            &&& forall|i: int| 0 <= i < sids.len() ==> st.order.contains(#[trigger] sids[i].1 as u32)
            &&& forall|i: int| 0 <= i < nids.len() ==> st.order.contains(#[trigger] nids[i].1 as u32)
            &&& forall|i: int| 0 <= i < fids.len() ==> st.order.contains(#[trigger] fids[i].1 as u32)
            &&& forall|k: int|
                0 <= k < st.connections.len() ==> connection_ok(st.order, #[trigger] st.connections[k])
        }),
{
    let st0 = initial_state(sids);
    lemma_initial(sids, nids);
    lemma_run_phase(st0, st0, 0, node_es, nids, sids, nids, node_es.len() + 1);
    let st1 = run_phase(st0, 0, node_es, nids, sids, nids, node_es.len() + 1)->Ok_0;
    lemma_phase_complete(st0, st1, nids);
    assert forall|n: Seq<char>| #[trigger] assoc_get(nids, n) is Some implies st1.inserted.contains(n) by {
        lemma_find_in(nids, n);
        let k = assoc_find(nids, n)->0;
        assert(st1.inserted.contains(nids[k].0));
    }
    assert(st1.inserted.take(st1.inserted.len() as int) =~= st1.inserted);
    assert(st1.order.take(st1.order.len() as int) =~= st1.order);
    assert(st1.connections.take(st1.connections.len() as int) =~= st1.connections);
    assert(phase_rel(st1, st1, fids, 0));
    lemma_run_phase(st1, st1, 0, fin_es, fids, sids, nids, fin_es.len() + 1);
    let st2 = run_phase(st1, 0, fin_es, fids, sids, nids, fin_es.len() + 1)->Ok_0;
    lemma_phase_complete(st1, st2, fids);
    assert forall|i: int| 0 <= i < nids.len() implies st2.order.contains(#[trigger] nids[i].1 as u32) by {
        assert(st1.inserted.contains(nids[i].0));
        assert(st1.order.contains(nids[i].1 as u32));
        let j = choose|j: int| 0 <= j < st1.order.len() && st1.order[j] == nids[i].1 as u32;
        assert(st2.order.take(st1.order.len() as int)[j] == st1.order[j]);
    }
    assert forall|i: int| 0 <= i < fids.len() implies st2.order.contains(#[trigger] fids[i].1 as u32) by {
        assert(st2.inserted.contains(fids[i].0));
    }
    assert(st2.order.take(sids.len() as int) =~= st0.order) by {
        assert(st0.order.len() == sids.len());
        assert forall|j: int| 0 <= j < sids.len() implies st2.order[j] == st0.order[j] by {
            assert(st2.order.take(st1.order.len() as int)[j] == st1.order[j]);
            assert(st1.order.take(st0.order.len() as int)[j] == st0.order[j]);
        }
    }
}


/// Every position of `order` from `from` on holds a value in `[lo, hi)`.
pub open spec fn segment_in(order: Seq<u32>, from: int, lo: int, hi: int) -> bool {
    forall|p: int| from <= p < order.len() ==> lo <= #[trigger] order[p] < hi
}

/// Every index of table `ids` lies in `[lo, hi)`.
pub open spec fn ids_in(ids: Seq<(Seq<char>, nat)>, lo: int, hi: int) -> bool {
    forall|n: Seq<char>| (#[trigger] assoc_get(ids, n)) is Some ==> lo <= assoc_get(ids, n)->0 < hi
}

/// Connection `c` belongs to entry `e` of table `ids`, scheduled at position
/// `p`: `c` is keyed by `p`, the node at `p` is `e`'s index, and `c` lists
/// the indices of the nodes `e`'s input names.
pub open spec fn owned_at(
    c: (u32, Seq<u32>),
    order: Seq<u32>,
    p: int,
    e: EntryView,
    ids: Seq<(Seq<char>, nat)>,
    sids: Seq<(Seq<char>, nat)>,
    nids: Seq<(Seq<char>, nat)>,
) -> bool {
    &&& 0 <= p < order.len()
    &&& keyed_at(c, p)
    &&& assoc_get(ids, e.name) is Some
    &&& order[p] == assoc_get(ids, e.name)->0 as u32
    &&& e.deps is Some
    &&& parent_ids(e.deps->0, sids, nids) == Some(c.1)
}

/// Connection `c` belongs to some entry of `es`.
pub open spec fn owned_by(
    c: (u32, Seq<u32>),
    order: Seq<u32>,
    es: Seq<EntryView>,
    ids: Seq<(Seq<char>, nat)>,
    sids: Seq<(Seq<char>, nat)>,
    nids: Seq<(Seq<char>, nat)>,
) -> bool {
    exists|p: int, j: int| 0 <= j < es.len() && #[trigger] owned_at(c, order, p, es[j], ids, sids, nids)
}

/// What scheduling keeps of a state: the order and connections so far stay
/// as they were, positions from `from` on hold values in `[lo, hi)`, and the
/// connections from `c0` on belong to entries of `es`.
pub open spec fn shape_inv(
    st0: SchedState,
    st: SchedState,
    from: int,
    lo: int,
    hi: int,
    c0: int,
    es: Seq<EntryView>,
    ids: Seq<(Seq<char>, nat)>,
    sids: Seq<(Seq<char>, nat)>,
    nids: Seq<(Seq<char>, nat)>,
) -> bool {
    &&& st0.order.len() <= st.order.len()
    &&& forall|p: int| 0 <= p < st0.order.len() ==> #[trigger] st.order[p] == st0.order[p]
    &&& st0.connections.len() <= st.connections.len()
    &&& forall|k: int| 0 <= k < st0.connections.len() ==> #[trigger] st.connections[k] == st0.connections[k]
    &&& segment_in(st.order, from, lo, hi)
    &&& forall|k: int| c0 <= k < st.connections.len() ==> owned_by(#[trigger] st.connections[k], st.order, es, ids, sids, nids)
}

/// Growing the order keeps a connection's owner.
proof fn lemma_owned_grow(
    c: (u32, Seq<u32>),
    order: Seq<u32>,
    order2: Seq<u32>,
    es: Seq<EntryView>,
    ids: Seq<(Seq<char>, nat)>,
    sids: Seq<(Seq<char>, nat)>,
    nids: Seq<(Seq<char>, nat)>,
)
    requires
        owned_by(c, order, es, ids, sids, nids),
        order.len() <= order2.len(),
        forall|p: int| 0 <= p < order.len() ==> #[trigger] order2[p] == order[p],
    ensures
        owned_by(c, order2, es, ids, sids, nids),
{
    let (p, j) = choose|p: int, j: int| 0 <= j < es.len() && #[trigger] owned_at(c, order, p, es[j], ids, sids, nids);
    assert(order2[p] == order[p]);
    assert(owned_at(c, order2, p, es[j], ids, sids, nids));
}

proof fn lemma_visit_shape(
    st0: SchedState,
    st: SchedState,
    j: int,
    from: int,
    lo: int,
    hi: int,
    c0: int,
    es: Seq<EntryView>,
    ids: Seq<(Seq<char>, nat)>,
    sids: Seq<(Seq<char>, nat)>,
    nids: Seq<(Seq<char>, nat)>,
)
    requires
        shape_inv(st0, st, from, lo, hi, c0, es, ids, sids, nids),
        0 <= from <= st.order.len(),
        0 <= c0,
        0 <= j < es.len(),
        ids_in(ids, lo, hi),
        0 <= lo,
        hi <= u32::MAX,
        visit(st, es[j], ids, sids, nids) is Ok,
    ensures
        shape_inv(st0, visit(st, es[j], ids, sids, nids)->Ok_0.0, from, lo, hi, c0, es, ids, sids, nids),
        from <= visit(st, es[j], ids, sids, nids)->Ok_0.0.order.len(),
        visit(st, es[j], ids, sids, nids)->Ok_0.0.order.len() == st.order.len() + if visit(
            st,
            es[j],
            ids,
            sids,
            nids,
        )->Ok_0.1 {
            1int
        } else {
            0int
        },
{
    let e = es[j];
    let (st2, b) = visit(st, e, ids, sids, nids)->Ok_0;
    if b {
        let idx = assoc_get(ids, e.name)->0;
        let pos = st.order.len() as int;
        assert(st2.order == st.order.push(idx as u32));
        assert forall|p: int| 0 <= p < st0.order.len() implies #[trigger] st2.order[p] == st0.order[p] by {
            assert(st2.order[p] == st.order[p]);
        }
        assert forall|k: int| 0 <= k < st0.connections.len() implies #[trigger] st2.connections[k]
            == st0.connections[k] by {
            assert(st2.connections[k] == st.connections[k]);
        }
        assert forall|p: int| from <= p < st2.order.len() implies lo <= #[trigger] st2.order[p] < hi by {
            if p < pos {
                assert(st2.order[p] == st.order[p]);
            } else {
                assert(assoc_get(ids, e.name) is Some);
            }
        }
        assert forall|p: int| 0 <= p < st.order.len() implies #[trigger] st2.order[p] == st.order[p] by {}
        assert forall|k: int| c0 <= k < st2.connections.len() implies owned_by(
            #[trigger] st2.connections[k],
            st2.order,
            es,
            ids,
            sids,
            nids,
        ) by {
            if k < st.connections.len() {
                assert(st2.connections[k] == st.connections[k]);
                lemma_owned_grow(st.connections[k], st.order, st2.order, es, ids, sids, nids);
            } else {
                let c = st2.connections[k];
                assert(owned_at(c, st2.order, pos, es[j], ids, sids, nids));
            }
        }
    }
}

proof fn lemma_pass_shape(
    st0: SchedState,
    st: SchedState,
    m: int,
    from: int,
    lo: int,
    hi: int,
    c0: int,
    es: Seq<EntryView>,
    ids: Seq<(Seq<char>, nat)>,
    sids: Seq<(Seq<char>, nat)>,
    nids: Seq<(Seq<char>, nat)>,
)
    requires
        shape_inv(st0, st, from, lo, hi, c0, es, ids, sids, nids),
        0 <= from <= st.order.len(),
        0 <= c0,
        0 <= m <= es.len(),
        ids_in(ids, lo, hi),
        0 <= lo,
        hi <= u32::MAX,
        pass(st, es.take(m), ids, sids, nids) is Ok,
    ensures
        ({
            let (st2, k) = pass(st, es.take(m), ids, sids, nids)->Ok_0;
            &&& shape_inv(st0, st2, from, lo, hi, c0, es, ids, sids, nids)
            &&& from <= st2.order.len()
            &&& st2.order.len() == st.order.len() + k
        }),
    decreases m,
{
    if m > 0 {
        assert(es.take(m).drop_last() =~= es.take(m - 1));
        assert(es.take(m).last() == es[m - 1]);
        lemma_pass_shape(st0, st, m - 1, from, lo, hi, c0, es, ids, sids, nids);
        let (st1, k1) = pass(st, es.take(m - 1), ids, sids, nids)->Ok_0;
        lemma_visit_shape(st0, st1, m - 1, from, lo, hi, c0, es, ids, sids, nids);
    }
}

proof fn lemma_run_phase_shape(
    st0: SchedState,
    st: SchedState,
    num: nat,
    from: int,
    lo: int,
    hi: int,
    c0: int,
    es: Seq<EntryView>,
    ids: Seq<(Seq<char>, nat)>,
    sids: Seq<(Seq<char>, nat)>,
    nids: Seq<(Seq<char>, nat)>,
    fuel: nat,
)
    requires
        shape_inv(st0, st, from, lo, hi, c0, es, ids, sids, nids),
        0 <= from <= st.order.len(),
        0 <= c0,
        ids_in(ids, lo, hi),
        0 <= lo,
        hi <= u32::MAX,
        run_phase(st, num, es, ids, sids, nids, fuel) is Ok,
    ensures
        ({
            let st2 = run_phase(st, num, es, ids, sids, nids, fuel)->Ok_0;
            &&& shape_inv(st0, st2, from, lo, hi, c0, es, ids, sids, nids)
            &&& st2.order.len() + num == st.order.len() + ids.len()
        }),
    decreases fuel,
{
    if num != ids.len() {
        assert(es.take(es.len() as int) =~= es);
        lemma_pass_shape(st0, st, es.len() as int, from, lo, hi, c0, es, ids, sids, nids);
        let (st2, k) = pass(st, es, ids, sids, nids)->Ok_0;
        lemma_run_phase_shape(st0, st2, num + k, from, lo, hi, c0, es, ids, sids, nids, (fuel - 1) as nat);
    }
}

/// The execution order of a schedule falls into three segments: the
/// starters, in the order of their table; then, at the next `nids.len()`
/// positions, indices of the processor table; then indices of the finisher
/// table. Every connection belongs to the processor or finisher entry whose
/// index is at the connection's position: it is keyed by that position and
/// lists the indices of the nodes that entry's input names.
pub proof fn lemma_schedule_shape(
    sids: Seq<(Seq<char>, nat)>,
    nids: Seq<(Seq<char>, nat)>,
    fids: Seq<(Seq<char>, nat)>,
    node_es: Seq<EntryView>,
    fin_es: Seq<EntryView>,
    lo: int,
    mid: int,
    hi: int,
)
    requires
        schedule(sids, nids, fids, node_es, fin_es) is Ok,
        0 <= lo <= mid <= hi <= u32::MAX,
        ids_in(nids, lo, mid),
        ids_in(fids, mid, hi),
    ensures
        ({
            let st = schedule(sids, nids, fids, node_es, fin_es)->Ok_0;
            let s = sids.len() as int;
            let n = nids.len() as int;
            &&& st.order.len() == s + n + fids.len()
            &&& forall|p: int| 0 <= p < s ==> #[trigger] st.order[p] == sids[p].1 as u32
            &&& forall|p: int| s <= p < s + n ==> lo <= #[trigger] st.order[p] < mid
            &&& forall|p: int| s + n <= p < st.order.len() ==> mid <= #[trigger] st.order[p] < hi
            &&& forall|k: int|
                0 <= k < st.connections.len() ==> owned_by(#[trigger] st.connections[k], st.order, node_es, nids, sids, nids)
                    || owned_by(st.connections[k], st.order, fin_es, fids, sids, nids)
        }),
{
    let s = sids.len() as int;
    let st0 = initial_state(sids);
    assert(st0.order.len() == s);
    assert(st0.connections.len() == 0);
    assert(shape_inv(st0, st0, s, lo, mid, 0, node_es, nids, sids, nids));
    lemma_run_phase_shape(st0, st0, 0, s, lo, mid, 0, node_es, nids, sids, nids, node_es.len() + 1);
    let st1 = run_phase(st0, 0, node_es, nids, sids, nids, node_es.len() + 1)->Ok_0;
    let n = nids.len() as int;
    let c1 = st1.connections.len() as int;
    assert(shape_inv(st1, st1, s + n, mid, hi, c1, fin_es, fids, sids, nids));
    lemma_run_phase_shape(st1, st1, 0, s + n, mid, hi, c1, fin_es, fids, sids, nids, fin_es.len() + 1);
    let st2 = schedule(sids, nids, fids, node_es, fin_es)->Ok_0;
    assert forall|p: int| 0 <= p < s implies #[trigger] st2.order[p] == sids[p].1 as u32 by {
        assert(st2.order[p] == st1.order[p]);
        assert(st1.order[p] == st0.order[p]);
    }
    assert forall|p: int| s <= p < s + n implies lo <= #[trigger] st2.order[p] < mid by {
        assert(st2.order[p] == st1.order[p]);
    }
    assert forall|k: int| 0 <= k < st2.connections.len() implies owned_by(
        #[trigger] st2.connections[k],
        st2.order,
        node_es,
        nids,
        sids,
        nids,
    ) || owned_by(st2.connections[k], st2.order, fin_es, fids, sids, nids) by {
        if k < c1 {
            assert(st2.connections[k] == st1.connections[k]);
            lemma_owned_grow(st1.connections[k], st1.order, st2.order, node_es, nids, sids, nids);
        }
    }
}

} // verus!
