//! The execution order of a pipeline and the images each node receives.
//!
//! Starters run first. Then the image processors are scanned in the order of
//! the description, pass after pass: a node is scheduled as soon as every node
//! its input names is scheduled, and the scan repeats until all are. The
//! finishers follow the same way. A scheduled node with inputs gets a
//! connection entry, keyed by its position in the execution order, that lists
//! the indices of its input nodes.
use crate::error::ConfigError;
use crate::json_doc::Json;
use crate::name_index::{NameIndex, assoc_get};
use crate::text::{chars_of, find_first, find_from, take_chars, utf8_len, utf8_prefix_len_capped};
use vstd::prelude::*;
use vstd::string::StrSliceExecFns;

verus! {

/// The name of the node that an input string `name.output` refers to: the
/// characters before the first `.output`. The count of characters taken is
/// the byte offset of `.output` in the string (the two agree on ASCII
/// names).
pub open spec fn input_node_name(s: Seq<char>) -> Option<Seq<char>> {
    match find_from(s, ".output"@, 0) {
        Some(ci) => Some(take_chars(s, utf8_len(s.take(ci)) as int)),
        None => None,
    }
}

/// The node names of an array of inputs, if every element is an input string.
pub open spec fn array_input_names(items: Seq<Json>) -> Option<Seq<Seq<char>>>
    decreases items.len(),
{
    if items.len() == 0 {
        Some(Seq::empty())
    } else {
        match array_input_names(items.drop_last()) {
            Some(names) => match items.last().spec_as_str() {
                Some(s) => match input_node_name(s) {
                    Some(n) => Some(names.push(n)),
                    None => None,
                },
                None => None,
            },
            None => None,
        }
    }
}

/// A node as the scheduler sees it.
pub struct EntryView {
    pub name: Seq<char>,
    pub has_input: bool,
    pub deps: Option<Seq<Seq<char>>>,
}

/// The names of the nodes that the `input` member of `v` refers to; an array
/// of inputs is read only when `allow_arrays`.
pub open spec fn input_names(v: Json, allow_arrays: bool) -> Option<Seq<Seq<char>>> {
    let input = v.at_key("input"@);
    if allow_arrays && input is Array {
        array_input_names(input->Array_0@)
    } else {
        match input.spec_as_str() {
            Some(s) => match input_node_name(s) {
                Some(n) => Some(seq![n]),
                None => None,
            },
            None => None,
        }
    }
}

/// The scheduler's view of the description member `key: v`.
pub open spec fn entry_view_of(key: Seq<char>, v: Json, allow_arrays: bool) -> EntryView {
    EntryView { name: key, has_input: v.spec_has_key("input"@), deps: input_names(v, allow_arrays) }
}

/// The scheduler's view of the members of a category.
pub open spec fn entries_view_of(entries: Seq<(String, Json)>, allow_arrays: bool) -> Seq<EntryView> {
    entries.map_values(|e: (String, Json)| entry_view_of(e.0@, e.1, allow_arrays))
}

/// The progress of scheduling: the names scheduled, the execution order so
/// far, and the connections so far.
pub struct SchedState {
    pub inserted: Seq<Seq<char>>,
    pub order: Seq<u32>,
    pub connections: Seq<(u32, Seq<u32>)>,
}

/// The indices of the input nodes: a starter's index when the name is a
/// starter, else an image processor's.
pub open spec fn parent_ids(
    deps: Seq<Seq<char>>,
    sids: Seq<(Seq<char>, nat)>,
    nids: Seq<(Seq<char>, nat)>,
) -> Option<Seq<u32>>
    decreases deps.len(),
{
    if deps.len() == 0 {
        Some(Seq::empty())
    } else {
        match parent_ids(deps.drop_last(), sids, nids) {
            Some(ps) => match assoc_get(sids, deps.last()) {
                Some(v) => Some(ps.push(v as u32)),
                None => match assoc_get(nids, deps.last()) {
                    Some(v) => Some(ps.push(v as u32)),
                    None => None,
                },
            },
            None => None,
        }
    }
}

/// One visit of a node during a pass: whether it is scheduled now.
pub open spec fn visit(
    st: SchedState,
    e: EntryView,
    ids: Seq<(Seq<char>, nat)>,
    sids: Seq<(Seq<char>, nat)>,
    nids: Seq<(Seq<char>, nat)>,
) -> Result<(SchedState, bool), ConfigError> {
    if !e.has_input {
        Err(ConfigError::MissingInput)
    } else {
        match assoc_get(ids, e.name) {
            None => Err(ConfigError::UnknownNode),
            Some(idx) => if st.inserted.contains(e.name) {
                Ok((st, false))
            } else {
                match e.deps {
                    None => Err(ConfigError::BadInput),
                    Some(deps) => if !(forall|i: int|
                        0 <= i < deps.len() ==> st.inserted.contains(#[trigger] deps[i])) {
                        Ok((st, false))
                    } else {
                        match parent_ids(deps, sids, nids) {
                            None => Err(ConfigError::UnknownParent),
                            Some(ps) => Ok(
                                (
                                    SchedState {
                                        inserted: st.inserted.push(e.name),
                                        order: st.order.push(idx as u32),
                                        connections: if ps.len() > 0 {
                                            st.connections.push((st.order.len() as u32, ps))
                                        } else {
                                            st.connections
                                        },
                                    },
                                    true,
                                ),
                            ),
                        }
                    },
                }
            },
        }
    }
}

/// One pass over the nodes of a category, in order: the state after it and
/// the number of nodes it scheduled.
pub open spec fn pass(
    st: SchedState,
    es: Seq<EntryView>,
    ids: Seq<(Seq<char>, nat)>,
    sids: Seq<(Seq<char>, nat)>,
    nids: Seq<(Seq<char>, nat)>,
) -> Result<(SchedState, nat), ConfigError>
    decreases es.len(),
{
    if es.len() == 0 {
        Ok((st, 0))
    } else {
        match pass(st, es.drop_last(), ids, sids, nids) {
            Err(e) => Err(e),
            Ok((st1, k)) => match visit(st1, es.last(), ids, sids, nids) {
                Err(e) => Err(e),
                Ok((st2, b)) => Ok((st2, if b { k + 1 } else { k })),
            },
        }
    }
}

/// Passes over a category until as many nodes are scheduled as the category
/// created; a pass that schedules nothing means it never will.
pub open spec fn run_phase(
    st: SchedState,
    num: nat,
    es: Seq<EntryView>,
    ids: Seq<(Seq<char>, nat)>,
    sids: Seq<(Seq<char>, nat)>,
    nids: Seq<(Seq<char>, nat)>,
    fuel: nat,
) -> Result<SchedState, ConfigError>
    decreases fuel,
{
    if num == ids.len() {
        Ok(st)
    } else if fuel == 0 {
        Err(ConfigError::Unschedulable)
    } else {
        match pass(st, es, ids, sids, nids) {
            Err(e) => Err(e),
            Ok((st2, k)) => if k == 0 {
                Err(ConfigError::Unschedulable)
            } else {
                run_phase(st2, num + k, es, ids, sids, nids, (fuel - 1) as nat)
            },
        }
    }
}

/// Every starter is scheduled, in the order of the starter table.
pub open spec fn initial_state(sids: Seq<(Seq<char>, nat)>) -> SchedState {
    SchedState {
        inserted: sids.map_values(|p: (Seq<char>, nat)| p.0),
        order: sids.map_values(|p: (Seq<char>, nat)| p.1 as u32),
        connections: Seq::empty(),
    }
}

/// The schedule of a pipeline: starters, then image processors, then
/// finishers.
pub open spec fn schedule(
    sids: Seq<(Seq<char>, nat)>,
    nids: Seq<(Seq<char>, nat)>,
    fids: Seq<(Seq<char>, nat)>,
    node_es: Seq<EntryView>,
    fin_es: Seq<EntryView>,
) -> Result<SchedState, ConfigError> {
    match run_phase(initial_state(sids), 0, node_es, nids, sids, nids, node_es.len() + 1) {
        Err(e) => Err(e),
        Ok(st) => run_phase(st, 0, fin_es, fids, sids, nids, fin_es.len() + 1),
    }
}

/// A node as the scheduler reads it from the description.
pub struct SchedEntry {
    pub name: String,
    pub has_input: bool,
    pub deps: Option<Vec<String>>,
}

/// The abstract value of a list of scheduler entries.
pub open spec fn sched_view(es: Seq<SchedEntry>) -> Seq<EntryView> {
    es.map_values(|e: SchedEntry| e@)
}

/// The abstract value of a list of names.
pub open spec fn names_view(v: Seq<String>) -> Seq<Seq<char>> {
    v.map_values(|s: String| s@)
}

impl View for SchedEntry {
    type V = EntryView;

    open spec fn view(&self) -> EntryView {
        EntryView {
            name: self.name@,
            has_input: self.has_input,
            deps: match self.deps {
                Some(d) => Some(names_view(d@)),
                None => None,
            },
        }
    }
}

/// The abstract value of connections.
pub open spec fn connections_view(c: Seq<(u32, Vec<u32>)>) -> Seq<(u32, Seq<u32>)> {
    c.map_values(|x: (u32, Vec<u32>)| (x.0, x.1@))
}

/// The scheduler's state.
pub struct Scheduler {
    pub inserted: Vec<String>,
    pub order: Vec<u32>,
    pub connections: Vec<(u32, Vec<u32>)>,
}

impl View for Scheduler {
    type V = SchedState;

    open spec fn view(&self) -> SchedState {
        SchedState {
            inserted: names_view(self.inserted@),
            order: self.order@,
            connections: connections_view(self.connections@),
        }
    }
}

/// The node name an input string refers to.
pub fn input_node_name_exec(s: &str) -> (r: Option<String>)
    ensures
        match r {
            Some(n) => input_node_name(s@) == Some(n@),
            None => input_node_name(s@) is None,
        },
{
    let cs = chars_of(s);
    let pat = chars_of(".output");
    match find_first(&cs, &pat) {
        Some(ci) => {
            let m = utf8_prefix_len_capped(&cs, ci, cs.len());
            let prefix = s.substring_char(0, m);
            proof {
                assert(take_chars(s@, utf8_len(s@.take(ci as int)) as int) =~= s@.subrange(
                    0,
                    m as int,
                ));
            }
            Some(prefix.to_owned())
        },
        None => None,
    }
}

fn array_input_names_exec(items: &Vec<Json>) -> (r: Option<Vec<String>>)
    ensures
        match r {
            Some(v) => array_input_names(items@) == Some(names_view(v@)),
            None => array_input_names(items@) is None,
        },
{
    let mut names: Vec<String> = Vec::new();
    let mut i: usize = 0;
    while i < items.len()
        invariant
            i <= items.len(),
            array_input_names(items@.take(i as int)) == Some(names_view(names@)),
        decreases items.len() - i,
    {
        proof {
            assert(items@.take(i + 1).drop_last() =~= items@.take(i as int));
            assert(items@.take(i + 1).last() == items@[i as int]);
        }
        match items[i].as_str() {
            Some(s) => match input_node_name_exec(s) {
                Some(n) => {
                    let ghost before = names@;
                    names.push(n);
                    proof {
                        assert(names_view(names@) =~= names_view(before).push(n@));
                    }
                },
                None => {
                    proof {
                        lemma_array_names_none_extends(items@, i as int);
                    }
                    return None;
                },
            },
            None => {
                proof {
                    lemma_array_names_none_extends(items@, i as int);
                }
                return None;
            },
        }
        i = i + 1;
    }
    proof {
        assert(items@.take(i as int) =~= items@);
    }
    Some(names)
}

/// Once a prefix of the inputs is malformed, the whole array is.
proof fn lemma_array_names_none_extends(items: Seq<Json>, i: int)
    requires
        0 <= i < items.len(),
        array_input_names(items.take(i + 1)) is None,
    ensures
        array_input_names(items) is None,
    decreases items.len() - i,
{
    if i + 1 < items.len() {
        assert(items.take(i + 2).drop_last() =~= items.take(i + 1));
        lemma_array_names_none_extends(items, i + 1);
    } else {
        assert(items.take(i + 1) =~= items);
    }
}

/// The names of the nodes that the `input` member of `v` refers to.
fn input_names_exec(v: &Json, allow_arrays: bool) -> (r: Option<Vec<String>>)
    ensures
        match r {
            Some(d) => input_names(*v, allow_arrays) == Some(names_view(d@)),
            None => input_names(*v, allow_arrays) is None,
        },
{
    match v.get("input") {
        Some(input) => {
            if allow_arrays && input.is_array() {
                match input {
                    Json::Array(items) => array_input_names_exec(items),
                    _ => None,
                }
            } else {
                match input.as_str() {
                    Some(s) => match input_node_name_exec(s) {
                        Some(n) => {
                            let mut d: Vec<String> = Vec::new();
                            d.push(n);
                            proof {
                                assert(names_view(d@) =~= seq![n@]);
                            }
                            Some(d)
                        },
                        None => None,
                    },
                    None => None,
                }
            }
        },
        None => None,
    }
}

/// The scheduler's view of the members of a category.
pub fn schedule_entries(category: &Json, allow_arrays: bool) -> (r: Vec<SchedEntry>)
    ensures
        sched_view(r@) == entries_view_of(category.entries(), allow_arrays),
{
    let members = category.members();
    let mut r: Vec<SchedEntry> = Vec::new();
    let mut i: usize = 0;
    while i < members.len()
        invariant
            i <= members.len(),
            sched_view(r@) == entries_view_of(
                members@.take(i as int),
                allow_arrays,
            ),
        decreases members.len() - i,
    {
        let ghost before = r@;
        let has_input = members[i].1.has_key("input");
        let deps = input_names_exec(&members[i].1, allow_arrays);
        let e = SchedEntry { name: members[i].0.clone(), has_input, deps };
        let ghost ev = e@;
        proof {
            assert(ev == entry_view_of(members@[i as int].0@, members@[i as int].1, allow_arrays));
            assert(members@.take(i + 1) =~= members@.take(i as int).push(members@[i as int]));
        }
        r.push(e);
        proof {
            assert(r@ =~= before.push(e));
            assert(sched_view(r@) =~= sched_view(before).push(ev));
            assert(sched_view(r@) =~= entries_view_of(
                members@.take(i + 1),
                allow_arrays,
            ));
        }
        i = i + 1;
    }
    proof {
        assert(members@.take(i as int) =~= members@);
    }
    r
}

fn contains_name(names: &Vec<String>, name: &String) -> (r: bool)
    ensures
        r == names_view(names@).contains(name@),
{
    let mut i: usize = 0;
    while i < names.len()
        invariant
            i <= names.len(),
            forall|k: int| 0 <= k < i ==> #[trigger] names@[k]@ != name@,
        decreases names.len() - i,
    {
        if names[i] == *name {
            proof {
                assert(names_view(names@)[i as int] == name@);
            }
            return true;
        }
        i = i + 1;
    }
    proof {
        if names_view(names@).contains(name@) {
            let k = choose|k: int| 0 <= k < names@.len() && names_view(names@)[k] == name@;
            assert(names@[k]@ == name@);
        }
    }
    false
}

fn parent_ids_exec(deps: &Vec<String>, sids: &NameIndex, nids: &NameIndex) -> (r: Option<Vec<u32>>)
    ensures
        match r {
            Some(p) => parent_ids(names_view(deps@), sids@, nids@) == Some(p@),
            None => parent_ids(names_view(deps@), sids@, nids@) is None,
        },
{
    let mut ps: Vec<u32> = Vec::new();
    let mut i: usize = 0;
    while i < deps.len()
        invariant
            i <= deps.len(),
            parent_ids(names_view(deps@).take(i as int), sids@, nids@) == Some(ps@),
        decreases deps.len() - i,
    {
        proof {
            assert(names_view(deps@).take(i + 1).drop_last() =~= names_view(deps@).take(i as int));
            assert(names_view(deps@).take(i + 1).last() == deps@[i as int]@);
        }
        let v = match sids.get(deps[i].as_str()) {
            Some(v) => v,
            None => match nids.get(deps[i].as_str()) {
                Some(v) => v,
                None => {
                    proof {
                        lemma_parents_none_extends(names_view(deps@), sids@, nids@, i as int);
                    }
                    return None;
                },
            },
        };
        ps.push(v as u32);
        i = i + 1;
    }
    proof {
        assert(names_view(deps@).take(i as int) =~= names_view(deps@));
    }
    Some(ps)
}

/// Once an input of a prefix names no starter or processor, the whole list
/// fails.
proof fn lemma_parents_none_extends(
    deps: Seq<Seq<char>>,
    sids: Seq<(Seq<char>, nat)>,
    nids: Seq<(Seq<char>, nat)>,
    i: int,
)
    requires
        0 <= i < deps.len(),
        parent_ids(deps.take(i + 1), sids, nids) is None,
    ensures
        parent_ids(deps, sids, nids) is None,
    decreases deps.len() - i,
{
    if i + 1 < deps.len() {
        assert(deps.take(i + 2).drop_last() =~= deps.take(i + 1));
        lemma_parents_none_extends(deps, sids, nids, i + 1);
    } else {
        assert(deps.take(i + 1) =~= deps);
    }
}

impl Scheduler {
    /// Every starter scheduled, in the order of the starter table.
    pub fn new(sids: &NameIndex) -> (r: Self)
        ensures
            r@ == initial_state(sids@),
    {
        let mut inserted: Vec<String> = Vec::new();
        let mut order: Vec<u32> = Vec::new();
        let mut i: usize = 0;
        while i < sids.len()
            invariant
                i <= sids@.len(),
                names_view(inserted@) == sids@.take(i as int).map_values(
                    |p: (Seq<char>, nat)| p.0,
                ),
                order@ == sids@.take(i as int).map_values(|p: (Seq<char>, nat)| p.1 as u32),
            decreases sids@.len() - i,
        {
            let (name, idx) = sids.entry_at(i);
            let ghost bi = inserted@;
            let ghost bo = order@;
            inserted.push(name.to_owned());
            order.push(idx as u32);
            proof {
                assert(sids@.take(i + 1) =~= sids@.take(i as int).push(sids@[i as int]));
                assert(names_view(inserted@) =~= names_view(bi).push(sids@[i as int].0));
                assert(names_view(inserted@) =~= sids@.take(i + 1).map_values(
                    |p: (Seq<char>, nat)| p.0,
                ));
                assert(order@ =~= sids@.take(i + 1).map_values(|p: (Seq<char>, nat)| p.1 as u32));
            }
            i = i + 1;
        }
        proof {
            assert(sids@.take(i as int) =~= sids@);
        }
        let r = Scheduler { inserted, order, connections: Vec::new() };
        proof {
            assert(connections_view(r.connections@) =~= Seq::<(u32, Seq<u32>)>::empty());
        }
        r
    }

    /// One visit of a node during a pass.
    #[verifier::loop_isolation(false)]
    fn visit(&mut self, e: &SchedEntry, ids: &NameIndex, sids: &NameIndex, nids: &NameIndex) -> (r:
        Result<bool, ConfigError>)
        ensures
            match visit(old(self)@, e@, ids@, sids@, nids@) {
                Ok((st, b)) => r == Ok::<bool, ConfigError>(b) && final(self)@ == st,
                Err(x) => r == Err::<bool, ConfigError>(x),
            },
    {
        if !e.has_input {
            return Err(ConfigError::MissingInput);
        }
        let idx = match ids.get(e.name.as_str()) {
            Some(v) => v,
            None => {
                return Err(ConfigError::UnknownNode);
            },
        };
        if contains_name(&self.inserted, &e.name) {
            return Ok(false);
        }
        let deps = match &e.deps {
            Some(d) => d,
            None => {
                return Err(ConfigError::BadInput);
            },
        };
        let mut k: usize = 0;
        while k < deps.len()
            invariant
                k <= deps.len(),
                forall|m: int|
                    0 <= m < k ==> names_view(self.inserted@).contains(#[trigger] names_view(
                        deps@,
                    )[m]),
            decreases deps.len() - k,
        {
            if !contains_name(&self.inserted, &deps[k]) {
                proof {
                    assert(names_view(deps@)[k as int] == deps@[k as int]@);
                }
                return Ok(false);
            }
            k = k + 1;
        }
        let ps = match parent_ids_exec(deps, sids, nids) {
            Some(p) => p,
            None => {
                return Err(ConfigError::UnknownParent);
            },
        };
        let ghost old_view = self@;
        let pos = self.order.len();
        self.order.push(idx as u32);
        self.inserted.push(e.name.clone());
        if ps.len() > 0 {
            self.connections.push((pos as u32, ps));
        }
        proof {
            assert(names_view(self.inserted@) =~= old_view.inserted.push(e.name@));
            assert(self.order@ =~= old_view.order.push(idx as u32));
            if ps@.len() > 0 {
                assert(connections_view(self.connections@) =~= old_view.connections.push(
                    (pos as u32, ps@),
                ));
            }
        }
        Ok(true)
    }

    /// One pass over the nodes of a category.
    #[verifier::loop_isolation(false)]
    fn pass(&mut self, es: &Vec<SchedEntry>, ids: &NameIndex, sids: &NameIndex, nids: &NameIndex) -> (r:
        Result<usize, ConfigError>)
        ensures
            match pass(old(self)@, sched_view(es@), ids@, sids@, nids@) {
                Ok((st, k)) => r == Ok::<usize, ConfigError>(k as usize) && final(self)@ == st
                    && st.order.len() == old(self)@.order.len() + k,
                Err(x) => r == Err::<usize, ConfigError>(x),
            },
            r matches Ok(kk) ==> final(self)@.order.len() == old(self)@.order.len() + kk,
    {
        let ghost st0 = self@;
        let ghost ev = sched_view(es@);
        let mut k: usize = 0;
        let mut i: usize = 0;
        while i < es.len()
            invariant
                i <= es.len(),
                ev == sched_view(es@),
                pass(st0, ev.take(i as int), ids@, sids@, nids@) == Ok::<(SchedState, nat), ConfigError>(
                    (self@, k as nat),
                ),
                self@.order.len() == st0.order.len() + k,
                k <= i,
            decreases es.len() - i,
        {
            proof {
                assert(ev.take(i + 1).drop_last() =~= ev.take(i as int));
                assert(ev.take(i + 1).last() == es@[i as int]@);
            }
            match self.visit(&es[i], ids, sids, nids) {
                Ok(b) => {
                    if b {
                        k = k + 1;
                    }
                },
                Err(x) => {
                    proof {
                        lemma_pass_err_extends(st0, ev, ids@, sids@, nids@, i as int, x);
                    }
                    return Err(x);
                },
            }
            i = i + 1;
        }
        proof {
            assert(ev.take(i as int) =~= ev);
        }
        Ok(k)
    }

    /// Passes over a category until all its created nodes are scheduled.
    #[verifier::loop_isolation(false)]
    fn run_phase(&mut self, es: &Vec<SchedEntry>, ids: &NameIndex, sids: &NameIndex, nids: &NameIndex) -> (r:
        Result<(), ConfigError>)
        ensures
            match run_phase(
                old(self)@,
                0,
                sched_view(es@),
                ids@,
                sids@,
                nids@,
                es@.len() + 1,
            ) {
                Ok(st) => r == Ok::<(), ConfigError>(()) && final(self)@ == st,
                Err(x) => r == Err::<(), ConfigError>(x),
            },
    {
        let ghost st0 = self@;
        let ghost ev = sched_view(es@);
        let target = ids.len();
        let mut num: usize = 0;
        let mut fuel: usize = es.len();
        let ghost base = self@.order.len();
        if num == target {
            return Ok(());
        }
        let k0 = match self.pass(es, ids, sids, nids) {
            Ok(k) => k,
            Err(x) => {
                return Err(x);
            },
        };
        if k0 == 0 {
            return Err(ConfigError::Unschedulable);
        }
        num = k0;
        while num != target
            invariant
                target == ids@.len(),
                ev == sched_view(es@),
                fuel <= es@.len(),
                self@.order.len() == base + num,
                run_phase(st0, 0, ev, ids@, sids@, nids@, es@.len() + 1) == run_phase(
                    self@,
                    num as nat,
                    ev,
                    ids@,
                    sids@,
                    nids@,
                    fuel as nat,
                ),
            decreases fuel,
        {
            if fuel == 0 {
                return Err(ConfigError::Unschedulable);
            }
            let k = match self.pass(es, ids, sids, nids) {
                Ok(k) => k,
                Err(x) => {
                    return Err(x);
                },
            };
            if k == 0 {
                return Err(ConfigError::Unschedulable);
            }
            let _len = self.order.len();
            num = num + k;
            fuel = fuel - 1;
        }
        Ok(())
    }

    /// The connections and execution order scheduled so far.
    pub fn into_parts(self) -> (r: (Vec<(u32, Vec<u32>)>, Vec<u32>))
        ensures
            connections_view(r.0@) == self@.connections,
            r.1@ == self@.order,
    {
        (self.connections, self.order)
    }
}

/// Once a visit fails, the pass fails.
proof fn lemma_pass_err_extends(
    st0: SchedState,
    es: Seq<EntryView>,
    ids: Seq<(Seq<char>, nat)>,
    sids: Seq<(Seq<char>, nat)>,
    nids: Seq<(Seq<char>, nat)>,
    i: int,
    x: ConfigError,
)
    requires
        0 <= i < es.len(),
        pass(st0, es.take(i + 1), ids, sids, nids) == Err::<(SchedState, nat), ConfigError>(x),
    ensures
        pass(st0, es, ids, sids, nids) == Err::<(SchedState, nat), ConfigError>(x),
    decreases es.len() - i,
{
    if i + 1 < es.len() {
        assert(es.take(i + 2).drop_last() =~= es.take(i + 1));
        lemma_pass_err_extends(st0, es, ids, sids, nids, i + 1, x);
    } else {
        assert(es.take(i + 1) =~= es);
    }
}

/// The execution order of a pipeline and, for each scheduled node with
/// inputs, its position in that order and the indices of its input nodes.
/// `starter_ids`, `node_ids` and `finisher_ids` map the names of the created
/// nodes of each category to their indices; `nodes` and `finishers` are the
/// description's `imgproc` and `finishers` members. An input may be an array
/// of input strings only when `allow_arrays`.
pub fn find_connections(
    starter_ids: &NameIndex,
    node_ids: &NameIndex,
    finisher_ids: &NameIndex,
    nodes: &Json,
    finishers: &Json,
    allow_arrays: bool,
) -> (r: Result<(Vec<(u32, Vec<u32>)>, Vec<u32>), ConfigError>)
    ensures
        match schedule(
            starter_ids@,
            node_ids@,
            finisher_ids@,
            entries_view_of(nodes.entries(), allow_arrays),
            entries_view_of(finishers.entries(), allow_arrays),
        ) {
            Ok(st) => r is Ok && connections_view(r->Ok_0.0@) == st.connections && r->Ok_0.1@
                == st.order,
            Err(x) => r == Err::<(Vec<(u32, Vec<u32>)>, Vec<u32>), ConfigError>(x),
        },
{
    let node_es = schedule_entries(nodes, allow_arrays);
    let fin_es = schedule_entries(finishers, allow_arrays);
    let mut s = Scheduler::new(starter_ids);
    match s.run_phase(&node_es, node_ids, starter_ids, node_ids) {
        Ok(()) => {},
        Err(x) => {
            return Err(x);
        },
    }
    match s.run_phase(&fin_es, finisher_ids, starter_ids, node_ids) {
        Ok(()) => {},
        Err(x) => {
            return Err(x);
        },
    }
    Ok(s.into_parts())
}

} // verus!
