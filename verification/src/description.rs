//! Reading the nodes of a pipeline description: which nodes are created,
//! their indices, the configuration messages and the schedule.
use crate::config::{ConfigMessage, MessageView, category_messages, configuration_messages, messages_view, pairs_view, patterns_nonempty};
use crate::error::ConfigError;
use crate::json_doc::Json;
use crate::name_index::{NameIndex, assoc_insert};
use crate::node_kind::{KindTable, NodeKind, reported_name, reported_name_exec, table_lookup};
use crate::schedule::{SchedState, connections_view, entries_view_of, find_connections, schedule};
use vstd::prelude::*;

verus! {

/// The type name of the description member `key: v`: its `type` member when
/// it has one (which must be a string), else its key.
pub open spec fn type_name_of(key: Seq<char>, v: Json) -> Option<Seq<char>> {
    if v.spec_has_key("type"@) {
        v.at_key("type"@).spec_as_str()
    } else {
        Some(key)
    }
}

/// The nodes created from the members of a category: every member whose type
/// name the table knows, under the name the node reports.
pub open spec fn created(entries: Seq<(String, Json)>, table: Seq<(Seq<char>, NodeKind)>) -> Result<
    Seq<(Seq<char>, NodeKind)>,
    ConfigError,
>
    decreases entries.len(),
{
    if entries.len() == 0 {
        Ok(Seq::empty())
    } else {
        match created(entries.drop_last(), table) {
            Err(e) => Err(e),
            Ok(ds) => {
                let last = entries.last();
                match type_name_of(last.0@, last.1) {
                    None => Err(ConfigError::BadType),
                    Some(t) => match table_lookup(table, t) {
                        Some(k) => Ok(ds.push((reported_name(k, last.0@), k))),
                        None => Ok(ds),
                    },
                }
            },
        }
    }
}

/// The name to index table of created nodes whose indices start at `base`.
pub open spec fn ids_from(ds: Seq<(Seq<char>, NodeKind)>, base: nat) -> Seq<(Seq<char>, nat)>
    decreases ds.len(),
{
    if ds.len() == 0 {
        Seq::empty()
    } else {
        assoc_insert(ids_from(ds.drop_last(), base), ds.last().0, (base + ds.len() - 1) as nat)
    }
}

/// The nodes, messages and schedule that a description yields.
pub struct DescriptionView {
    pub nodes: Seq<(Seq<char>, NodeKind)>,
    pub order: Seq<u32>,
    pub connections: Seq<(u32, Seq<u32>)>,
    pub messages: Seq<MessageView>,
}

/// The tables of a reader: starters, image processors, finishers.
pub struct TablesView {
    pub starters: Seq<(Seq<char>, NodeKind)>,
    pub processors: Seq<(Seq<char>, NodeKind)>,
    pub finishers: Seq<(Seq<char>, NodeKind)>,
}

/// The nodes of a description `root`: the members of `starters`, `imgproc`
/// and `finishers` are created in that order (a failure to read a type stops
/// the reading), their configuration messages are produced in that order,
/// and then they are scheduled.
pub open spec fn read_nodes(
    root: Json,
    tables: TablesView,
    reserved: Seq<(Seq<char>, Seq<char>)>,
    numbers: bool,
    allow_arrays: bool,
) -> Result<DescriptionView, ConfigError> {
    let starters = root.at_key("starters"@);
    let nodes = root.at_key("imgproc"@);
    let finishers = root.at_key("finishers"@);
    match created(starters.entries(), tables.starters) {
        Err(e) => Err(e),
        Ok(sd) => match created(nodes.entries(), tables.processors) {
            Err(e) => Err(e),
            Ok(nd) => match created(finishers.entries(), tables.finishers) {
                Err(e) => Err(e),
                Ok(fd) => match schedule(
                    ids_from(sd, 0),
                    ids_from(nd, sd.len()),
                    ids_from(fd, sd.len() + nd.len()),
                    entries_view_of(nodes.entries(), allow_arrays),
                    entries_view_of(finishers.entries(), allow_arrays),
                ) {
                    Err(e) => Err(e),
                    Ok(st) => Ok(
                        DescriptionView {
                            nodes: sd + nd + fd,
                            order: st.order,
                            connections: st.connections,
                            messages: category_messages(starters.entries(), reserved, numbers)
                                + category_messages(nodes.entries(), reserved, numbers)
                                + category_messages(finishers.entries(), reserved, numbers),
                        },
                    ),
                },
            },
        },
    }
}

/// A created node: the name it reports and its kind.
pub struct NodeDecl {
    pub name: String,
    pub kind: NodeKind,
}

/// The abstract value of a list of created nodes.
pub open spec fn decls_view(d: Seq<NodeDecl>) -> Seq<(Seq<char>, NodeKind)> {
    d.map_values(|x: NodeDecl| (x.name@, x.kind))
}

/// The nodes, messages and schedule of a description.
pub struct Description {
    pub nodes: Vec<NodeDecl>,
    pub execution_order: Vec<u32>,
    pub connections: Vec<(u32, Vec<u32>)>,
    pub messages: Vec<ConfigMessage>,
}

impl View for Description {
    type V = DescriptionView;

    open spec fn view(&self) -> DescriptionView {
        DescriptionView {
            nodes: decls_view(self.nodes@),
            order: self.execution_order@,
            connections: connections_view(self.connections@),
            messages: messages_view(self.messages@),
        }
    }
}

/// The type name of a member.
fn type_name_exec(key: &str, v: &Json) -> (r: Option<String>)
    ensures
        match r {
            Some(t) => type_name_of(key@, *v) == Some(t@),
            None => type_name_of(key@, *v) is None,
        },
{
    match v.get("type") {
        Some(t) => match t.as_str() {
            Some(s) => Some(s.to_owned()),
            None => None,
        },
        None => Some(key.to_owned()),
    }
}

/// Creates the nodes of a category, appending them to `nodes` and their
/// indices to `ids`.
fn create_nodes(category: &Json, table: &KindTable, nodes: &mut Vec<NodeDecl>, ids: &mut NameIndex) -> (r:
    Result<(), ConfigError>)
    requires
        old(ids)@ == Seq::<(Seq<char>, nat)>::empty(),
    ensures
        match created(category.entries(), table@) {
            Ok(ds) => r is Ok && decls_view(final(nodes)@) == decls_view(old(nodes)@) + ds
                && final(ids)@ == ids_from(ds, old(nodes)@.len()),
            Err(x) => r == Err::<(), ConfigError>(x),
        },
{
    let members = category.members();
    let ghost base = nodes@.len();
    let ghost start = decls_view(nodes@);
    let mut i: usize = 0;
    proof {
        assert(start + Seq::<(Seq<char>, NodeKind)>::empty() =~= start);
    }
    while i < members.len()
        invariant
            i <= members.len(),
            members@ == category.entries(),
            base <= nodes@.len(),
            created(members@.take(i as int), table@) matches Ok(ds) && decls_view(nodes@) == start
                + ds && ids@ == ids_from(ds, base) && nodes@.len() == base + ds.len(),
        decreases members.len() - i,
    {
        proof {
            assert(members@.take(i + 1).drop_last() =~= members@.take(i as int));
            assert(members@.take(i + 1).last() == members@[i as int]);
        }
        let ghost ds = created(members@.take(i as int), table@)->Ok_0;
        let tn = match type_name_exec(members[i].0.as_str(), &members[i].1) {
            Some(t) => t,
            None => {
                proof {
                    lemma_created_err_extends(members@, table@, i as int);
                }
                return Err(ConfigError::BadType);
            },
        };
        match table.lookup(tn.as_str()) {
            Some(k) => {
                let name = reported_name_exec(k, members[i].0.as_str());
                let ghost before = nodes@;
                let idx = nodes.len();
                ids.insert(name.as_str(), idx);
                nodes.push(NodeDecl { name, kind: k });
                proof {
                    let nds = ds.push((reported_name(k, members@[i as int].0@), k));
                    assert(decls_view(nodes@) =~= decls_view(before).push(
                        (reported_name(k, members@[i as int].0@), k),
                    ));
                    assert(decls_view(nodes@) =~= start + nds);
                    assert(nds.drop_last() =~= ds);
                }
            },
            None => {},
        }
        i = i + 1;
    }
    proof {
        assert(members@.take(i as int) =~= members@);
    }
    Ok(())
}

/// Once a prefix of the members fails to create, the whole category does.
proof fn lemma_created_err_extends(entries: Seq<(String, Json)>, table: Seq<(Seq<char>, NodeKind)>, i: int)
    requires
        0 <= i < entries.len(),
        created(entries.take(i + 1), table) is Err,
    ensures
        created(entries, table) == created(entries.take(i + 1), table),
    decreases entries.len() - i,
{
    if i + 1 < entries.len() {
        assert(entries.take(i + 2).drop_last() =~= entries.take(i + 1));
        lemma_created_err_extends(entries, table, i + 1);
    } else {
        assert(entries.take(i + 1) =~= entries);
    }
}

/// Reads the nodes of a description: creates them, produces their
/// configuration messages and schedules them.
pub fn read_nodes_exec(
    root: &Json,
    starter_table: &KindTable,
    processor_table: &KindTable,
    finisher_table: &KindTable,
    reserved: &Vec<(String, String)>,
    numbers: bool,
    allow_arrays: bool,
) -> (r: Result<Description, ConfigError>)
    requires
        patterns_nonempty(pairs_view(reserved@)),
    ensures
        match read_nodes(
            *root,
            TablesView {
                starters: starter_table@,
                processors: processor_table@,
                finishers: finisher_table@,
            },
            pairs_view(reserved@),
            numbers,
            allow_arrays,
        ) {
            Ok(d) => r is Ok && r->Ok_0@ == d,
            Err(x) => r is Err && r->Err_0 == x,
        },
{
    let null = Json::Null;
    let starters = match root.get("starters") {
        Some(v) => v,
        None => &null,
    };
    let nodes = match root.get("imgproc") {
        Some(v) => v,
        None => &null,
    };
    let finishers = match root.get("finishers") {
        Some(v) => v,
        None => &null,
    };
    let mut decls: Vec<NodeDecl> = Vec::new();
    let mut starter_ids = NameIndex::new();
    let mut node_ids = NameIndex::new();
    let mut finisher_ids = NameIndex::new();
    proof {
        assert(decls_view(decls@) =~= Seq::<(Seq<char>, NodeKind)>::empty());
    }
    match create_nodes(starters, starter_table, &mut decls, &mut starter_ids) {
        Ok(()) => {},
        Err(x) => {
            return Err(x);
        },
    }
    let ghost sd = decls_view(decls@);
    match create_nodes(nodes, processor_table, &mut decls, &mut node_ids) {
        Ok(()) => {},
        Err(x) => {
            return Err(x);
        },
    }
    let ghost snd = decls_view(decls@);
    match create_nodes(finishers, finisher_table, &mut decls, &mut finisher_ids) {
        Ok(()) => {},
        Err(x) => {
            return Err(x);
        },
    }
    let mut messages = configuration_messages(starters, reserved, numbers);
    let mut m2 = configuration_messages(nodes, reserved, numbers);
    let mut m3 = configuration_messages(finishers, reserved, numbers);
    let ghost m1v = messages_view(messages@);
    let ghost m2v = messages_view(m2@);
    let ghost m3v = messages_view(m3@);
    messages.append(&mut m2);
    messages.append(&mut m3);
    proof {
        assert(messages_view(messages@) =~= m1v + m2v + m3v);
    }
    match find_connections(&starter_ids, &node_ids, &finisher_ids, nodes, finishers, allow_arrays) {
        Ok((connections, execution_order)) => Ok(
            Description { nodes: decls, execution_order, connections, messages },
        ),
        Err(x) => Err(x),
    }
}

} // verus!
