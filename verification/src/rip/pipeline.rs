//! The decisions of a running pipeline: the steps that set up its nodes after
//! a description is read, the node names it answers network requests for, how
//! it answers them, when it stops and when it reads its description again.
use crate::error::ConfigError;
use crate::name_index::{NameIndex, assoc_get, assoc_insert};
use crate::rip::node_parser::{PipelineDescription, PipelineView, parse_json, pipeline_of};
use crate::json_doc::parsed_json;
use crate::description::{NodeDecl, decls_view};
use crate::node_kind::NodeKind;
use crate::schedule::connections_view;
use vstd::prelude::*;

verus! {

/// One step of setting up the nodes: give a node its output image, give a
/// node the image of another node as input, or record a node's work.
#[derive(PartialEq, Eq, Structural, Clone, Copy, Debug)]
pub enum SetupStep {
    Assign { node: u32 },
    Input { node: u32, image: u32 },
    Execute { node: u32 },
}

/// The inputs listed for the node at `key`: the first entry with that key.
pub open spec fn edge_lookup(edges: Seq<(u32, Seq<u32>)>, key: u32) -> Option<Seq<u32>>
    decreases edges.len(),
{
    if edges.len() == 0 {
        None
    } else if edges[0].0 == key {
        Some(edges[0].1)
    } else {
        edge_lookup(edges.drop_first(), key)
    }
}

/// The input steps of `node` for the images `ids`, in order.
pub open spec fn input_steps(node: u32, ids: Seq<u32>) -> Seq<SetupStep> {
    ids.map_values(|id: u32| SetupStep::Input { node, image: id })
}

/// The steps of one node: its output image, then its inputs (looked up by
/// the node's index among the connections), then its work.
pub open spec fn node_steps(node: u32, edges: Seq<(u32, Seq<u32>)>) -> Seq<SetupStep> {
    seq![SetupStep::Assign { node }] + match edge_lookup(edges, node) {
        Some(ids) => input_steps(node, ids),
        None => Seq::empty(),
    } + seq![SetupStep::Execute { node }]
}

/// The steps of all nodes, in execution order.
pub open spec fn setup_plan(order: Seq<u32>, edges: Seq<(u32, Seq<u32>)>) -> Seq<SetupStep>
    decreases order.len(),
{
    if order.len() == 0 {
        Seq::empty()
    } else {
        setup_plan(order.drop_last(), edges) + node_steps(order.last(), edges)
    }
}

fn edge_lookup_exec(edges: &Vec<(u32, Vec<u32>)>, key: u32) -> (r: Option<&Vec<u32>>)
    ensures
        match edge_lookup(connections_view(edges@), key) {
            Some(ids) => r is Some && r->0@ == ids,
            None => r is None,
        },
{
    let ghost ev = connections_view(edges@);
    let mut i: usize = 0;
    proof {
        assert(ev.skip(0) =~= ev);
    }
    while i < edges.len()
        invariant
            i <= edges.len(),
            ev == connections_view(edges@),
            edge_lookup(ev, key) == edge_lookup(ev.skip(i as int), key),
        decreases edges.len() - i,
    {
        proof {
            assert(ev.skip(i as int).drop_first() =~= ev.skip(i + 1));
            assert(ev.skip(i as int)[0] == ev[i as int]);
        }
        if edges[i].0 == key {
            return Some(&edges[i].1);
        }
        i = i + 1;
    }
    None
}

/// The steps that set up the nodes after a description is read: for each
/// node in execution order, its output image, the images of the nodes listed
/// for it among the connections, and its work.
pub fn setup_steps(order: &Vec<u32>, edges: &Vec<(u32, Vec<u32>)>) -> (r: Vec<SetupStep>)
    ensures
        r@ == setup_plan(order@, connections_view(edges@)),
{
    let ghost ev = connections_view(edges@);
    let mut r: Vec<SetupStep> = Vec::new();
    let mut i: usize = 0;
    while i < order.len()
        invariant
            i <= order.len(),
            ev == connections_view(edges@),
            r@ == setup_plan(order@.take(i as int), ev),
        decreases order.len() - i,
    {
        proof {
            assert(order@.take(i + 1).drop_last() =~= order@.take(i as int));
            assert(order@.take(i + 1).last() == order@[i as int]);
        }
        let node = order[i];
        let ghost before = r@;
        r.push(SetupStep::Assign { node });
        match edge_lookup_exec(edges, node) {
            Some(ids) => {
                let mut k: usize = 0;
                while k < ids.len()
                    invariant
                        k <= ids.len(),
                        r@ == before + seq![SetupStep::Assign { node }] + input_steps(
                            node,
                            ids@.take(k as int),
                        ),
                    decreases ids.len() - k,
                {
                    r.push(SetupStep::Input { node, image: ids[k] });
                    proof {
                        assert(input_steps(node, ids@.take(k + 1)) =~= input_steps(
                            node,
                            ids@.take(k as int),
                        ).push(SetupStep::Input { node, image: ids@[k as int] }));
                    }
                    k = k + 1;
                }
                proof {
                    assert(ids@.take(k as int) =~= ids@);
                }
            },
            None => {
                proof {
                    assert(before + seq![SetupStep::Assign { node }] =~= before + seq![
                        SetupStep::Assign { node },
                    ] + Seq::<SetupStep>::empty());
                }
            },
        }
        r.push(SetupStep::Execute { node });
        proof {
            assert(r@ =~= before + node_steps(node, ev));
        }
        i = i + 1;
    }
    proof {
        assert(order@.take(i as int) =~= order@);
    }
    r
}

/// The kinds of request the network interface serves.
#[derive(PartialEq, Eq, Structural, Clone, Copy, Debug)]
pub enum RequestType {
    Image,
    Configuration,
    Other,
}

/// A request: its type and the node it names.
pub struct Request {
    pub request_type: RequestType,
    pub node_name: String,
}

/// How a request is answered.
pub enum NetworkAction {
    /// Send the pixels of a node's image, after waiting for the running
    /// frame when `synchronize`.
    SendImage { synchronize: bool, node: usize },
    /// Send the description text.
    SendConfiguration { json: String },
    /// Let the node answer.
    AskNode { node: usize },
}

/// Why a request cannot be answered.
#[derive(PartialEq, Eq, Structural, Clone, Copy, Debug)]
pub enum NetworkError {
    /// The request names no node of the pipeline.
    UnknownNode,
}

/// The abstract value of a moment in time, as files report it.
#[derive(PartialEq, Eq, Structural, Clone, Copy, Debug)]
pub struct FileStamp {
    pub before_epoch: bool,
    pub secs: u64,
    pub nanos: u32,
}

/// What a window event does to a running pipeline.
#[derive(PartialEq, Eq, Structural, Clone, Copy, Debug)]
pub enum WindowEvent {
    /// The user asks the program to quit.
    Quit,
    /// A window is closed.
    WindowClose,
    /// Any other event.
    Other,
}

/// Whether the pipeline keeps running after `event`: not after a quit
/// request or a closed window.
pub open spec fn keeps_running(running: bool, event: WindowEvent) -> bool {
    match event {
        WindowEvent::Quit | WindowEvent::WindowClose => false,
        WindowEvent::Other => running,
    }
}

/// Whether a pipeline that was `running` still runs once `events` have been
/// handled in order, each as `handle_event` handles it.
pub open spec fn runs_after(running: bool, events: Seq<WindowEvent>) -> bool
    decreases events.len(),
{
    if events.len() == 0 {
        running
    } else {
        keeps_running(runs_after(running, events.drop_last()), events.last())
    }
}

/// The text nodes answer with when they do not serve network requests.
pub fn default_node_response() -> (r: String)
    ensures
        r@ == "Node has not implemented network responses!"@,
{
    "Node has not implemented network responses!".to_owned()
}

/// The state of a running pipeline that its decisions read.
pub struct Pipeline {
    node_name_map: NameIndex,
    execution_order: Vec<u32>,
    edges: Vec<(u32, Vec<u32>)>,
    node_count: usize,
    first: bool,
    should_run: bool,
    json_file: String,
    json_configuration: String,
    json_timestamp: Option<FileStamp>,
}

/// The abstract value of a running pipeline.
pub struct PipelineState {
    pub node_name_map: Seq<(Seq<char>, nat)>,
    pub execution_order: Seq<u32>,
    pub edges: Seq<(u32, Seq<u32>)>,
    pub node_count: nat,
    pub first: bool,
    pub should_run: bool,
    pub json_file: Seq<char>,
    pub json_configuration: Seq<char>,
    pub json_timestamp: Option<FileStamp>,
}

impl View for Pipeline {
    type V = PipelineState;

    closed spec fn view(&self) -> PipelineState {
        PipelineState {
            node_name_map: self.node_name_map@,
            execution_order: self.execution_order@,
            edges: connections_view(self.edges@),
            node_count: self.node_count as nat,
            first: self.first,
            should_run: self.should_run,
            json_file: self.json_file@,
            json_configuration: self.json_configuration@,
            json_timestamp: self.json_timestamp,
        }
    }
}

/// The name map after the created nodes are entered, each under its index.
pub open spec fn names_entered(
    map: Seq<(Seq<char>, nat)>,
    nodes: Seq<(Seq<char>, NodeKind)>,
) -> Seq<(Seq<char>, nat)>
    decreases nodes.len(),
{
    if nodes.len() == 0 {
        map
    } else {
        assoc_insert(names_entered(map, nodes.drop_last()), nodes.last().0, (nodes.len() - 1) as nat)
    }
}

impl Pipeline {
    /// A pipeline that has read no description: it is on its first frame
    /// and keeps running.
    pub fn new() -> (r: Self)
        ensures
            r@.node_name_map == Seq::<(Seq<char>, nat)>::empty(),
            r@.execution_order == Seq::<u32>::empty(),
            r@.edges == Seq::<(u32, Seq<u32>)>::empty(),
            r@.node_count == 0,
            r@.first,
            r@.should_run,
            r@.json_file == Seq::<char>::empty(),
            r@.json_configuration == Seq::<char>::empty(),
            r@.json_timestamp is None,
    {
        let r = Pipeline {
            node_name_map: NameIndex::new(),
            execution_order: Vec::new(),
            edges: Vec::new(),
            node_count: 0,
            first: true,
            should_run: true,
            json_file: String::new(),
            json_configuration: String::new(),
            json_timestamp: None,
        };
        proof {
            assert(r@.execution_order =~= Seq::<u32>::empty());
            assert(r@.edges =~= Seq::<(u32, Seq<u32>)>::empty());
        }
        r
    }

    /// Whether the pipeline keeps running.
    pub fn should_run(&self) -> (r: bool)
        ensures
            r == self@.should_run,
    {
        self.should_run
    }

    /// Reacts to a window event: a quit request or a closed window stops the
    /// pipeline.
    pub fn handle_event(&mut self, event: WindowEvent)
        ensures
            final(self)@ == (PipelineState {
                should_run: keeps_running(old(self)@.should_run, event),
                ..old(self)@
            }),
    {
        match event {
            WindowEvent::Quit | WindowEvent::WindowClose => {
                self.should_run = false;
            },
            WindowEvent::Other => {},
        }
    }

    /// Reacts to the window events `events`, in order.
    pub fn handle_events(&mut self, events: &Vec<WindowEvent>)
        ensures
            final(self)@ == (PipelineState {
                should_run: runs_after(old(self)@.should_run, events@),
                ..old(self)@
            }),
    {
        let mut i: usize = 0;
        while i < events.len()
            invariant
                i <= events.len(),
                self@ == (PipelineState {
                    should_run: runs_after(old(self)@.should_run, events@.take(i as int)),
                    ..old(self)@
                }),
            decreases events.len() - i,
        {
            proof {
                assert(events@.take(i + 1).drop_last() =~= events@.take(i as int));
                assert(events@.take(i + 1).last() == events@[i as int]);
            }
            self.handle_event(events[i]);
            i = i + 1;
        }
        proof {
            assert(events@.take(i as int) =~= events@);
        }
    }

    /// Starts a frame: returns whether this is the first frame (when the
    /// window events start to be watched); any later frame first waits for
    /// the previous one.
    pub fn begin_frame(&mut self) -> (first: bool)
        ensures
            first == old(self)@.first,
            final(self)@ == (PipelineState { first: false, ..old(self)@ }),
    {
        let first = self.first;
        self.first = false;
        first
    }

    /// The nodes in execution order, which are told after each frame.
    pub fn execution_order(&self) -> (r: &Vec<u32>)
        ensures
            r@ == self@.execution_order,
    {
        &self.execution_order
    }

    /// The text of the description read last.
    pub fn json_configuration(&self) -> (r: &String)
        ensures
            r@ == self@.json_configuration,
    {
        &self.json_configuration
    }

    /// The path of the description read last.
    pub fn json_file(&self) -> (r: &String)
        ensures
            r@ == self@.json_file,
    {
        &self.json_file
    }

    /// The index of the node named `name`.
    pub fn node_index(&self, name: &str) -> (r: Option<usize>)
        ensures
            match r {
                Some(v) => assoc_get(self@.node_name_map, name@) == Some(v as nat),
                None => assoc_get(self@.node_name_map, name@) is None,
            },
    {
        self.node_name_map.get(name)
    }

    /// Reads the description `contents` of the file `path`, modified at
    /// `modified` (`None` when the time cannot be had, which keeps the time
    /// read before), `${SRC_DIR}` standing for `src_dir`. The path and the
    /// text are kept, the created nodes are entered in the name map (which
    /// keeps the names of earlier descriptions), and the steps that set up the
    /// nodes are returned with the description.
    pub fn parse_json(
        &mut self,
        path: &str,
        contents: &str,
        modified: Option<FileStamp>,
        src_dir: &str,
    ) -> (r: Result<(PipelineDescription, Vec<SetupStep>), ConfigError>)
        ensures
            final(self)@.json_file == path@,
            final(self)@.json_configuration == contents@,
            r is Err ==> final(self)@ == (PipelineState {
                json_file: path@,
                json_configuration: contents@,
                ..old(self)@
            }),
            match parsed_json(contents@) {
                None => r is Err && r->Err_0 == ConfigError::Syntax,
                Some(root) => match pipeline_of(root, src_dir@) {
                    Err(e) => r is Err && r->Err_0 == e,
                    Ok(p) => r is Ok && r->Ok_0.0@ == p && r->Ok_0.1@ == setup_plan(
                        p.description.order,
                        p.description.connections,
                    ) && final(self)@ == (PipelineState {
                        node_name_map: names_entered(
                            old(self)@.node_name_map,
                            p.description.nodes,
                        ),
                        execution_order: p.description.order,
                        edges: p.description.connections,
                        node_count: p.description.nodes.len(),
                        first: old(self)@.first,
                        should_run: old(self)@.should_run,
                        json_file: path@,
                        json_configuration: contents@,
                        json_timestamp: if modified is Some {
                            modified
                        } else {
                            old(self)@.json_timestamp
                        },
                    }),
                },
            },
    {
        let p = match parse_json(contents, src_dir) {
            Ok(p) => p,
            Err(e) => {
                self.json_file = path.to_owned();
                self.json_configuration = contents.to_owned();
                return Err(e);
            },
        };
        enter_names(&mut self.node_name_map, &p.description.nodes);
        self.node_count = p.description.nodes.len();
        let steps = setup_steps(&p.description.execution_order, &p.description.connections);
        self.execution_order = copy_u32s(&p.description.execution_order);
        self.edges = copy_connections(&p.description.connections);
        if modified.is_some() {
            self.json_timestamp = modified;
        }
        self.json_file = path.to_owned();
        self.json_configuration = contents.to_owned();
        Ok((p, steps))
    }

    /// How to answer a request. An image request names a node and is
    /// answered with that node's image, waiting for the running frame unless
    /// this is the first frame; a configuration request is answered with the
    /// description text; any other request is passed to the node it names.
    /// A request naming no node is refused.
    pub fn network_action(&self, req: &Request) -> (r: Result<NetworkAction, NetworkError>)
        ensures
            match req.request_type {
                RequestType::Configuration => r matches Ok(NetworkAction::SendConfiguration { json })
                    && json@ == self@.json_configuration,
                RequestType::Image => match assoc_get(self@.node_name_map, req.node_name@) {
                    Some(v) => r == Ok::<NetworkAction, NetworkError>(
                        NetworkAction::SendImage { synchronize: !self@.first, node: v as usize },
                    ),
                    None => r == Err::<NetworkAction, NetworkError>(NetworkError::UnknownNode),
                },
                RequestType::Other => match assoc_get(self@.node_name_map, req.node_name@) {
                    Some(v) => r == Ok::<NetworkAction, NetworkError>(
                        NetworkAction::AskNode { node: v as usize },
                    ),
                    None => r == Err::<NetworkAction, NetworkError>(NetworkError::UnknownNode),
                },
            },
    {
        match req.request_type {
            RequestType::Configuration => Ok(
                NetworkAction::SendConfiguration { json: self.json_configuration.clone() },
            ),
            RequestType::Image => match self.node_name_map.get(req.node_name.as_str()) {
                Some(v) => Ok(NetworkAction::SendImage { synchronize: !self.first, node: v }),
                None => Err(NetworkError::UnknownNode),
            },
            RequestType::Other => match self.node_name_map.get(req.node_name.as_str()) {
                Some(v) => Ok(NetworkAction::AskNode { node: v }),
                None => Err(NetworkError::UnknownNode),
            },
        }
    }

    /// Whether the description must be read again: the file's modification
    /// time `current` (`None` when it cannot be had) differs from the one
    /// read last. A file whose time can be had now but could not when it
    /// was read is refused with `None`.
    pub fn reload_needed(&self, current: Option<FileStamp>) -> (r: Option<bool>)
        ensures
            r == match current {
                None => Some(false),
                Some(t) => match self@.json_timestamp {
                    None => None::<bool>,
                    Some(s) => Some(s != t),
                },
            },
    {
        match current {
            None => Some(false),
            Some(t) => match self.json_timestamp {
                None => None,
                Some(s) => Some(s != t),
            },
        }
    }
}

/// Enters each node of `nodes` in `map` under its index.
fn enter_names(map: &mut NameIndex, nodes: &Vec<NodeDecl>)
    ensures
        final(map)@ == names_entered(old(map)@, decls_view(nodes@)),
{
    let ghost start = map@;
    let mut i: usize = 0;
    while i < nodes.len()
        invariant
            i <= nodes.len(),
            map@ == names_entered(start, decls_view(nodes@).take(i as int)),
        decreases nodes.len() - i,
    {
        proof {
            assert(decls_view(nodes@).take(i + 1).drop_last() =~= decls_view(nodes@).take(
                i as int,
            ));
            assert(decls_view(nodes@).take(i + 1).last() == decls_view(nodes@)[i as int]);
        }
        map.insert(nodes[i].name.as_str(), i);
        i = i + 1;
    }
    proof {
        assert(decls_view(nodes@).take(i as int) =~= decls_view(nodes@));
    }
}

/// A copy of a list of connections.
pub fn copy_connections(c: &Vec<(u32, Vec<u32>)>) -> (r: Vec<(u32, Vec<u32>)>)
    ensures
        connections_view(r@) == connections_view(c@),
{
    let mut r: Vec<(u32, Vec<u32>)> = Vec::new();
    let mut k: usize = 0;
    while k < c.len()
        invariant
            k <= c.len(),
            connections_view(r@) == connections_view(c@).take(k as int),
        decreases c.len() - k,
    {
        let ghost before = r@;
        let ids = copy_u32s(&c[k].1);
        r.push((c[k].0, ids));
        proof {
            assert(connections_view(r@) =~= connections_view(before).push(
                (c@[k as int].0, c@[k as int].1@),
            ));
            assert(connections_view(c@).take(k + 1) =~= connections_view(c@).take(k as int).push(
                connections_view(c@)[k as int],
            ));
        }
        k = k + 1;
    }
    proof {
        assert(connections_view(c@).take(k as int) =~= connections_view(c@));
    }
    r
}

/// A copy of a list of indices.
pub fn copy_u32s(v: &Vec<u32>) -> (r: Vec<u32>)
    ensures
        r@ == v@,
{
    let mut r: Vec<u32> = Vec::new();
    let mut i: usize = 0;
    while i < v.len()
        invariant
            i <= v.len(),
            r@ == v@.take(i as int),
        decreases v.len() - i,
    {
        r.push(v[i]);
        i = i + 1;
        proof {
            assert(r@ =~= v@.take(i as int));
        }
    }
    proof {
        assert(v@.take(i as int) =~= v@);
    }
    r
}

/// How the program runs its pipeline.
#[derive(PartialEq, Eq, Structural, Clone, Copy, Debug)]
pub enum RunMode {
    /// One frame.
    Once,
    /// Frames until the pipeline stops.
    Repeat,
}

/// The run mode chosen by the argument that follows the description path:
/// `--repeat` repeats, anything else (or nothing) runs one frame.
pub fn run_mode(arg: Option<&str>) -> (r: RunMode)
    ensures
        r == match arg {
            Some(a) => if a@ == "--repeat"@ {
                RunMode::Repeat
            } else {
                RunMode::Once
            },
            None => RunMode::Once,
        },
{
    match arg {
        Some(a) => if crate::text::str_eq(a, "--repeat") {
            RunMode::Repeat
        } else {
            RunMode::Once
        },
        None => RunMode::Once,
    }
}

} // verus!
