//! The decisions of a running SWSPP pipeline: the steps that set up its
//! nodes after its description is read, and when it stops.
use crate::description::Description;
use crate::error::ConfigError;
use crate::json_doc::parsed_json;
use crate::rip::pipeline::{SetupStep, WindowEvent, keeps_running, setup_plan, setup_steps};
use crate::swspp::node_parser::{description_of, parse_json};
use crate::schedule::connections_view;
use vstd::prelude::*;

verus! {

/// The state of a running SWSPP pipeline that its decisions read.
pub struct Pipeline {
    execution_order: Vec<u32>,
    edges: Vec<(u32, Vec<u32>)>,
    node_count: usize,
    first: bool,
    should_run: bool,
}

/// The abstract value of a running SWSPP pipeline.
pub struct PipelineState {
    pub execution_order: Seq<u32>,
    pub edges: Seq<(u32, Seq<u32>)>,
    pub node_count: nat,
    pub first: bool,
    pub should_run: bool,
}

impl View for Pipeline {
    type V = PipelineState;

    closed spec fn view(&self) -> PipelineState {
        PipelineState {
            execution_order: self.execution_order@,
            edges: connections_view(self.edges@),
            node_count: self.node_count as nat,
            first: self.first,
            should_run: self.should_run,
        }
    }
}

impl Pipeline {
    /// A pipeline that has read no description: it is on its first frame
    /// and keeps running.
    pub fn new() -> (r: Self)
        ensures
            r@.execution_order == Seq::<u32>::empty(),
            r@.edges == Seq::<(u32, Seq<u32>)>::empty(),
            r@.node_count == 0,
            r@.first,
            r@.should_run,
    {
        let r = Pipeline {
            execution_order: Vec::new(),
            edges: Vec::new(),
            node_count: 0,
            first: true,
            should_run: true,
        };
        proof {
            assert(r@.execution_order =~= Seq::<u32>::empty());
            assert(r@.edges =~= Seq::<(u32, Seq<u32>)>::empty());
        }
        r
    }

    /// Reads the description text `contents`, `${SRC_DIR}` standing for
    /// `src_dir`: the pipeline takes its schedule, and the steps that set up
    /// the nodes are returned with the description. A description that
    /// cannot be read leaves the pipeline unchanged.
    pub fn parse_json(&mut self, contents: &str, src_dir: &str) -> (r: Result<
        (Description, Vec<SetupStep>),
        ConfigError,
    >)
        ensures
            match parsed_json(contents@) {
                None => r is Err && r->Err_0 == ConfigError::Syntax && final(self)@ == old(self)@,
                Some(root) => match description_of(root, src_dir@) {
                    Err(e) => r is Err && r->Err_0 == e && final(self)@ == old(self)@,
                    Ok(d) => r is Ok && r->Ok_0.0@ == d && r->Ok_0.1@ == setup_plan(
                        d.order,
                        d.connections,
                    ) && final(self)@ == (PipelineState {
                        execution_order: d.order,
                        edges: d.connections,
                        node_count: d.nodes.len(),
                        ..old(self)@
                    }),
                },
            },
    {
        let d = match parse_json(contents, src_dir) {
            Ok(d) => d,
            Err(e) => {
                return Err(e);
            },
        };
        let steps = setup_steps(&d.execution_order, &d.connections);
        self.execution_order = crate::rip::pipeline::copy_u32s(&d.execution_order);
        self.edges = crate::rip::pipeline::copy_connections(&d.connections);
        self.node_count = d.nodes.len();
        Ok((d, steps))
    }

    /// Whether the pipeline keeps running.
    pub fn should_run(&self) -> (r: bool)
        ensures
            r == self@.should_run,
    {
        self.should_run
    }

    /// Reacts to a window event: a quit request or a closed window stops the
    /// pipeline.
    pub fn handle_event(&mut self, event: WindowEvent)
        ensures
            final(self)@ == (PipelineState {
                should_run: keeps_running(old(self)@.should_run, event),
                ..old(self)@
            }),
    {
        match event {
            WindowEvent::Quit | WindowEvent::WindowClose => {
                self.should_run = false;
            },
            WindowEvent::Other => {},
        }
    }

    /// Starts a frame: returns whether this is the first frame (when the
    /// window events start to be watched); any later frame first waits for
    /// the previous one.
    pub fn begin_frame(&mut self) -> (first: bool)
        ensures
            first == old(self)@.first,
            final(self)@ == (PipelineState { first: false, ..old(self)@ }),
    {
        let first = self.first;
        self.first = false;
        first
    }

    /// The nodes in execution order, which are told after each frame.
    pub fn execution_order(&self) -> (r: &Vec<u32>)
        ensures
            r@ == self@.execution_order,
    {
        &self.execution_order
    }
}

} // verus!
