//! The minimal pipeline, which knows one node type, `agl`.
use crate::data_bus::{DataBus, LocalView};
use crate::node_kind::{KindTable, NodeKind};
use vstd::prelude::*;

verus! {

/// The AGL node of the minimal pipeline, which reports the name `SomeType`.
pub struct AGL {
    pub data_bus: DataBus,
}

impl AGL {
    /// Creates the node; it subscribes nothing.
    pub fn new() -> (r: Self)
        ensures
            r.data_bus@ == Seq::<LocalView>::empty(),
    {
        AGL { data_bus: DataBus::default() }
    }

    /// The name the node reports: `SomeType`.
    pub fn name(&self) -> (r: String)
        ensures
            r@ == "SomeType"@,
    {
        "SomeType".to_owned()
    }

    /// The node's type: `AGL`.
    pub fn node_type(&self) -> (r: String)
        ensures
            r@ == "AGL"@,
    {
        "AGL".to_owned()
    }
}

/// The minimal pipeline: the node types it can create, and its nodes in
/// execution order (none yet).
pub struct Pipeline {
    pub node_creation_functions: KindTable,
    pub execution_order: Vec<u32>,
}

impl Pipeline {
    /// A pipeline for the description at `config_path`, which it does not
    /// read yet: it can create `agl` nodes and has no nodes.
    pub fn new(config_path: &str) -> (r: Self)
        ensures
            r.node_creation_functions@ == seq![("agl"@, NodeKind::Agl)],
            r.execution_order@ == Seq::<u32>::empty(),
    {
        let mut entries: Vec<(String, NodeKind)> = Vec::new();
        entries.push(("agl".to_owned(), NodeKind::Agl));
        let functors = KindTable { entries };
        proof {
            assert(functors@ =~= seq![("agl"@, NodeKind::Agl)]);
        }
        Pipeline { node_creation_functions: functors, execution_order: Vec::new() }
    }
}

} // verus!
