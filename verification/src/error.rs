//! The ways a pipeline description can be refused.
use vstd::prelude::*;

verus! {

/// Why a pipeline description cannot be read into a pipeline.
#[derive(PartialEq, Eq, Structural, Clone, Copy, Debug)]
pub enum ConfigError {
    /// The text is not JSON.
    Syntax,
    /// There is no `starters` member.
    NoStarters,
    /// There is no `finishers` member.
    NoFinishers,
    /// `dimensions` is not an array of two 32-bit unsigned integers.
    BadDimensions,
    /// `network.ip` or `network.port` is not a string.
    BadNetwork,
    /// A node's `type` is not a string.
    BadType,
    /// A node to be scheduled has no `input` member.
    MissingInput,
    /// A node to be scheduled was not created (its type is unknown).
    UnknownNode,
    /// An input is not a string of the form `name.output` (or, where arrays
    /// are allowed, an array of such strings).
    BadInput,
    /// An input names a node that is neither a starter nor an image
    /// processor.
    UnknownParent,
    /// The inputs can never all be satisfied (a cycle, a missing node, or a
    /// node name used twice): the nodes cannot be ordered.
    Unschedulable,
}

} // verus!
