//! The pipeline reader, pipeline and nodes of the RIP image processor.
pub mod node_parser;
pub mod pipeline;
pub mod processors;
pub mod starters;
pub mod network;
pub mod pipeline_laws;
pub mod nodes;
