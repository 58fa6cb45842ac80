//! The pipeline reader and nodes of the SWSPP image processor.
pub mod node_parser;
pub mod processors;
pub mod finishers;
pub mod starters;
pub mod pipeline;
pub mod nodes;
