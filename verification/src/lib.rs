//! Configuration, scheduling and message routing of a node-based image
//! processor: the typed data bus that carries configuration values to nodes,
//! the reading of a pipeline description, the order in which nodes run and the
//! images that flow between them, and the settings each node keeps.
pub mod data_bus;
pub mod text;
pub mod json_doc;
pub mod node_kind;
pub mod config;
pub mod error;
pub mod name_index;
pub mod schedule;
pub mod schedule_laws;
pub mod description;
pub mod description_laws;
pub mod role_laws;
pub mod node_options;
pub mod gpgpu;
pub mod pipelines;
pub mod minimal;
pub mod image_input;
pub mod shader_utils;
pub mod rip;
pub mod swspp;
