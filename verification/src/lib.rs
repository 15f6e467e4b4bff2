//! Runtime substrate of a node-based automation tool: the flow-graph
//! document and its in-memory index, the name-addressed dispatch registry
//! and the registry of plugin modules.

pub mod binding;
pub mod driver;
pub mod graphs;
pub mod json;
pub mod lookup;
pub mod pipelines;
pub mod schemas;
pub mod settings;
pub mod text;
