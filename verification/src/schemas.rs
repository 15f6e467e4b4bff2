//! The flow-graph document as it is kept in storage: every part may be
//! absent, and a document or a project may remember the file it came from.

use crate::json::{clone_value, null_value};
use serde_json::Value;
use vstd::prelude::*;

verus! {

/// The file that a document or a project was read from.
#[derive(Debug)]
pub struct FileReference {
    pub full_path: String,
}

/// A project: its flow graphs and, where known, its file.
#[derive(Debug)]
pub struct FlowProject {
    pub flow_graphs: Vec<FlowGraph>,
    pub file_reference: Option<FileReference>,
}

/// A stored flow graph.
#[derive(Debug)]
pub struct FlowGraph {
    pub nodes: Option<Vec<FlowGraphNode>>,
    pub edges: Option<Vec<FlowGraphEdge>>,
    pub viewport: Option<Viewport>,
    pub file_reference: Option<FileReference>,
}

/// A stored node.
#[derive(Debug)]
pub struct FlowGraphNode {
    pub id: String,
    pub node_type: String,
    pub position: Position,
    pub measurement: Measurement,
    pub data: Value,
}

/// A stored edge.
#[derive(Debug)]
pub struct FlowGraphEdge {
    pub id: String,
    pub edge_type: String,
    pub source: String,
    pub target: String,
}

/// Canvas position, as single-precision bit patterns.
#[derive(Debug, Clone, Copy, PartialEq, Eq, Structural)]
pub struct Position {
    pub x: u32,
    pub y: u32,
}

/// Measured size, as single-precision bit patterns.
#[derive(Debug, Clone, Copy, PartialEq, Eq, Structural)]
pub struct Measurement {
    pub width: u32,
    pub height: u32,
}

/// Pan and zoom, as single-precision bit patterns.
#[derive(Debug, Clone, Copy, PartialEq, Eq, Structural)]
pub struct Viewport {
    pub x: u32,
    pub y: u32,
    pub zoom: u32,
}

impl Default for FileReference {
    fn default() -> (made: Self)
        ensures
            made.full_path@.len() == 0,
    {
        FileReference { full_path: String::new() }
    }
}

impl Default for Position {
    fn default() -> (made: Self)
        ensures
            made == (Position { x: 0, y: 0 }),
    {
        Position { x: 0, y: 0 }
    }
}

impl Default for Measurement {
    fn default() -> (made: Self)
        ensures
            made == (Measurement { width: 0, height: 0 }),
    {
        Measurement { width: 0, height: 0 }
    }
}

impl Default for Viewport {
    fn default() -> (made: Self)
        ensures
            made == (Viewport { x: 0, y: 0, zoom: 0 }),
    {
        Viewport { x: 0, y: 0, zoom: 0 }
    }
}

impl Default for FlowGraphEdge {
    fn default() -> (made: Self)
        ensures
            made.id@.len() == 0,
            made.edge_type@.len() == 0,
            made.source@.len() == 0,
            made.target@.len() == 0,
    {
        FlowGraphEdge {
            id: String::new(),
            edge_type: String::new(),
            source: String::new(),
            target: String::new(),
        }
    }
}

impl Default for FlowGraphNode {
    fn default() -> (made: Self)
        ensures
            made.id@.len() == 0,
            made.node_type@.len() == 0,
            made.position == (Position { x: 0, y: 0 }),
            made.measurement == (Measurement { width: 0, height: 0 }),
    {
        FlowGraphNode {
            id: String::new(),
            node_type: String::new(),
            position: Position { x: 0, y: 0 },
            measurement: Measurement { width: 0, height: 0 },
            data: null_value(),
        }
    }
}

impl Default for FlowGraph {
    fn default() -> (made: Self)
        ensures
            made.nodes.is_none(),
            made.edges.is_none(),
            made.viewport.is_none(),
            made.file_reference.is_none(),
    {
        FlowGraph { nodes: None, edges: None, viewport: None, file_reference: None }
    }
}

impl Default for FlowProject {
    fn default() -> (made: Self)
        ensures
            made.flow_graphs@.len() == 0,
            made.file_reference.is_none(),
    {
        FlowProject { flow_graphs: Vec::new(), file_reference: None }
    }
}

impl Clone for FileReference {
    fn clone(&self) -> (copy: Self)
        ensures
            copy == *self,
    {
        FileReference { full_path: self.full_path.clone() }
    }
}

impl Clone for FlowGraphEdge {
    fn clone(&self) -> (copy: Self)
        ensures
            copy == *self,
    {
        FlowGraphEdge {
            id: self.id.clone(),
            edge_type: self.edge_type.clone(),
            source: self.source.clone(),
            target: self.target.clone(),
        }
    }
}

impl Clone for FlowGraphNode {
    fn clone(&self) -> (copy: Self)
        ensures
            copy == *self,
    {
        FlowGraphNode {
            id: self.id.clone(),
            node_type: self.node_type.clone(),
            position: self.position,
            measurement: self.measurement,
            data: clone_value(&self.data),
        }
    }
}

} // verus!
