use vstd::prelude::*;
use crate::node::Position;

verus! {

/// A node as the visual editor stores it: its configuration payloads are packed
/// into one JSON object under `data`.
pub struct ReactFlowNode {
    pub id: String,
    pub type_: String,
    pub position: Position,
    pub data: serde_json::Value,
}

/// An edge as the visual editor stores it.
pub struct ReactFlowEdge {
    pub id: String,
    pub source: String,
    pub source_handle: String,
    pub target: String,
    pub target_handle: String,
}

/// A graph as the visual editor stores it.
pub struct ReactFlow {
    pub nodes: Vec<ReactFlowNode>,
    pub edges: Vec<ReactFlowEdge>,
    pub zoom: i32,
}

} // verus!
