use vstd::prelude::*;
use crate::defaults::generate_id;
use crate::endpoint::EndpointRef;
use crate::node::{EndpointConfig, Node};

verus! {

/// What an edge holds, as plain values.
pub struct EdgeView {
    pub id: Seq<char>,
    pub source: (Seq<char>, Seq<char>),
    pub target: (Seq<char>, Seq<char>),
}

/// A directed connection from one node's output endpoint to another node's input endpoint.
pub struct Edge {
    pub id: String,
    pub source: EndpointRef,
    pub target: EndpointRef,
}

impl View for Edge {
    type V = EdgeView;

    open spec fn view(&self) -> EdgeView {
        EdgeView { id: self.id@, source: self.source@, target: self.target@ }
    }
}

impl Clone for Edge {
    fn clone(&self) -> (r: Self)
        ensures
            r@ == self@,
    {
        Edge { id: self.id.clone(), source: self.source.clone(), target: self.target.clone() }
    }
}

impl Edge {
    /// Connects `source_endpoint` of `source_node` to `target_endpoint` of
    /// `target_node`, under a fresh random id.
    pub fn new(
        source_node: &Node,
        target_node: &Node,
        source_endpoint: &EndpointConfig,
        target_endpoint: &EndpointConfig,
    ) -> (r: Self)
        ensures
            r.id@.len() == 8,
            r.source@ == (source_node.id@, source_endpoint.id@),
            r.target@ == (target_node.id@, target_endpoint.id@),
    {
        Edge {
            id: generate_id(),
            source: EndpointRef {
                node_id: source_node.id.clone(),
                endpoint_id: source_endpoint.id.clone(),
            },
            target: EndpointRef {
                node_id: target_node.id.clone(),
                endpoint_id: target_endpoint.id.clone(),
            },
        }
    }
}

/// Builds an edge between two endpoint references.
pub trait EdgeBuilderTrait: Sized {
    fn connect(source: &EndpointRef, target: &EndpointRef) -> Self;
}

impl EdgeBuilderTrait for Edge {
    fn connect(source: &EndpointRef, target: &EndpointRef) -> (r: Self)
        ensures
            r.id@.len() == 8,
            r.source@ == source@,
            r.target@ == target@,
    {
        Edge { id: generate_id(), source: source.clone(), target: target.clone() }
    }
}

/// Read access to an edge and a condition on the data that crosses it,
/// for edge types of the embedding application.
pub trait EdgeTrait {
    fn get_id(&self) -> &str;

    fn get_source(&self) -> &EndpointRef;

    fn get_target(&self) -> &EndpointRef;

    fn check_conditions(&self, data: &std::collections::HashMap<String, String>) -> bool;
}

} // verus!
