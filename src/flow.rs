use vstd::prelude::*;
use crate::edge::{Edge, EdgeView};
use crate::endpoint::EndpointRef;
use crate::node::{Node, NodeView, Position};
use crate::reactflow::{ReactFlow, ReactFlowEdge, ReactFlowNode};

verus! {

/// The member `key` of a JSON object, or null when `v` is no object or lacks it.
pub uninterp spec fn json_member(v: serde_json::Value, key: Seq<char>) -> serde_json::Value;

/// Relies on `serde_json::Value::get` with a string key, followed by a clone of the
/// member found and null in place of a missing one.
#[verifier::external_body]
fn member(v: &serde_json::Value, key: &str) -> (r: serde_json::Value)
    ensures
        r == json_member(*v, key@),
{
    v.get(key).cloned().unwrap_or(serde_json::Value::Null)
}

/// A JSON object under construction, from keys to values.
#[verifier::external_type_specification]
#[verifier::external_body]
#[verifier::reject_recursive_types(K)]
#[verifier::reject_recursive_types(V)]
pub struct ExMap<K, V>(serde_json::Map<K, V>);

/// The value that a JSON object map holds under `key`, if any.
pub uninterp spec fn map_entry(m: serde_json::Map<String, serde_json::Value>, key: Seq<char>) -> Option<
    serde_json::Value,
>;

/// Relies on `serde_json::Map::new`: an empty map.
#[verifier::external_body]
fn new_map() -> (r: serde_json::Map<String, serde_json::Value>)
    ensures
        forall|k: Seq<char>| #[trigger] map_entry(r, k) is None,
{
    serde_json::Map::new()
}

/// Relies on `serde_json::Map::insert`: afterwards `key` holds a copy of `v`, and
/// every other key holds what it held.
#[verifier::external_body]
fn map_insert(m: &mut serde_json::Map<String, serde_json::Value>, key: &str, v: &serde_json::Value)
    ensures
        map_entry(*final(m), key@) == Some(*v),
        forall|k: Seq<char>| k != key@ ==> #[trigger] map_entry(*final(m), k) == map_entry(*old(m), k),
{
    m.insert(key.to_string(), v.clone());
}

/// Relies on `Value::Object` together with `Value::get`: the member of the object
/// made from `m` under a key that `m` holds is the value held there.
#[verifier::external_body]
fn object(m: serde_json::Map<String, serde_json::Value>) -> (r: serde_json::Value)
    ensures
        forall|k: Seq<char>| #[trigger] map_entry(m, k) matches Some(v) ==> json_member(r, k) == v,
{
    serde_json::Value::Object(m)
}

/// The editor form of a node's three payloads: an object with each under its own key.
fn payload(
    data: &serde_json::Value,
    data_schema: &serde_json::Value,
    data_ui_schema: &serde_json::Value,
) -> (r: serde_json::Value)
    ensures
        json_member(r, "data"@) == *data,
        json_member(r, "data_schema"@) == *data_schema,
        json_member(r, "data_ui_schema"@) == *data_ui_schema,
{
    proof {
        reveal_strlit("data");
        reveal_strlit("data_schema");
        reveal_strlit("data_ui_schema");
    }
    let mut m = new_map();
    map_insert(&mut m, "data", data);
    map_insert(&mut m, "data_schema", data_schema);
    map_insert(&mut m, "data_ui_schema", data_ui_schema);
    assert("data"@ != "data_schema"@ && "data"@ != "data_ui_schema"@ && "data_schema"@ != "data_ui_schema"@) by {
        assert("data"@.len() != "data_schema"@.len());
        assert("data"@.len() != "data_ui_schema"@.len());
        assert("data_schema"@.len() != "data_ui_schema"@.len());
    }
    assert(map_entry(m, "data"@) == Some(*data));
    assert(map_entry(m, "data_schema"@) == Some(*data_schema));
    object(m)
}

/// A workflow graph with the zoom of its editor view.
pub struct Flow {
    pub edges: Vec<Edge>,
    pub nodes: Vec<Node>,
    pub zoom: i32,
}

/// The node that an editor node stands for: id and kind carried over, the three
/// payloads unpacked from its data, everything else empty.
pub open spec fn node_of(n: ReactFlowNode, v: NodeView) -> bool {
    &&& v.id == n.id@
    &&& v.node_type == n.type_@
    &&& v.name.len() == 0
    &&& v.description.len() == 0
    &&& v.inputs.len() == 0
    &&& v.outputs.len() == 0
    &&& v.data == json_member(n.data, "data"@)
    &&& v.data_schema == json_member(n.data, "data_schema"@)
    &&& v.data_ui_schema == json_member(n.data, "data_ui_schema"@)
    &&& v.component.len() == 0
    &&& v.executor_id.len() == 0
    &&& v.status.len() == 0
    &&& v.extra.is_none()
}

/// The edge that an editor edge stands for.
pub open spec fn edge_of(e: ReactFlowEdge, v: EdgeView) -> bool {
    &&& v.id == e.id@
    &&& v.source == (e.source@, e.source_handle@)
    &&& v.target == (e.target@, e.target_handle@)
}

/// The editor node that stands for `n`, placed at the origin.
pub open spec fn editor_node_of(n: Node, r: ReactFlowNode) -> bool {
    &&& r.id@ == n.id@
    &&& r.type_@ == n.node_type@
    &&& r.position == Position { x: 0, y: 0 }
    &&& json_member(r.data, "data"@) == n.data
    &&& json_member(r.data, "data_schema"@) == n.data_schema
    &&& json_member(r.data, "data_ui_schema"@) == n.data_ui_schema
}

/// The editor edge that stands for `e`.
pub open spec fn editor_edge_of(e: Edge, r: ReactFlowEdge) -> bool {
    &&& r.id@ == e.id@
    &&& (r.source@, r.source_handle@) == e.source@
    &&& (r.target@, r.target_handle@) == e.target@
}

/// Whether `g` is the flow that the editor graph `rf` stands for.
pub open spec fn from_editor(rf: ReactFlow, g: Flow) -> bool {
    &&& g.zoom == rf.zoom
    &&& g.nodes@.len() == rf.nodes@.len()
    &&& forall|i: int| 0 <= i < g.nodes@.len() ==> node_of(rf.nodes@[i], #[trigger] g.nodes@[i]@)
    &&& g.edges@.len() == rf.edges@.len()
    &&& forall|i: int| 0 <= i < g.edges@.len() ==> edge_of(rf.edges@[i], #[trigger] g.edges@[i]@)
}

/// Whether `rf` is the editor graph that stands for the flow `f`.
pub open spec fn to_editor(f: Flow, rf: ReactFlow) -> bool {
    &&& rf.zoom == f.zoom
    &&& rf.nodes@.len() == f.nodes@.len()
    &&& forall|i: int| 0 <= i < rf.nodes@.len() ==> editor_node_of(f.nodes@[i], #[trigger] rf.nodes@[i])
    &&& rf.edges@.len() == f.edges@.len()
    &&& forall|i: int| 0 <= i < rf.edges@.len() ==> editor_edge_of(f.edges@[i], #[trigger] rf.edges@[i])
}

/// Taking a flow to the editor and back keeps its zoom, its edges, and for each
/// node in order its id, kind and three payloads.
pub proof fn law_editor_round_trip(f: Flow, rf: ReactFlow, g: Flow)
    requires
        to_editor(f, rf),
        from_editor(rf, g),
    ensures
        g.zoom == f.zoom,
        g.nodes@.len() == f.nodes@.len(),
        forall|i: int|
            0 <= i < g.nodes@.len() ==> {
                let a = #[trigger] g.nodes@[i]@;
                let b = f.nodes@[i]@;
                &&& a.id == b.id
                &&& a.node_type == b.node_type
                &&& a.data == b.data
                &&& a.data_schema == b.data_schema
                &&& a.data_ui_schema == b.data_ui_schema
            },
        g.edges@.len() == f.edges@.len(),
        forall|i: int| 0 <= i < g.edges@.len() ==> #[trigger] g.edges@[i]@ == f.edges@[i]@,
{
    assert forall|i: int| 0 <= i < g.nodes@.len() implies {
        let a = #[trigger] g.nodes@[i]@;
        let b = f.nodes@[i]@;
        &&& a.id == b.id
        &&& a.node_type == b.node_type
        &&& a.data == b.data
        &&& a.data_schema == b.data_schema
        &&& a.data_ui_schema == b.data_ui_schema
    } by {
        assert(node_of(rf.nodes@[i], g.nodes@[i]@));
        assert(editor_node_of(f.nodes@[i], rf.nodes@[i]));
    }
    assert forall|i: int| 0 <= i < g.edges@.len() implies #[trigger] g.edges@[i]@ == f.edges@[i]@ by {
        assert(edge_of(rf.edges@[i], g.edges@[i]@));
        assert(editor_edge_of(f.edges@[i], rf.edges@[i]));
    }
}

/// Conversion between a flow and the visual editor's form of it.
pub trait ReactflowTrait: Sized {
    fn from_reactflow(react_flow: ReactFlow) -> Self;

    fn to(&self) -> ReactFlow;
}

impl ReactflowTrait for Flow {
    /// The flow that an editor graph stands for, node for node and edge for edge.
    fn from_reactflow(react_flow: ReactFlow) -> (r: Flow)
        ensures
            from_editor(react_flow, r),
    {
        let mut nodes: Vec<Node> = Vec::new();
        let mut i: usize = 0;
        while i < react_flow.nodes.len()
            invariant
                i <= react_flow.nodes@.len(),
                nodes@.len() == i,
                forall|k: int| 0 <= k < i ==> node_of(react_flow.nodes@[k], #[trigger] nodes@[k]@),
            decreases react_flow.nodes@.len() - i,
        {
            let react_node = &react_flow.nodes[i];
            proof {
                reveal_strlit("data");
                reveal_strlit("data_schema");
                reveal_strlit("data_ui_schema");
            }
            let node = Node {
                id: react_node.id.clone(),
                node_type: react_node.type_.clone(),
                name: String::new(),
                description: String::new(),
                inputs: Vec::new(),
                outputs: Vec::new(),
                data_schema: member(&react_node.data, "data_schema"),
                data: member(&react_node.data, "data"),
                data_ui_schema: member(&react_node.data, "data_ui_schema"),
                component: String::new(),
                executor_id: String::new(),
                status: String::new(),
                extra: None,
            };
            proof {
                assert(node@.inputs =~= Seq::<crate::node::EndpointConfigView>::empty());
                assert(node@.outputs =~= Seq::<crate::node::EndpointConfigView>::empty());
            }
            nodes.push(node);
            i = i + 1;
        }
        let mut edges: Vec<Edge> = Vec::new();
        let mut j: usize = 0;
        while j < react_flow.edges.len()
            invariant
                j <= react_flow.edges@.len(),
                edges@.len() == j,
                forall|k: int| 0 <= k < j ==> edge_of(react_flow.edges@[k], #[trigger] edges@[k]@),
            decreases react_flow.edges@.len() - j,
        {
            let react_edge = &react_flow.edges[j];
            edges.push(
                Edge {
                    id: react_edge.id.clone(),
                    source: EndpointRef {
                        node_id: react_edge.source.clone(),
                        endpoint_id: react_edge.source_handle.clone(),
                    },
                    target: EndpointRef {
                        node_id: react_edge.target.clone(),
                        endpoint_id: react_edge.target_handle.clone(),
                    },
                },
            );
            j = j + 1;
        }
        Flow { nodes, edges, zoom: react_flow.zoom }
    }

    /// The editor graph that stands for this flow, node for node and edge for edge.
    fn to(&self) -> (r: ReactFlow)
        ensures
            to_editor(*self, r),
    {
        let mut nodes: Vec<ReactFlowNode> = Vec::new();
        let mut i: usize = 0;
        while i < self.nodes.len()
            invariant
                i <= self.nodes@.len(),
                nodes@.len() == i,
                forall|k: int| 0 <= k < i ==> editor_node_of(self.nodes@[k], #[trigger] nodes@[k]),
            decreases self.nodes@.len() - i,
        {
            let node = &self.nodes[i];
            nodes.push(
                ReactFlowNode {
                    id: node.id.clone(),
                    type_: node.node_type.clone(),
                    position: Position { x: 0, y: 0 },
                    data: payload(&node.data, &node.data_schema, &node.data_ui_schema),
                },
            );
            i = i + 1;
        }
        let mut edges: Vec<ReactFlowEdge> = Vec::new();
        let mut j: usize = 0;
        while j < self.edges.len()
            invariant
                j <= self.edges@.len(),
                edges@.len() == j,
                forall|k: int| 0 <= k < j ==> editor_edge_of(self.edges@[k], #[trigger] edges@[k]),
            decreases self.edges@.len() - j,
        {
            let edge = &self.edges[j];
            edges.push(
                ReactFlowEdge {
                    id: edge.id.clone(),
                    source: edge.source.node_id.clone(),
                    source_handle: edge.source.endpoint_id.clone(),
                    target: edge.target.node_id.clone(),
                    target_handle: edge.target.endpoint_id.clone(),
                },
            );
            j = j + 1;
        }
        ReactFlow { nodes, edges, zoom: self.zoom }
    }
}

} // verus!
