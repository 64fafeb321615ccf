use vstd::prelude::*;
use crate::defaults::generate_id;
use crate::endpoint::EndpointRef;
use crate::enums::{node_type_code, status_code, NodeType, Status};
use crate::text::{int_text, with_number};
use vstd::string::StrSliceExecFns;

verus! {

/// The place of a node on an editor canvas.
#[derive(Debug, Clone, Copy, PartialEq, Eq, Structural)]
pub struct Position {
    pub x: i32,
    pub y: i32,
}

/// What an endpoint declaration holds, as plain values.
pub struct EndpointConfigView {
    pub id: Seq<char>,
    pub name: Seq<char>,
    pub required: bool,
    pub data_type: Seq<char>,
    pub display_type: Seq<char>,
    pub description: Seq<char>,
}

/// Declares one input or output slot of a node. `required` drives readiness.
pub struct EndpointConfig {
    pub id: String,
    pub name: String,
    pub required: bool,
    pub data_type: String,
    pub display_type: String,
    pub description: String,
}

impl View for EndpointConfig {
    type V = EndpointConfigView;

    open spec fn view(&self) -> EndpointConfigView {
        EndpointConfigView {
            id: self.id@,
            name: self.name@,
            required: self.required,
            data_type: self.data_type@,
            display_type: self.display_type@,
            description: self.description@,
        }
    }
}

impl Clone for EndpointConfig {
    fn clone(&self) -> (r: Self)
        ensures
            r@ == self@,
    {
        EndpointConfig {
            id: self.id.clone(),
            name: self.name.clone(),
            required: self.required,
            data_type: self.data_type.clone(),
            display_type: self.display_type.clone(),
            description: self.description.clone(),
        }
    }
}

/// Retry policy of a node.
#[derive(Debug, Clone, Copy, PartialEq, Eq, Structural)]
pub struct RetryConfig {
    pub max_attempts: u32,
    pub delay: u32,
}

/// Optional extra configuration of a node.
#[derive(Debug, Clone, Copy, PartialEq, Eq, Structural)]
pub struct ExtraConfig {
    pub retry: RetryConfig,
}

/// The views of a sequence of endpoint declarations.
pub open spec fn endpoints_view(s: Seq<EndpointConfig>) -> Seq<EndpointConfigView> {
    s.map_values(|e: EndpointConfig| e@)
}

/// What a node holds, as plain values (the JSON payloads stay opaque).
pub struct NodeView {
    pub id: Seq<char>,
    pub node_type: Seq<char>,
    pub name: Seq<char>,
    pub description: Seq<char>,
    pub inputs: Seq<EndpointConfigView>,
    pub outputs: Seq<EndpointConfigView>,
    pub data_schema: serde_json::Value,
    pub data: serde_json::Value,
    pub data_ui_schema: serde_json::Value,
    pub component: Seq<char>,
    pub executor_id: Seq<char>,
    pub status: Seq<char>,
    pub extra: Option<ExtraConfig>,
}

/// One unit of work in a workflow graph, with named input and output endpoints.
pub struct Node {
    pub id: String,
    pub node_type: String,
    pub name: String,
    pub description: String,
    pub inputs: Vec<EndpointConfig>,
    pub outputs: Vec<EndpointConfig>,
    pub data_schema: serde_json::Value,
    pub data: serde_json::Value,
    pub data_ui_schema: serde_json::Value,
    pub component: String,
    pub executor_id: String,
    pub status: String,
    pub extra: Option<ExtraConfig>,
}

impl View for Node {
    type V = NodeView;

    open spec fn view(&self) -> NodeView {
        NodeView {
            id: self.id@,
            node_type: self.node_type@,
            name: self.name@,
            description: self.description@,
            inputs: endpoints_view(self.inputs@),
            outputs: endpoints_view(self.outputs@),
            data_schema: self.data_schema,
            data: self.data,
            data_ui_schema: self.data_ui_schema,
            component: self.component@,
            executor_id: self.executor_id@,
            status: self.status@,
            extra: self.extra,
        }
    }
}

/// Copies a list of endpoint declarations.
fn clone_endpoints(v: &Vec<EndpointConfig>) -> (r: Vec<EndpointConfig>)
    ensures
        endpoints_view(r@) == endpoints_view(v@),
{
    let mut r: Vec<EndpointConfig> = Vec::new();
    let mut i: usize = 0;
    while i < v.len()
        invariant
            i <= v@.len(),
            r@.len() == i,
            forall|k: int| 0 <= k < i ==> #[trigger] r@[k]@ == v@[k]@,
        decreases v@.len() - i,
    {
        r.push(v[i].clone());
        i = i + 1;
    }
    assert(endpoints_view(r@) =~= endpoints_view(v@));
    r
}

impl Clone for Node {
    fn clone(&self) -> (r: Self)
        ensures
            r@ == self@,
    {
        Node {
            id: self.id.clone(),
            node_type: self.node_type.clone(),
            name: self.name.clone(),
            description: self.description.clone(),
            inputs: clone_endpoints(&self.inputs),
            outputs: clone_endpoints(&self.outputs),
            data_schema: self.data_schema.clone(),
            data: self.data.clone(),
            data_ui_schema: self.data_ui_schema.clone(),
            component: self.component.clone(),
            executor_id: self.executor_id.clone(),
            status: self.status.clone(),
            extra: self.extra,
        }
    }
}

/// A node of kind `node_type` named `name`, with no endpoints, empty texts and
/// a pending status (its id and payloads are not fixed here).
pub open spec fn fresh_node(n: NodeView, name: Seq<char>, node_type: Seq<char>) -> bool {
    &&& n.id.len() == 8
    &&& n.node_type == node_type
    &&& n.name == name
    &&& n.description.len() == 0
    &&& n.inputs.len() == 0
    &&& n.outputs.len() == 0
    &&& n.component.len() == 0
    &&& n.executor_id.len() == 0
    &&& n.status == status_code(Status::Pending)
    &&& n.extra.is_none()
}

impl Node {
    /// Creates a node with a fresh random id, the given name and kind, and no endpoints.
    pub fn new(name: String, node_type: String) -> (r: Self)
        ensures
            fresh_node(r@, name@, node_type@),
    {
        Node {
            id: generate_id(),
            node_type,
            name,
            description: String::new(),
            inputs: Vec::new(),
            outputs: Vec::new(),
            data_schema: serde_json::Value::default(),
            data: serde_json::Value::default(),
            data_ui_schema: serde_json::Value::default(),
            component: String::new(),
            executor_id: String::new(),
            status: Status::Pending.code(),
            extra: None,
        }
    }
}

/// The endpoint that `add_input_endpoint` appends to a node holding the inputs
/// `inputs`: its id differs from theirs; it is its name unless that is taken, and
/// starts with its name in any case.
pub open spec fn appended_input(e: EndpointConfigView, inputs: Seq<EndpointConfigView>) -> bool {
    let name = "input-"@ + int_text(inputs.len() as int + 1);
    &&& forall|k: int| 0 <= k < inputs.len() ==> (#[trigger] inputs[k]).id != e.id
    &&& (forall|k: int| 0 <= k < inputs.len() ==> (#[trigger] inputs[k]).id != name) ==> e.id == name
    &&& e.id.take(name.len() as int) == name
    &&& e.name == name
    &&& e.required
    &&& e.data_type == "json"@
    &&& e.display_type == "text"@
    &&& e.description == "Input of node B"@
}

/// The endpoint that `add_output_endpoint` appends to a node holding `len` outputs
/// (its id is fresh and random).
pub open spec fn appended_output(e: EndpointConfigView, len: int) -> bool {
    &&& e.id.len() == 8
    &&& e.name == "output-"@ + int_text(len + 1)
    &&& e.required
    &&& e.data_type == "json"@
    &&& e.display_type == "text"@
    &&& e.description == "Output of node B"@
}

/// An id that no endpoint of `endpoints` has: `candidate` when it is free, else
/// `candidate` followed by enough underscores to be longer than every id there.
fn fresh_endpoint_id(endpoints: &Vec<EndpointConfig>, candidate: String) -> (r: String)
    ensures
        forall|k: int| 0 <= k < endpoints@.len() ==> (#[trigger] endpoints@[k]).id@ != r@,
        (forall|k: int| 0 <= k < endpoints@.len() ==> (#[trigger] endpoints@[k]).id@ != candidate@)
            ==> r@ == candidate@,
        r@.take(candidate@.len() as int) == candidate@,
{
    let mut taken = false;
    let mut longest: usize = 0;
    let mut i: usize = 0;
    while i < endpoints.len()
        invariant
            i <= endpoints@.len(),
            !taken ==> forall|k: int| 0 <= k < i ==> (#[trigger] endpoints@[k]).id@ != candidate@,
            taken ==> exists|k: int| 0 <= k < i && (#[trigger] endpoints@[k]).id@ == candidate@,
            forall|k: int| 0 <= k < i ==> (#[trigger] endpoints@[k]).id@.len() <= longest,
        decreases endpoints@.len() - i,
    {
        if endpoints[i].id == candidate {
            taken = true;
            assert(endpoints@[i as int].id@ == candidate@);
        }
        let l = endpoints[i].id.as_str().unicode_len();
        if l > longest {
            longest = l;
        }
        i = i + 1;
    }
    if !taken {
        proof {
            assert(candidate@.take(candidate@.len() as int) =~= candidate@);
        }
        return candidate;
    }
    let mut r = candidate;
    let ghost c = r@;
    proof {
        assert(r@.take(c.len() as int) =~= c);
    }
    while r.as_str().unicode_len() <= longest
        invariant
            r@.take(c.len() as int) == c,
            r@.len() >= c.len(),
            forall|k: int| 0 <= k < endpoints@.len() ==> (#[trigger] endpoints@[k]).id@.len() <= longest,
            exists|k: int| 0 <= k < endpoints@.len() && (#[trigger] endpoints@[k]).id@ == c,
        decreases longest + 1 - r@.len(),
    {
        proof {
            reveal_strlit("_");
        }
        let ghost before = r@;
        r.append("_");
        assert(r@.take(c.len() as int) =~= before.take(c.len() as int));
    }
    r
}

/// The node unchanged but for its inputs.
pub open spec fn same_but_inputs(a: NodeView, b: NodeView) -> bool {
    a == NodeView { inputs: a.inputs, ..b }
}

/// The node unchanged but for its outputs.
pub open spec fn same_but_outputs(a: NodeView, b: NodeView) -> bool {
    a == NodeView { outputs: a.outputs, ..b }
}

/// Builders for nodes of the built-in kinds.
pub trait NodeBuilderTrait: Sized {
    /// A start node named `name`.
    fn start(name: &str) -> Self;

    /// A normal node named `name`.
    fn normal(name: &str) -> Self;

    /// Appends a required JSON input endpoint.
    fn add_input_endpoint(&mut self)
        requires
            old(self).input_count() < 0x7fff_ffff,
    ;

    /// Appends a required JSON output endpoint.
    fn add_output_endpoint(&mut self)
        requires
            old(self).output_count() < 0x7fff_ffff,
    ;

    /// The number of input endpoints.
    spec fn input_count(&self) -> nat;

    /// The number of output endpoints.
    spec fn output_count(&self) -> nat;
}

impl NodeBuilderTrait for Node {
    fn start(name: &str) -> (r: Self)
        ensures
            fresh_node(r@, name@, node_type_code(NodeType::Start)),
    {
        Node::new(name.to_string(), NodeType::Start.code())
    }

    fn normal(name: &str) -> (r: Self)
        ensures
            fresh_node(r@, name@, node_type_code(NodeType::Normal)),
    {
        Node::new(name.to_string(), NodeType::Normal.code())
    }

    open spec fn input_count(&self) -> nat {
        self.inputs@.len()
    }

    open spec fn output_count(&self) -> nat {
        self.outputs@.len()
    }

    fn add_input_endpoint(&mut self)
        ensures
            final(self).inputs@.len() == old(self).inputs@.len() + 1,
            final(self).inputs@.drop_last() == old(self).inputs@,
            appended_input(final(self).inputs@.last()@, endpoints_view(old(self).inputs@)),
            same_but_inputs(old(self)@, final(self)@),
    {
        let len = self.inputs.len();
        proof {
            reveal_strlit("input-");
            reveal_strlit("json");
            reveal_strlit("text");
            reveal_strlit("Input of node B");
        }
        let name = with_number("input-", len as i64 + 1);
        let id = fresh_endpoint_id(&self.inputs, name.clone());
        self.inputs.push(EndpointConfig {
            id,
            name,
            required: true,
            data_type: "json".to_string(),
            display_type: "text".to_string(),
            description: "Input of node B".to_string(),
        });
        proof {
            let olds = endpoints_view(old(self).inputs@);
            assert forall|k: int| 0 <= k < olds.len() implies #[trigger] olds[k] == old(self).inputs@[k]@ by {}
            let e = final(self).inputs@.last()@;
            let nm = "input-"@ + int_text(olds.len() as int + 1);
            assert(e.name == nm);
            assert forall|k: int| 0 <= k < olds.len() implies (#[trigger] olds[k]).id != e.id by {
                assert(old(self).inputs@[k].id@ != e.id);
            }
            if forall|k: int| 0 <= k < olds.len() ==> (#[trigger] olds[k]).id != nm {
                assert forall|k: int| 0 <= k < old(self).inputs@.len() implies (
                #[trigger] old(self).inputs@[k]).id@ != nm by {
                    assert(olds[k].id != nm);
                }
                assert(e.id == nm);
            }
            assert(e.id.take(nm.len() as int) == nm);
        }
        assert(final(self).inputs@.drop_last() =~= old(self).inputs@);
    }

    fn add_output_endpoint(&mut self)
        ensures
            final(self).outputs@.len() == old(self).outputs@.len() + 1,
            final(self).outputs@.drop_last() == old(self).outputs@,
            appended_output(final(self).outputs@.last()@, old(self).outputs@.len() as int),
            same_but_outputs(old(self)@, final(self)@),
    {
        let len = self.outputs.len();
        proof {
            reveal_strlit("output-");
            reveal_strlit("json");
            reveal_strlit("text");
            reveal_strlit("Output of node B");
        }
        self.outputs.push(EndpointConfig {
            id: generate_id(),
            name: with_number("output-", len as i64 + 1),
            required: true,
            data_type: "json".to_string(),
            display_type: "text".to_string(),
            description: "Output of node B".to_string(),
        });
        assert(final(self).outputs@.drop_last() =~= old(self).outputs@);
    }
}

} // verus!

verus! {

/// Access to a node's endpoints by position.
pub trait NodeAttrTrait {
    /// A reference to input endpoint `index`, if it exists.
    fn get_input_ref(&self, index: i32) -> Option<EndpointRef>;

    /// A reference to output endpoint `index`, if it exists.
    fn get_output_ref(&self, index: i32) -> Option<EndpointRef>;

    /// Input endpoint `index`, if it exists.
    fn get_input(&self, index: i32) -> Option<&EndpointConfig>;

    /// Output endpoint `index`, if it exists.
    fn get_output(&self, index: i32) -> Option<&EndpointConfig>;
}

impl NodeAttrTrait for Node {
    fn get_input(&self, index: i32) -> (r: Option<&EndpointConfig>)
        ensures
            0 <= index < self.inputs@.len() ==> r == Some(&self.inputs@[index as int]),
            !(0 <= index < self.inputs@.len()) ==> r.is_none(),
    {
        if index >= 0 && (index as usize) < self.inputs.len() {
            Some(&self.inputs[index as usize])
        } else {
            None
        }
    }

    fn get_output(&self, index: i32) -> (r: Option<&EndpointConfig>)
        ensures
            0 <= index < self.outputs@.len() ==> r == Some(&self.outputs@[index as int]),
            !(0 <= index < self.outputs@.len()) ==> r.is_none(),
    {
        if index >= 0 && (index as usize) < self.outputs.len() {
            Some(&self.outputs[index as usize])
        } else {
            None
        }
    }

    fn get_input_ref(&self, index: i32) -> (r: Option<EndpointRef>)
        ensures
            0 <= index < self.inputs@.len() ==> (r matches Some(e) && e@ == (
                self.id@,
                self.inputs@[index as int].id@,
            )),
            !(0 <= index < self.inputs@.len()) ==> r.is_none(),
    {
        if index >= 0 && (index as usize) < self.inputs.len() {
            let endpoint_config = &self.inputs[index as usize];
            Some(EndpointRef { node_id: self.id.clone(), endpoint_id: endpoint_config.id.clone() })
        } else {
            None
        }
    }

    fn get_output_ref(&self, index: i32) -> (r: Option<EndpointRef>)
        ensures
            0 <= index < self.outputs@.len() ==> (r matches Some(e) && e@ == (
                self.id@,
                self.outputs@[index as int].id@,
            )),
            !(0 <= index < self.outputs@.len()) ==> r.is_none(),
    {
        if index >= 0 && (index as usize) < self.outputs.len() {
            let endpoint_config = &self.outputs[index as usize];
            Some(EndpointRef { node_id: self.id.clone(), endpoint_id: endpoint_config.id.clone() })
        } else {
            None
        }
    }
}

/// The data types that a node endpoint can carry.
#[derive(Debug, Clone, Copy, PartialEq, Eq, Structural)]
pub enum ArrowType {
    Int32,
    Float64,
    Utf8,
}

} // verus!
