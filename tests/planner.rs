use autoflow::edge::{Edge, EdgeBuilderTrait};
use autoflow::node::{Node, NodeAttrTrait, NodeBuilderTrait};
use autoflow::planner::Planner;

#[test]
fn test_linear_graph_optimized() {
    let mut node_a = Node::start("A");
    node_a.add_output_endpoint();

    let mut node_b = Node::normal("B");
    node_b.add_input_endpoint();
    node_b.add_output_endpoint();

    let mut node_c = Node::normal("C");
    node_c.add_input_endpoint();

    let edge1 = Edge::connect(&node_a.get_output_ref(0).unwrap(), &node_b.get_input_ref(0).unwrap());
    let edge2 = Edge::connect(&node_b.get_output_ref(0).unwrap(), &node_c.get_input_ref(0).unwrap());

    let mut planner = Planner::new(
        vec![node_a.clone(), node_b.clone(), node_c.clone()],
        vec![edge1, edge2],
    )
    .unwrap();

    let start_node = planner.start_node.clone();
    let next_nodes = planner.next_nodes(&start_node, &serde_json::Value::Null);
    assert_eq!(next_nodes.len(), 1);
    assert_eq!(next_nodes[0].name, "B");

    let node_b_executed = next_nodes[0].clone();
    let next_nodes = planner.next_nodes(&node_b_executed, &serde_json::Value::Null);
    assert_eq!(next_nodes.len(), 1);
    assert_eq!(next_nodes[0].name, "C");

    let node_c_executed = next_nodes[0].clone();
    let next_nodes = planner.next_nodes(&node_c_executed, &serde_json::Value::Null);
    assert_eq!(next_nodes.len(), 0);
}

#[test]
fn test_branch_graph() {
    let mut s = Node::start("start node");
    s.add_output_endpoint();

    let mut n1 = Node::normal("process node1");
    n1.add_input_endpoint();
    n1.add_output_endpoint();

    let mut n2 = Node::normal("process node2");
    n2.add_input_endpoint();

    let e1 = Edge::connect(&s.get_output_ref(0).unwrap(), &n1.get_input_ref(0).unwrap());
    let e2 = Edge::connect(&s.get_output_ref(0).unwrap(), &n2.get_input_ref(0).unwrap());

    let mut planner: Planner = Planner::new(vec![s, n1, n2], vec![e1, e2]).unwrap();

    let start_node = planner.start_node.clone();
    let nodes = planner.next_nodes(&start_node, &serde_json::Value::Null);

    assert_eq!(nodes.len(), 2);
    assert_eq!(nodes[0].name, "process node1");
    assert_eq!(nodes[1].name, "process node2");
}

#[test]
fn test_node_with_optional_input_optimized() {
    let mut node_a = Node::start("Node A");
    node_a.add_output_endpoint();

    let mut node_e = Node::normal("Node E");
    node_e.add_input_endpoint();
    node_e.inputs[0].required = true;
    node_e.add_input_endpoint();
    node_e.inputs[1].required = false;

    let edge_ae = Edge::connect(&node_a.get_output_ref(0).unwrap(), &node_e.get_input_ref(0).unwrap());

    let mut planner = Planner::new(vec![node_a.clone(), node_e.clone()], vec![edge_ae]).unwrap();

    let start_node = planner.start_node.clone();
    let next_nodes = planner.next_nodes(&start_node, &serde_json::Value::Null);
    assert_eq!(next_nodes.len(), 1);
    assert_eq!(next_nodes[0].name, "Node E");
}

#[test]
fn test_cyclic_graph_optimized() {
    let mut node_f = Node::start("Node F");
    node_f.add_input_endpoint();
    node_f.inputs[0].required = false;
    node_f.add_output_endpoint();

    let mut node_g = Node::normal("Node G");
    node_g.add_input_endpoint();
    node_g.add_output_endpoint();

    let edge_fg = Edge::connect(&node_f.get_output_ref(0).unwrap(), &node_g.get_input_ref(0).unwrap());
    let edge_gf = Edge::connect(&node_g.get_output_ref(0).unwrap(), &node_f.get_input_ref(0).unwrap());

    let mut planner =
        Planner::new(vec![node_f.clone(), node_g.clone()], vec![edge_fg, edge_gf]).unwrap();

    let start_node = planner.start_node.clone();
    let next_nodes = planner.next_nodes(&start_node, &serde_json::Value::Null);
    assert_eq!(next_nodes.len(), 1);
    assert_eq!(next_nodes[0].name, "Node G");

    let node_g_executed = next_nodes[0].clone();
    let next_nodes = planner.next_nodes(&node_g_executed, &serde_json::Value::Null);
    assert_eq!(next_nodes.len(), 0);
}

#[test]
fn converging_graph_waits_for_second_branch() {
    let mut node_a = Node::start("Node A");
    node_a.add_output_endpoint();
    node_a.add_output_endpoint();

    let mut node_b = Node::normal("Node B");
    node_b.add_input_endpoint();
    node_b.add_output_endpoint();

    let mut node_d = Node::normal("Node D");
    node_d.add_input_endpoint();
    node_d.add_input_endpoint();
    node_d.inputs[1].id = "input_d2".to_string();

    let edge_ab = Edge::connect(&node_a.get_output_ref(1).unwrap(), &node_b.get_input_ref(0).unwrap());
    let edge_ad = Edge::connect(&node_a.get_output_ref(0).unwrap(), &node_d.get_input_ref(0).unwrap());
    let edge_bd = Edge::connect(&node_b.get_output_ref(0).unwrap(), &node_d.get_input_ref(1).unwrap());

    let mut planner = Planner::new(
        vec![node_a.clone(), node_b.clone(), node_d.clone()],
        vec![edge_ab, edge_ad, edge_bd],
    )
    .unwrap();

    let start_node = planner.start_node.clone();
    let next_nodes = planner.next_nodes(&start_node, &serde_json::Value::Null);
    assert_eq!(next_nodes.len(), 1);
    assert_eq!(next_nodes[0].name, "Node B");

    let node_b_executed = next_nodes[0].clone();
    let next_nodes = planner.next_nodes(&node_b_executed, &serde_json::Value::Null);
    assert_eq!(next_nodes.len(), 1);
    assert_eq!(next_nodes[0].name, "Node D");
}

#[test]
fn node_builders_number_their_endpoints() {
    let mut node = Node::normal("N");
    assert_eq!(node.id.len(), 8);
    assert_eq!(node.node_type, "normal");
    assert_eq!(node.status, "pending");
    node.add_input_endpoint();
    node.add_input_endpoint();
    node.add_output_endpoint();
    assert_eq!(node.inputs[0].name, "input-1");
    assert_eq!(node.inputs[1].name, "input-2");
    assert_eq!(node.inputs[0].id, "input-1");
    assert_eq!(node.inputs[1].id, "input-2");
    assert!(node.inputs[1].required);
    assert_eq!(node.outputs[0].name, "output-1");
    assert_eq!(node.outputs[0].id.len(), 8);
    assert!(node.get_input(2).is_none());
    assert!(node.get_output(-1).is_none());
    let r = node.get_input_ref(1).unwrap();
    assert_eq!(r.node_id, node.id);
    assert_eq!(r.endpoint_id, "input-2");
    assert_eq!(Node::start("S").node_type, "start");
}

#[test]
fn new_input_id_avoids_taken_ids() {
    let mut node = Node::normal("N");
    node.add_input_endpoint();
    node.inputs[0].id = "input-2".to_string();
    node.add_input_endpoint();
    assert_eq!(node.inputs[1].name, "input-2");
    assert_eq!(node.inputs[1].id, "input-2_");
    assert_ne!(node.inputs[1].id, node.inputs[0].id);
}

#[test]
fn edge_new_links_the_given_endpoints() {
    let mut a = Node::start("A");
    a.add_output_endpoint();
    let mut b = Node::normal("B");
    b.add_input_endpoint();
    let e = Edge::new(&a, &b, &a.outputs[0], &b.inputs[0]);
    assert_eq!(e.id.len(), 8);
    assert_eq!(e.source.node_id, a.id);
    assert_eq!(e.source.endpoint_id, a.outputs[0].id);
    assert_eq!(e.target.node_id, b.id);
    assert_eq!(e.target.endpoint_id, "input-1");
}
