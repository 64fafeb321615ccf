use autoflow::edge::Edge;
use autoflow::endpoint::EndpointRef;
use autoflow::node::{EndpointConfig, Node};
use autoflow::planner::{GraphError, WorkflowPlanner};

fn empty_object() -> serde_json::Value {
    serde_json::Value::Object(serde_json::Map::new())
}

fn create_node(id: &str, node_type: &str, required_inputs: Vec<EndpointConfig>) -> Node {
    Node {
        id: id.to_string(),
        node_type: node_type.to_string(),
        name: id.to_string(),
        description: String::new(),
        inputs: required_inputs,
        outputs: vec![],
        data_schema: empty_object(),
        data: empty_object(),
        data_ui_schema: empty_object(),
        component: String::new(),
        executor_id: String::new(),
        status: String::new(),
        extra: None,
    }
}

fn create_edge(source_node_id: &str, target_node_id: &str, target_endpoint_id: &str) -> Edge {
    Edge {
        id: format!("{}->{}", source_node_id, target_node_id),
        source: EndpointRef {
            node_id: source_node_id.to_string(),
            endpoint_id: String::new(),
        },
        target: EndpointRef {
            node_id: target_node_id.to_string(),
            endpoint_id: target_endpoint_id.to_string(),
        },
    }
}

fn input(id: &str, required: bool, description: &str) -> EndpointConfig {
    EndpointConfig {
        id: id.to_string(),
        name: id.to_string(),
        required,
        data_type: "json".to_string(),
        display_type: "input".to_string(),
        description: description.to_string(),
    }
}

fn ids(nodes: &[Node]) -> Vec<String> {
    nodes.iter().map(|n| n.id.clone()).collect()
}

#[test]
fn test_find_start_node() {
    let start_node = create_node("start", "start", vec![]);
    let node_b = create_node("b", "task", vec![]);
    let nodes = vec![start_node.clone(), node_b];

    let planner = WorkflowPlanner::new(nodes, vec![]).unwrap();
    assert_eq!(planner.start_node.id, "start");
}

#[test]
fn multiple_start_nodes_are_rejected() {
    let start_node1 = create_node("start1", "start", vec![]);
    let start_node2 = create_node("start2", "start", vec![]);
    let result = WorkflowPlanner::new(vec![start_node1, start_node2], vec![]);
    assert_eq!(result.err(), Some(GraphError::MultipleStartNodes));
}

#[test]
fn missing_start_node_is_rejected() {
    let node_a = create_node("a", "task", vec![]);
    let result = WorkflowPlanner::new(vec![node_a], vec![]);
    assert_eq!(result.err(), Some(GraphError::NoStartNode));
    assert_eq!(WorkflowPlanner::new(vec![], vec![]).err(), Some(GraphError::NoStartNode));
}

#[test]
fn test_next_nodes_single_path() {
    let start_node = create_node("start", "start", vec![]);
    let node_a = create_node("a", "task", vec![]);
    let edge = create_edge("start", "a", "");

    let mut planner =
        WorkflowPlanner::new(vec![start_node.clone(), node_a.clone()], vec![edge]).unwrap();

    let next = planner.next_nodes(&start_node, &empty_object());
    assert_eq!(next.len(), 1);
    assert_eq!(next[0].id, "a");
}

#[test]
fn test_next_nodes_with_branching() {
    let start_node = create_node("start", "start", vec![]);
    let node_a = create_node("a", "task", vec![]);
    let node_b = create_node("b", "task", vec![]);
    let edges = vec![create_edge("start", "a", ""), create_edge("start", "b", "")];

    let mut planner = WorkflowPlanner::new(
        vec![start_node.clone(), node_a.clone(), node_b.clone()],
        edges,
    )
    .unwrap();

    let next = planner.next_nodes(&start_node, &empty_object());
    assert_eq!(next.len(), 2);
    assert!(next.iter().any(|node| node.id == "a"));
    assert!(next.iter().any(|node| node.id == "b"));
}

#[test]
fn test_node_with_required_inputs() {
    let start_node = create_node("start", "start", vec![]);
    let node_a = create_node("a", "task", vec![input("input", true, "Required input")]);
    let edge = Edge {
        id: "start->a".to_string(),
        source: EndpointRef {
            node_id: "start".to_string(),
            endpoint_id: "".to_string(),
        },
        target: EndpointRef {
            node_id: "a".to_string(),
            endpoint_id: "input".to_string(),
        },
    };

    let mut planner =
        WorkflowPlanner::new(vec![start_node.clone(), node_a.clone()], vec![edge]).unwrap();

    let next = planner.next_nodes(&start_node, &empty_object());
    assert_eq!(next.len(), 1, "Expected node_a to be executable after start node");
    assert_eq!(next[0].id, "a");
}

#[test]
fn test_prevent_revisiting_nodes() {
    let start_node = create_node("start", "start", vec![]);
    let node_a = create_node("a", "task", vec![]);
    let edge = create_edge("start", "a", "");

    let mut planner =
        WorkflowPlanner::new(vec![start_node.clone(), node_a.clone()], vec![edge]).unwrap();

    let _ = planner.next_nodes(&start_node, &empty_object());
    planner.mark_visited("a");

    let next = planner.next_nodes(&start_node, &empty_object());
    assert!(next.is_empty(), "No nodes should be executable since 'a' was already visited.");
}

#[test]
fn test_next_nodes_multiple_required_inputs() {
    let start_node = create_node("start", "start", vec![]);
    let node_a = create_node(
        "a",
        "task",
        vec![input("input1", true, "Required input 1"), input("input2", true, "Required input 2")],
    );
    let edge1 = create_edge("start", "a", "input1");
    let edge2 = create_edge("start", "a", "input2");
    let mut planner =
        WorkflowPlanner::new(vec![start_node.clone(), node_a.clone()], vec![edge1, edge2])
            .unwrap();

    let next = planner.next_nodes(&start_node, &empty_object());
    assert_eq!(next.len(), 1, "Expected node_a to be executable after start node");
    assert_eq!(next[0].id, "a");
}

#[test]
fn test_skip_visited_nodes() {
    let start_node = create_node("start", "start", vec![]);
    let node_a = create_node("a", "task", vec![]);
    let edge = create_edge("start", "a", "");
    let mut planner =
        WorkflowPlanner::new(vec![start_node.clone(), node_a.clone()], vec![edge]).unwrap();

    planner.mark_visited("a");
    let next = planner.next_nodes(&start_node, &empty_object());

    assert!(next.is_empty(), "Expected no next nodes as 'a' was already visited.");
}

#[test]
fn test_missing_target_node() {
    let start_node = create_node("start", "start", vec![]);
    let edge = create_edge("start", "nonexistent_node", "");
    let mut planner = WorkflowPlanner::new(vec![start_node.clone()], vec![edge]).unwrap();

    let next = planner.next_nodes(&start_node, &empty_object());
    assert!(next.is_empty(), "Expected no next nodes as target node does not exist.");
}

#[test]
fn test_circular_dependency_detection() {
    let start_node = create_node("start", "start", vec![]);
    let node_a = create_node("a", "task", vec![]);
    let node_b = create_node("b", "task", vec![]);
    let edge1 = create_edge("start", "a", "");
    let edge2 = create_edge("a", "b", "");
    let edge3 = create_edge("b", "a", "");

    let mut planner = WorkflowPlanner::new(
        vec![start_node.clone(), node_a.clone(), node_b.clone()],
        vec![edge1, edge2, edge3],
    )
    .unwrap();

    let next = planner.next_nodes(&start_node, &empty_object());
    assert_eq!(next.len(), 1);
    assert_eq!(next[0].id, "a");

    planner.mark_visited("a");
    let next = planner.next_nodes(&node_a, &empty_object());
    assert_eq!(next.len(), 1);
    assert_eq!(next[0].id, "b");
}

#[test]
fn test_node_with_optional_inputs() {
    let start_node = create_node("start", "start", vec![]);
    let node_a = create_node(
        "a",
        "task",
        vec![input("required_input", true, "Required input"), input("optional_input", false, "Optional input")],
    );
    let required_edge = create_edge("start", "a", "required_input");
    let optional_edge = create_edge("start", "a", "optional_input");
    let mut planner = WorkflowPlanner::new(
        vec![start_node.clone(), node_a.clone()],
        vec![required_edge, optional_edge],
    )
    .unwrap();

    let next = planner.next_nodes(&start_node, &empty_object());
    assert_eq!(next.len(), 1, "Expected node_a to be executable with only required input satisfied");
    assert_eq!(next[0].id, "a");
}

#[test]
fn fan_in_node_is_dispatched_once() {
    let s = create_node("s", "start", vec![]);
    let a = create_node("a", "task", vec![]);
    let b = create_node("b", "task", vec![]);
    let c = create_node("c", "task", vec![input("in", false, "Optional input")]);
    let edges = vec![
        create_edge("s", "a", ""),
        create_edge("s", "b", ""),
        create_edge("a", "c", "in"),
        create_edge("b", "c", "in"),
    ];
    let mut planner = WorkflowPlanner::new(vec![s.clone(), a.clone(), b.clone(), c], edges).unwrap();

    assert_eq!(ids(&planner.next_nodes(&s, &empty_object())), vec!["a", "b"]);
    assert_eq!(ids(&planner.next_nodes(&a, &empty_object())), vec!["c"]);
    assert!(planner.next_nodes(&b, &empty_object()).is_empty());
}

#[test]
fn optional_only_node_is_ready_after_one_source() {
    let s = create_node("s", "start", vec![]);
    let a = create_node("a", "task", vec![]);
    let c = create_node("c", "task", vec![input("x", false, "Optional"), input("y", false, "Optional")]);
    let edges = vec![create_edge("s", "a", ""), create_edge("s", "c", "x"), create_edge("a", "c", "y")];
    let mut planner = WorkflowPlanner::new(vec![s.clone(), a, c], edges).unwrap();

    assert_eq!(ids(&planner.next_nodes(&s, &empty_object())), vec!["a", "c"]);
}

#[test]
fn required_inputs_wait_for_every_source() {
    let s = create_node("s", "start", vec![]);
    let a = create_node("a", "task", vec![]);
    let b = create_node("b", "task", vec![]);
    let d = create_node("d", "task", vec![input("x", true, "Required"), input("y", true, "Required")]);
    let edges = vec![
        create_edge("s", "a", ""),
        create_edge("s", "b", ""),
        create_edge("a", "d", "x"),
        create_edge("b", "d", "y"),
    ];
    let mut planner =
        WorkflowPlanner::new(vec![s.clone(), a.clone(), b.clone(), d], edges).unwrap();

    assert_eq!(ids(&planner.next_nodes(&s, &empty_object())), vec!["a", "b"]);
    assert!(planner.next_nodes(&a, &empty_object()).is_empty());
    assert_eq!(ids(&planner.next_nodes(&b, &empty_object())), vec!["d"]);
}

#[test]
fn two_node_cycle_terminates() {
    let a = create_node("a", "start", vec![]);
    let b = create_node("b", "task", vec![]);
    let edges = vec![create_edge("a", "b", ""), create_edge("b", "a", "")];
    let mut planner = WorkflowPlanner::new(vec![a.clone(), b.clone()], edges).unwrap();

    assert_eq!(ids(&planner.next_nodes(&a, &empty_object())), vec!["b"]);
    assert!(planner.next_nodes(&b, &empty_object()).is_empty());
}

#[test]
fn later_duplicate_node_id_wins() {
    let s = create_node("s", "start", vec![]);
    let mut first = create_node("a", "task", vec![]);
    first.name = "first".to_string();
    let mut second = create_node("a", "task", vec![]);
    second.name = "second".to_string();
    let edges = vec![create_edge("s", "a", "")];
    let mut planner = WorkflowPlanner::new(vec![s.clone(), first, second], edges).unwrap();

    let next = planner.next_nodes(&s, &empty_object());
    assert_eq!(next.len(), 1);
    assert_eq!(next[0].name, "second");
}
