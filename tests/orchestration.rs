use autoflow::edge::Edge;
use autoflow::endpoint::EndpointRef;
use autoflow::node::Node;
use autoflow::planner::WorkflowPlanner;
use autoflow::workflow::{Workflow, WorkflowState};

fn node(id: &str, node_type: &str) -> Node {
    Node {
        id: id.to_string(),
        node_type: node_type.to_string(),
        name: id.to_string(),
        description: String::new(),
        inputs: vec![],
        outputs: vec![],
        data_schema: serde_json::Value::Null,
        data: serde_json::Value::Null,
        data_ui_schema: serde_json::Value::Null,
        component: String::new(),
        executor_id: String::new(),
        status: String::new(),
        extra: None,
    }
}

fn edge(from: &str, to: &str) -> Edge {
    Edge {
        id: format!("{}->{}", from, to),
        source: EndpointRef::new(from, "out"),
        target: EndpointRef::new(to, "in"),
    }
}

fn workflow() -> Workflow {
    let planner = WorkflowPlanner::new(
        vec![node("s", "start"), node("a", "task"), node("b", "task"), node("e", "end")],
        vec![edge("s", "a"), edge("s", "b"), edge("a", "e")],
    )
    .unwrap();
    Workflow::new(planner)
}

fn ids(nodes: &[Node]) -> Vec<String> {
    nodes.iter().map(|n| n.id.clone()).collect()
}

#[test]
fn workflow_runs_to_completion() {
    let mut wf = workflow();
    assert_eq!(wf.state, WorkflowState::NotStarted);
    assert_eq!(ids(&wf.start_execution()), vec!["s"]);
    assert_eq!(wf.state, WorkflowState::Running);
    assert!(wf.start_execution().is_empty());

    assert_eq!(ids(&wf.on_task_completed(&"s".to_string())), vec!["a", "b"]);
    assert_eq!(wf.in_flight, 2);
    assert!(wf.on_task_completed(&"b".to_string()).is_empty());
    assert_eq!(wf.state, WorkflowState::Running);
    assert_eq!(ids(&wf.on_task_completed(&"a".to_string())), vec!["e"]);
    assert!(wf.on_task_completed(&"e".to_string()).is_empty());
    assert_eq!(wf.state, WorkflowState::Completed);
    assert_eq!(wf.in_flight, 0);
}

#[test]
fn cancelled_workflow_ignores_late_completions() {
    let mut wf = workflow();
    wf.start_execution();
    wf.cancel();
    assert_eq!(wf.state, WorkflowState::Completed);
    assert!(wf.on_task_completed(&"s".to_string()).is_empty());
    assert_eq!(wf.in_flight, 1);
}

#[test]
fn completion_of_unknown_node_yields_nothing() {
    let mut wf = workflow();
    wf.start_execution();
    assert!(wf.on_task_completed(&"zzz".to_string()).is_empty());
    assert_eq!(wf.state, WorkflowState::Completed);
}
