use vstd::prelude::*;
use crate::node::Node;
use crate::planner::{
    ids_view, last_index_of, lemma_eligible_len, next_nodes_step, with_id,
    WorkflowPlanner,
};

verus! {

/// The lifecycle of a workflow instance.
#[derive(Debug, Clone, Copy, PartialEq, Eq, Structural)]
pub enum WorkflowState {
    NotStarted,
    Running,
    Completed,
}

/// The orchestration decisions of one workflow instance: which nodes to dispatch
/// when it starts and each time a dispatched node completes.
///
/// Completions are handled one at a time; the caller dispatches the returned nodes
/// and reports each completion back.
pub struct Workflow {
    pub planner: WorkflowPlanner,
    pub state: WorkflowState,
    /// Dispatched nodes whose completion has not been reported yet.
    pub in_flight: usize,
}

impl Workflow {
    /// A workflow instance over `planner`, not started.
    pub fn new(planner: WorkflowPlanner) -> (r: Self)
        ensures
            r.planner == planner,
            r.state == WorkflowState::NotStarted,
            r.in_flight == 0,
    {
        Workflow { planner, state: WorkflowState::NotStarted, in_flight: 0 }
    }

    /// Starts the instance: returns the start node to dispatch and records it as
    /// handed out. An instance already started returns nothing and stays as it is.
    pub fn start_execution(&mut self) -> (r: Vec<Node>)
        ensures
            old(self).state != WorkflowState::NotStarted ==> r@.len() == 0 && *final(self)
                == *old(self),
            old(self).state == WorkflowState::NotStarted ==> {
                &&& r@.len() == 1
                &&& r@[0]@ == old(self).planner.start_node@
                &&& final(self).state == WorkflowState::Running
                &&& final(self).in_flight == 1
                &&& final(self).planner.nodes == old(self).planner.nodes
                &&& final(self).planner.edges == old(self).planner.edges
                &&& final(self).planner.visited == old(self).planner.visited
                &&& final(self).planner.start_node == old(self).planner.start_node
                &&& ids_view(final(self).planner.dispatched@) == ids_view(
                    old(self).planner.dispatched@,
                ).push(old(self).planner.start_node.id@)
            },
    {
        let mut r: Vec<Node> = Vec::new();
        if self.state != WorkflowState::NotStarted {
            return r;
        }
        let start = self.planner.start_node.clone();
        let ghost before = ids_view(self.planner.dispatched@);
        self.planner.dispatched.push(start.id.clone());
        proof {
            assert(ids_view(self.planner.dispatched@) =~= before.push(start.id@));
        }
        r.push(start);
        self.state = WorkflowState::Running;
        self.in_flight = 1;
        r
    }

    /// Handles the completion of the dispatched node with id `node_id`: asks the
    /// planner for the nodes that become eligible and returns them for dispatch.
    /// The instance completes once nothing it dispatched is still in flight. A
    /// completion that reaches an instance not running is ignored; one naming an
    /// unknown node yields nothing.
    pub fn on_task_completed(&mut self, node_id: &String) -> (r: Vec<Node>)
        requires
            old(self).in_flight + old(self).planner.edges@.len() <= usize::MAX,
        ensures
            old(self).state != WorkflowState::Running ==> r@.len() == 0 && *final(self) == *old(
                self,
            ),
            old(self).state == WorkflowState::Running ==> {
                let idx = last_index_of(old(self).planner.nodes@, node_id@);
                let remaining = if old(self).in_flight > 0 {
                    old(self).in_flight - 1
                } else {
                    0
                };
                &&& idx < 0 ==> r@.len() == 0 && final(self).planner == old(self).planner
                &&& idx >= 0 ==> next_nodes_step(
                    old(self).planner,
                    node_id@,
                    r@.map_values(|n: Node| n.id@),
                    final(self).planner,
                )
                &&& forall|i: int|
                    0 <= i < r@.len() ==> #[trigger] r@[i]@ == old(self).planner.nodes@[last_index_of(
                        old(self).planner.nodes@,
                        r@[i].id@,
                    )]@
                &&& final(self).in_flight == remaining + r@.len()
                &&& final(self).state == if final(self).in_flight == 0 {
                    WorkflowState::Completed
                } else {
                    WorkflowState::Running
                }
            },
    {
        let mut r: Vec<Node> = Vec::new();
        if self.state != WorkflowState::Running {
            return r;
        }
        if self.in_flight > 0 {
            self.in_flight = self.in_flight - 1;
        }
        let ghost nodes = self.planner.nodes@;
        let found = self.planner.find_node(node_id);
        match found {
            None => {},
            Some(idx) => {
                let node = self.planner.nodes[idx].clone();
                let payload = serde_json::Value::default();
                let ghost edges = self.planner.edges@;
                r = self.planner.next_nodes(&node, &payload);
                proof {
                    lemma_eligible_len(
                        nodes,
                        edges,
                        with_id(ids_view(old(self).planner.visited@), node_id@),
                        ids_view(old(self).planner.dispatched@),
                        node_id@,
                        edges.len(),
                    );
                }
            },
        }
        self.in_flight = self.in_flight + r.len();
        if self.in_flight == 0 {
            self.state = WorkflowState::Completed;
        }
        r
    }

    /// Stops the instance; completions reported afterwards are ignored.
    pub fn cancel(&mut self)
        ensures
            *final(self) == (Workflow { state: WorkflowState::Completed, ..*old(self) }),
    {
        self.state = WorkflowState::Completed;
    }
}

} // verus!
