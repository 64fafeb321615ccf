use vstd::prelude::*;
use crate::edge::Edge;
use crate::enums::{node_type_code, NodeType};
use crate::node::Node;

verus! {

/// Why a graph cannot be planned.
#[derive(Debug, Clone, Copy, PartialEq, Eq, Structural)]
pub enum GraphError {
    /// No node has kind `start`.
    NoStartNode,
    /// More than one node has kind `start`.
    MultipleStartNodes,
}

/// The ids held by a list of strings, as plain values.
pub open spec fn ids_view(v: Seq<String>) -> Seq<Seq<char>> {
    v.map_values(|s: String| s@)
}

/// `ids` with `id` added, unless it is already there.
pub open spec fn with_id(ids: Seq<Seq<char>>, id: Seq<char>) -> Seq<Seq<char>> {
    if ids.contains(id) {
        ids
    } else {
        ids.push(id)
    }
}

/// Whether `n` is of kind `start`.
pub open spec fn is_start(n: Node) -> bool {
    n.node_type@ == node_type_code(NodeType::Start)
}

/// How many nodes of `nodes` are of kind `start`.
pub open spec fn start_count(nodes: Seq<Node>) -> nat
    decreases nodes.len(),
{
    if nodes.len() == 0 {
        0
    } else {
        start_count(nodes.drop_last()) + if is_start(nodes.last()) { 1nat } else { 0nat }
    }
}

/// The position of the node that id `id` names: the last node with that id
/// (a later duplicate replaces an earlier one), or -1 when none has it.
pub open spec fn last_index_of(nodes: Seq<Node>, id: Seq<char>) -> int
    decreases nodes.len(),
{
    if nodes.len() == 0 {
        -1
    } else if nodes.last().id@ == id {
        nodes.len() - 1
    } else {
        last_index_of(nodes.drop_last(), id)
    }
}

/// The position that `last_index_of` gives is -1 or holds a node with that id.
pub proof fn lemma_last_index_of(nodes: Seq<Node>, id: Seq<char>)
    ensures
        -1 <= last_index_of(nodes, id) < nodes.len(),
        last_index_of(nodes, id) >= 0 ==> nodes[last_index_of(nodes, id)].id@ == id,
    decreases nodes.len(),
{
    if nodes.len() > 0 {
        lemma_last_index_of(nodes.drop_last(), id);
    }
}

/// Whether input `endpoint_id` of node `node_id` has an incoming edge whose
/// source node is in `done`.
pub open spec fn input_satisfied(
    edges: Seq<Edge>,
    done: Seq<Seq<char>>,
    node_id: Seq<char>,
    endpoint_id: Seq<char>,
) -> bool {
    exists|j: int|
        0 <= j < edges.len() && #[trigger] edges[j].target@ == (node_id, endpoint_id) && done.contains(
            edges[j].source.node_id@,
        )
}

/// Whether every required input of `n` is satisfied by the nodes in `done`;
/// optional inputs impose nothing.
pub open spec fn node_ready(edges: Seq<Edge>, done: Seq<Seq<char>>, n: Node) -> bool {
    forall|k: int|
        0 <= k < n.inputs@.len() && #[trigger] n.inputs@[k].required ==> input_satisfied(
            edges,
            done,
            n.id@,
            n.inputs@[k].id@,
        )
}

/// Whether edge `e`, seen after the targets in `prev` were picked, makes its target
/// eligible: it leaves `from`, its target is known, neither completed (`done`) nor
/// handed out before (`handed`, `prev`), and ready.
pub open spec fn edge_picks(
    nodes: Seq<Node>,
    edges: Seq<Edge>,
    done: Seq<Seq<char>>,
    handed: Seq<Seq<char>>,
    from: Seq<char>,
    prev: Seq<Seq<char>>,
    e: Edge,
) -> bool {
    let t = e.target.node_id@;
    &&& e.source.node_id@ == from
    &&& !done.contains(t)
    &&& !handed.contains(t)
    &&& !prev.contains(t)
    &&& last_index_of(nodes, t) >= 0
    &&& node_ready(edges, done, nodes[last_index_of(nodes, t)])
}

/// The ids of the nodes that become eligible when `from` completes, in the order
/// in which the first `n` edges reach them, each at most once.
pub open spec fn eligible(
    nodes: Seq<Node>,
    edges: Seq<Edge>,
    done: Seq<Seq<char>>,
    handed: Seq<Seq<char>>,
    from: Seq<char>,
    n: nat,
) -> Seq<Seq<char>>
    decreases n,
{
    if n == 0 || n > edges.len() {
        seq![]
    } else {
        let prev = eligible(nodes, edges, done, handed, from, (n - 1) as nat);
        if edge_picks(nodes, edges, done, handed, from, prev, edges[n - 1]) {
            prev.push(edges[n - 1].target.node_id@)
        } else {
            prev
        }
    }
}

/// Plans a workflow graph: tells, as nodes complete, which nodes may run next.
///
/// `visited` holds the nodes that have completed. `dispatched` holds the nodes
/// that `next_nodes` has handed out; none of them is handed out again.
pub struct Planner {
    pub nodes: Vec<Node>,
    pub edges: Vec<Edge>,
    pub visited: Vec<String>,
    pub dispatched: Vec<String>,
    pub start_node: Node,
}

/// The planner of a workflow instance, under the name its orchestrator uses.
pub type WorkflowPlanner = Planner;

/// The relation between the planner before and after `next_nodes(completed)`
/// returned the nodes with ids `out`.
pub open spec fn next_nodes_step(
    pre: Planner,
    completed: Seq<char>,
    out: Seq<Seq<char>>,
    post: Planner,
) -> bool {
    let done = with_id(ids_view(pre.visited@), completed);
    &&& post.nodes == pre.nodes
    &&& post.edges == pre.edges
    &&& post.start_node == pre.start_node
    &&& ids_view(post.visited@) == done
    &&& out == eligible(
        pre.nodes@,
        pre.edges@,
        done,
        ids_view(pre.dispatched@),
        completed,
        pre.edges@.len(),
    )
    &&& ids_view(post.dispatched@) == ids_view(pre.dispatched@) + out
}

/// The relation between the planner before and after one call that changes it:
/// `next_nodes(completed)` returning the nodes with ids `out`, or
/// `mark_visited(completed)`, which returns nothing.
pub open spec fn planner_step(
    pre: Planner,
    completed: Seq<char>,
    out: Seq<Seq<char>>,
    post: Planner,
) -> bool {
    ||| next_nodes_step(pre, completed, out, post)
    ||| {
        &&& out.len() == 0
        &&& post.nodes == pre.nodes
        &&& post.edges == pre.edges
        &&& post.start_node == pre.start_node
        &&& post.dispatched == pre.dispatched
        &&& ids_view(post.visited@) == with_id(ids_view(pre.visited@), completed)
    }
}

/// Whether `ids` holds `id`.
fn contains_id(ids: &Vec<String>, id: &String) -> (r: bool)
    ensures
        r == ids_view(ids@).contains(id@),
{
    let mut i: usize = 0;
    while i < ids.len()
        invariant
            i <= ids@.len(),
            forall|k: int| 0 <= k < i ==> ids@[k]@ != id@,
        decreases ids@.len() - i,
    {
        if ids[i] == *id {
            assert(ids_view(ids@)[i as int] == id@);
            return true;
        }
        i = i + 1;
    }
    assert(!ids_view(ids@).contains(id@)) by {
        assert forall|k: int| 0 <= k < ids_view(ids@).len() implies ids_view(ids@)[k] != id@ by {
            assert(ids_view(ids@)[k] == ids@[k]@);
        }
    }
    false
}

proof fn lemma_take_step<T>(s: Seq<T>, i: int)
    requires
        0 <= i < s.len(),
    ensures
        s.take(i + 1).drop_last() == s.take(i),
        s.take(i + 1).last() == s[i],
{
    assert(s.take(i + 1).drop_last() =~= s.take(i));
}

/// Counts the start nodes and finds the first of them.
fn find_start_node(nodes: &Vec<Node>) -> (r: (usize, usize))
    ensures
        r.0 == start_count(nodes@) || r.0 == 2 && start_count(nodes@) >= 2,
        r.0 >= 1 ==> r.1 < nodes@.len() && is_start(nodes@[r.1 as int]),
{
    let mut count: usize = 0;
    let mut first: usize = 0;
    let mut i: usize = 0;
    proof {
        assert(nodes@.take(0) =~= Seq::<Node>::empty());
    }
    while i < nodes.len()
        invariant
            i <= nodes@.len(),
            count <= 2,
            count == start_count(nodes@.take(i as int)) || count == 2 && start_count(
                nodes@.take(i as int),
            ) >= 2,
            count >= 1 ==> first < nodes@.len() && is_start(nodes@[first as int]),
        decreases nodes@.len() - i,
    {
        proof {
            lemma_take_step(nodes@, i as int);
        }
        if nodes[i].node_type == NodeType::Start.code() {
            if count == 0 {
                first = i;
            }
            if count < 2 {
                count = count + 1;
            }
        }
        i = i + 1;
    }
    proof {
        assert(nodes@.take(nodes@.len() as int) =~= nodes@);
    }
    (count, first)
}

impl Planner {
    /// Builds a planner over `nodes` and `edges`, with nothing completed yet.
    /// The graph must hold exactly one node of kind `start`.
    pub fn new(nodes: Vec<Node>, edges: Vec<Edge>) -> (r: Result<Planner, GraphError>)
        ensures
            start_count(nodes@) == 0 <==> r == Err::<Planner, GraphError>(GraphError::NoStartNode),
            start_count(nodes@) >= 2 <==> r == Err::<Planner, GraphError>(
                GraphError::MultipleStartNodes,
            ),
            r matches Ok(p) ==> {
                &&& start_count(nodes@) == 1
                &&& p.nodes == nodes
                &&& p.edges == edges
                &&& p.visited@.len() == 0
                &&& p.dispatched@.len() == 0
                &&& is_start(p.start_node)
                &&& exists|i: int| 0 <= i < nodes@.len() && p.start_node@ == #[trigger] nodes@[i]@
            },
    {
        let (count, first) = find_start_node(&nodes);
        if count == 0 {
            Err(GraphError::NoStartNode)
        } else if count >= 2 {
            Err(GraphError::MultipleStartNodes)
        } else {
            let start_node = nodes[first].clone();
            proof {
                assert(start_node@ == nodes@[first as int]@);
            }
            Ok(Planner { nodes, edges, visited: Vec::new(), dispatched: Vec::new(), start_node })
        }
    }
}


impl Planner {
    /// The position of the node that `id` names (the last with that id), if any.
    pub(crate) fn find_node(&self, id: &String) -> (r: Option<usize>)
        ensures
            last_index_of(self.nodes@, id@) < 0 ==> r.is_none(),
            last_index_of(self.nodes@, id@) >= 0 ==> r == Some(
                last_index_of(self.nodes@, id@) as usize,
            ),
            r matches Some(i) ==> i < self.nodes@.len() && self.nodes@[i as int].id@ == id@
                && i as int == last_index_of(self.nodes@, id@),
    {
        proof {
            lemma_last_index_of(self.nodes@, id@);
        }
        let mut i: usize = self.nodes.len();
        proof {
            assert(self.nodes@.take(i as int) =~= self.nodes@);
        }
        while i > 0
            invariant
                i <= self.nodes@.len(),
                last_index_of(self.nodes@, id@) == last_index_of(self.nodes@.take(i as int), id@),
            decreases i,
        {
            proof {
                lemma_take_step(self.nodes@, i - 1);
            }
            if self.nodes[i - 1].id == *id {
                return Some(i - 1);
            }
            i = i - 1;
        }
        None
    }

    /// Whether input `endpoint_id` of node `node_id` has an incoming edge from a
    /// completed node.
    fn input_satisfied(&self, node_id: &String, endpoint_id: &String) -> (r: bool)
        ensures
            r == input_satisfied(self.edges@, ids_view(self.visited@), node_id@, endpoint_id@),
    {
        let mut j: usize = 0;
        while j < self.edges.len()
            invariant
                j <= self.edges@.len(),
                forall|jj: int|
                    0 <= jj < j ==> !(#[trigger] self.edges@[jj].target@ == (node_id@, endpoint_id@)
                        && ids_view(self.visited@).contains(self.edges@[jj].source.node_id@)),
            decreases self.edges@.len() - j,
        {
            let e = &self.edges[j];
            if e.target.node_id == *node_id && e.target.endpoint_id == *endpoint_id {
                if contains_id(&self.visited, &e.source.node_id) {
                    assert(self.edges@[j as int].target@ == (node_id@, endpoint_id@));
                    return true;
                }
            }
            j = j + 1;
        }
        false
    }

    /// Whether every required input of `n` has an incoming edge from a completed node.
    fn is_node_ready(&self, n: &Node) -> (r: bool)
        ensures
            r == node_ready(self.edges@, ids_view(self.visited@), *n),
    {
        let mut k: usize = 0;
        while k < n.inputs.len()
            invariant
                k <= n.inputs@.len(),
                forall|kk: int|
                    0 <= kk < k && #[trigger] n.inputs@[kk].required ==> input_satisfied(
                        self.edges@,
                        ids_view(self.visited@),
                        n.id@,
                        n.inputs@[kk].id@,
                    ),
            decreases n.inputs@.len() - k,
        {
            if n.inputs[k].required {
                if !self.input_satisfied(&n.id, &n.inputs[k].id) {
                    return false;
                }
            }
            k = k + 1;
        }
        true
    }

    /// Records that `node` has completed and returns the nodes that become
    /// eligible to run: the targets of its outgoing edges, in edge order and each
    /// once, that are neither completed nor handed out before, that the graph
    /// holds, and whose required inputs each have an incoming edge from a
    /// completed node. The returned nodes count as handed out from then on.
    pub fn next_nodes(&mut self, node: &Node, _data: &serde_json::Value) -> (r: Vec<Node>)
        ensures
            next_nodes_step(
                *old(self),
                node.id@,
                r@.map_values(|n: Node| n.id@),
                *final(self),
            ),
            forall|i: int|
                0 <= i < r@.len() ==> #[trigger] r@[i]@ == old(self).nodes@[last_index_of(
                    old(self).nodes@,
                    r@[i].id@,
                )]@,
    {
        if !contains_id(&self.visited, &node.id) {
            self.visited.push(node.id.clone());
        }
        proof {
            assert(ids_view(self.visited@) =~= with_id(ids_view(old(self).visited@), node.id@));
        }
        let ghost done = ids_view(self.visited@);
        let ghost handed = ids_view(self.dispatched@);
        let mut result: Vec<Node> = Vec::new();
        let mut seen: Vec<String> = Vec::new();
        let mut i: usize = 0;
        while i < self.edges.len()
            invariant
                i <= self.edges@.len(),
                self.nodes == old(self).nodes,
                self.edges == old(self).edges,
                self.start_node == old(self).start_node,
                self.dispatched == old(self).dispatched,
                ids_view(self.visited@) == done,
                handed == ids_view(self.dispatched@),
                ids_view(seen@) == eligible(
                    self.nodes@,
                    self.edges@,
                    done,
                    handed,
                    node.id@,
                    i as nat,
                ),
                result@.len() == seen@.len(),
                forall|k: int|
                    0 <= k < result@.len() ==> #[trigger] result@[k].id@ == seen@[k]@
                        && result@[k]@ == self.nodes@[last_index_of(self.nodes@, seen@[k]@)]@,
            decreases self.edges@.len() - i,
        {
            let ghost prev = ids_view(seen@);
            let e = &self.edges[i];
            let t = &e.target.node_id;
            let mut picked = false;
            if e.source.node_id == node.id && !contains_id(&self.visited, t) && !contains_id(
                &self.dispatched,
                t,
            ) && !contains_id(&seen, t) {
                match self.find_node(t) {
                    Some(idx) => {
                        if self.is_node_ready(&self.nodes[idx]) {
                            let n = self.nodes[idx].clone();
                            result.push(n);
                            seen.push(t.clone());
                            picked = true;
                        }
                    },
                    None => {},
                }
            }
            proof {
                let es = self.edges@[i as int];
                let next = eligible(self.nodes@, self.edges@, done, handed, node.id@, (i + 1) as nat);
                assert(next == if edge_picks(self.nodes@, self.edges@, done, handed, node.id@, prev, es) {
                    prev.push(es.target.node_id@)
                } else {
                    prev
                });
                if picked {
                    assert(ids_view(seen@) =~= prev.push(es.target.node_id@));
                } else {
                    assert(ids_view(seen@) =~= prev);
                }
            }
            i = i + 1;
        }
        let ghost out = ids_view(seen@);
        proof {
            assert(result@.map_values(|n: Node| n.id@) =~= out);
        }
        let mut j: usize = 0;
        while j < seen.len()
            invariant
                j <= seen@.len(),
                self.nodes == old(self).nodes,
                self.edges == old(self).edges,
                self.start_node == old(self).start_node,
                ids_view(self.visited@) == done,
                ids_view(self.dispatched@) == handed + ids_view(seen@).take(j as int),
            decreases seen@.len() - j,
        {
            let ghost before = ids_view(self.dispatched@);
            self.dispatched.push(seen[j].clone());
            proof {
                assert(ids_view(self.dispatched@) =~= before.push(seen@[j as int]@));
                assert(ids_view(seen@).take(j + 1) =~= ids_view(seen@).take(j as int).push(seen@[j as int]@));
                assert(ids_view(self.dispatched@) =~= handed + ids_view(seen@).take(j + 1));
            }
            j = j + 1;
        }
        proof {
            assert(ids_view(seen@).take(seen@.len() as int) =~= ids_view(seen@));
        }
        result
    }

    /// Records that the node with id `id` has completed, without planning from it.
    pub fn mark_visited(&mut self, id: &str)
        ensures
            final(self).nodes == old(self).nodes,
            final(self).edges == old(self).edges,
            final(self).start_node == old(self).start_node,
            final(self).dispatched == old(self).dispatched,
            ids_view(final(self).visited@) == with_id(ids_view(old(self).visited@), id@),
            planner_step(*old(self), id@, seq![], *final(self)),
    {
        let s = id.to_string();
        if !contains_id(&self.visited, &s) {
            self.visited.push(s);
        }
        assert(ids_view(self.visited@) =~= with_id(ids_view(old(self).visited@), id@));
    }
}


/// `eligible` picks at most one id per edge looked at.
pub proof fn lemma_eligible_len(
    nodes: Seq<Node>,
    edges: Seq<Edge>,
    done: Seq<Seq<char>>,
    handed: Seq<Seq<char>>,
    from: Seq<char>,
    n: nat,
)
    ensures
        eligible(nodes, edges, done, handed, from, n).len() <= n,
    decreases n,
{
    if n > 0 {
        lemma_eligible_len(nodes, edges, done, handed, from, (n - 1) as nat);
    }
}

/// Every id that `eligible` picks is known, ready, neither completed nor handed
/// out before, and picked once.
pub proof fn lemma_eligible_picks(
    nodes: Seq<Node>,
    edges: Seq<Edge>,
    done: Seq<Seq<char>>,
    handed: Seq<Seq<char>>,
    from: Seq<char>,
    n: nat,
)
    ensures
        forall|i: int|
            0 <= i < eligible(nodes, edges, done, handed, from, n).len() ==> {
                let t = #[trigger] eligible(nodes, edges, done, handed, from, n)[i];
                &&& !done.contains(t)
                &&& !handed.contains(t)
                &&& last_index_of(nodes, t) >= 0
                &&& node_ready(edges, done, nodes[last_index_of(nodes, t)])
            },
        forall|i: int, j: int|
            0 <= i < j < eligible(nodes, edges, done, handed, from, n).len() ==> eligible(
                nodes,
                edges,
                done,
                handed,
                from,
                n,
            )[i] != eligible(nodes, edges, done, handed, from, n)[j],
    decreases n,
{
    if n > 0 && n <= edges.len() {
        lemma_eligible_picks(nodes, edges, done, handed, from, (n - 1) as nat);
        let prev = eligible(nodes, edges, done, handed, from, (n - 1) as nat);
        let cur = eligible(nodes, edges, done, handed, from, n);
        if edge_picks(nodes, edges, done, handed, from, prev, edges[n - 1]) {
            assert forall|i: int, j: int| 0 <= i < j < cur.len() implies cur[i] != cur[j] by {
                if j == cur.len() - 1 {
                    assert(prev[i] == cur[i]);
                    assert(!prev.contains(cur[j]));
                }
            }
        }
    }
}

/// An edge that makes its target eligible keeps that target among those picked
/// from all the edges that follow.
pub proof fn lemma_eligible_keeps(
    nodes: Seq<Node>,
    edges: Seq<Edge>,
    done: Seq<Seq<char>>,
    handed: Seq<Seq<char>>,
    from: Seq<char>,
    j: int,
    n: nat,
)
    requires
        0 <= j < n <= edges.len(),
        edges[j].source.node_id@ == from,
        !done.contains(edges[j].target.node_id@),
        !handed.contains(edges[j].target.node_id@),
        last_index_of(nodes, edges[j].target.node_id@) >= 0,
        node_ready(edges, done, nodes[last_index_of(nodes, edges[j].target.node_id@)]),
    ensures
        eligible(nodes, edges, done, handed, from, n).contains(edges[j].target.node_id@),
    decreases n,
{
    let t = edges[j].target.node_id@;
    let prev = eligible(nodes, edges, done, handed, from, (n - 1) as nat);
    let cur = eligible(nodes, edges, done, handed, from, n);
    if n - 1 > j {
        lemma_eligible_keeps(nodes, edges, done, handed, from, j, (n - 1) as nat);
        let w = choose|w: int| 0 <= w < prev.len() && prev[w] == t;
        assert(cur[w] == t);
    } else {
        if prev.contains(t) {
            let w = choose|w: int| 0 <= w < prev.len() && prev[w] == t;
            assert(cur[w] == t);
        } else {
            assert(cur[cur.len() - 1] == t);
        }
    }
}

/// The dispatched ids only grow along a run of `next_nodes` calls: what call `k1`
/// handed out is still recorded after call `k2 - 1`.
proof fn lemma_dispatched_grows(
    states: Seq<Planner>,
    completed: Seq<Seq<char>>,
    outs: Seq<Seq<Seq<char>>>,
    k1: int,
    k2: int,
)
    requires
        states.len() == outs.len() + 1,
        completed.len() == outs.len(),
        forall|k: int|
            0 <= k < outs.len() ==> planner_step(
                #[trigger] states[k],
                completed[k],
                outs[k],
                states[k + 1],
            ),
        0 <= k1 < k2 <= outs.len(),
    ensures
        forall|x: Seq<char>| outs[k1].contains(x) ==> ids_view(states[k2].dispatched@).contains(x),
    decreases k2 - k1,
{
    if k2 == k1 + 1 {
        assert(planner_step(states[k1], completed[k1], outs[k1], states[k1 + 1]));
        assert forall|x: Seq<char>| outs[k1].contains(x) implies ids_view(
            states[k2].dispatched@,
        ).contains(x) by {
            let w = choose|w: int| 0 <= w < outs[k1].len() && outs[k1][w] == x;
            let base = ids_view(states[k1].dispatched@);
            assert((base + outs[k1])[base.len() + w] == x);
        }
    } else {
        lemma_dispatched_grows(states, completed, outs, k1, k2 - 1);
        assert(planner_step(states[k2 - 1], completed[k2 - 1], outs[k2 - 1], states[k2]));
        assert forall|x: Seq<char>| outs[k1].contains(x) implies ids_view(
            states[k2].dispatched@,
        ).contains(x) by {
            let base = ids_view(states[k2 - 1].dispatched@);
            let w = choose|w: int| 0 <= w < base.len() && base[w] == x;
            if next_nodes_step(states[k2 - 1], completed[k2 - 1], outs[k2 - 1], states[k2]) {
                assert((base + outs[k2 - 1])[w] == x);
            }
        }
    }
}

/// No node is handed out twice over the life of a planner: along any run of
/// `next_nodes` and `mark_visited` calls, no result holds an id twice and two
/// different calls return no common id.
pub proof fn law_dispatch_at_most_once(
    states: Seq<Planner>,
    completed: Seq<Seq<char>>,
    outs: Seq<Seq<Seq<char>>>,
)
    requires
        states.len() == outs.len() + 1,
        completed.len() == outs.len(),
        forall|k: int|
            0 <= k < outs.len() ==> planner_step(
                #[trigger] states[k],
                completed[k],
                outs[k],
                states[k + 1],
            ),
    ensures
        forall|k: int, i: int, j: int|
            0 <= k < outs.len() && 0 <= i < j < outs[k].len() ==> #[trigger] outs[k][i]
                != #[trigger] outs[k][j],
        forall|k1: int, k2: int, i: int, j: int|
            0 <= k1 < k2 < outs.len() && 0 <= i < outs[k1].len() && 0 <= j < outs[k2].len()
                ==> #[trigger] outs[k1][i] != #[trigger] outs[k2][j],
{
    assert forall|k: int, i: int, j: int|
        0 <= k < outs.len() && 0 <= i < j < outs[k].len() implies #[trigger] outs[k][i]
        != #[trigger] outs[k][j] by {
        assert(planner_step(states[k], completed[k], outs[k], states[k + 1]));
        let pre = states[k];
        lemma_eligible_picks(
            pre.nodes@,
            pre.edges@,
            with_id(ids_view(pre.visited@), completed[k]),
            ids_view(pre.dispatched@),
            completed[k],
            pre.edges@.len(),
        );
    }
    assert forall|k1: int, k2: int, i: int, j: int|
        0 <= k1 < k2 < outs.len() && 0 <= i < outs[k1].len() && 0 <= j < outs[k2].len()
        implies #[trigger] outs[k1][i] != #[trigger] outs[k2][j] by {
        lemma_dispatched_grows(states, completed, outs, k1, k2);
        assert(outs[k1].contains(outs[k1][i]));
        assert(planner_step(states[k2], completed[k2], outs[k2], states[k2 + 1]));
        let pre = states[k2];
        lemma_eligible_picks(
            pre.nodes@,
            pre.edges@,
            with_id(ids_view(pre.visited@), completed[k2]),
            ids_view(pre.dispatched@),
            completed[k2],
            pre.edges@.len(),
        );
        assert(!ids_view(pre.dispatched@).contains(outs[k2][j]));
    }
}

/// A node whose inputs are all optional becomes eligible as soon as one edge into
/// it leaves the node that has just completed, unless it has completed itself or
/// was handed out before.
pub proof fn law_optional_inputs_ready(
    pre: Planner,
    completed: Seq<char>,
    out: Seq<Seq<char>>,
    post: Planner,
    j: int,
)
    requires
        next_nodes_step(pre, completed, out, post),
        0 <= j < pre.edges@.len(),
        pre.edges@[j].source.node_id@ == completed,
        last_index_of(pre.nodes@, pre.edges@[j].target.node_id@) >= 0,
        forall|k: int|
            0 <= k < pre.nodes@[last_index_of(
                pre.nodes@,
                pre.edges@[j].target.node_id@,
            )].inputs@.len() ==> !(#[trigger] pre.nodes@[last_index_of(
                pre.nodes@,
                pre.edges@[j].target.node_id@,
            )].inputs@[k]).required,
        !ids_view(post.visited@).contains(pre.edges@[j].target.node_id@),
        !ids_view(pre.dispatched@).contains(pre.edges@[j].target.node_id@),
    ensures
        out.contains(pre.edges@[j].target.node_id@),
{
    lemma_eligible_keeps(
        pre.nodes@,
        pre.edges@,
        ids_view(post.visited@),
        ids_view(pre.dispatched@),
        completed,
        j,
        pre.edges@.len(),
    );
}

/// A node is handed out only when each of its required inputs has an incoming edge
/// from a completed node: while one of those sources has not completed, it stays back.
pub proof fn law_required_inputs_gate(
    pre: Planner,
    completed: Seq<char>,
    out: Seq<Seq<char>>,
    post: Planner,
    t: Seq<char>,
)
    requires
        next_nodes_step(pre, completed, out, post),
        out.contains(t),
    ensures
        last_index_of(pre.nodes@, t) >= 0,
        node_ready(pre.edges@, ids_view(post.visited@), pre.nodes@[last_index_of(pre.nodes@, t)]),
{
    lemma_eligible_picks(
        pre.nodes@,
        pre.edges@,
        ids_view(post.visited@),
        ids_view(pre.dispatched@),
        completed,
        pre.edges@.len(),
    );
    let w = choose|w: int| 0 <= w < out.len() && out[w] == t;
    assert(out[w] == t);
}


/// The ids handed out by the first `n` calls of a run, call after call.
pub open spec fn handed_out(outs: Seq<Seq<Seq<char>>>, n: nat) -> Seq<Seq<char>>
    decreases n,
{
    if n == 0 || n > outs.len() {
        seq![]
    } else {
        handed_out(outs, (n - 1) as nat) + outs[n - 1]
    }
}

/// The ids of a sequence of nodes.
pub open spec fn node_ids(nodes: Seq<Node>) -> Seq<Seq<char>> {
    nodes.map_values(|n: Node| n.id@)
}

/// Whether `x` was handed out by one of the first `n` calls.
pub open spec fn handed_by(outs: Seq<Seq<Seq<char>>>, n: int, x: Seq<char>) -> bool {
    exists|k: int, i: int| 0 <= k < n && 0 <= i < outs[k].len() && x == #[trigger] outs[k][i]
}

/// Along a run, the nodes stay the same, and what the first `n` calls hand out
/// holds no id twice, each the id of one of those nodes.
proof fn lemma_handed_out(
    states: Seq<Planner>,
    completed: Seq<Seq<char>>,
    outs: Seq<Seq<Seq<char>>>,
    n: nat,
)
    requires
        states.len() == outs.len() + 1,
        completed.len() == outs.len(),
        forall|k: int|
            0 <= k < outs.len() ==> planner_step(
                #[trigger] states[k],
                completed[k],
                outs[k],
                states[k + 1],
            ),
        n <= outs.len(),
    ensures
        states[n as int].nodes == states[0].nodes,
        handed_out(outs, n).no_duplicates(),
        forall|j: int|
            0 <= j < handed_out(outs, n).len() ==> node_ids(states[0].nodes@).contains(
                #[trigger] handed_out(outs, n)[j],
            ),
        forall|j: int|
            0 <= j < handed_out(outs, n).len() ==> handed_by(
                outs,
                n as int,
                #[trigger] handed_out(outs, n)[j],
            ),
    decreases n,
{
    if n > 0 {
        lemma_handed_out(states, completed, outs, (n - 1) as nat);
        law_dispatch_at_most_once(states, completed, outs);
        let k = n - 1;
        let prev = handed_out(outs, (n - 1) as nat);
        let cur = handed_out(outs, n);
        let pre = states[k];
        assert(planner_step(states[k], completed[k], outs[k], states[k + 1]));
        assert(cur == prev + outs[k]);
        let ids = node_ids(states[0].nodes@);
        if next_nodes_step(pre, completed[k], outs[k], states[k + 1]) {
            lemma_eligible_picks(
                pre.nodes@,
                pre.edges@,
                with_id(ids_view(pre.visited@), completed[k]),
                ids_view(pre.dispatched@),
                completed[k],
                pre.edges@.len(),
            );
        }
        assert forall|j: int| 0 <= j < cur.len() implies ids.contains(#[trigger] cur[j]) by {
            if j >= prev.len() {
                let x = outs[k][j - prev.len()];
                assert(cur[j] == x);
                let idx = last_index_of(pre.nodes@, x);
                lemma_last_index_of(pre.nodes@, x);
                assert(ids[idx] == x);
            } else {
                assert(cur[j] == prev[j]);
            }
        }
        assert forall|j: int| 0 <= j < cur.len() implies handed_by(outs, n as int, #[trigger] cur[j]) by {
            if j >= prev.len() {
                assert(cur[j] == outs[k][j - prev.len()]);
            } else {
                assert(cur[j] == prev[j]);
                assert(handed_by(outs, n - 1, prev[j]));
                let (kk, i) = choose|kk: int, i: int|
                    0 <= kk < n - 1 && 0 <= i < outs[kk].len() && prev[j] == #[trigger] outs[kk][i];
                assert(cur[j] == outs[kk][i]);
            }
        }
        assert forall|a: int, b: int| 0 <= a < cur.len() && 0 <= b < cur.len() && a != b implies cur[a]
            != cur[b] by {
            if a < prev.len() && b < prev.len() {
                assert(cur[a] == prev[a] && cur[b] == prev[b]);
            } else if a >= prev.len() && b >= prev.len() {
                assert(cur[a] == outs[k][a - prev.len()] && cur[b] == outs[k][b - prev.len()]);
                if a < b {
                    assert(outs[k][a - prev.len()] != outs[k][b - prev.len()]);
                } else {
                    assert(outs[k][b - prev.len()] != outs[k][a - prev.len()]);
                }
            } else {
                let (p, q) = if a < prev.len() { (a, b) } else { (b, a) };
                assert(cur[p] == prev[p]);
                assert(handed_by(outs, n - 1, prev[p]));
                let (kk, i) = choose|kk: int, i: int|
                    0 <= kk < n - 1 && 0 <= i < outs[kk].len() && prev[p] == #[trigger] outs[kk][i];
                assert(cur[q] == outs[k][q - prev.len()]);
                assert(outs[kk][i] != outs[k][q - prev.len()]);
            }
        }
    }
}

/// A planner hands out at most as many nodes as its graph holds, over any run of
/// `next_nodes` and `mark_visited` calls, cycles included: an orchestrator that
/// dispatches only what it is handed stops dispatching.
pub proof fn law_dispatch_bounded(
    states: Seq<Planner>,
    completed: Seq<Seq<char>>,
    outs: Seq<Seq<Seq<char>>>,
)
    requires
        states.len() == outs.len() + 1,
        completed.len() == outs.len(),
        forall|k: int|
            0 <= k < outs.len() ==> planner_step(
                #[trigger] states[k],
                completed[k],
                outs[k],
                states[k + 1],
            ),
    ensures
        handed_out(outs, outs.len()).len() <= states[0].nodes@.len(),
{
    lemma_handed_out(states, completed, outs, outs.len());
    let h = handed_out(outs, outs.len());
    let ids = node_ids(states[0].nodes@);
    h.unique_seq_to_set();
    ids.lemma_cardinality_of_set();
    assert(h.to_set().subset_of(ids.to_set())) by {
        assert forall|x: Seq<char>| h.to_set().contains(x) implies ids.to_set().contains(x) by {
            let j = choose|j: int| 0 <= j < h.len() && h[j] == x;
            assert(ids.contains(h[j]));
        }
    }
    vstd::set_lib::lemma_len_subset(h.to_set(), ids.to_set());
}

} // verus!
