use vstd::prelude::*;

verus! {

/// Identifies one named connection point on one node.
pub struct EndpointRef {
    pub node_id: String,
    pub endpoint_id: String,
}

impl View for EndpointRef {
    type V = (Seq<char>, Seq<char>);

    open spec fn view(&self) -> (Seq<char>, Seq<char>) {
        (self.node_id@, self.endpoint_id@)
    }
}

impl Clone for EndpointRef {
    fn clone(&self) -> (r: Self)
        ensures
            r@ == self@,
    {
        EndpointRef { node_id: self.node_id.clone(), endpoint_id: self.endpoint_id.clone() }
    }
}

impl EndpointRef {
    /// Builds a reference to endpoint `endpoint_id` of node `node_id`.
    pub fn new(node_id: &str, endpoint_id: &str) -> (r: Self)
        ensures
            r.node_id@ == node_id@,
            r.endpoint_id@ == endpoint_id@,
    {
        EndpointRef { node_id: node_id.to_string(), endpoint_id: endpoint_id.to_string() }
    }
}

} // verus!
