use vstd::prelude::*;

verus! {

/// The built-in kinds of node.
#[derive(Debug, Clone, Copy, PartialEq, Eq, Structural)]
pub enum NodeType {
    Start,
    Normal,
    End,
}

/// The textual code of a node kind, as stored in `Node::node_type`.
pub open spec fn node_type_code(t: NodeType) -> Seq<char> {
    match t {
        NodeType::Start => seq!['s', 't', 'a', 'r', 't'],
        NodeType::Normal => seq!['n', 'o', 'r', 'm', 'a', 'l'],
        NodeType::End => seq!['e', 'n', 'd'],
    }
}

impl NodeType {
    /// Returns the lower-case code of this node kind.
    pub fn code(&self) -> (r: String)
        ensures
            r@ == node_type_code(*self),
    {
        match self {
            NodeType::Start => {
                proof {
                    reveal_strlit("start");
                }
                "start".to_string()
            },
            NodeType::Normal => {
                proof {
                    reveal_strlit("normal");
                }
                "normal".to_string()
            },
            NodeType::End => {
                proof {
                    reveal_strlit("end");
                }
                "end".to_string()
            },
        }
    }
}

/// The lifecycle status of a node.
#[derive(Debug, Clone, Copy, PartialEq, Eq, Structural)]
pub enum Status {
    Pending,
    Running,
    Success,
    Failed,
}

/// The textual code of a status, as stored in `Node::status`.
pub open spec fn status_code(s: Status) -> Seq<char> {
    match s {
        Status::Pending => seq!['p', 'e', 'n', 'd', 'i', 'n', 'g'],
        Status::Running => seq!['r', 'u', 'n', 'n', 'i', 'n', 'g'],
        Status::Success => seq!['s', 'u', 'c', 'c', 'e', 's', 's'],
        Status::Failed => seq!['f', 'a', 'i', 'l', 'e', 'd'],
    }
}

impl Status {
    /// Returns the lower-case code of this status.
    pub fn code(&self) -> (r: String)
        ensures
            r@ == status_code(*self),
    {
        match self {
            Status::Pending => {
                proof {
                    reveal_strlit("pending");
                }
                "pending".to_string()
            },
            Status::Running => {
                proof {
                    reveal_strlit("running");
                }
                "running".to_string()
            },
            Status::Success => {
                proof {
                    reveal_strlit("success");
                }
                "success".to_string()
            },
            Status::Failed => {
                proof {
                    reveal_strlit("failed");
                }
                "failed".to_string()
            },
        }
    }
}

} // verus!
