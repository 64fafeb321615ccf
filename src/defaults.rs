use vstd::prelude::*;
use crate::enums::{NodeType, Status};
use crate::node::{EndpointConfig, ExtraConfig};

verus! {

/// Whether `c` is one of the URL-safe characters that ids are drawn from.
pub open spec fn url_safe(c: char) -> bool {
    c == '_' || c == '-' || ('0' <= c <= '9') || ('a' <= c <= 'z') || ('A' <= c <= 'Z')
}

/// A fresh random identifier of eight URL-safe characters.
///
/// Relies on `nanoid::format` with the `SAFE` alphabet: it returns exactly `size`
/// characters drawn at random from that alphabet.
#[verifier::external_body]
pub fn generate_id() -> (r: String)
    ensures
        r@.len() == 8,
        forall|i: int| 0 <= i < r@.len() ==> url_safe(#[trigger] r@[i]),
{
    nanoid::format(nanoid::rngs::default, &nanoid::alphabet::SAFE, 8)
}

/// The node kind used when none is given.
pub fn default_node_type() -> (r: NodeType)
    ensures
        r == NodeType::Normal,
{
    NodeType::Normal
}

/// The description used when none is given.
pub fn default_description() -> (r: String)
    ensures
        r@ == "No description available"@,
{
    "No description available".to_string()
}

/// The implementation name used when none is given.
pub fn default_implementation() -> (r: String)
    ensures
        r@ == "default_implementation"@,
{
    "default_implementation".to_string()
}

/// The input endpoints used when none are given: none.
pub fn default_inputs() -> (r: Vec<EndpointConfig>)
    ensures
        r@.len() == 0,
{
    Vec::new()
}

/// The output endpoints used when none are given: none.
pub fn default_outputs() -> (r: Vec<EndpointConfig>)
    ensures
        r@.len() == 0,
{
    Vec::new()
}

/// The component name used when none is given.
pub fn default_component() -> (r: String)
    ensures
        r@ == "default_component"@,
{
    "default_component".to_string()
}

/// The executor name used when none is given.
pub fn default_execute() -> (r: String)
    ensures
        r@ == "default_execute"@,
{
    "default_execute".to_string()
}

/// The status used when none is given.
pub fn default_status() -> (r: Status)
    ensures
        r == Status::Pending,
{
    Status::Pending
}

/// The extra configuration used when none is given: none.
pub fn default_extra() -> (r: Option<ExtraConfig>)
    ensures
        r.is_none(),
{
    None
}

} // verus!
