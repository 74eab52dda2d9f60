use vstd::prelude::*;

verus! {

/// A handle to one node of the live document.
///
/// The handle owns nothing: the live document owns the node, and the handle
/// only names it. Two handles are equal exactly when they name the same node.
#[derive(Debug, Clone, Copy, PartialEq, Eq, Hash, Structural)]
pub struct ElementId {
    pub raw: u64,
}

impl ElementId {
    /// The handle that the live document knows under the number `raw`.
    pub fn new(raw: u64) -> (id: Self)
        ensures
            id.raw == raw,
    {
        ElementId { raw }
    }
}

} // verus!
