use super::error::MutationResult;
use crate::data::ElementId;
use crate::raw_operations::backend::DomBackend;
use crate::raw_operations::journal::step;
use crate::raw_operations::LiveDocument;
use vstd::prelude::*;

verus! {

/// The receipt side of the protocol: from the receipt of a mutation, the
/// mutation that undoes it.
pub trait Revert: Sized {
    type Mutation;

    /// The mutation that undoes what this receipt records.
    spec fn reverted(&self) -> Self::Mutation;

    /// Makes the mutation that undoes what this receipt records. Nothing is
    /// issued to the live document.
    fn revert(&self) -> (undo: Self::Mutation)
        ensures
            undo == self.reverted(),
    ;

    fn to_mutation_log(self) -> super::MutationLog;
}

/// The command side of the protocol: a mutation is performed on a node of the
/// live document and answers a receipt.
pub trait Perform: Sized {
    type Log;

    /// Performs the mutation on `state`. Whatever the live document answers,
    /// the journal only grows, no node is moved among its siblings, and the
    /// mutation succeeds exactly when every operation it issued went through.
    fn perform<B: DomBackend>(&self, doc: &mut LiveDocument<B>, state: ElementId) -> (r: MutationResult<
        Self::Log,
    >)
        ensures
            step(old(doc).issued(), final(doc).issued(), r is Ok),
    ;

    fn to_mutation(self) -> super::Mutation;
}

} // verus!
