use self::error::MutationResult;
use crate::data::ElementId;
use crate::raw_operations::backend::DomBackend;
use crate::raw_operations::journal::Issued;
use crate::raw_operations::LiveDocument;
use vstd::prelude::*;

pub mod element;
pub mod error;
pub mod traits;

verus! {

/// Every mutation that the engine knows.
#[derive(Debug)]
pub enum Mutation {
    Element(element::ElementMutation),
}

/// The receipt of any mutation.
#[derive(Debug)]
pub enum MutationLog {
    Element(element::ElementMutationLog),
}

pub type Log = MutationLog;

impl Mutation {
    /// Whether performing this mutation on `state` can take the journal from
    /// `before` to `after` and answer `r`: what the mutation that this value
    /// holds promises of itself.
    pub open spec fn performed(
        &self,
        state: ElementId,
        before: Seq<Issued>,
        after: Seq<Issued>,
        r: MutationResult<MutationLog>,
    ) -> bool {
        match (self, r) {
            (Mutation::Element(inner), Ok(MutationLog::Element(log))) => inner.performed(
                state,
                before,
                after,
                Ok(log),
            ),
            (Mutation::Element(inner), Err(e)) => inner.performed(state, before, after, Err(e)),
        }
    }
}

impl traits::Perform for Mutation {
    type Log = MutationLog;

    /// Performs the mutation that this value holds.
    fn perform<B: DomBackend>(&self, doc: &mut LiveDocument<B>, element: ElementId) -> (r: MutationResult<
        Self::Log,
    >)
        ensures
            self.performed(element, old(doc).issued(), final(doc).issued(), r),
    {
        match self {
            Mutation::Element(inner) => match inner.perform(doc, element) {
                Ok(log) => Ok(MutationLog::Element(log)),
                Err(e) => Err(e),
            },
        }
    }

    fn to_mutation(self) -> (wrapped: Mutation)
        ensures
            wrapped == self,
    {
        self
    }
}

impl traits::Revert for MutationLog {
    type Mutation = Mutation;

    open spec fn reverted(&self) -> Mutation {
        match self {
            MutationLog::Element(inner) => Mutation::Element(inner.reverted()),
        }
    }

    fn revert(&self) -> (undo: Mutation) {
        match self {
            MutationLog::Element(inner) => Mutation::Element(inner.revert()),
        }
    }

    fn to_mutation_log(self) -> (wrapped: MutationLog)
        ensures
            wrapped == self,
    {
        self
    }
}

} // verus!
