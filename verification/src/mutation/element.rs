use self::builder_mutation::{ElementBuilderMutation, ElementBuilderMutationLog};
use self::cleanup_mutation::{ElementCleanupMutation, ElementCleanupMutationLog};
use crate::data::ElementId;
use crate::mutation::error::MutationResult;
use crate::mutation::traits::{Perform, Revert};
use crate::raw_operations::backend::DomBackend;
use crate::raw_operations::journal::Issued;
use crate::raw_operations::LiveDocument;
use vstd::prelude::*;

pub mod builder_mutation;
pub mod cleanup_mutation;

verus! {

/// Every mutation of a node: those that build and those that undo.
#[derive(Debug)]
pub enum ElementMutation {
    Builder(ElementBuilderMutation),
    Cleanup(ElementCleanupMutation),
}

/// The receipts of the mutations of a node.
#[derive(Debug)]
pub enum ElementMutationLog {
    Builder(ElementBuilderMutationLog),
    Cleanup(ElementCleanupMutationLog),
}

pub type Mutation = ElementMutation;

pub type Log = ElementMutationLog;

impl ElementMutation {
    /// Whether performing this mutation on `state` can take the journal from
    /// `before` to `after` and answer `r`: what the mutation that this value
    /// holds promises of itself.
    pub open spec fn performed(
        &self,
        state: ElementId,
        before: Seq<Issued>,
        after: Seq<Issued>,
        r: MutationResult<ElementMutationLog>,
    ) -> bool {
        match self {
            ElementMutation::Builder(inner) => match r {
                Ok(ElementMutationLog::Builder(log)) => inner.performed(state, before, after, Ok(log)),
                Ok(_) => false,
                Err(e) => inner.performed(state, before, after, Err(e)),
            },
            ElementMutation::Cleanup(inner) => match r {
                Ok(ElementMutationLog::Cleanup(log)) => inner.performed(state, before, after, Ok(log)),
                Ok(_) => false,
                Err(e) => inner.performed(state, before, after, Err(e)),
            },
        }
    }
}

impl Perform for ElementMutation {
    type Log = ElementMutationLog;

    /// Performs the mutation that this value holds; a builder mutation answers
    /// a builder receipt, a cleanup mutation a cleanup receipt.
    fn perform<B: DomBackend>(&self, doc: &mut LiveDocument<B>, state: ElementId) -> (r: MutationResult<
        Self::Log,
    >)
        ensures
            self.performed(state, old(doc).issued(), final(doc).issued(), r),
    {
        match self {
            ElementMutation::Builder(inner) => match inner.perform(doc, state) {
                Ok(log) => Ok(ElementMutationLog::Builder(log)),
                Err(e) => Err(e),
            },
            ElementMutation::Cleanup(inner) => match inner.perform(doc, state) {
                Ok(log) => Ok(ElementMutationLog::Cleanup(log)),
                Err(e) => Err(e),
            },
        }
    }

    fn to_mutation(self) -> (wrapped: crate::mutation::Mutation)
        ensures
            wrapped == crate::mutation::Mutation::Element(self),
    {
        crate::mutation::Mutation::Element(self)
    }
}

impl Revert for ElementMutationLog {
    type Mutation = ElementMutation;

    /// A builder receipt is undone by a cleanup mutation, and a cleanup receipt
    /// by a builder mutation.
    open spec fn reverted(&self) -> ElementMutation {
        match self {
            ElementMutationLog::Builder(inner) => ElementMutation::Cleanup(inner.reverted()),
            ElementMutationLog::Cleanup(inner) => ElementMutation::Builder(inner.reverted()),
        }
    }

    fn revert(&self) -> (undo: ElementMutation) {
        match self {
            ElementMutationLog::Builder(inner) => ElementMutation::Cleanup(inner.revert()),
            ElementMutationLog::Cleanup(inner) => ElementMutation::Builder(inner.revert()),
        }
    }

    fn to_mutation_log(self) -> (wrapped: crate::mutation::MutationLog)
        ensures
            wrapped == crate::mutation::MutationLog::Element(self),
    {
        crate::mutation::MutationLog::Element(self)
    }
}

} // verus!
