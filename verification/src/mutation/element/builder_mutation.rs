use self::marker::create::ElementCreateMutation;
use self::marker::finish::ElementFinishMutation;
use self::marker::{ElementBuilderMarkerMutation, ElementBuilderMarkerMutationLog};
use self::modify::{ElementBuilderModifyMutation, ElementBuilderModifyMutationLog};
use crate::data::ElementId;
use crate::mutation::element::cleanup_mutation::ElementCleanupMutation;
use crate::mutation::element::{ElementMutation, ElementMutationLog};
use crate::mutation::error::MutationResult;
use crate::mutation::traits::{Perform, Revert};
use crate::raw_operations::backend::DomBackend;
use crate::raw_operations::journal::Issued;
use crate::raw_operations::LiveDocument;
use vstd::prelude::*;

pub mod marker;
pub mod modify;

verus! {

/// Every mutation that builds: the markers and the modify mutations.
#[derive(Debug)]
pub enum ElementBuilderMutation {
    Marker(ElementBuilderMarkerMutation),
    Modify(ElementBuilderModifyMutation),
}

/// The receipts of the builder mutations.
#[derive(Debug)]
pub enum ElementBuilderMutationLog {
    Marker(ElementBuilderMarkerMutationLog),
    Modify(ElementBuilderModifyMutationLog),
}

pub type Mutation = ElementBuilderMutation;

pub type Log = ElementBuilderMutationLog;

impl ElementBuilderMutation {
    /// The creation that this mutation is, if it is one.
    pub fn try_into_create(self) -> (r: Result<ElementCreateMutation, &'static str>)
        ensures
            match self {
                ElementBuilderMutation::Marker(ElementBuilderMarkerMutation::Create(inner)) => r
                    == Ok::<ElementCreateMutation, &'static str>(inner),
                _ => r is Err,
            },
    {
        match self {
            ElementBuilderMutation::Marker(ElementBuilderMarkerMutation::Create(inner)) => Ok(inner),
            _ => Err("Only Create can be converted to ElementCreateMutation"),
        }
    }

    /// The finish that this mutation is, if it is one.
    pub fn try_into_finish(self) -> (r: Result<ElementFinishMutation, &'static str>)
        ensures
            match self {
                ElementBuilderMutation::Marker(ElementBuilderMarkerMutation::Finish(inner)) => r
                    == Ok::<ElementFinishMutation, &'static str>(inner),
                _ => r is Err,
            },
    {
        match self {
            ElementBuilderMutation::Marker(ElementBuilderMarkerMutation::Finish(inner)) => Ok(inner),
            _ => Err("Only Finish can be converted to ElementFinishMutation"),
        }
    }
}

impl ElementBuilderMutationLog {
    /// Whether this is the receipt of a mutation of the same kind as
    /// `mutation`, and names the same thing.
    pub open spec fn answers(&self, mutation: &ElementBuilderMutation) -> bool {
        match (self, mutation) {
            (ElementBuilderMutationLog::Marker(log), ElementBuilderMutation::Marker(mutation)) => {
                log.answers(mutation)
            },
            (ElementBuilderMutationLog::Modify(log), ElementBuilderMutation::Modify(mutation)) => {
                log.answers(mutation)
            },
            _ => false,
        }
    }
}

impl ElementBuilderMutation {
    /// Whether performing this mutation on `state` can take the journal from
    /// `before` to `after` and answer `r`: what the mutation that this value
    /// holds promises of itself.
    pub open spec fn performed(
        &self,
        state: ElementId,
        before: Seq<Issued>,
        after: Seq<Issued>,
        r: MutationResult<ElementBuilderMutationLog>,
    ) -> bool {
        match self {
            ElementBuilderMutation::Marker(inner) => match r {
                Ok(ElementBuilderMutationLog::Marker(log)) => inner.performed(
                    state,
                    before,
                    after,
                    Ok(log),
                ),
                Ok(_) => false,
                Err(e) => inner.performed(state, before, after, Err(e)),
            },
            ElementBuilderMutation::Modify(inner) => match r {
                Ok(ElementBuilderMutationLog::Modify(log)) => inner.performed(
                    state,
                    before,
                    after,
                    Ok(log),
                ),
                Ok(_) => false,
                Err(e) => inner.performed(state, before, after, Err(e)),
            },
        }
    }
}

impl Perform for ElementBuilderMutation {
    type Log = ElementBuilderMutationLog;

    /// Performs the mutation that this value holds; the receipt is of the same
    /// kind.
    fn perform<B: DomBackend>(&self, doc: &mut LiveDocument<B>, state: ElementId) -> (r: MutationResult<
        Self::Log,
    >)
        ensures
            r matches Ok(log) ==> log.answers(self),
            self.performed(state, old(doc).issued(), final(doc).issued(), r),
    {
        match self {
            ElementBuilderMutation::Marker(inner) => match inner.perform(doc, state) {
                Ok(log) => Ok(ElementBuilderMutationLog::Marker(log)),
                Err(e) => Err(e),
            },
            ElementBuilderMutation::Modify(inner) => {
                let ghost before = doc.issued();
                let r = inner.perform(doc, state);
                proof {
                    crate::raw_operations::journal::lemma_step_one(before, doc.issued().last());
                }
                match r {
                    Ok(log) => Ok(ElementBuilderMutationLog::Modify(log)),
                    Err(e) => Err(e),
                }
            },
        }
    }

    fn to_mutation(self) -> (wrapped: crate::mutation::Mutation)
        ensures
            wrapped == crate::mutation::Mutation::Element(ElementMutation::Builder(self)),
    {
        crate::mutation::Mutation::Element(ElementMutation::Builder(self))
    }
}

impl Revert for ElementBuilderMutationLog {
    type Mutation = ElementCleanupMutation;

    open spec fn reverted(&self) -> ElementCleanupMutation {
        match self {
            ElementBuilderMutationLog::Marker(inner) => ElementCleanupMutation::Marker(
                inner.reverted(),
            ),
            ElementBuilderMutationLog::Modify(inner) => ElementCleanupMutation::Modify(
                inner.reverted(),
            ),
        }
    }

    fn revert(&self) -> (undo: ElementCleanupMutation) {
        match self {
            ElementBuilderMutationLog::Marker(inner) => ElementCleanupMutation::Marker(
                inner.revert(),
            ),
            ElementBuilderMutationLog::Modify(inner) => ElementCleanupMutation::Modify(
                inner.revert(),
            ),
        }
    }

    fn to_mutation_log(self) -> (wrapped: crate::mutation::MutationLog)
        ensures
            wrapped == crate::mutation::MutationLog::Element(ElementMutationLog::Builder(self)),
    {
        crate::mutation::MutationLog::Element(ElementMutationLog::Builder(self))
    }
}

} // verus!
