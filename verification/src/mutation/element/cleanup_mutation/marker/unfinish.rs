use crate::data::ElementId;
use crate::mutation::element::builder_mutation::marker::finish::ElementFinishMutation;
use crate::mutation::element::cleanup_mutation::marker::ElementCleanupMutation as MarkerMutation;
use crate::mutation::element::cleanup_mutation::marker::ElementCleanupMutationLog as MarkerLog;
use crate::mutation::element::cleanup_mutation::{ElementCleanupMutation, ElementCleanupMutationLog};
use crate::mutation::element::{ElementMutation, ElementMutationLog};
use crate::mutation::error::MutationResult;
use crate::mutation::traits::{Perform, Revert};
use crate::raw_operations::backend::DomBackend;
use crate::raw_operations::journal::lemma_step_nothing;
use crate::raw_operations::LiveDocument;
use vstd::prelude::*;

verus! {

/// Takes the mark of being fully built off a node.
#[derive(Debug, Clone, Copy, PartialEq, Eq, Structural)]
pub struct ElementUnfinishMutation {
    pub element_id: ElementId,
}

/// The receipt of taking the mark off.
#[derive(Debug, Clone, Copy, PartialEq, Eq, Structural)]
pub struct ElementUnfinishMutationLog {}

pub type Mutation = ElementUnfinishMutation;

pub type Log = ElementUnfinishMutationLog;

impl Perform for ElementUnfinishMutation {
    type Log = ElementUnfinishMutationLog;

    /// Always succeeds, and issues nothing: the mark lives in the snapshot
    /// only.
    fn perform<B: DomBackend>(&self, doc: &mut LiveDocument<B>, _current_element: ElementId) -> (r:
        MutationResult<Self::Log>)
        ensures
            final(doc).issued() == old(doc).issued(),
            r is Ok,
    {
        proof {
            lemma_step_nothing(doc.issued());
        }
        Ok(ElementUnfinishMutationLog {  })
    }

    fn to_mutation(self) -> (wrapped: crate::mutation::Mutation)
        ensures
            wrapped == crate::mutation::Mutation::Element(
                ElementMutation::Cleanup(
                    ElementCleanupMutation::Marker(MarkerMutation::Unfinish(self)),
                ),
            ),
    {
        crate::mutation::Mutation::Element(
            ElementMutation::Cleanup(
                ElementCleanupMutation::Marker(MarkerMutation::Unfinish(self)),
            ),
        )
    }
}

impl Revert for ElementUnfinishMutationLog {
    type Mutation = ElementFinishMutation;

    open spec fn reverted(&self) -> ElementFinishMutation {
        ElementFinishMutation {  }
    }

    fn revert(&self) -> (undo: ElementFinishMutation) {
        ElementFinishMutation {  }
    }

    fn to_mutation_log(self) -> (wrapped: crate::mutation::MutationLog)
        ensures
            wrapped == crate::mutation::MutationLog::Element(
                ElementMutationLog::Cleanup(ElementCleanupMutationLog::Marker(MarkerLog::Unfinish(self))),
            ),
    {
        crate::mutation::MutationLog::Element(
            ElementMutationLog::Cleanup(ElementCleanupMutationLog::Marker(MarkerLog::Unfinish(self))),
        )
    }
}

} // verus!
