use crate::data::attribute_value::{duplicate, text_of};
use crate::data::{AttributeValue, ElementId};
use crate::mutation::element::builder_mutation::modify::set_text::ElementSetTextMutation;
use crate::mutation::element::cleanup_mutation::modify::ElementCleanupModifyMutation;
use crate::mutation::element::cleanup_mutation::modify::ElementCleanupModifyMutationLog;
use crate::mutation::element::cleanup_mutation::{ElementCleanupMutation, ElementCleanupMutationLog};
use crate::mutation::element::{ElementMutation, ElementMutationLog};
use crate::mutation::error::MutationResult;
use crate::mutation::traits::{Perform, Revert};
use crate::raw_operations;
use crate::raw_operations::backend::DomBackend;
use crate::raw_operations::journal::{lemma_step_one, Issued, Operation};
use crate::raw_operations::LiveDocument;
use vstd::prelude::*;

verus! {

/// Puts the text content of a node back to what it was before it was set.
#[derive(Debug)]
pub struct ElementUnsetTextMutation {
    pub previous_value: Option<AttributeValue>,
}

/// The receipt of putting a text back: the text that the node had until then.
#[derive(Debug)]
pub struct ElementUnsetTextMutationLog {
    pub previous_value: Option<AttributeValue>,
}

pub type Mutation = ElementUnsetTextMutation;

pub type Log = ElementUnsetTextMutationLog;

impl Clone for ElementUnsetTextMutation {
    fn clone(&self) -> (copy: Self)
        ensures
            copy == *self,
    {
        ElementUnsetTextMutation { previous_value: duplicate(&self.previous_value) }
    }
}

impl Clone for ElementUnsetTextMutationLog {
    fn clone(&self) -> (copy: Self)
        ensures
            copy == *self,
    {
        ElementUnsetTextMutationLog { previous_value: duplicate(&self.previous_value) }
    }
}

impl ElementUnsetTextMutation {
    /// The operation that performing this mutation on `element` issues.
    pub open spec fn operation(&self, element: ElementId) -> Operation {
        Operation::SetText { element, text: text_of(self.previous_value) }
    }
}

impl Perform for ElementUnsetTextMutation {
    type Log = ElementUnsetTextMutationLog;

    /// Always succeeds, and issues exactly one operation, the setting of the
    /// text to what it was before.
    fn perform<B: DomBackend>(&self, doc: &mut LiveDocument<B>, state: ElementId) -> (r: MutationResult<
        Self::Log,
    >)
        ensures
            final(doc).issued() == old(doc).issued().push(
                Issued { operation: self.operation(state), succeeded: true },
            ),
            r is Ok,
    {
        let ghost before = doc.issued();
        let previous_value = raw_operations::set_text(doc, state, duplicate(&self.previous_value));
        proof {
            lemma_step_one(before, doc.issued().last());
        }
        Ok(ElementUnsetTextMutationLog { previous_value })
    }

    fn to_mutation(self) -> (wrapped: crate::mutation::Mutation)
        ensures
            wrapped == crate::mutation::Mutation::Element(
                ElementMutation::Cleanup(
                    ElementCleanupMutation::Modify(ElementCleanupModifyMutation::UnsetText(self)),
                ),
            ),
    {
        crate::mutation::Mutation::Element(
            ElementMutation::Cleanup(
                ElementCleanupMutation::Modify(ElementCleanupModifyMutation::UnsetText(self)),
            ),
        )
    }
}

impl Revert for ElementUnsetTextMutationLog {
    type Mutation = ElementSetTextMutation;

    open spec fn reverted(&self) -> ElementSetTextMutation {
        ElementSetTextMutation { value: self.previous_value }
    }

    fn revert(&self) -> (undo: ElementSetTextMutation) {
        ElementSetTextMutation { value: duplicate(&self.previous_value) }
    }

    fn to_mutation_log(self) -> (wrapped: crate::mutation::MutationLog)
        ensures
            wrapped == crate::mutation::MutationLog::Element(
                ElementMutationLog::Cleanup(
                    ElementCleanupMutationLog::Modify(ElementCleanupModifyMutationLog::UnsetText(self)),
                ),
            ),
    {
        crate::mutation::MutationLog::Element(
            ElementMutationLog::Cleanup(
                ElementCleanupMutationLog::Modify(ElementCleanupModifyMutationLog::UnsetText(self)),
            ),
        )
    }
}

} // verus!
