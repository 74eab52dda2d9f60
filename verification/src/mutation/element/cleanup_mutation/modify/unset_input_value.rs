use crate::data::{AttributeValue, ElementId};
use crate::mutation::element::builder_mutation::modify::set_input_value::ElementSetInputValueMutation;
use crate::mutation::element::cleanup_mutation::modify::ElementCleanupModifyMutation;
use crate::mutation::element::cleanup_mutation::modify::ElementCleanupModifyMutationLog;
use crate::mutation::element::cleanup_mutation::{ElementCleanupMutation, ElementCleanupMutationLog};
use crate::mutation::element::{ElementMutation, ElementMutationLog};
use crate::mutation::error::{MutationError, MutationResult};
use crate::mutation::traits::{Perform, Revert};
use crate::raw_operations;
use crate::raw_operations::backend::DomBackend;
use crate::raw_operations::journal::{lemma_step_one, Issued, Operation};
use crate::raw_operations::LiveDocument;
use vstd::prelude::*;

verus! {

/// Puts the form value of a node back to what it was before it was set.
#[derive(Debug)]
pub struct ElementUnsetInputValueMutation {
    pub previous_value: AttributeValue,
}

/// The receipt of putting a form value back: the value that the node had
/// until then.
#[derive(Debug)]
pub struct ElementUnsetInputValueMutationLog {
    pub previous_value: AttributeValue,
}

pub type Mutation = ElementUnsetInputValueMutation;

pub type Log = ElementUnsetInputValueMutationLog;

impl Clone for ElementUnsetInputValueMutation {
    fn clone(&self) -> (copy: Self)
        ensures
            copy == *self,
    {
        ElementUnsetInputValueMutation { previous_value: self.previous_value.clone() }
    }
}

impl Clone for ElementUnsetInputValueMutationLog {
    fn clone(&self) -> (copy: Self)
        ensures
            copy == *self,
    {
        ElementUnsetInputValueMutationLog { previous_value: self.previous_value.clone() }
    }
}

impl ElementUnsetInputValueMutation {
    /// The operation that performing this mutation on `element` issues.
    pub open spec fn operation(&self, element: ElementId) -> Operation {
        Operation::SetInputValue { element, input: self.previous_value@ }
    }
}

impl Perform for ElementUnsetInputValueMutation {
    type Log = ElementUnsetInputValueMutationLog;

    /// Issues exactly one operation, the setting of the form value to what it
    /// was before. Fails, with the error that says so, where the node takes no
    /// form value.
    fn perform<B: DomBackend>(&self, doc: &mut LiveDocument<B>, state: ElementId) -> (r: MutationResult<
        Self::Log,
    >)
        ensures
            final(doc).issued() == old(doc).issued().push(
                Issued { operation: self.operation(state), succeeded: r is Ok },
            ),
            r matches Err(e) ==> e.is_not_an_input(),
    {
        let ghost before = doc.issued();
        let r = raw_operations::set_input_value(doc, state, self.previous_value.clone());
        proof {
            lemma_step_one(before, doc.issued().last());
        }
        match r {
            Ok(previous_value) => Ok(ElementUnsetInputValueMutationLog { previous_value }),
            Err(e) => Err(MutationError::SetInputValue(e)),
        }
    }

    fn to_mutation(self) -> (wrapped: crate::mutation::Mutation)
        ensures
            wrapped == crate::mutation::Mutation::Element(
                ElementMutation::Cleanup(
                    ElementCleanupMutation::Modify(ElementCleanupModifyMutation::UnsetInputValue(self)),
                ),
            ),
    {
        crate::mutation::Mutation::Element(
            ElementMutation::Cleanup(
                ElementCleanupMutation::Modify(ElementCleanupModifyMutation::UnsetInputValue(self)),
            ),
        )
    }
}

impl Revert for ElementUnsetInputValueMutationLog {
    type Mutation = ElementSetInputValueMutation;

    open spec fn reverted(&self) -> ElementSetInputValueMutation {
        ElementSetInputValueMutation { value: self.previous_value }
    }

    fn revert(&self) -> (undo: ElementSetInputValueMutation) {
        ElementSetInputValueMutation { value: self.previous_value.clone() }
    }

    fn to_mutation_log(self) -> (wrapped: crate::mutation::MutationLog)
        ensures
            wrapped == crate::mutation::MutationLog::Element(
                ElementMutationLog::Cleanup(
                    ElementCleanupMutationLog::Modify(
                        ElementCleanupModifyMutationLog::UnsetInputValue(self),
                    ),
                ),
            ),
    {
        crate::mutation::MutationLog::Element(
            ElementMutationLog::Cleanup(
                ElementCleanupMutationLog::Modify(
                    ElementCleanupModifyMutationLog::UnsetInputValue(self),
                ),
            ),
        )
    }
}

} // verus!
