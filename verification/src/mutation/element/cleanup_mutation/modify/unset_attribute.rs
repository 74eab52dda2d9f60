use crate::data::attribute_value::{duplicate, text_of};
use crate::data::{AttributeName, AttributeValue, ElementId};
use crate::mutation::element::builder_mutation::modify::set_attribute::ElementSetAttributeMutation;
use crate::mutation::element::cleanup_mutation::modify::ElementCleanupModifyMutation;
use crate::mutation::element::cleanup_mutation::modify::ElementCleanupModifyMutationLog;
use crate::mutation::element::cleanup_mutation::{ElementCleanupMutation, ElementCleanupMutationLog};
use crate::mutation::element::{ElementMutation, ElementMutationLog};
use crate::mutation::error::{MutationError, MutationResult};
use crate::mutation::traits::{Perform, Revert};
use crate::raw_operations;
use crate::raw_operations::backend::DomBackend;
use crate::raw_operations::journal::{lemma_step_one, Issued, Operation};
use crate::raw_operations::LiveDocument;
use vstd::prelude::*;

verus! {

/// Puts an attribute back to the value it had before it was set: the value, or
/// no attribute at all where there was none.
#[derive(Debug)]
pub struct ElementUnsetAttributeMutation {
    pub attribute: AttributeName,
    pub previous_value: Option<AttributeValue>,
}

/// The receipt of putting an attribute back: its name and the value it had
/// until then.
#[derive(Debug)]
pub struct ElementUnsetAttributeMutationLog {
    pub attribute: AttributeName,
    pub previous_value: Option<AttributeValue>,
}

pub type Mutation = ElementUnsetAttributeMutation;

pub type Log = ElementUnsetAttributeMutationLog;

impl Clone for ElementUnsetAttributeMutation {
    fn clone(&self) -> (copy: Self)
        ensures
            copy == *self,
    {
        ElementUnsetAttributeMutation {
            attribute: self.attribute.clone(),
            previous_value: duplicate(&self.previous_value),
        }
    }
}

impl Clone for ElementUnsetAttributeMutationLog {
    fn clone(&self) -> (copy: Self)
        ensures
            copy == *self,
    {
        ElementUnsetAttributeMutationLog {
            attribute: self.attribute.clone(),
            previous_value: duplicate(&self.previous_value),
        }
    }
}

impl ElementUnsetAttributeMutation {
    /// The operation that performing this mutation on `element` issues.
    pub open spec fn operation(&self, element: ElementId) -> Operation {
        Operation::SetAttribute {
            element,
            attribute: self.attribute@,
            value: text_of(self.previous_value),
        }
    }
}

impl Perform for ElementUnsetAttributeMutation {
    type Log = ElementUnsetAttributeMutationLog;

    /// Issues exactly one operation, the setting of the attribute to what it
    /// was before.
    fn perform<B: DomBackend>(&self, doc: &mut LiveDocument<B>, root_element: ElementId) -> (r:
        MutationResult<Self::Log>)
        ensures
            final(doc).issued() == old(doc).issued().push(
                Issued { operation: self.operation(root_element), succeeded: r is Ok },
            ),
            r matches Ok(log) ==> log.attribute == self.attribute,
            r matches Err(e) ==> e is UnsetAttribute,
    {
        let ghost before = doc.issued();
        let r = raw_operations::set_attribute(
            doc,
            root_element,
            self.attribute.clone(),
            duplicate(&self.previous_value),
        );
        proof {
            lemma_step_one(before, doc.issued().last());
        }
        match r {
            Ok((attribute, previous_value)) => Ok(
                ElementUnsetAttributeMutationLog { attribute, previous_value },
            ),
            Err(e) => Err(MutationError::UnsetAttribute(e)),
        }
    }

    fn to_mutation(self) -> (wrapped: crate::mutation::Mutation)
        ensures
            wrapped == crate::mutation::Mutation::Element(
                ElementMutation::Cleanup(
                    ElementCleanupMutation::Modify(ElementCleanupModifyMutation::UnsetAttribute(self)),
                ),
            ),
    {
        crate::mutation::Mutation::Element(
            ElementMutation::Cleanup(
                ElementCleanupMutation::Modify(ElementCleanupModifyMutation::UnsetAttribute(self)),
            ),
        )
    }
}

impl Revert for ElementUnsetAttributeMutationLog {
    type Mutation = ElementSetAttributeMutation;

    open spec fn reverted(&self) -> ElementSetAttributeMutation {
        ElementSetAttributeMutation { attribute: self.attribute, value: self.previous_value }
    }

    fn revert(&self) -> (undo: ElementSetAttributeMutation) {
        ElementSetAttributeMutation {
            attribute: self.attribute.clone(),
            value: duplicate(&self.previous_value),
        }
    }

    fn to_mutation_log(self) -> (wrapped: crate::mutation::MutationLog)
        ensures
            wrapped == crate::mutation::MutationLog::Element(
                ElementMutationLog::Cleanup(
                    ElementCleanupMutationLog::Modify(
                        ElementCleanupModifyMutationLog::UnsetAttribute(self),
                    ),
                ),
            ),
    {
        crate::mutation::MutationLog::Element(
            ElementMutationLog::Cleanup(
                ElementCleanupMutationLog::Modify(
                    ElementCleanupModifyMutationLog::UnsetAttribute(self),
                ),
            ),
        )
    }
}

} // verus!
