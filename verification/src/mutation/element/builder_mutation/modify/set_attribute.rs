use crate::data::attribute_value::{duplicate, same_text, text_of};
use crate::data::{AttributeName, AttributeValue, ElementId};
use crate::mutation::element::builder_mutation::modify::ElementBuilderModifyMutation;
use crate::mutation::element::builder_mutation::modify::ElementBuilderModifyMutationLog;
use crate::mutation::element::builder_mutation::ElementBuilderMutation;
use crate::mutation::element::builder_mutation::ElementBuilderMutationLog;
use crate::mutation::element::cleanup_mutation::modify::unset_attribute::ElementUnsetAttributeMutation;
use crate::mutation::element::{ElementMutation, ElementMutationLog};
use crate::mutation::error::{MutationError, MutationResult};
use crate::mutation::traits::{Perform, Revert};
use crate::raw_operations;
use crate::raw_operations::backend::DomBackend;
use crate::raw_operations::journal::{lemma_step_one, Issued, Operation};
use crate::raw_operations::LiveDocument;
use vstd::prelude::*;

verus! {

/// Sets an attribute to a value, or takes the attribute away where the value is
/// `None`.
#[derive(Debug, Eq, Hash)]
pub struct ElementSetAttributeMutation {
    pub attribute: AttributeName,
    pub value: Option<AttributeValue>,
}

/// The receipt of setting an attribute: its name and the value it had before.
#[derive(Debug)]
pub struct ElementSetAttributeMutationLog {
    pub attribute: AttributeName,
    pub previous_value: Option<AttributeValue>,
}

pub type Mutation = ElementSetAttributeMutation;

pub type Log = ElementSetAttributeMutationLog;

impl View for ElementSetAttributeMutation {
    type V = (Seq<char>, Option<Seq<char>>);

    open spec fn view(&self) -> (Seq<char>, Option<Seq<char>>) {
        (self.attribute@, text_of(self.value))
    }
}

impl Clone for ElementSetAttributeMutation {
    fn clone(&self) -> (copy: Self)
        ensures
            copy == *self,
    {
        ElementSetAttributeMutation {
            attribute: self.attribute.clone(),
            value: duplicate(&self.value),
        }
    }
}

impl Clone for ElementSetAttributeMutationLog {
    fn clone(&self) -> (copy: Self)
        ensures
            copy == *self,
    {
        ElementSetAttributeMutationLog {
            attribute: self.attribute.clone(),
            previous_value: duplicate(&self.previous_value),
        }
    }
}

impl PartialEq for ElementSetAttributeMutation {
    fn eq(&self, other: &Self) -> (same: bool) {
        self.attribute == other.attribute && same_text(&self.value, &other.value)
    }
}

impl vstd::std_specs::cmp::PartialEqSpecImpl for ElementSetAttributeMutation {
    open spec fn obeys_eq_spec() -> bool {
        true
    }

    open spec fn eq_spec(&self, other: &Self) -> bool {
        self@ == other@
    }
}

impl ElementSetAttributeMutation {
    /// The operation that performing this mutation on `element` issues.
    pub open spec fn operation(&self, element: ElementId) -> Operation {
        Operation::SetAttribute {
            element,
            attribute: self.attribute@,
            value: text_of(self.value),
        }
    }
}

impl Perform for ElementSetAttributeMutation {
    type Log = ElementSetAttributeMutationLog;

    /// Issues exactly one operation, the setting of the attribute. The receipt
    /// names the same attribute.
    fn perform<B: DomBackend>(&self, doc: &mut LiveDocument<B>, element: ElementId) -> (r: MutationResult<
        Self::Log,
    >)
        ensures
            final(doc).issued() == old(doc).issued().push(
                Issued { operation: self.operation(element), succeeded: r is Ok },
            ),
            r matches Ok(log) ==> log.attribute == self.attribute,
            r matches Err(e) ==> e is SetAttribute,
    {
        let ghost before = doc.issued();
        let r = raw_operations::set_attribute(
            doc,
            element,
            self.attribute.clone(),
            duplicate(&self.value),
        );
        proof {
            lemma_step_one(before, doc.issued().last());
        }
        match r {
            Ok((attribute, previous_value)) => Ok(
                ElementSetAttributeMutationLog { attribute, previous_value },
            ),
            Err(e) => Err(MutationError::SetAttribute(e)),
        }
    }

    fn to_mutation(self) -> (wrapped: crate::mutation::Mutation)
        ensures
            wrapped == crate::mutation::Mutation::Element(
                ElementMutation::Builder(
                    ElementBuilderMutation::Modify(ElementBuilderModifyMutation::SetAttribute(self)),
                ),
            ),
    {
        crate::mutation::Mutation::Element(
            ElementMutation::Builder(
                ElementBuilderMutation::Modify(ElementBuilderModifyMutation::SetAttribute(self)),
            ),
        )
    }
}

impl Revert for ElementSetAttributeMutationLog {
    type Mutation = ElementUnsetAttributeMutation;

    open spec fn reverted(&self) -> ElementUnsetAttributeMutation {
        ElementUnsetAttributeMutation {
            attribute: self.attribute,
            previous_value: self.previous_value,
        }
    }

    fn revert(&self) -> (undo: ElementUnsetAttributeMutation) {
        ElementUnsetAttributeMutation {
            attribute: self.attribute.clone(),
            previous_value: duplicate(&self.previous_value),
        }
    }

    fn to_mutation_log(self) -> (wrapped: crate::mutation::MutationLog)
        ensures
            wrapped == crate::mutation::MutationLog::Element(
                ElementMutationLog::Builder(
                    ElementBuilderMutationLog::Modify(ElementBuilderModifyMutationLog::SetAttribute(self)),
                ),
            ),
    {
        crate::mutation::MutationLog::Element(
            ElementMutationLog::Builder(
                ElementBuilderMutationLog::Modify(ElementBuilderModifyMutationLog::SetAttribute(self)),
            ),
        )
    }
}

} // verus!
