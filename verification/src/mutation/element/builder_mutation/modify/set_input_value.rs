use crate::data::{AttributeValue, ElementId};
use crate::mutation::element::builder_mutation::modify::ElementBuilderModifyMutation;
use crate::mutation::element::builder_mutation::modify::ElementBuilderModifyMutationLog;
use crate::mutation::element::builder_mutation::ElementBuilderMutation;
use crate::mutation::element::builder_mutation::ElementBuilderMutationLog;
use crate::mutation::element::cleanup_mutation::modify::unset_input_value::ElementUnsetInputValueMutation;
use crate::mutation::element::{ElementMutation, ElementMutationLog};
use crate::mutation::error::{MutationError, MutationResult};
use crate::mutation::traits::{Perform, Revert};
use crate::raw_operations;
use crate::raw_operations::backend::DomBackend;
use crate::raw_operations::journal::{lemma_step_one, Issued, Operation};
use crate::raw_operations::LiveDocument;
use vstd::prelude::*;

verus! {

/// Sets the form value of a node that takes one.
#[derive(Debug, Eq, Hash)]
pub struct ElementSetInputValueMutation {
    pub value: AttributeValue,
}

/// The receipt of setting a form value: the value that the node had before.
#[derive(Debug)]
pub struct ElementSetInputValueMutationLog {
    pub previous_value: AttributeValue,
}

pub type Mutation = ElementSetInputValueMutation;

pub type Log = ElementSetInputValueMutationLog;

impl View for ElementSetInputValueMutation {
    type V = Seq<char>;

    open spec fn view(&self) -> Seq<char> {
        self.value@
    }
}

impl Clone for ElementSetInputValueMutation {
    fn clone(&self) -> (copy: Self)
        ensures
            copy == *self,
    {
        ElementSetInputValueMutation { value: self.value.clone() }
    }
}

impl Clone for ElementSetInputValueMutationLog {
    fn clone(&self) -> (copy: Self)
        ensures
            copy == *self,
    {
        ElementSetInputValueMutationLog { previous_value: self.previous_value.clone() }
    }
}

impl PartialEq for ElementSetInputValueMutation {
    fn eq(&self, other: &Self) -> (same: bool) {
        self.value == other.value
    }
}

impl vstd::std_specs::cmp::PartialEqSpecImpl for ElementSetInputValueMutation {
    open spec fn obeys_eq_spec() -> bool {
        true
    }

    open spec fn eq_spec(&self, other: &Self) -> bool {
        self@ == other@
    }
}

impl ElementSetInputValueMutation {
    /// The operation that performing this mutation on `element` issues.
    pub open spec fn operation(&self, element: ElementId) -> Operation {
        Operation::SetInputValue { element, input: self.value@ }
    }
}

impl Perform for ElementSetInputValueMutation {
    type Log = ElementSetInputValueMutationLog;

    /// Issues exactly one operation, the setting of the form value. Fails,
    /// with the error that says so, where the node takes no form value.
    fn perform<B: DomBackend>(&self, doc: &mut LiveDocument<B>, element: ElementId) -> (r: MutationResult<
        Self::Log,
    >)
        ensures
            final(doc).issued() == old(doc).issued().push(
                Issued { operation: self.operation(element), succeeded: r is Ok },
            ),
            r matches Err(e) ==> e.is_not_an_input(),
    {
        let ghost before = doc.issued();
        let r = raw_operations::set_input_value(doc, element, self.value.clone());
        proof {
            lemma_step_one(before, doc.issued().last());
        }
        match r {
            Ok(previous_value) => Ok(ElementSetInputValueMutationLog { previous_value }),
            Err(e) => Err(MutationError::SetInputValue(e)),
        }
    }

    fn to_mutation(self) -> (wrapped: crate::mutation::Mutation)
        ensures
            wrapped == crate::mutation::Mutation::Element(
                ElementMutation::Builder(
                    ElementBuilderMutation::Modify(ElementBuilderModifyMutation::SetInputValue(self)),
                ),
            ),
    {
        crate::mutation::Mutation::Element(
            ElementMutation::Builder(
                ElementBuilderMutation::Modify(ElementBuilderModifyMutation::SetInputValue(self)),
            ),
        )
    }
}

impl Revert for ElementSetInputValueMutationLog {
    type Mutation = ElementUnsetInputValueMutation;

    open spec fn reverted(&self) -> ElementUnsetInputValueMutation {
        ElementUnsetInputValueMutation { previous_value: self.previous_value }
    }

    fn revert(&self) -> (undo: ElementUnsetInputValueMutation) {
        ElementUnsetInputValueMutation { previous_value: self.previous_value.clone() }
    }

    fn to_mutation_log(self) -> (wrapped: crate::mutation::MutationLog)
        ensures
            wrapped == crate::mutation::MutationLog::Element(
                ElementMutationLog::Builder(
                    ElementBuilderMutationLog::Modify(
                        ElementBuilderModifyMutationLog::SetInputValue(self),
                    ),
                ),
            ),
    {
        crate::mutation::MutationLog::Element(
            ElementMutationLog::Builder(
                ElementBuilderMutationLog::Modify(
                    ElementBuilderModifyMutationLog::SetInputValue(self),
                ),
            ),
        )
    }
}

} // verus!
