use self::error::{DocumentModelError, DocumentModelResult};
use crate::data::ElementId;
use nonempty::NonEmpty;
use vstd::prelude::*;

pub mod error;

verus! {

/// `nonempty::NonEmpty`, a vector that always holds at least one item. Verus
/// sees nothing inside it: what it holds is named by `stack_items`.
#[verifier::external_type_specification]
#[verifier::external_body]
#[verifier::reject_recursive_types(T)]
pub struct ExNonEmpty<T>(NonEmpty<T>);

/// The items that a `NonEmpty` of handles holds, first to last: its head, then
/// its tail.
pub uninterp spec fn stack_items(stack: NonEmpty<ElementId>) -> Seq<ElementId>;

/// `NonEmpty::new`: a vector that holds `root` alone.
#[verifier::external_body]
fn stack_new(root: ElementId) -> (stack: NonEmpty<ElementId>)
    ensures
        stack_items(stack) == seq![root],
{
    NonEmpty::new(root)
}

/// `NonEmpty::push`: `element` is added behind the last item.
#[verifier::external_body]
fn stack_push(stack: &mut NonEmpty<ElementId>, element: ElementId)
    ensures
        stack_items(*final(stack)) == stack_items(*old(stack)).push(element),
{
    stack.push(element)
}

/// `NonEmpty::pop`: the last item is taken off the tail and answered. Where the
/// tail is empty, so that the head is all there is, nothing is taken off and
/// `None` is answered.
#[verifier::external_body]
fn stack_pop(stack: &mut NonEmpty<ElementId>) -> (popped: Option<ElementId>)
    ensures
        stack_items(*old(stack)).len() > 1 ==> popped == Some(stack_items(*old(stack)).last())
            && stack_items(*final(stack)) == stack_items(*old(stack)).drop_last(),
        stack_items(*old(stack)).len() <= 1 ==> popped is None && stack_items(*final(stack))
            == stack_items(*old(stack)),
{
    stack.pop()
}

/// `NonEmpty::last`: the last item, which is the head where the tail is empty.
#[verifier::external_body]
fn stack_last(stack: &NonEmpty<ElementId>) -> (last: &ElementId)
    ensures
        *last == stack_items(*stack).last(),
{
    stack.last()
}

/// The elements that are open while a tree is walked: the entry point at the
/// bottom, and above it each element that was entered and not yet left.
pub struct DocumentModel {
    pub element_stack: NonEmpty<ElementId>,
}

impl DocumentModel {
    /// The open elements, from the entry point to the innermost.
    pub open spec fn stack(&self) -> Seq<ElementId> {
        stack_items(self.element_stack)
    }

    /// Enters `element`: it becomes the innermost open element.
    pub fn push_current_root(&mut self, element: ElementId)
        ensures
            final(self).stack() == old(self).stack().push(element),
    {
        stack_push(&mut self.element_stack, element);
    }

    /// Leaves the innermost open element and answers it. The entry point
    /// cannot be left: where it is all that is open, the error says so and
    /// nothing changes.
    pub fn pop_current_root(&mut self) -> (r: DocumentModelResult<ElementId>)
        ensures
            old(self).stack().len() > 1 ==> r == Ok::<ElementId, DocumentModelError>(
                old(self).stack().last(),
            ) && final(self).stack() == old(self).stack().drop_last(),
            old(self).stack().len() <= 1 ==> r == Err::<ElementId, DocumentModelError>(
                DocumentModelError::RootElementPopped,
            ) && final(self).stack() == old(self).stack(),
    {
        match stack_pop(&mut self.element_stack) {
            Some(element) => Ok(element),
            None => Err(DocumentModelError::RootElementPopped),
        }
    }

    /// The innermost open element.
    pub fn current_root(&self) -> (root: &ElementId)
        ensures
            *root == self.stack().last(),
    {
        stack_last(&self.element_stack)
    }

    /// A model in which `root`, the entry point, is all that is open.
    pub fn new(root: ElementId) -> (model: Self)
        ensures
            model.stack() == seq![root],
    {
        DocumentModel { element_stack: stack_new(root) }
    }
}

} // verus!
