use super::error::JsError;
use crate::data::{AttributeName, AttributeValue, ElementId, EventName, KorvinClosure, TagName};
use vstd::prelude::*;

verus! {

/// The live document, as far as the engine needs it.
///
/// Each method is one primitive of the document. Nothing is assumed about what
/// an implementation answers: every function of this library is verified for
/// whatever comes back.
pub trait DomBackend {
    /// Makes an element of the given kind, not yet attached anywhere.
    fn create_element(&mut self, kind: &TagName) -> Result<ElementId, JsError>;

    /// Makes `child` the last child of `parent`.
    fn append_child(&mut self, parent: ElementId, child: ElementId) -> Result<(), JsError>;

    /// Detaches `element` and its subtree, and reports the node that left.
    fn remove(&mut self, element: ElementId) -> ElementId;

    /// Detaches `child` from `parent`, and reports the node that left.
    fn remove_child(&mut self, parent: ElementId, child: ElementId) -> Result<ElementId, JsError>;

    /// Puts `moved` immediately before `anchor` among the children of the
    /// parent of `anchor`.
    fn before(&mut self, anchor: ElementId, moved: ElementId) -> Result<(), JsError>;

    /// Puts `moved` immediately after `anchor` among the children of the
    /// parent of `anchor`.
    fn after(&mut self, anchor: ElementId, moved: ElementId) -> Result<(), JsError>;

    /// Puts `with` in the place of `element`.
    fn replace_with(&mut self, element: ElementId, with: ElementId) -> Result<(), JsError>;

    /// The children of `parent`, first to last.
    fn child_nodes(&mut self, parent: ElementId) -> Vec<ElementId>;

    /// The kind of `element`.
    fn tag_name(&mut self, element: ElementId) -> TagName;

    /// The value of the attribute, if the element has it.
    fn get_attribute(&mut self, element: ElementId, name: &AttributeName) -> Option<AttributeValue>;

    fn set_attribute(
        &mut self,
        element: ElementId,
        name: &AttributeName,
        value: &AttributeValue,
    ) -> Result<(), JsError>;

    fn remove_attribute(&mut self, element: ElementId, name: &AttributeName) -> Result<(), JsError>;

    /// The text content of `element`, if it has one.
    fn text_content(&mut self, element: ElementId) -> Option<AttributeValue>;

    /// Sets the text content of `element`, or clears it.
    fn set_text_content(&mut self, element: ElementId, text: &Option<AttributeValue>);

    /// The form value of `element`; `None` where the node takes no form value.
    fn input_value(&mut self, element: ElementId) -> Option<AttributeValue>;

    /// Sets the form value of a node that takes one.
    fn set_input_value(&mut self, element: ElementId, value: &AttributeValue);

    fn add_event_listener(
        &mut self,
        element: ElementId,
        name: &EventName,
        callback: KorvinClosure,
    ) -> Result<(), JsError>;

    fn remove_event_listener(
        &mut self,
        element: ElementId,
        name: &EventName,
        callback: KorvinClosure,
    ) -> Result<(), JsError>;

    /// The node that currently holds the focus, if any.
    fn active_element(&mut self) -> Option<ElementId>;
}

} // verus!
