use crate::data::{AttributeName, AttributeValue, TagName};
use vstd::prelude::*;

verus! {

/// What the live document said when it refused an operation.
#[derive(Debug)]
pub struct JsError {
    pub message: String,
}

impl JsError {
    /// An error that carries `message`.
    pub fn new(message: String) -> (error: Self)
        ensures
            error.message == message,
    {
        JsError { message }
    }
}

/// A printable description of a value, taken when an error is made.
#[derive(Debug)]
pub struct DebugOf {
    debug: String,
}

/// Renders `val` with its `Debug` implementation (`std::fmt`, through
/// `format!`). Nothing is claimed about the text: it is whatever that
/// implementation writes.
#[verifier::external_body]
pub(crate) fn debug_text<T: std::fmt::Debug>(val: &T) -> (text: String) {
    format!("{val:?}")
}

impl DebugOf {
    /// The text that this description holds.
    pub closed spec fn described(&self) -> Seq<char> {
        self.debug@
    }

    /// Describes `val` as its `Debug` implementation renders it.
    pub fn new<T: std::fmt::Debug + 'static>(val: &T) -> (description: Self) {
        DebugOf { debug: debug_text(val) }
    }

    /// The description.
    pub fn text(&self) -> (text: &str)
        ensures
            text@ == self.described(),
    {
        self.debug.as_str()
    }
}

/// Why an operation on the live document failed.
#[derive(Debug)]
pub enum RawOperationError {
    InsertingChildren { to_parent: DebugOf, source: JsError },
    PickingUpChildren { from_parent: DebugOf, source: JsError },
    Reparenting { from_parent: DebugOf, to_parent: DebugOf, source: JsError },
    CreatingElement { kind: TagName, source: JsError },
    InsertElement { to: DebugOf, element: DebugOf, source: JsError },
    RemoveElement { from_parent: DebugOf, element: DebugOf, source: JsError },
    SetAttribute {
        element: DebugOf,
        attribute: AttributeName,
        value: Option<AttributeValue>,
        source: JsError,
    },
    UnhandledJs(JsError),
    /// The live document removed another node than the one it was asked to
    /// remove: the engine's record and the live document no longer agree.
    ElementMismatch { expected: DebugOf, got: DebugOf },
    AddEventListener(JsError),
    RemoveEventListener(JsError),
    SwappingElements { element: DebugOf, with: DebugOf, source: JsError },
    NotAnInputElement { element: DebugOf },
}

pub type RawOperationResult<T> = std::result::Result<T, RawOperationError>;

} // verus!
