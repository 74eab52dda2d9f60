use self::backend::DomBackend;
use self::error::{DebugOf, JsError, RawOperationError, RawOperationResult};
use self::journal::{Issued, Operation};
use crate::data::attribute_value::text_of;
use crate::data::{AttributeName, AttributeValue, ElementId, EventListenerWrapper, TagName};
use vstd::prelude::*;

pub mod attribute;
pub mod backend;
pub mod error;
pub mod journal;

verus! {

/// A live document together with the journal of what was issued to it.
///
/// The journal is ghost: it costs nothing when the program runs. Each
/// operation of this module appends one entry to it, so the journal is the
/// sequence of operations that the engine has asked of the document.
pub struct LiveDocument<B: DomBackend> {
    backend: B,
    issued: Ghost<Seq<Issued>>,
}

impl<B: DomBackend> LiveDocument<B> {
    /// The operations issued so far, oldest first.
    pub closed spec fn issued(&self) -> Seq<Issued> {
        self.issued@
    }

    /// The live document that the operations are issued to.
    pub closed spec fn inner(&self) -> B {
        self.backend
    }

    /// Wraps a live document; nothing has been issued yet.
    pub fn new(backend: B) -> (document: Self)
        ensures
            document.issued() == Seq::<Issued>::empty(),
            document.inner() == backend,
    {
        LiveDocument { backend, issued: Ghost(Seq::empty()) }
    }

    /// The live document itself.
    pub fn backend(&self) -> (backend: &B)
        ensures
            *backend == self.inner(),
    {
        &self.backend
    }

    /// Gives the live document back.
    pub fn into_backend(self) -> (backend: B)
        ensures
            backend == self.inner(),
    {
        self.backend
    }

    /// The node that currently holds the focus, if any. Reading it issues no
    /// operation.
    pub fn active_element(&mut self) -> (focused: Option<ElementId>)
        ensures
            final(self).issued() == old(self).issued(),
    {
        self.backend.active_element()
    }

    /// The kind of `element`. Reading it issues no operation.
    pub fn tag_name(&mut self, element: ElementId) -> (kind: TagName)
        ensures
            final(self).issued() == old(self).issued(),
    {
        self.backend.tag_name(element)
    }
}

/// A node that has left the live document.
#[derive(Debug)]
pub struct Removed<T>(T);

impl<T> Removed<T> {
    /// What left the document.
    pub closed spec fn content(self) -> T {
        self.0
    }

    pub fn unpack(self) -> (inner: T)
        ensures
            inner == self.content(),
    {
        self.0
    }
}

/// What a removal answers once the document has reported which node left it:
/// the node, if it is the one that was to leave, and otherwise the error that
/// says that another one left.
pub fn confirm_removed(expected: ElementId, got: ElementId) -> (r: RawOperationResult<
    Removed<ElementId>,
>)
    ensures
        expected == got ==> (r matches Ok(removed) && removed.content() == expected),
        expected != got ==> r matches Err(RawOperationError::ElementMismatch { .. }),
{
    if expected == got {
        Ok(Removed(expected))
    } else {
        Err(
            RawOperationError::ElementMismatch {
                expected: DebugOf::new(&expected),
                got: DebugOf::new(&got),
            },
        )
    }
}

/// Detaches `element_id` and its subtree from the live document.
///
/// Fails with `ElementMismatch` exactly when the document reports that another
/// node left.
pub fn remove_element_in_place<B: DomBackend>(
    doc: &mut LiveDocument<B>,
    element_id: ElementId,
) -> (r: RawOperationResult<Removed<ElementId>>)
    ensures
        final(doc).issued() == old(doc).issued().push(
            Issued { operation: Operation::RemoveInPlace { element: element_id }, succeeded: r is Ok },
        ),
        r matches Ok(removed) ==> removed.content() == element_id,
        r matches Err(e) ==> e is ElementMismatch,
{
    let got = doc.backend.remove(element_id);
    let r = confirm_removed(element_id, got);
    proof {
        doc.issued@ = doc.issued@.push(
            Issued { operation: Operation::RemoveInPlace { element: element_id }, succeeded: r is Ok },
        );
    }
    r
}

/// What `remove_element` answers for each answer of the live document.
pub fn removal_outcome(
    from_parent: ElementId,
    element: ElementId,
    answer: Result<ElementId, JsError>,
) -> (r: RawOperationResult<ElementId>)
    ensures
        match answer {
            Ok(got) => if got == element {
                r == Ok::<ElementId, RawOperationError>(element)
            } else {
                r matches Err(RawOperationError::ElementMismatch { .. })
            },
            Err(cause) => r matches Err(RawOperationError::RemoveElement { source, .. }) && source
                == cause,
        },
{
    match answer {
        Ok(got) => {
            if got == element {
                Ok(element)
            } else {
                Err(
                    RawOperationError::ElementMismatch {
                        expected: DebugOf::new(&element),
                        got: DebugOf::new(&got),
                    },
                )
            }
        },
        Err(source) => Err(
            RawOperationError::RemoveElement {
                from_parent: DebugOf::new(&from_parent),
                element: DebugOf::new(&element),
                source,
            },
        ),
    }
}

/// Detaches `element` from its parent `from_parent`.
pub fn remove_element<B: DomBackend>(
    doc: &mut LiveDocument<B>,
    from_parent: ElementId,
    element: ElementId,
) -> (r: RawOperationResult<ElementId>)
    ensures
        final(doc).issued() == old(doc).issued().push(
            Issued { operation: Operation::RemoveElement { from_parent, element }, succeeded: r is Ok },
        ),
        r matches Ok(removed) ==> removed == element,
        r matches Err(e) ==> e is ElementMismatch || e is RemoveElement,
{
    let answer = doc.backend.remove_child(from_parent, element);
    let r = removal_outcome(from_parent, element, answer);
    proof {
        doc.issued@ = doc.issued@.push(
            Issued { operation: Operation::RemoveElement { from_parent, element }, succeeded: r is Ok },
        );
    }
    r
}

/// Detaches every child of `from`, last to first, and answers the nodes that
/// left, in the order in which they stood. Stops at the first child that the
/// live document refuses to detach.
pub fn pick_up_children<B: DomBackend>(doc: &mut LiveDocument<B>, from: ElementId) -> (r:
    RawOperationResult<Vec<ElementId>>)
    ensures
        final(doc).issued() == old(doc).issued().push(
            Issued { operation: Operation::PickUpChildren { from }, succeeded: r is Ok },
        ),
        r matches Err(e) ==> e is PickingUpChildren,
{
    let nodes = doc.backend.child_nodes(from);
    let mut backwards: Vec<ElementId> = Vec::new();
    let mut failure: Option<JsError> = None;
    let mut left: usize = nodes.len();
    while left > 0 && failure.is_none()
        invariant
            left <= nodes@.len(),
            doc.issued() == old(doc).issued(),
        decreases left + if failure is None { 1int } else { 0int },
    {
        match doc.backend.remove_child(from, nodes[left - 1]) {
            Ok(removed) => {
                backwards.push(removed);
                left = left - 1;
            },
            Err(source) => {
                failure = Some(source);
            },
        }
    }
    let r = match failure {
        Some(source) => Err(
            RawOperationError::PickingUpChildren { from_parent: DebugOf::new(&from), source },
        ),
        None => {
            let mut children: Vec<ElementId> = Vec::new();
            while backwards.len() > 0
                decreases backwards@.len(),
            {
                match backwards.pop() {
                    Some(child) => children.push(child),
                    None => {},
                }
            }
            Ok(children)
        },
    };
    proof {
        doc.issued@ = doc.issued@.push(
            Issued { operation: Operation::PickUpChildren { from }, succeeded: r is Ok },
        );
    }
    r
}

/// Makes each of `children`, first to last, the last child of `to`. Stops at
/// the first that the live document refuses.
pub fn place_children<B: DomBackend>(
    doc: &mut LiveDocument<B>,
    to: ElementId,
    children: Vec<ElementId>,
) -> (r: RawOperationResult<()>)
    ensures
        final(doc).issued() == old(doc).issued().push(
            Issued { operation: Operation::PlaceChildren { to, children: children@ }, succeeded: r is Ok },
        ),
        r matches Err(e) ==> e is InsertingChildren,
{
    let mut failure: Option<JsError> = None;
    let mut placed: usize = 0;
    while placed < children.len() && failure.is_none()
        invariant
            placed <= children@.len(),
            doc.issued() == old(doc).issued(),
        decreases children@.len() - placed + if failure is None { 1int } else { 0int },
    {
        match doc.backend.append_child(to, children[placed]) {
            Ok(()) => {
                placed = placed + 1;
            },
            Err(source) => {
                failure = Some(source);
            },
        }
    }
    let r = match failure {
        Some(source) => Err(
            RawOperationError::InsertingChildren { to_parent: DebugOf::new(&to), source },
        ),
        None => Ok(()),
    };
    proof {
        doc.issued@ = doc.issued@.push(
            Issued { operation: Operation::PlaceChildren { to, children: children@ }, succeeded: r is Ok },
        );
    }
    r
}

/// Moves every child of `from` under `to`, behind the children that `to` has,
/// in the order in which they stood: first they are picked up, then they are
/// placed. Where the picking up fails, nothing is placed.
pub fn reparent_all<B: DomBackend>(doc: &mut LiveDocument<B>, from: ElementId, to: ElementId) -> (r:
    RawOperationResult<()>)
    ensures
        old(doc).issued().is_prefix_of(final(doc).issued()),
        final(doc).issued().len() >= old(doc).issued().len() + 1,
        final(doc).issued()[old(doc).issued().len() as int].operation == (Operation::PickUpChildren {
            from,
        }),
        r is Ok <==> final(doc).issued().len() == old(doc).issued().len() + 2
            && final(doc).issued().last().succeeded,
        r matches Err(e) ==> e is PickingUpChildren || e is InsertingChildren,
{
    match pick_up_children(doc, from) {
        Ok(picked_up) => place_children(doc, to, picked_up),
        Err(e) => Err(e),
    }
}

/// Puts `node_2` immediately before `node_1` among the children of their parent.
pub fn swap_siblings<B: DomBackend>(doc: &mut LiveDocument<B>, node_1: ElementId, node_2: ElementId) -> (r:
    RawOperationResult<()>)
    ensures
        final(doc).issued() == old(doc).issued().push(
            Issued {
                operation: Operation::MoveBefore { moved: node_2, anchor: node_1 },
                succeeded: r is Ok,
            },
        ),
        r matches Err(e) ==> e is SwappingElements,
{
    let r = match doc.backend.before(node_1, node_2) {
        Ok(()) => Ok(()),
        Err(source) => Err(
            RawOperationError::SwappingElements {
                element: DebugOf::new(&node_1),
                with: DebugOf::new(&node_2),
                source,
            },
        ),
    };
    proof {
        doc.issued@ = doc.issued@.push(
            Issued {
                operation: Operation::MoveBefore { moved: node_2, anchor: node_1 },
                succeeded: r is Ok,
            },
        );
    }
    r
}

/// Puts `node_2` immediately after `node_1` among the children of their parent.
pub fn swap_siblings_behind<B: DomBackend>(
    doc: &mut LiveDocument<B>,
    node_1: ElementId,
    node_2: ElementId,
) -> (r: RawOperationResult<()>)
    ensures
        final(doc).issued() == old(doc).issued().push(
            Issued {
                operation: Operation::MoveAfter { moved: node_2, anchor: node_1 },
                succeeded: r is Ok,
            },
        ),
        r matches Err(e) ==> e is SwappingElements,
{
    let r = match doc.backend.after(node_1, node_2) {
        Ok(()) => Ok(()),
        Err(source) => Err(
            RawOperationError::SwappingElements {
                element: DebugOf::new(&node_1),
                with: DebugOf::new(&node_2),
                source,
            },
        ),
    };
    proof {
        doc.issued@ = doc.issued@.push(
            Issued {
                operation: Operation::MoveAfter { moved: node_2, anchor: node_1 },
                succeeded: r is Ok,
            },
        );
    }
    r
}

/// Puts `with` in the place of `element`, and answers `with`.
pub fn replace_element<B: DomBackend>(doc: &mut LiveDocument<B>, element: ElementId, with: ElementId) -> (r:
    RawOperationResult<ElementId>)
    ensures
        final(doc).issued() == old(doc).issued().push(
            Issued { operation: Operation::ReplaceElement { element, with }, succeeded: r is Ok },
        ),
        r matches Ok(placed) ==> placed == with,
        r matches Err(e) ==> e is SwappingElements,
{
    let r = match doc.backend.replace_with(element, with) {
        Ok(()) => Ok(with),
        Err(source) => Err(
            RawOperationError::SwappingElements {
                element: DebugOf::new(&element),
                with: DebugOf::new(&with),
                source,
            },
        ),
    };
    proof {
        doc.issued@ = doc.issued@.push(
            Issued { operation: Operation::ReplaceElement { element, with }, succeeded: r is Ok },
        );
    }
    r
}

/// Makes an element of kind `kind`, not yet attached anywhere.
pub fn create_element<B: DomBackend>(doc: &mut LiveDocument<B>, kind: TagName) -> (r: RawOperationResult<
    ElementId,
>)
    ensures
        final(doc).issued() == old(doc).issued().push(
            Issued { operation: Operation::CreateElement { kind: kind@ }, succeeded: r is Ok },
        ),
        r matches Err(e) ==> e matches RawOperationError::CreatingElement { kind: refused, .. }
            && refused == kind,
{
    let r = match doc.backend.create_element(&kind) {
        Ok(created) => Ok(created),
        Err(source) => Err(RawOperationError::CreatingElement { kind, source }),
    };
    proof {
        doc.issued@ = doc.issued@.push(
            Issued { operation: Operation::CreateElement { kind: kind@ }, succeeded: r is Ok },
        );
    }
    r
}

/// Registers `event_listener` on `element`, and hands the listener back.
pub fn add_event_listener<B: DomBackend>(
    doc: &mut LiveDocument<B>,
    element: ElementId,
    event_listener: EventListenerWrapper,
) -> (r: RawOperationResult<EventListenerWrapper>)
    ensures
        final(doc).issued() == old(doc).issued().push(
            Issued {
                operation: Operation::AddEventListener {
                    element,
                    name: event_listener.name@,
                    callback: event_listener.closure.hash,
                },
                succeeded: r is Ok,
            },
        ),
        r matches Ok(listener) ==> listener == event_listener,
        r matches Err(e) ==> e is AddEventListener,
{
    let r = match doc.backend.add_event_listener(
        element,
        &event_listener.name,
        event_listener.closure,
    ) {
        Ok(()) => Ok(event_listener),
        Err(source) => Err(RawOperationError::AddEventListener(source)),
    };
    proof {
        doc.issued@ = doc.issued@.push(
            Issued {
                operation: Operation::AddEventListener {
                    element,
                    name: event_listener.name@,
                    callback: event_listener.closure.hash,
                },
                succeeded: r is Ok,
            },
        );
    }
    r
}

/// Takes `event_listener` off `element`, and hands the listener back.
pub fn remove_event_listener<B: DomBackend>(
    doc: &mut LiveDocument<B>,
    element: ElementId,
    event_listener: EventListenerWrapper,
) -> (r: RawOperationResult<EventListenerWrapper>)
    ensures
        final(doc).issued() == old(doc).issued().push(
            Issued {
                operation: Operation::RemoveEventListener {
                    element,
                    name: event_listener.name@,
                    callback: event_listener.closure.hash,
                },
                succeeded: r is Ok,
            },
        ),
        r matches Ok(listener) ==> listener == event_listener,
        r matches Err(e) ==> e is RemoveEventListener,
{
    let r = match doc.backend.remove_event_listener(
        element,
        &event_listener.name,
        event_listener.closure,
    ) {
        Ok(()) => Ok(event_listener),
        Err(source) => Err(RawOperationError::RemoveEventListener(source)),
    };
    proof {
        doc.issued@ = doc.issued@.push(
            Issued {
                operation: Operation::RemoveEventListener {
                    element,
                    name: event_listener.name@,
                    callback: event_listener.closure.hash,
                },
                succeeded: r is Ok,
            },
        );
    }
    r
}

/// Makes `element` the last child of `to`, and answers `element`.
pub fn insert_element<B: DomBackend>(doc: &mut LiveDocument<B>, element: ElementId, to: ElementId) -> (r:
    RawOperationResult<ElementId>)
    ensures
        final(doc).issued() == old(doc).issued().push(
            Issued { operation: Operation::InsertElement { element, to }, succeeded: r is Ok },
        ),
        r matches Ok(inserted) ==> inserted == element,
        r matches Err(e) ==> e is InsertElement,
{
    let r = match doc.backend.append_child(to, element) {
        Ok(()) => Ok(element),
        Err(source) => Err(
            RawOperationError::InsertElement {
                to: DebugOf::new(&to),
                element: DebugOf::new(&element),
                source,
            },
        ),
    };
    proof {
        doc.issued@ = doc.issued@.push(
            Issued { operation: Operation::InsertElement { element, to }, succeeded: r is Ok },
        );
    }
    r
}

/// What `set_attribute` answers for each answer of the live document: the
/// attribute's name with the value it had before, or the error that names the
/// attribute, the value that was to be set and the document's own words.
pub fn attribute_outcome(
    element: ElementId,
    attribute: AttributeName,
    value: Option<AttributeValue>,
    old: Option<AttributeValue>,
    answer: Result<(), JsError>,
) -> (r: RawOperationResult<(AttributeName, Option<AttributeValue>)>)
    ensures
        match answer {
            Ok(()) => r == Ok::<(AttributeName, Option<AttributeValue>), RawOperationError>(
                (attribute, old),
            ),
            Err(cause) => r matches Err(
                RawOperationError::SetAttribute { attribute: a, value: v, source, .. },
            ) && a == attribute && v == value && source == cause,
        },
{
    match answer {
        Ok(()) => Ok((attribute, old)),
        Err(source) => Err(
            RawOperationError::SetAttribute {
                element: DebugOf::new(&element),
                attribute,
                value,
                source,
            },
        ),
    }
}

/// Sets the attribute `attribute` of `element` to `value`, or takes the
/// attribute away where `value` is `None`. Answers the attribute's name and the
/// value it had before.
pub fn set_attribute<B: DomBackend>(
    doc: &mut LiveDocument<B>,
    element: ElementId,
    attribute: AttributeName,
    value: Option<AttributeValue>,
) -> (r: RawOperationResult<(AttributeName, Option<AttributeValue>)>)
    ensures
        final(doc).issued() == old(doc).issued().push(
            Issued {
                operation: Operation::SetAttribute {
                    element,
                    attribute: attribute@,
                    value: text_of(value),
                },
                succeeded: r is Ok,
            },
        ),
        r matches Ok(pair) ==> pair.0 == attribute,
        r matches Err(e) ==> e matches RawOperationError::SetAttribute { attribute: a, value: v, .. }
            && a == attribute && v == value,
{
    let old = doc.backend.get_attribute(element, &attribute);
    let answer = match &value {
        Some(value) => doc.backend.set_attribute(element, &attribute, value),
        None => doc.backend.remove_attribute(element, &attribute),
    };
    proof {
        doc.issued@ = doc.issued@.push(
            Issued {
                operation: Operation::SetAttribute {
                    element,
                    attribute: attribute@,
                    value: text_of(value),
                },
                succeeded: answer is Ok,
            },
        );
    }
    attribute_outcome(element, attribute, value, old, answer)
}

/// Sets the text content of `element`, or clears it where `text` is `None`.
/// Answers the text it had before. Never fails.
pub fn set_text<B: DomBackend>(
    doc: &mut LiveDocument<B>,
    element: ElementId,
    text: Option<AttributeValue>,
) -> (previous: Option<AttributeValue>)
    ensures
        final(doc).issued() == old(doc).issued().push(
            Issued { operation: Operation::SetText { element, text: text_of(text) }, succeeded: true },
        ),
{
    let previous = doc.backend.text_content(element);
    doc.backend.set_text_content(element, &text);
    proof {
        doc.issued@ = doc.issued@.push(
            Issued { operation: Operation::SetText { element, text: text_of(text) }, succeeded: true },
        );
    }
    previous
}

/// What `set_input_value` answers for what the live document said of the
/// node's form value: the value, or, where the node takes none, the error
/// `NotAnInputElement`.
pub fn input_outcome(element: ElementId, current: Option<AttributeValue>) -> (r: RawOperationResult<
    AttributeValue,
>)
    ensures
        match current {
            Some(value) => r == Ok::<AttributeValue, RawOperationError>(value),
            None => r matches Err(RawOperationError::NotAnInputElement { .. }),
        },
{
    match current {
        Some(value) => Ok(value),
        None => Err(RawOperationError::NotAnInputElement { element: DebugOf::new(&element) }),
    }
}

/// Sets the form value of `element`, and answers the value it had before.
///
/// Fails with `NotAnInputElement`, and leaves the document as it is, where the
/// node takes no form value.
pub fn set_input_value<B: DomBackend>(
    doc: &mut LiveDocument<B>,
    element: ElementId,
    value: AttributeValue,
) -> (r: RawOperationResult<AttributeValue>)
    ensures
        final(doc).issued() == old(doc).issued().push(
            Issued { operation: Operation::SetInputValue { element, input: value@ }, succeeded: r is Ok },
        ),
        r matches Err(e) ==> e is NotAnInputElement,
{
    let current = doc.backend.input_value(element);
    if current.is_some() {
        doc.backend.set_input_value(element, &value);
    }
    proof {
        doc.issued@ = doc.issued@.push(
            Issued {
                operation: Operation::SetInputValue { element, input: value@ },
                succeeded: current is Some,
            },
        );
    }
    input_outcome(element, current)
}

/// Clears the text content of `element`, and answers the text it had before.
pub fn unset_text<B: DomBackend>(doc: &mut LiveDocument<B>, element: ElementId) -> (previous: Option<
    AttributeValue,
>)
    ensures
        final(doc).issued() == old(doc).issued().push(
            Issued { operation: Operation::SetText { element, text: None }, succeeded: true },
        ),
{
    set_text(doc, element, None)
}

} // verus!
