use crate::data::{AttributeName, AttributeValue, ElementId, EventName, KorvinClosure, TagName};
use crate::raw_operations::backend::DomBackend;
use crate::raw_operations::error::JsError;
use crate::{Runtime, RuntimeError, RuntimeResult};
use vstd::prelude::*;
use wasm_bindgen::{JsCast, JsValue};
use web_sys::{Element, HtmlInputElement, Node};

verus! {

/// `web_sys::Document`, the document of a page.
#[verifier::external_type_specification]
#[verifier::external_body]
pub struct ExDocument(web_sys::Document);

/// `web_sys::Window`, the window that a page lives in.
#[verifier::external_type_specification]
#[verifier::external_body]
pub struct ExWindow(web_sys::Window);

/// `web_sys::Element`, an element of a page.
#[verifier::external_type_specification]
#[verifier::external_body]
pub struct ExElement(Element);

/// `web_sys::Node`, a node of a page, element or not.
#[verifier::external_type_specification]
#[verifier::external_body]
pub struct ExNode(Node);

/// `web_sys::HtmlInputElement`, an element that takes a form value.
#[verifier::external_type_specification]
#[verifier::external_body]
pub struct ExHtmlInputElement(HtmlInputElement);

/// `wasm_bindgen::JsValue`, here: what the page throws when it refuses a call.
#[verifier::external_type_specification]
#[verifier::external_body]
pub struct ExJsValue(JsValue);

/// Renders what the page threw with its `Debug` implementation
/// (`wasm_bindgen::JsValue`, through `format!`).
#[verifier::external_body]
fn thrown_text(thrown: &JsValue) -> (text: String) {
    format!("{thrown:#?}")
}

/// `AsRef<Node>` of `web_sys::Element`: the element, taken as a node.
#[verifier::external_body]
fn as_node(element: &Element) -> (node: &Node) {
    element.as_ref()
}

/// `==` of `web_sys::Node`, which is `===` in the page: whether both are the
/// same node.
#[verifier::external_body]
fn same_node(one: &Node, other: &Node) -> (same: bool) {
    one == other
}

/// `Clone` of `web_sys::Element`: another reference to the same element.
#[verifier::external_body]
fn another(element: &Element) -> (copy: Element) {
    element.clone()
}

/// `web_sys::window`: the window of the page, if the program runs in one.
#[verifier::external_body]
fn page_window() -> (window: Option<web_sys::Window>) {
    web_sys::window()
}

/// `Window::document`.
#[verifier::external_body]
fn window_document(window: &web_sys::Window) -> (document: Option<web_sys::Document>) {
    window.document()
}

/// `Document::body`, as an element.
#[verifier::external_body]
fn document_body(document: &web_sys::Document) -> (body: Option<Element>) {
    document.body().map(Element::from)
}

/// `Document::create_element`.
#[verifier::external_body]
fn document_create_element(document: &web_sys::Document, kind: &str) -> (made: Result<Element, JsValue>) {
    document.create_element(kind)
}

/// `Document::active_element`.
#[verifier::external_body]
fn document_active_element(document: &web_sys::Document) -> (focused: Option<Element>) {
    document.active_element()
}

/// `Node::append_child`, on elements.
#[verifier::external_body]
fn element_append_child(parent: &Element, child: &Element) -> (appended: Result<Node, JsValue>) {
    parent.append_child(child)
}

/// `Node::parent_node`, on an element.
#[verifier::external_body]
fn element_parent_node(element: &Element) -> (parent: Option<Node>) {
    element.parent_node()
}

/// `Node::remove_child`.
#[verifier::external_body]
fn node_remove_child(parent: &Node, child: &Node) -> (removed: Result<Node, JsValue>) {
    parent.remove_child(child)
}

/// `Element::before_with_node_1`.
#[verifier::external_body]
fn element_before(anchor: &Element, moved: &Element) -> (done: Result<(), JsValue>) {
    anchor.before_with_node_1(moved)
}

/// `Element::after_with_node_1`.
#[verifier::external_body]
fn element_after(anchor: &Element, moved: &Element) -> (done: Result<(), JsValue>) {
    anchor.after_with_node_1(moved)
}

/// `Element::replace_with_with_node_1`.
#[verifier::external_body]
fn element_replace_with(element: &Element, with: &Element) -> (done: Result<(), JsValue>) {
    element.replace_with_with_node_1(with)
}

/// `Element::child_element_count`.
#[verifier::external_body]
fn element_child_count(element: &Element) -> (count: u32) {
    element.child_element_count()
}

/// `Element::first_element_child`.
#[verifier::external_body]
fn element_first_child(element: &Element) -> (first: Option<Element>) {
    element.first_element_child()
}

/// `Element::next_element_sibling`.
#[verifier::external_body]
fn element_next_sibling(element: &Element) -> (next: Option<Element>) {
    element.next_element_sibling()
}

/// `Element::tag_name`.
#[verifier::external_body]
fn element_tag_name(element: &Element) -> (kind: String) {
    element.tag_name()
}

/// `Element::get_attribute`.
#[verifier::external_body]
fn element_get_attribute(element: &Element, name: &str) -> (value: Option<String>) {
    element.get_attribute(name)
}

/// `Element::set_attribute`.
#[verifier::external_body]
fn element_set_attribute(element: &Element, name: &str, value: &str) -> (done: Result<(), JsValue>) {
    element.set_attribute(name, value)
}

/// `Element::remove_attribute`.
#[verifier::external_body]
fn element_remove_attribute(element: &Element, name: &str) -> (done: Result<(), JsValue>) {
    element.remove_attribute(name)
}

/// `Node::text_content`, on an element.
#[verifier::external_body]
fn element_text_content(element: &Element) -> (text: Option<String>) {
    element.text_content()
}

/// `Node::set_text_content`, on an element.
#[verifier::external_body]
fn element_set_text_content(element: &Element, text: Option<&str>) {
    element.set_text_content(text)
}

/// `JsCast::dyn_ref` to `HtmlInputElement`: the element as one that takes a
/// form value, if it is one.
#[verifier::external_body]
fn element_as_input(element: &Element) -> (input: Option<HtmlInputElement>) {
    element.dyn_ref::<HtmlInputElement>().cloned()
}

/// `HtmlInputElement::value`.
#[verifier::external_body]
fn input_get_value(input: &HtmlInputElement) -> (value: String) {
    input.value()
}

/// `HtmlInputElement::set_value`.
#[verifier::external_body]
fn input_set_value(input: &HtmlInputElement, value: &str) {
    input.set_value(value)
}

/// What the page threw, as the error that the engine passes on.
pub fn thrown(value: JsValue) -> (error: JsError) {
    JsError::new(thrown_text(&value))
}

/// What the error for a handle that was never handed out says.
pub open spec fn unknown_handle() -> Seq<char> {
    "no node is known by this handle"@
}

/// Whether `r` is the error for a handle that was never handed out.
pub open spec fn says_unknown<T>(r: Result<T, JsError>) -> bool {
    match r {
        Ok(_) => false,
        Err(e) => e.message@ == unknown_handle(),
    }
}

/// The handle that stands for no element: what is reported where another node
/// left the page than the one that was to leave.
pub open spec fn no_handle() -> ElementId {
    ElementId { raw: u64::MAX }
}

/// What a call hands on of what the page answered: the answer, where the page
/// did as it was asked, and otherwise the error that the engine passes on for
/// what the page threw.
pub fn handed_on<T>(answer: Result<T, JsValue>) -> (r: Result<T, JsError>)
    ensures
        match answer {
            Ok(value) => r == Ok::<T, JsError>(value),
            Err(_) => r is Err,
        },
{
    match answer {
        Ok(value) => Ok(value),
        Err(e) => Err(thrown(e)),
    }
}

/// Whether the page did as it was asked, whatever it answered with: success
/// where it did, and otherwise the error that the engine passes on for what
/// the page threw.
pub fn settled<T>(answer: Result<T, JsValue>) -> (r: Result<(), JsError>)
    ensures
        r is Ok <==> answer is Ok,
{
    match answer {
        Ok(_) => Ok(()),
        Err(e) => Err(thrown(e)),
    }
}

/// The value with the text that the page named, if it named one.
pub fn value_of(text: Option<String>) -> (value: Option<AttributeValue>)
    ensures
        match text {
            Some(text) => value matches Some(found) && found@ == text@,
            None => value is None,
        },
{
    match text {
        Some(text) => Some(AttributeValue::new(text.as_str())),
        None => None,
    }
}

/// What a removal reports once the page has said which node left: the handle
/// `expected`, where that is the node, and the handle of no element where it
/// is another one.
pub fn reported(expected: ElementId, same: bool) -> (id: ElementId)
    ensures
        id == if same {
            expected
        } else {
            no_handle()
        },
{
    if same {
        expected
    } else {
        ElementId::new(u64::MAX)
    }
}

/// The error for a handle that this document never handed out.
fn unknown(element: ElementId) -> (error: JsError)
    ensures
        error.message@ == unknown_handle(),
{
    let _ = element;
    JsError::new("no node is known by this handle".to_owned())
}

/// The document of the page that the program runs in.
///
/// Fails with `NoWindow` where the program runs in no window, and with
/// `NoDocument` where the window has no document.
pub fn get_document() -> (r: RuntimeResult<web_sys::Document>)
    ensures
        r matches Err(e) ==> e is NoWindow || e is NoDocument,
{
    match window_or_error(page_window()) {
        Ok(window) => document_or_error(window_document(&window)),
        Err(e) => Err(e),
    }
}

/// What `get_document` makes of what the page said of its window: the window,
/// or the error `NoWindow` where the program runs in none.
pub fn window_or_error(window: Option<web_sys::Window>) -> (r: RuntimeResult<web_sys::Window>)
    ensures
        match window {
            Some(found) => r == Ok::<web_sys::Window, RuntimeError>(found),
            None => r matches Err(RuntimeError::NoWindow),
        },
{
    match window {
        Some(found) => Ok(found),
        None => Err(RuntimeError::NoWindow),
    }
}

/// What `get_document` answers once the window has said whether it has a
/// document.
pub fn document_or_error(document: Option<web_sys::Document>) -> (r: RuntimeResult<
    web_sys::Document,
>)
    ensures
        match document {
            Some(found) => r == Ok::<web_sys::Document, RuntimeError>(found),
            None => r matches Err(RuntimeError::NoDocument),
        },
{
    match document {
        Some(found) => Ok(found),
        None => Err(RuntimeError::NoDocument),
    }
}

/// Where the callbacks of a page are kept. The engine knows a callback by a
/// number; whoever keeps the callbacks knows the function behind it, and is
/// the one to hand it to the page.
pub trait CallbackSource {
    /// Registers the function behind `callback` on `element`, for the event
    /// `name`.
    fn listen(&mut self, element: &Element, name: &str, callback: KorvinClosure) -> Result<
        (),
        JsValue,
    >;

    /// Takes the function behind `callback` off `element`, for the event
    /// `name`.
    fn unlisten(&mut self, element: &Element, name: &str, callback: KorvinClosure) -> Result<
        (),
        JsValue,
    >;
}

/// The document of a page as the live document of the engine.
///
/// The engine knows an element by its handle, which is the place of the
/// element in `elements`. Nothing is claimed about what the page does: each
/// call into it is a call of `web_sys`, and the engine is verified for
/// whatever it answers.
pub struct WebDom<C: CallbackSource> {
    document: web_sys::Document,
    elements: Vec<Element>,
    callbacks: C,
}

impl<C: CallbackSource> WebDom<C> {
    /// The elements that have a handle, each at the place that its handle
    /// names.
    pub closed spec fn elements(&self) -> Seq<Element> {
        self.elements@
    }

    /// How many elements have a handle.
    pub open spec fn known(&self) -> nat {
        self.elements().len()
    }

    /// Whether this document handed `id` out.
    pub open spec fn knows(&self, id: ElementId) -> bool {
        id.raw < self.known()
    }

    /// The document `document`, of which no element has a handle yet.
    pub fn new(document: web_sys::Document, callbacks: C) -> (dom: Self)
        ensures
            dom.elements() == Seq::<Element>::empty(),
    {
        WebDom { document, elements: Vec::new(), callbacks }
    }

    /// The handle of `element`: the one it has, or a new one, which is then
    /// the next number. Every handle that was handed out stays the handle of
    /// its element.
    pub fn handle_of(&mut self, element: &Element) -> (id: ElementId)
        ensures
            final(self).knows(id),
            old(self).elements().is_prefix_of(final(self).elements()),
            final(self).known() <= old(self).known() + 1,
            !old(self).knows(id) ==> id.raw == old(self).known() && final(self).known() == old(
                self,
            ).known() + 1,
            old(self).knows(id) ==> final(self).elements() == old(self).elements(),
    {
        let mut at: usize = 0;
        while at < self.elements.len()
            invariant
                at <= self.elements@.len(),
                self.elements@ == old(self).elements@,
            decreases self.elements@.len() - at,
        {
            if same_node(as_node(&self.elements[at]), as_node(element)) {
                return ElementId::new(at as u64);
            }
            at = at + 1;
        }
        self.elements.push(another(element));
        ElementId::new(at as u64)
    }

    /// The element behind `id`, if this document handed `id` out.
    pub fn element(&self, id: ElementId) -> (element: Option<&Element>)
        ensures
            element is Some <==> self.knows(id),
            element matches Some(found) ==> *found == self.elements()[id.raw as int],
    {
        if id.raw < self.elements.len() as u64 {
            Some(&self.elements[id.raw as usize])
        } else {
            None
        }
    }

    /// The handle of the node that left, where it is the element behind
    /// `expected`, and a handle of no element where it is another node.
    fn report(&self, expected: ElementId, removed: &Node) -> (id: ElementId)
        ensures
            id == expected || id == no_handle(),
            !self.knows(expected) ==> id == no_handle(),
    {
        match self.element(expected) {
            Some(element) => reported(expected, same_node(removed, as_node(element))),
            None => ElementId::new(u64::MAX),
        }
    }
}

/// A runtime that keeps its tree under the body of the page that the program
/// runs in.
///
/// Fails with `NoWindow` or `NoDocument` where there is no page, and with
/// `NoRootElement` where the page has no body.
pub fn mount<C: CallbackSource>(callbacks: C) -> (r: RuntimeResult<Runtime<WebDom<C>>>)
    ensures
        r matches Ok(runtime) ==> !runtime.dom_executor.poisoned(),
        r matches Err(e) ==> e is NoWindow || e is NoDocument || e is NoRootElement,
{
    let document = match get_document() {
        Ok(document) => document,
        Err(e) => {
            return Err(e);
        },
    };
    match document_body(&document) {
        Some(body) => {
            let mut dom = WebDom::new(document, callbacks);
            let root = dom.handle_of(&body);
            Ok(Runtime::new(dom, root))
        },
        None => Err(RuntimeError::NoRootElement),
    }
}

impl<C: CallbackSource> DomBackend for WebDom<C> {
    /// Asks the page for an element of kind `kind`. The element that the page
    /// makes gets a handle; where the page refuses, no handle is handed out.
    fn create_element(&mut self, kind: &TagName) -> (r: Result<ElementId, JsError>)
        ensures
            old(self).elements().is_prefix_of(final(self).elements()),
            final(self).known() <= old(self).known() + 1,
            r matches Ok(id) ==> final(self).knows(id),
            r is Err ==> final(self).elements() == old(self).elements(),
    {
        match handed_on(document_create_element(&self.document, kind.as_ref())) {
            Ok(element) => Ok(self.handle_of(&element)),
            Err(e) => Err(e),
        }
    }

    /// Asks the page to make `child` the last child of `parent`. Fails, without
    /// asking, where one of the two handles was never handed out.
    fn append_child(&mut self, parent: ElementId, child: ElementId) -> (r: Result<(), JsError>)
        ensures
            final(self).elements() == old(self).elements(),
            !old(self).knows(parent) || !old(self).knows(child) ==> says_unknown(r),
    {
        match (self.element(parent), self.element(child)) {
            (Some(parent), Some(child)) => settled(element_append_child(parent, child)),
            (None, _) => Err(unknown(parent)),
            (_, None) => Err(unknown(child)),
        }
    }

    /// Asks the parent of `element` to let it go, and reports `element` where
    /// the page says that this is the node that left, or where the element
    /// hangs nowhere. Reports the handle of no element where the page says
    /// otherwise, and, without asking, where the handle was never handed out.
    fn remove(&mut self, element: ElementId) -> (removed: ElementId)
        ensures
            final(self).elements() == old(self).elements(),
            removed == element || removed == no_handle(),
            !old(self).knows(element) ==> removed == no_handle(),
    {
        match self.element(element) {
            Some(found) => match element_parent_node(found) {
                Some(parent) => match node_remove_child(&parent, as_node(found)) {
                    Ok(removed) => self.report(element, &removed),
                    // A node that its parent does not let go has not left.
                    Err(_) => ElementId::new(u64::MAX),
                },
                // A node that hangs nowhere has nothing to leave.
                None => element,
            },
            None => ElementId::new(u64::MAX),
        }
    }

    /// Asks the page to detach `child` from `parent`, and reports `child`
    /// where the page says that this is the node that left, and the handle of
    /// no element where it says otherwise. Fails, without asking, where one of
    /// the two handles was never handed out.
    fn remove_child(&mut self, parent: ElementId, child: ElementId) -> (r: Result<
        ElementId,
        JsError,
    >)
        ensures
            final(self).elements() == old(self).elements(),
            r matches Ok(removed) ==> removed == child || removed == no_handle(),
            !old(self).knows(parent) || !old(self).knows(child) ==> says_unknown(r),
    {
        match (self.element(parent), self.element(child)) {
            (Some(parent), Some(found)) => match handed_on(
                node_remove_child(as_node(parent), as_node(found)),
            ) {
                Ok(removed) => Ok(self.report(child, &removed)),
                Err(e) => Err(e),
            },
            (None, _) => Err(unknown(parent)),
            (_, None) => Err(unknown(child)),
        }
    }

    /// Asks the page to put `moved` immediately before `anchor`. Fails, without asking, where one
    /// of the two handles was never handed out.
    fn before(&mut self, anchor: ElementId, moved: ElementId) -> (r: Result<(), JsError>)
        ensures
            final(self).elements() == old(self).elements(),
            !old(self).knows(anchor) || !old(self).knows(moved) ==> says_unknown(r),
    {
        match (self.element(anchor), self.element(moved)) {
            (Some(anchor), Some(moved)) => handed_on(element_before(anchor, moved)),
            (None, _) => Err(unknown(anchor)),
            (_, None) => Err(unknown(moved)),
        }
    }

    /// Asks the page to put `moved` immediately after `anchor`. Fails, without asking, where one
    /// of the two handles was never handed out.
    fn after(&mut self, anchor: ElementId, moved: ElementId) -> (r: Result<(), JsError>)
        ensures
            final(self).elements() == old(self).elements(),
            !old(self).knows(anchor) || !old(self).knows(moved) ==> says_unknown(r),
    {
        match (self.element(anchor), self.element(moved)) {
            (Some(anchor), Some(moved)) => handed_on(element_after(anchor, moved)),
            (None, _) => Err(unknown(anchor)),
            (_, None) => Err(unknown(moved)),
        }
    }

    /// Asks the page to put `with` in the place of `element`. Fails, without
    /// asking, where one of the two handles was never handed out.
    fn replace_with(&mut self, element: ElementId, with: ElementId) -> (r: Result<(), JsError>)
        ensures
            final(self).elements() == old(self).elements(),
            !old(self).knows(element) || !old(self).knows(with) ==> says_unknown(r),
    {
        match (self.element(element), self.element(with)) {
            (Some(element), Some(with)) => handed_on(element_replace_with(element, with)),
            (None, _) => Err(unknown(element)),
            (_, None) => Err(unknown(with)),
        }
    }

    /// The handles of the elements that the page names as the children of
    /// `parent`, first to last; a child that had no handle gets one. A handle
    /// that was never handed out has no children.
    fn child_nodes(&mut self, parent: ElementId) -> (children: Vec<ElementId>)
        ensures
            old(self).elements().is_prefix_of(final(self).elements()),
            forall|i: int| 0 <= i < children@.len() ==> final(self).knows(#[trigger] children@[i]),
            !old(self).knows(parent) ==> children@.len() == 0 && final(self).elements() == old(
                self,
            ).elements(),
    {
        let mut children: Vec<ElementId> = Vec::new();
        let (count, mut next) = match self.element(parent) {
            Some(parent) => (element_child_count(parent), element_first_child(parent)),
            None => (0, None),
        };
        let mut seen: u32 = 0;
        while seen < count && next.is_some()
            invariant
                seen <= count,
                old(self).elements().is_prefix_of(self.elements()),
                forall|i: int| 0 <= i < children@.len() ==> self.knows(#[trigger] children@[i]),
                !old(self).knows(parent) ==> count == 0,
                count == 0 ==> children@.len() == 0 && self.elements() == old(self).elements(),
            decreases count - seen,
        {
            let child = next.unwrap();
            let ghost listed = children@;
            let handle = self.handle_of(&child);
            children.push(handle);
            proof {
                assert forall|i: int| 0 <= i < children@.len() implies self.knows(
                    #[trigger] children@[i],
                ) by {
                    if i < listed.len() {
                        assert(children@[i] == listed[i]);
                    }
                }
            }
            next = element_next_sibling(&child);
            seen = seen + 1;
        }
        children
    }

    /// The kind that the page names for `element`; the empty kind, without
    /// asking, for a handle that was never handed out.
    fn tag_name(&mut self, element: ElementId) -> (kind: TagName)
        ensures
            final(self).elements() == old(self).elements(),
            !old(self).knows(element) ==> kind@ == Seq::<char>::empty(),
    {
        match self.element(element) {
            Some(element) => {
                let kind = element_tag_name(element);
                TagName::new(kind.as_str())
            },
            None => {
                proof {
                    reveal_strlit("");
                }
                TagName::new("")
            },
        }
    }

    /// What the page says of the attribute `name` of `element`; nothing,
    /// without asking, for a handle that was never handed out.
    fn get_attribute(&mut self, element: ElementId, name: &AttributeName) -> (value: Option<
        AttributeValue,
    >)
        ensures
            final(self).elements() == old(self).elements(),
            !old(self).knows(element) ==> value is None,
    {
        match self.element(element) {
            Some(element) => value_of(element_get_attribute(element, name.as_ref())),
            None => None,
        }
    }

    /// Asks the page to set the attribute `name` of `element` to `value`.
    /// Fails, without asking, for a handle that was never handed out.
    fn set_attribute(
        &mut self,
        element: ElementId,
        name: &AttributeName,
        value: &AttributeValue,
    ) -> (r: Result<(), JsError>)
        ensures
            final(self).elements() == old(self).elements(),
            !old(self).knows(element) ==> says_unknown(r),
    {
        match self.element(element) {
            Some(found) => handed_on(element_set_attribute(found, name.as_ref(), value.as_ref())),
            None => Err(unknown(element)),
        }
    }

    /// Asks the page to take the attribute `name` off `element`. Fails,
    /// without asking, for a handle that was never handed out.
    fn remove_attribute(&mut self, element: ElementId, name: &AttributeName) -> (r: Result<
        (),
        JsError,
    >)
        ensures
            final(self).elements() == old(self).elements(),
            !old(self).knows(element) ==> says_unknown(r),
    {
        match self.element(element) {
            Some(found) => handed_on(element_remove_attribute(found, name.as_ref())),
            None => Err(unknown(element)),
        }
    }

    /// What the page says of the text of `element`; nothing, without asking,
    /// for a handle that was never handed out.
    fn text_content(&mut self, element: ElementId) -> (text: Option<AttributeValue>)
        ensures
            final(self).elements() == old(self).elements(),
            !old(self).knows(element) ==> text is None,
    {
        match self.element(element) {
            Some(element) => value_of(element_text_content(element)),
            None => None,
        }
    }

    /// Asks the page to set the text of `element`, or to clear it. Nothing is
    /// asked for a handle that was never handed out.
    fn set_text_content(&mut self, element: ElementId, text: &Option<AttributeValue>)
        ensures
            final(self).elements() == old(self).elements(),
    {
        match self.element(element) {
            Some(element) => match text {
                Some(text) => element_set_text_content(element, Some(text.as_ref())),
                None => element_set_text_content(element, None),
            },
            None => {},
        }
    }

    /// The form value that the page names for `element`, where the page says
    /// that the element takes one; nothing, without asking, for a handle that
    /// was never handed out.
    fn input_value(&mut self, element: ElementId) -> (value: Option<AttributeValue>)
        ensures
            final(self).elements() == old(self).elements(),
            !old(self).knows(element) ==> value is None,
    {
        match self.element(element) {
            Some(element) => match element_as_input(element) {
                Some(input) => value_of(Some(input_get_value(&input))),
                None => None,
            },
            None => None,
        }
    }

    /// Asks the page to set the form value of `element`, where the page says
    /// that the element takes one. Nothing is asked for a handle that was
    /// never handed out.
    fn set_input_value(&mut self, element: ElementId, value: &AttributeValue)
        ensures
            final(self).elements() == old(self).elements(),
    {
        match self.element(element) {
            Some(element) => match element_as_input(element) {
                Some(input) => input_set_value(&input, value.as_ref()),
                None => {},
            },
            None => {},
        }
    }

    /// Asks the keeper of the callbacks to register `callback` on `element`,
    /// for the event `name`. Fails, without asking, for a handle that was
    /// never handed out.
    fn add_event_listener(
        &mut self,
        element: ElementId,
        name: &EventName,
        callback: KorvinClosure,
    ) -> (r: Result<(), JsError>)
        ensures
            final(self).elements() == old(self).elements(),
            !old(self).knows(element) ==> says_unknown(r),
    {
        if element.raw < self.elements.len() as u64 {
            let found = &self.elements[element.raw as usize];
            handed_on(self.callbacks.listen(found, name.as_ref(), callback))
        } else {
            Err(unknown(element))
        }
    }

    /// Asks the keeper of the callbacks to take `callback` off `element`, for
    /// the event `name`. Fails, without asking, for a handle that was never
    /// handed out.
    fn remove_event_listener(
        &mut self,
        element: ElementId,
        name: &EventName,
        callback: KorvinClosure,
    ) -> (r: Result<(), JsError>)
        ensures
            final(self).elements() == old(self).elements(),
            !old(self).knows(element) ==> says_unknown(r),
    {
        if element.raw < self.elements.len() as u64 {
            let found = &self.elements[element.raw as usize];
            handed_on(self.callbacks.unlisten(found, name.as_ref(), callback))
        } else {
            Err(unknown(element))
        }
    }

    /// The handle of the element that the page names as holding the focus,
    /// which gets a handle where it had none.
    fn active_element(&mut self) -> (focused: Option<ElementId>)
        ensures
            old(self).elements().is_prefix_of(final(self).elements()),
            final(self).known() <= old(self).known() + 1,
            focused matches Some(id) ==> final(self).knows(id),
            focused is None ==> final(self).elements() == old(self).elements(),
    {
        match document_active_element(&self.document) {
            Some(element) => Some(self.handle_of(&element)),
            None => None,
        }
    }
}

} // verus!
