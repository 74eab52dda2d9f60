use korvin_core::data::{
    AttributeName, AttributeValue, ElementId, EventName, KorvinClosure, TagName,
};
use korvin_core::data::EventListenerWrapper;
use korvin_core::dom_executor::reorder_children::SortableChildren;
use korvin_core::dom_executor::teardown::teardown;
use korvin_core::dom_executor::{build_new_child, rebuild_children, DomExecutor};
use korvin_core::mutation::element::builder_mutation::marker::create::ElementCreateMutation;
use korvin_core::mutation::element::builder_mutation::marker::finish::ElementFinishMutation;
use korvin_core::mutation::element::builder_mutation::modify::add_event_listener::ElementAddEventListenerMutation;
use korvin_core::mutation::element::builder_mutation::modify::set_attribute::ElementSetAttributeMutation;
use korvin_core::mutation::element::builder_mutation::modify::set_input_value::ElementSetInputValueMutation;
use korvin_core::mutation::element::builder_mutation::modify::set_text::ElementSetTextMutation;
use korvin_core::mutation::element::builder_mutation::modify::ElementBuilderModifyMutation;
use korvin_core::mutation::element::cleanup_mutation::modify::ElementCleanupModifyMutation;
use korvin_core::mutation::element::{ElementMutation, ElementMutationLog};
use korvin_core::mutation::traits::{Perform, Revert};
use korvin_core::mutation::{Mutation, MutationLog};
use korvin_core::raw_operations;
use korvin_core::Runtime;
use korvin_core::element_builder::{
    calculate_hash, AsElementBuilder, ElementBuilder, ElementWithChildrenRecipe,
};
use korvin_core::mutation::error::MutationError;
use korvin_core::raw_operations::backend::DomBackend;
use korvin_core::raw_operations::error::{JsError, RawOperationError};
use korvin_core::raw_operations::LiveDocument;
use korvin_core::RuntimeError;
use std::cell::RefCell;
use std::rc::Rc;

#[derive(Debug, Clone, PartialEq)]
enum Call {
    Create(String),
    Append { parent: u64, child: u64 },
    Remove(u64),
    RemoveChild { parent: u64, child: u64 },
    Before { anchor: u64, moved: u64 },
    After { anchor: u64, moved: u64 },
    Replace { element: u64, with: u64 },
    SetAttribute { element: u64, name: String, value: String },
    RemoveAttribute { element: u64, name: String },
    SetText { element: u64, text: Option<String> },
    SetInputValue { element: u64, value: String },
    AddListener { element: u64, name: String, callback: u64, handle: u64 },
    RemoveListener { element: u64, name: String, callback: u64, handle: u64 },
}

#[derive(Debug, Default)]
struct FakeNode {
    tag: String,
    parent: Option<u64>,
    children: Vec<u64>,
    attributes: Vec<(String, String)>,
    text: Option<String>,
    value: String,
    listeners: Vec<(String, u64)>,
    attached: bool,
}

#[derive(Debug, Default)]
struct State {
    nodes: Vec<FakeNode>,
    calls: Vec<Call>,
    focus: Option<u64>,
    misreport_removals: bool,
    refuse_attributes: bool,
    refuse_listeners: bool,
    refuse_appends: bool,
    refuse_removals: bool,
}

impl State {
    fn detach(&mut self, element: u64) {
        if let Some(parent) = self.nodes[element as usize].parent.take() {
            self.nodes[parent as usize].children.retain(|child| *child != element);
        }
    }

    fn children_of(&self, element: u64) -> Vec<u64> {
        self.nodes[element as usize].children.clone()
    }

    fn count(&self, wanted: impl Fn(&Call) -> bool) -> usize {
        self.calls.iter().filter(|call| wanted(call)).count()
    }

    fn writes(&self) -> usize {
        self.count(|call| {
            matches!(
                call,
                Call::SetAttribute { .. }
                    | Call::RemoveAttribute { .. }
                    | Call::SetText { .. }
                    | Call::SetInputValue { .. }
                    | Call::AddListener { .. }
                    | Call::RemoveListener { .. }
            )
        })
    }

    fn creations(&self) -> usize {
        self.count(|call| matches!(call, Call::Create(_)))
    }

    fn removals(&self) -> usize {
        self.count(|call| matches!(call, Call::Remove(_) | Call::RemoveChild { .. }))
    }

    fn moves(&self) -> usize {
        self.count(|call| matches!(call, Call::Before { .. } | Call::After { .. }))
    }

    fn tags_of_children(&self, element: u64) -> Vec<String> {
        self.children_of(element).iter().map(|child| self.nodes[*child as usize].tag.clone()).collect()
    }
}

/// A document in memory whose root, the node 0, is a `body`.
#[derive(Clone)]
struct FakeDom {
    state: Rc<RefCell<State>>,
}

impl FakeDom {
    fn new() -> Self {
        let mut state = State::default();
        state.nodes.push(FakeNode { tag: "body".to_string(), attached: true, ..FakeNode::default() });
        FakeDom { state: Rc::new(RefCell::new(state)) }
    }
}

impl DomBackend for FakeDom {
    fn create_element(&mut self, kind: &TagName) -> Result<ElementId, JsError> {
        let mut state = self.state.borrow_mut();
        state.calls.push(Call::Create(kind.as_ref().to_string()));
        if kind.as_ref().contains(' ') {
            return Err(JsError::new("invalid tag name".to_string()));
        }
        state.nodes.push(FakeNode { tag: kind.as_ref().to_string(), ..FakeNode::default() });
        Ok(ElementId::new(state.nodes.len() as u64 - 1))
    }

    fn append_child(&mut self, parent: ElementId, child: ElementId) -> Result<(), JsError> {
        let mut state = self.state.borrow_mut();
        state.calls.push(Call::Append { parent: parent.raw, child: child.raw });
        if state.refuse_appends {
            return Err(JsError::new("no room".to_string()));
        }
        state.detach(child.raw);
        state.nodes[parent.raw as usize].children.push(child.raw);
        state.nodes[child.raw as usize].parent = Some(parent.raw);
        state.nodes[child.raw as usize].attached = true;
        Ok(())
    }

    fn remove(&mut self, element: ElementId) -> ElementId {
        let mut state = self.state.borrow_mut();
        state.calls.push(Call::Remove(element.raw));
        state.detach(element.raw);
        state.nodes[element.raw as usize].attached = false;
        if state.misreport_removals {
            ElementId::new(element.raw + 1000)
        } else {
            element
        }
    }

    fn remove_child(&mut self, parent: ElementId, child: ElementId) -> Result<ElementId, JsError> {
        let mut state = self.state.borrow_mut();
        state.calls.push(Call::RemoveChild { parent: parent.raw, child: child.raw });
        if state.refuse_removals || state.nodes[child.raw as usize].parent != Some(parent.raw) {
            return Err(JsError::new("not a child".to_string()));
        }
        state.detach(child.raw);
        if state.misreport_removals {
            Ok(ElementId::new(child.raw + 1000))
        } else {
            Ok(child)
        }
    }

    fn before(&mut self, anchor: ElementId, moved: ElementId) -> Result<(), JsError> {
        let mut state = self.state.borrow_mut();
        state.calls.push(Call::Before { anchor: anchor.raw, moved: moved.raw });
        let parent = match state.nodes[anchor.raw as usize].parent {
            Some(parent) => parent,
            None => return Err(JsError::new("no parent".to_string())),
        };
        state.detach(moved.raw);
        let at = state.nodes[parent as usize].children.iter().position(|c| *c == anchor.raw).unwrap();
        state.nodes[parent as usize].children.insert(at, moved.raw);
        state.nodes[moved.raw as usize].parent = Some(parent);
        Ok(())
    }

    fn after(&mut self, anchor: ElementId, moved: ElementId) -> Result<(), JsError> {
        let mut state = self.state.borrow_mut();
        state.calls.push(Call::After { anchor: anchor.raw, moved: moved.raw });
        let parent = match state.nodes[anchor.raw as usize].parent {
            Some(parent) => parent,
            None => return Err(JsError::new("no parent".to_string())),
        };
        state.detach(moved.raw);
        let at = state.nodes[parent as usize].children.iter().position(|c| *c == anchor.raw).unwrap();
        state.nodes[parent as usize].children.insert(at + 1, moved.raw);
        state.nodes[moved.raw as usize].parent = Some(parent);
        Ok(())
    }

    fn replace_with(&mut self, element: ElementId, with: ElementId) -> Result<(), JsError> {
        let mut state = self.state.borrow_mut();
        state.calls.push(Call::Replace { element: element.raw, with: with.raw });
        let parent = match state.nodes[element.raw as usize].parent {
            Some(parent) => parent,
            None => return Err(JsError::new("no parent".to_string())),
        };
        state.detach(with.raw);
        let at = state.nodes[parent as usize].children.iter().position(|c| *c == element.raw).unwrap();
        state.nodes[parent as usize].children[at] = with.raw;
        state.nodes[with.raw as usize].parent = Some(parent);
        state.nodes[element.raw as usize].parent = None;
        Ok(())
    }

    fn child_nodes(&mut self, parent: ElementId) -> Vec<ElementId> {
        self.state.borrow().children_of(parent.raw).into_iter().map(ElementId::new).collect()
    }

    fn tag_name(&mut self, element: ElementId) -> TagName {
        TagName::new(&self.state.borrow().nodes[element.raw as usize].tag)
    }

    fn get_attribute(&mut self, element: ElementId, name: &AttributeName) -> Option<AttributeValue> {
        let state = self.state.borrow();
        state.nodes[element.raw as usize]
            .attributes
            .iter()
            .find(|(n, _)| n == name.as_ref())
            .map(|(_, v)| AttributeValue::new(v))
    }

    fn set_attribute(
        &mut self,
        element: ElementId,
        name: &AttributeName,
        value: &AttributeValue,
    ) -> Result<(), JsError> {
        let mut state = self.state.borrow_mut();
        state.calls.push(Call::SetAttribute {
            element: element.raw,
            name: name.as_ref().to_string(),
            value: value.as_ref().to_string(),
        });
        if state.refuse_attributes {
            return Err(JsError::new("refused".to_string()));
        }
        let attributes = &mut state.nodes[element.raw as usize].attributes;
        match attributes.iter_mut().find(|(n, _)| n == name.as_ref()) {
            Some(found) => found.1 = value.as_ref().to_string(),
            None => attributes.push((name.as_ref().to_string(), value.as_ref().to_string())),
        }
        Ok(())
    }

    fn remove_attribute(&mut self, element: ElementId, name: &AttributeName) -> Result<(), JsError> {
        let mut state = self.state.borrow_mut();
        state.calls.push(Call::RemoveAttribute {
            element: element.raw,
            name: name.as_ref().to_string(),
        });
        state.nodes[element.raw as usize].attributes.retain(|(n, _)| n != name.as_ref());
        Ok(())
    }

    fn text_content(&mut self, element: ElementId) -> Option<AttributeValue> {
        self.state.borrow().nodes[element.raw as usize].text.as_ref().map(|t| AttributeValue::new(t))
    }

    fn set_text_content(&mut self, element: ElementId, text: &Option<AttributeValue>) {
        let mut state = self.state.borrow_mut();
        let text = text.as_ref().map(|t| t.as_ref().to_string());
        state.calls.push(Call::SetText { element: element.raw, text: text.clone() });
        state.nodes[element.raw as usize].text = text;
    }

    fn input_value(&mut self, element: ElementId) -> Option<AttributeValue> {
        let state = self.state.borrow();
        let node = &state.nodes[element.raw as usize];
        if node.tag == "input" {
            Some(AttributeValue::new(&node.value))
        } else {
            None
        }
    }

    fn set_input_value(&mut self, element: ElementId, value: &AttributeValue) {
        let mut state = self.state.borrow_mut();
        state.calls.push(Call::SetInputValue {
            element: element.raw,
            value: value.as_ref().to_string(),
        });
        state.nodes[element.raw as usize].value = value.as_ref().to_string();
    }

    fn add_event_listener(
        &mut self,
        element: ElementId,
        name: &EventName,
        callback: KorvinClosure,
    ) -> Result<(), JsError> {
        let mut state = self.state.borrow_mut();
        state.calls.push(Call::AddListener {
            element: element.raw,
            name: name.as_ref().to_string(),
            callback: callback.hash,
            handle: callback.closure,
        });
        if state.refuse_listeners {
            return Err(JsError::new("deaf".to_string()));
        }
        state.nodes[element.raw as usize].listeners.push((name.as_ref().to_string(), callback.hash));
        Ok(())
    }

    fn remove_event_listener(
        &mut self,
        element: ElementId,
        name: &EventName,
        callback: KorvinClosure,
    ) -> Result<(), JsError> {
        let mut state = self.state.borrow_mut();
        state.calls.push(Call::RemoveListener {
            element: element.raw,
            name: name.as_ref().to_string(),
            callback: callback.hash,
            handle: callback.closure,
        });
        if state.refuse_listeners {
            return Err(JsError::new("deaf".to_string()));
        }
        state.nodes[element.raw as usize]
            .listeners
            .retain(|(n, c)| !(n == name.as_ref() && *c == callback.hash));
        Ok(())
    }

    fn active_element(&mut self) -> Option<ElementId> {
        self.state.borrow().focus.map(ElementId::new)
    }
}

struct Stage {
    state: Rc<RefCell<State>>,
    doc: LiveDocument<FakeDom>,
    executor: DomExecutor,
}

fn stage() -> Stage {
    let dom = FakeDom::new();
    let state = dom.state.clone();
    let mut doc = LiveDocument::new(dom);
    let executor = DomExecutor::new(&mut doc, ElementId::new(0));
    Stage { state, doc, executor }
}

impl Stage {
    fn pass(&mut self, recipe: ElementWithChildrenRecipe) -> Result<(), RuntimeError> {
        self.state.borrow_mut().calls.clear();
        self.executor.rebuild(&mut self.doc, recipe)
    }

    /// The snapshot of the tree that the last recipe described.
    fn app_handle(&self) -> ElementId {
        self.executor.executed.as_ref().unwrap().children[0].element.create.log.element_id
    }

    fn child_handles(&self) -> Vec<ElementId> {
        self.executor.executed.as_ref().unwrap().children[0]
            .children
            .iter()
            .map(|child| child.element.create.log.element_id)
            .collect()
    }
}

fn keyed(kind: &str, key: &str) -> ElementBuilder {
    kind.key(key)
}

fn list(keys: &[&str]) -> ElementWithChildrenRecipe {
    "ul".children(keys.iter().map(|key| keyed("li", key).text(*key)).collect()).build()
}

#[test]
fn the_root_is_taken_as_it_is() {
    let stage = stage();
    let root = stage.executor.executed.as_ref().unwrap();
    assert_eq!(root.element.key, None);
    assert_eq!(root.element.create.mutation.kind, TagName::new("body"));
    assert_eq!(root.element.create.log.element_id, ElementId::new(0));
    assert_eq!(root.element.finish.log.element_id, ElementId::new(0));
    assert!(root.element.modify.is_empty());
    assert!(root.children.is_empty());
    assert!(stage.state.borrow().calls.is_empty());
}

#[test]
fn the_first_pass_builds_the_tree_in_recipe_order() {
    let mut stage = stage();
    let recipe = "main"
        .attribute("class", "counter")
        .child("h3".text("Counter"))
        .child("button".text("Count").event("click", "mousedown", 1))
        .build();
    stage.pass(recipe).unwrap();
    let hash = calculate_hash(&"click");
    let calls = stage.state.borrow().calls.clone();
    assert_eq!(
        calls,
        vec![
            Call::Create("main".to_string()),
            Call::Append { parent: 0, child: 1 },
            Call::SetAttribute { element: 1, name: "class".to_string(), value: "counter".to_string() },
            Call::Create("h3".to_string()),
            Call::Append { parent: 1, child: 2 },
            Call::SetText { element: 2, text: Some("Counter".to_string()) },
            Call::Create("button".to_string()),
            Call::Append { parent: 1, child: 3 },
            Call::SetText { element: 3, text: Some("Count".to_string()) },
            Call::AddListener { element: 3, name: "mousedown".to_string(), callback: hash, handle: 1 },
        ]
    );
    assert_eq!(stage.state.borrow().tags_of_children(0), vec!["main"]);
    assert_eq!(stage.state.borrow().tags_of_children(1), vec!["h3", "button"]);
}

#[test]
fn a_second_pass_with_the_same_recipe_issues_nothing() {
    let mut stage = stage();
    let recipe = || {
        "main"
            .attribute("class", "counter")
            .child("input".input_value("3").event("typing", "input", 1))
            .child("p".text("three"))
            .build()
    };
    stage.pass(recipe()).unwrap();
    assert!(stage.state.borrow().writes() > 0);
    let handles = stage.child_handles();
    stage.pass(recipe()).unwrap();
    assert_eq!(stage.state.borrow().writes(), 0);
    assert!(stage.state.borrow().calls.is_empty());
    assert_eq!(stage.child_handles(), handles);
}

#[test]
fn reconciling_a_div_twice_creates_it_once() {
    let mut stage = stage();
    stage.pass("div".build()).unwrap();
    assert_eq!(stage.state.borrow().creations(), 1);
    let handle = stage.app_handle();
    stage.pass("div".build()).unwrap();
    assert_eq!(stage.state.borrow().creations(), 0);
    assert_eq!(stage.app_handle(), handle);
}

#[test]
fn swapping_two_keyed_children_is_one_move() {
    let mut stage = stage();
    stage.pass(list(&["1", "2"])).unwrap();
    let before = stage.child_handles();
    stage.pass(list(&["2", "1"])).unwrap();
    let after = stage.child_handles();
    assert_eq!(stage.state.borrow().moves(), 1);
    assert_eq!(stage.state.borrow().creations(), 0);
    assert_eq!(stage.state.borrow().removals(), 0);
    assert_eq!(after, vec![before[1], before[0]]);
    let list_handle = stage.app_handle();
    assert_eq!(
        stage.state.borrow().children_of(list_handle.raw),
        vec![before[1].raw, before[0].raw]
    );
    assert_eq!(
        stage.state.borrow().calls.clone(),
        vec![Call::Before { anchor: before[0].raw, moved: before[1].raw }]
    );
}

#[test]
fn a_keyed_child_keeps_its_node_when_its_siblings_change() {
    let mut stage = stage();
    stage.pass(list(&["a", "stable", "b"])).unwrap();
    let stable = stage.child_handles()[1];
    stage.pass(list(&["c", "d", "e", "stable"])).unwrap();
    assert_eq!(stage.child_handles()[3], stable);
    stage.pass(list(&["stable"])).unwrap();
    assert_eq!(stage.child_handles(), vec![stable]);
    let list_handle = stage.app_handle();
    assert_eq!(stage.state.borrow().children_of(list_handle.raw), vec![stable.raw]);
}

#[test]
fn an_attribute_that_is_no_longer_wanted_is_unset_once() {
    let mut stage = stage();
    stage.pass("div".attribute("class", "a").attribute("id", "x").build()).unwrap();
    let handle = stage.app_handle();
    stage.pass("div".attribute("id", "x").build()).unwrap();
    assert_eq!(
        stage.state.borrow().calls.clone(),
        vec![Call::RemoveAttribute { element: handle.raw, name: "class".to_string() }]
    );
    assert_eq!(stage.app_handle(), handle);
}

#[test]
fn an_attribute_with_a_new_value_is_set_once() {
    let mut stage = stage();
    stage.pass("div".attribute("class", "a").build()).unwrap();
    let handle = stage.app_handle();
    stage.pass("div".attribute("class", "b").build()).unwrap();
    assert_eq!(
        stage.state.borrow().calls.clone(),
        vec![Call::SetAttribute {
            element: handle.raw,
            name: "class".to_string(),
            value: "b".to_string()
        }]
    );
}

#[test]
fn the_pinned_node_is_never_the_one_that_moves() {
    for pinned_key in ["1", "2", "3", "4"] {
        let mut stage = stage();
        stage.pass(list(&["1", "2", "3", "4"])).unwrap();
        let handles = stage.child_handles();
        let pinned = handles[pinned_key.parse::<usize>().unwrap() - 1];
        stage.state.borrow_mut().focus = Some(pinned.raw);
        stage.pass(list(&["4", "3", "2", "1"])).unwrap();
        let state = stage.state.borrow();
        assert!(state.moves() > 0);
        for call in state.calls.iter() {
            match call {
                Call::Before { moved, .. } | Call::After { moved, .. } => {
                    assert_ne!(*moved, pinned.raw);
                }
                _ => {}
            }
        }
        let list_handle = stage.app_handle();
        assert_eq!(
            state.children_of(list_handle.raw),
            vec![handles[3].raw, handles[2].raw, handles[1].raw, handles[0].raw]
        );
        assert_eq!(
            stage.child_handles(),
            vec![handles[3], handles[2], handles[1], handles[0]]
        );
    }
}

#[test]
fn reversing_four_children_takes_six_moves() {
    let mut stage = stage();
    stage.pass(list(&["1", "2", "3", "4"])).unwrap();
    stage.pass(list(&["4", "3", "2", "1"])).unwrap();
    assert_eq!(stage.state.borrow().moves(), 6);
}

#[test]
fn shrinking_a_list_removes_one_child_per_pass() {
    let mut stage = stage();
    let keys = ["a", "b", "c", "d", "e"];
    stage.pass(list(&keys)).unwrap();
    let handles = stage.child_handles();
    for left in (0..5).rev() {
        stage.pass(list(&keys[..left])).unwrap();
        let state = stage.state.borrow();
        assert_eq!(state.removals(), 1);
        assert_eq!(state.creations(), 0);
        assert_eq!(state.moves(), 0);
        assert_eq!(state.count(|call| *call == Call::Remove(handles[left].raw)), 1);
        assert_eq!(
            state.calls.clone(),
            vec![
                Call::SetText { element: handles[left].raw, text: None },
                Call::Remove(handles[left].raw),
            ]
        );
        assert_eq!(stage.child_handles(), handles[..left].to_vec());
        let list_handle = stage.app_handle();
        assert_eq!(
            state.children_of(list_handle.raw),
            handles[..left].iter().map(|h| h.raw).collect::<Vec<_>>()
        );
        for kept in &handles[..left] {
            assert_eq!(
                state.nodes[kept.raw as usize].text.as_deref(),
                Some(keys[handles.iter().position(|h| h == kept).unwrap()])
            );
        }
    }
}

#[test]
fn a_removal_that_reports_another_node_fails_the_pass_and_poisons_the_executor() {
    let mut stage = stage();
    stage.pass(list(&["a", "b"])).unwrap();
    stage.state.borrow_mut().misreport_removals = true;
    let failed = stage.pass(list(&["a"]));
    assert!(matches!(
        failed,
        Err(RuntimeError::Mutation(MutationError::ElementUncreate(
            RawOperationError::ElementMismatch { .. }
        )))
    ));
    assert!(stage.executor.executed.is_none());
    stage.state.borrow_mut().misreport_removals = false;
    let again = stage.pass(list(&["a"]));
    assert!(matches!(again, Err(RuntimeError::RuntimeCrashedOnPreviousRedraw)));
    assert!(stage.state.borrow().calls.is_empty());
    assert!(stage.executor.executed.is_none());
}

#[test]
fn a_form_value_on_a_node_that_takes_none_fails_the_pass() {
    let mut stage = stage();
    let failed = stage.pass("div".input_value("1").build());
    assert!(matches!(
        failed,
        Err(RuntimeError::Mutation(MutationError::SetInputValue(
            RawOperationError::NotAnInputElement { .. }
        )))
    ));
    assert!(stage.executor.executed.is_none());
    assert!(matches!(
        stage.pass("div".build()),
        Err(RuntimeError::RuntimeCrashedOnPreviousRedraw)
    ));
}

#[test]
fn a_refused_operation_fails_the_pass_with_its_cause() {
    let mut stage = stage();
    stage.state.borrow_mut().refuse_attributes = true;
    let failed = stage.pass("div".attribute("class", "a").child("p").build());
    match failed {
        Err(RuntimeError::Mutation(MutationError::SetAttribute(
            RawOperationError::SetAttribute { attribute, value, source, .. },
        ))) => {
            assert_eq!(attribute, AttributeName::new("class"));
            assert_eq!(value, Some(AttributeValue::new("a")));
            assert_eq!(source.message, "refused");
        }
        other => panic!("unexpected result: {other:?}"),
    }
    assert_eq!(stage.state.borrow().creations(), 1);
}

#[test]
fn undoing_a_stale_mutation_that_fails_is_reported_as_such() {
    let mut stage = stage();
    stage.pass("div".attribute("class", "a").build()).unwrap();
    stage.pass("div".attribute("class", "b").build()).unwrap();
    stage.state.borrow_mut().refuse_attributes = true;
    let failed = stage.pass("div".build());
    assert!(matches!(
        failed,
        Err(RuntimeError::UndoingTrailingMutations(MutationError::UnsetAttribute(_)))
    ));
    assert!(stage.executor.executed.is_none());
}

#[test]
fn an_attribute_is_put_back_to_what_it_was_before_it_was_last_set() {
    let mut stage = stage();
    stage.pass("div".attribute("class", "a").build()).unwrap();
    let handle = stage.app_handle();
    stage.pass("div".attribute("class", "b").build()).unwrap();
    stage.pass("div".build()).unwrap();
    assert_eq!(
        stage.state.borrow().calls.clone(),
        vec![Call::SetAttribute {
            element: handle.raw,
            name: "class".to_string(),
            value: "a".to_string()
        }]
    );
}

#[test]
fn a_child_of_another_kind_is_taken_out_and_built_anew() {
    let mut stage = stage();
    stage.pass("div".child("p".text("old").child("b")).build()).unwrap();
    let old = stage.child_handles()[0];
    stage.pass("div".child("span".text("new")).build()).unwrap();
    let new = stage.child_handles()[0];
    assert_ne!(old, new);
    let app = stage.app_handle();
    assert_eq!(
        stage.state.borrow().calls.clone(),
        vec![
            Call::Create("span".to_string()),
            Call::Append { parent: app.raw, child: new.raw },
            Call::SetText { element: new.raw, text: Some("new".to_string()) },
            Call::SetText { element: old.raw, text: None },
            Call::Remove(old.raw + 1),
            Call::Remove(old.raw),
        ]
    );
    assert_eq!(stage.state.borrow().children_of(app.raw), vec![new.raw]);
}

#[test]
fn children_with_the_same_key_pair_first_with_first() {
    let mut stage = stage();
    stage.pass(list(&["x", "y", "x", "x"])).unwrap();
    let old = stage.child_handles();
    stage.pass(list(&["x", "x", "y"])).unwrap();
    let new = stage.child_handles();
    assert_eq!(new, vec![old[0], old[2], old[1]]);
    assert_eq!(stage.state.borrow().removals(), 1);
    assert_eq!(stage.state.borrow().count(|call| *call == Call::Remove(old[3].raw)), 1);
    let list_handle = stage.app_handle();
    assert_eq!(
        stage.state.borrow().children_of(list_handle.raw),
        vec![old[0].raw, old[2].raw, old[1].raw]
    );
}

#[test]
fn more_new_children_than_old_ones_with_a_key_builds_the_rest() {
    let mut stage = stage();
    stage.pass(list(&["x", "y"])).unwrap();
    let old = stage.child_handles();
    stage.pass(list(&["x", "x", "y", "x"])).unwrap();
    let new = stage.child_handles();
    assert_eq!(new[0], old[0]);
    assert_eq!(new[2], old[1]);
    assert_eq!(stage.state.borrow().creations(), 2);
    assert_eq!(stage.state.borrow().removals(), 0);
    let list_handle = stage.app_handle();
    assert_eq!(
        stage.state.borrow().children_of(list_handle.raw),
        new.iter().map(|h| h.raw).collect::<Vec<_>>()
    );
}

#[test]
fn a_listener_is_registered_once_and_taken_off_when_it_is_gone() {
    let mut stage = stage();
    stage.pass("button".event("save", "click", 1).build()).unwrap();
    let handle = stage.app_handle();
    let hash = calculate_hash(&"save");
    stage.pass("button".event("save", "click", 2).build()).unwrap();
    assert!(stage.state.borrow().calls.is_empty());
    stage.pass("button".build()).unwrap();
    assert_eq!(
        stage.state.borrow().calls.clone(),
        vec![Call::RemoveListener {
            element: handle.raw,
            name: "click".to_string(),
            callback: hash,
            handle: 1
        }]
    );
    assert!(stage.state.borrow().nodes[handle.raw as usize].listeners.is_empty());
}

#[test]
fn the_focus_is_read_once_per_pass_and_a_new_child_is_put_in_its_place() {
    let mut stage = stage();
    stage.pass(list(&["a", "c"])).unwrap();
    let old = stage.child_handles();
    stage.state.borrow_mut().focus = Some(old[1].raw);
    stage.pass(list(&["a", "b", "c"])).unwrap();
    let new = stage.child_handles();
    assert_eq!(new[0], old[0]);
    assert_eq!(new[2], old[1]);
    let list_handle = stage.app_handle();
    assert_eq!(
        stage.state.borrow().children_of(list_handle.raw),
        vec![new[0].raw, new[1].raw, new[2].raw]
    );
    assert_eq!(
        stage.state.borrow().count(|call| matches!(call, Call::Before { moved, .. } | Call::After { moved, .. } if *moved == old[1].raw)),
        0
    );
    assert_eq!(stage.state.borrow().moves(), 1);
}

fn document() -> (Rc<RefCell<State>>, LiveDocument<FakeDom>) {
    let dom = FakeDom::new();
    let state = dom.state.clone();
    (state, LiveDocument::new(dom))
}

const ROOT: ElementId = ElementId { raw: 0 };

#[test]
fn raw_creation_and_insertion() {
    let (state, mut doc) = document();
    let made = raw_operations::create_element(&mut doc, TagName::new("div")).unwrap();
    assert_eq!(made, ElementId::new(1));
    assert!(state.borrow().children_of(0).is_empty());
    assert_eq!(raw_operations::insert_element(&mut doc, made, ROOT).unwrap(), made);
    assert_eq!(state.borrow().children_of(0), vec![1]);
    match raw_operations::create_element(&mut doc, TagName::new("not a tag")) {
        Err(RawOperationError::CreatingElement { kind, source }) => {
            assert_eq!(kind, TagName::new("not a tag"));
            assert_eq!(source.message, "invalid tag name");
        }
        other => panic!("unexpected result: {other:?}"),
    }
}

#[test]
fn raw_attributes_answer_the_value_they_replace() {
    let (state, mut doc) = document();
    let name = || AttributeName::new("class");
    let set = |doc: &mut LiveDocument<FakeDom>, value: Option<&str>| {
        raw_operations::set_attribute(doc, ROOT, name(), value.map(AttributeValue::new)).unwrap()
    };
    assert_eq!(set(&mut doc, Some("a")), (name(), None));
    assert_eq!(set(&mut doc, Some("b")), (name(), Some(AttributeValue::new("a"))));
    assert_eq!(set(&mut doc, None), (name(), Some(AttributeValue::new("b"))));
    assert_eq!(set(&mut doc, None), (name(), None));
    assert_eq!(
        state.borrow().calls.clone(),
        vec![
            Call::SetAttribute { element: 0, name: "class".to_string(), value: "a".to_string() },
            Call::SetAttribute { element: 0, name: "class".to_string(), value: "b".to_string() },
            Call::RemoveAttribute { element: 0, name: "class".to_string() },
            Call::RemoveAttribute { element: 0, name: "class".to_string() },
        ]
    );
}

#[test]
fn raw_text_answers_the_text_it_replaces() {
    let (state, mut doc) = document();
    assert_eq!(raw_operations::set_text(&mut doc, ROOT, Some(AttributeValue::new("a"))), None);
    assert_eq!(
        raw_operations::set_text(&mut doc, ROOT, Some(AttributeValue::new("b"))),
        Some(AttributeValue::new("a"))
    );
    assert_eq!(raw_operations::unset_text(&mut doc, ROOT), Some(AttributeValue::new("b")));
    assert_eq!(raw_operations::set_text(&mut doc, ROOT, None), None);
    assert_eq!(state.borrow().nodes[0].text, None);
}

#[test]
fn raw_form_values_need_a_node_that_takes_them() {
    let (state, mut doc) = document();
    let input = raw_operations::create_element(&mut doc, TagName::new("input")).unwrap();
    assert_eq!(
        raw_operations::set_input_value(&mut doc, input, AttributeValue::new("1")).unwrap(),
        AttributeValue::new("")
    );
    assert_eq!(
        raw_operations::set_input_value(&mut doc, input, AttributeValue::new("2")).unwrap(),
        AttributeValue::new("1")
    );
    assert!(matches!(
        raw_operations::set_input_value(&mut doc, ROOT, AttributeValue::new("3")),
        Err(RawOperationError::NotAnInputElement { .. })
    ));
    assert_eq!(state.borrow().nodes[0].value, "");
    assert_eq!(state.borrow().count(|call| matches!(call, Call::SetInputValue { .. })), 2);
}

#[test]
fn raw_removal_checks_which_node_left() {
    let (state, mut doc) = document();
    let a = raw_operations::create_element(&mut doc, TagName::new("a")).unwrap();
    let b = raw_operations::create_element(&mut doc, TagName::new("b")).unwrap();
    raw_operations::insert_element(&mut doc, a, ROOT).unwrap();
    raw_operations::insert_element(&mut doc, b, ROOT).unwrap();
    assert_eq!(raw_operations::remove_element_in_place(&mut doc, a).unwrap().unpack(), a);
    assert_eq!(state.borrow().children_of(0), vec![b.raw]);
    assert_eq!(raw_operations::remove_element(&mut doc, ROOT, b).unwrap(), b);
    assert!(state.borrow().children_of(0).is_empty());
    assert!(matches!(
        raw_operations::remove_element(&mut doc, ROOT, b),
        Err(RawOperationError::RemoveElement { .. })
    ));
    raw_operations::insert_element(&mut doc, a, ROOT).unwrap();
    raw_operations::insert_element(&mut doc, b, ROOT).unwrap();
    state.borrow_mut().misreport_removals = true;
    assert!(matches!(
        raw_operations::remove_element_in_place(&mut doc, a),
        Err(RawOperationError::ElementMismatch { .. })
    ));
    assert!(matches!(
        raw_operations::remove_element(&mut doc, ROOT, b),
        Err(RawOperationError::ElementMismatch { .. })
    ));
    assert_eq!(raw_operations::confirm_removed(a, a).unwrap().unpack(), a);
    assert!(matches!(
        raw_operations::confirm_removed(a, b),
        Err(RawOperationError::ElementMismatch { .. })
    ));
    assert!(matches!(raw_operations::removal_outcome(ROOT, a, Ok(a)), Ok(left) if left == a));
    assert!(matches!(
        raw_operations::removal_outcome(ROOT, a, Ok(b)),
        Err(RawOperationError::ElementMismatch { .. })
    ));
    assert!(matches!(
        raw_operations::removal_outcome(ROOT, a, Err(JsError::new("gone".to_string()))),
        Err(RawOperationError::RemoveElement { source, .. }) if source.message == "gone"
    ));
}

#[test]
fn raw_moves_put_a_node_before_or_behind_another() {
    let (state, mut doc) = document();
    let mut made = Vec::new();
    for kind in ["a", "b", "c"] {
        let node = raw_operations::create_element(&mut doc, TagName::new(kind)).unwrap();
        raw_operations::insert_element(&mut doc, node, ROOT).unwrap();
        made.push(node);
    }
    raw_operations::swap_siblings(&mut doc, made[0], made[2]).unwrap();
    assert_eq!(state.borrow().tags_of_children(0), vec!["c", "a", "b"]);
    raw_operations::swap_siblings_behind(&mut doc, made[1], made[2]).unwrap();
    assert_eq!(state.borrow().tags_of_children(0), vec!["a", "b", "c"]);
    let orphan = raw_operations::create_element(&mut doc, TagName::new("d")).unwrap();
    assert!(matches!(
        raw_operations::swap_siblings(&mut doc, orphan, made[0]),
        Err(RawOperationError::SwappingElements { .. })
    ));
    assert!(matches!(
        raw_operations::swap_siblings_behind(&mut doc, orphan, made[0]),
        Err(RawOperationError::SwappingElements { .. })
    ));
    assert_eq!(raw_operations::replace_element(&mut doc, made[1], orphan).unwrap(), orphan);
    assert_eq!(state.borrow().tags_of_children(0), vec!["a", "d", "c"]);
    assert!(matches!(
        raw_operations::replace_element(&mut doc, made[1], made[0]),
        Err(RawOperationError::SwappingElements { .. })
    ));
}

#[test]
fn raw_reparenting_keeps_the_order_of_the_children() {
    let (state, mut doc) = document();
    let from = raw_operations::create_element(&mut doc, TagName::new("from")).unwrap();
    let to = raw_operations::create_element(&mut doc, TagName::new("to")).unwrap();
    let mut made = Vec::new();
    for kind in ["a", "b", "c"] {
        let node = raw_operations::create_element(&mut doc, TagName::new(kind)).unwrap();
        raw_operations::insert_element(&mut doc, node, from).unwrap();
        made.push(node);
    }
    let first = raw_operations::create_element(&mut doc, TagName::new("first")).unwrap();
    raw_operations::insert_element(&mut doc, first, to).unwrap();
    assert_eq!(raw_operations::pick_up_children(&mut doc, from).unwrap(), made);
    assert!(state.borrow().children_of(from.raw).is_empty());
    raw_operations::place_children(&mut doc, from, made.clone()).unwrap();
    assert_eq!(state.borrow().tags_of_children(from.raw), vec!["a", "b", "c"]);
    raw_operations::reparent_all(&mut doc, from, to).unwrap();
    assert!(state.borrow().children_of(from.raw).is_empty());
    assert_eq!(state.borrow().tags_of_children(to.raw), vec!["first", "a", "b", "c"]);
    assert_eq!(raw_operations::pick_up_children(&mut doc, from).unwrap(), Vec::<ElementId>::new());
}

#[test]
fn raw_listeners_are_handed_back() {
    let (state, mut doc) = document();
    let listener = || EventListenerWrapper {
        name: EventName::new("click"),
        closure: KorvinClosure { hash: 5, closure: 50 },
    };
    assert_eq!(raw_operations::add_event_listener(&mut doc, ROOT, listener()).unwrap(), listener());
    assert_eq!(state.borrow().nodes[0].listeners, vec![("click".to_string(), 5)]);
    assert_eq!(
        raw_operations::remove_event_listener(&mut doc, ROOT, listener()).unwrap(),
        listener()
    );
    assert!(state.borrow().nodes[0].listeners.is_empty());
}

#[test]
fn reading_issues_nothing() {
    let (state, mut doc) = document();
    assert_eq!(doc.tag_name(ROOT), TagName::new("body"));
    assert_eq!(doc.active_element(), None);
    state.borrow_mut().focus = Some(0);
    assert_eq!(doc.active_element(), Some(ROOT));
    assert!(state.borrow().calls.is_empty());
    assert!(doc.backend().state.borrow().calls.is_empty());
    let dom = doc.into_backend();
    assert_eq!(dom.state.borrow().nodes.len(), 1);
}

#[test]
fn a_creation_is_undone_by_a_removal() {
    let (state, mut doc) = document();
    let create = ElementCreateMutation { kind: TagName::new("div") };
    let log = create.perform(&mut doc, ROOT).unwrap();
    assert_eq!(log.kind, TagName::new("div"));
    assert_eq!(log.element_id, ElementId::new(1));
    assert_eq!(state.borrow().children_of(0), vec![1]);
    let undo = log.revert();
    assert_eq!(undo.kind, TagName::new("div"));
    let undone = undo.perform(&mut doc, log.element_id).unwrap();
    assert!(state.borrow().children_of(0).is_empty());
    assert_eq!(undone.revert(), create);
    assert!(matches!(
        ElementCreateMutation { kind: TagName::new("no tag") }.perform(&mut doc, ROOT),
        Err(MutationError::ElementCreate(RawOperationError::CreatingElement { .. }))
    ));
    state.borrow_mut().misreport_removals = true;
    assert!(matches!(
        undo.perform(&mut doc, log.element_id),
        Err(MutationError::ElementUncreate(RawOperationError::ElementMismatch { .. }))
    ));
}

#[test]
fn a_finish_issues_nothing_and_names_its_node() {
    let (state, mut doc) = document();
    let log = ElementFinishMutation {}.perform(&mut doc, ElementId::new(9)).unwrap();
    assert_eq!(log.element_id, ElementId::new(9));
    let undo = log.revert();
    assert_eq!(undo.element_id, ElementId::new(9));
    let undone = undo.perform(&mut doc, ElementId::new(9)).unwrap();
    assert_eq!(undone.revert(), ElementFinishMutation {});
    assert!(state.borrow().calls.is_empty());
}

#[test]
fn a_modify_mutation_is_undone_by_putting_back_what_was() {
    let (state, mut doc) = document();
    let input = raw_operations::create_element(&mut doc, TagName::new("input")).unwrap();
    let first = ElementSetAttributeMutation {
        attribute: AttributeName::new("class"),
        value: Some(AttributeValue::new("a")),
    };
    let second = ElementSetAttributeMutation {
        attribute: AttributeName::new("class"),
        value: Some(AttributeValue::new("b")),
    };
    let first_log = first.perform(&mut doc, input).unwrap();
    assert_eq!(first_log.attribute, AttributeName::new("class"));
    assert_eq!(first_log.previous_value, None);
    let second_log = second.perform(&mut doc, input).unwrap();
    assert_eq!(second_log.previous_value, Some(AttributeValue::new("a")));
    let undo = second_log.revert();
    assert_eq!(undo.previous_value, Some(AttributeValue::new("a")));
    let undone = undo.perform(&mut doc, input).unwrap();
    assert_eq!(undone.previous_value, Some(AttributeValue::new("b")));
    assert_eq!(undone.revert(), second);
    first_log.revert().perform(&mut doc, input).unwrap();
    assert!(state.borrow().nodes[input.raw as usize].attributes.is_empty());

    let text = ElementSetTextMutation { value: Some(AttributeValue::new("t")) };
    let text_log = text.perform(&mut doc, input).unwrap();
    assert_eq!(text_log.previous_value, None);
    let text_undone = text_log.revert().perform(&mut doc, input).unwrap();
    assert_eq!(text_undone.previous_value, Some(AttributeValue::new("t")));
    assert_eq!(text_undone.revert(), text);
    assert_eq!(state.borrow().nodes[input.raw as usize].text, None);

    let value = ElementSetInputValueMutation { value: AttributeValue::new("1") };
    let value_log = value.perform(&mut doc, input).unwrap();
    assert_eq!(value_log.previous_value, AttributeValue::new(""));
    let value_undone = value_log.revert().perform(&mut doc, input).unwrap();
    assert_eq!(value_undone.previous_value, AttributeValue::new("1"));
    assert_eq!(value_undone.revert(), value);
    assert!(matches!(
        value.perform(&mut doc, ROOT),
        Err(MutationError::SetInputValue(RawOperationError::NotAnInputElement { .. }))
    ));

    let listen = ElementAddEventListenerMutation {
        listener: EventListenerWrapper {
            name: EventName::new("click"),
            closure: KorvinClosure { hash: 3, closure: 30 },
        },
    };
    let listen_log = listen.perform(&mut doc, input).unwrap();
    assert_eq!(listen_log.listener, listen.listener);
    let unlisten = listen_log.revert();
    let unlistened = unlisten.perform(&mut doc, input).unwrap();
    assert_eq!(unlistened.revert(), listen);
    assert!(state.borrow().nodes[input.raw as usize].listeners.is_empty());
}

#[test]
fn mutations_are_performed_through_every_layer_of_the_catalog() {
    let (state, mut doc) = document();
    let set = ElementSetTextMutation { value: Some(AttributeValue::new("t")) };
    let wrapped: Mutation = set.clone().to_mutation();
    let log: MutationLog = wrapped.perform(&mut doc, ROOT).unwrap();
    assert_eq!(state.borrow().nodes[0].text.as_deref(), Some("t"));
    let undo: Mutation = log.revert();
    assert!(matches!(&undo, Mutation::Element(ElementMutation::Cleanup(_))));
    let undone = undo.perform(&mut doc, ROOT).unwrap();
    assert_eq!(state.borrow().nodes[0].text, None);
    assert!(matches!(&undone, MutationLog::Element(ElementMutationLog::Cleanup(_))));
    let again = undone.revert();
    assert!(matches!(&again, Mutation::Element(ElementMutation::Builder(_))));
    again.perform(&mut doc, ROOT).unwrap();
    assert_eq!(state.borrow().nodes[0].text.as_deref(), Some("t"));

    let modify = ElementBuilderModifyMutation::SetText(set);
    let modify_log = modify.perform(&mut doc, ROOT).unwrap();
    let cleanup = modify_log.revert();
    assert!(matches!(&cleanup, ElementCleanupModifyMutation::UnsetText(inner)
        if inner.previous_value == Some(AttributeValue::new("t"))));
    let create = ElementCreateMutation { kind: TagName::new("p") };
    let create_log = create.clone().to_mutation().perform(&mut doc, ROOT).unwrap();
    let log_as_mutation_log = create_log.to_mutation_log();
    assert!(matches!(&log_as_mutation_log, MutationLog::Element(ElementMutationLog::Builder(_))));
}

fn built(doc: &mut LiveDocument<FakeDom>, recipe: ElementWithChildrenRecipe) -> korvin_core::dom_executor::ElementWithChildrenSnapshot {
    build_new_child(doc, ROOT, &recipe).unwrap()
}

#[test]
fn children_that_stand_in_order_are_left_alone() {
    let (state, mut doc) = document();
    let a = built(&mut doc, "a".build());
    let b = built(&mut doc, "b".build());
    let c = built(&mut doc, "c".build());
    state.borrow_mut().calls.clear();
    let ordered = SortableChildren { do_not_move: None, children: vec![(0, a), (3, b), (3, c)] }
        .ordered(&mut doc)
        .unwrap();
    let kinds: Vec<&str> = ordered.iter().map(|s| s.element.create.mutation.kind.as_ref()).collect();
    assert_eq!(kinds, vec!["a", "b", "c"]);
    assert!(state.borrow().calls.is_empty());
    assert!(SortableChildren { do_not_move: None, children: vec![] }.ordered(&mut doc).unwrap().is_empty());
}

#[test]
fn children_are_sorted_by_target_and_equal_targets_keep_their_order() {
    let (state, mut doc) = document();
    let children: Vec<_> = ["a", "b", "c", "d"].iter().map(|kind| built(&mut doc, kind.build())).collect();
    let handles: Vec<u64> = children.iter().map(|s| s.element.create.log.element_id.raw).collect();
    state.borrow_mut().calls.clear();
    let mut children = children.into_iter();
    let tagged = vec![
        (2, children.next().unwrap()),
        (1, children.next().unwrap()),
        (2, children.next().unwrap()),
        (0, children.next().unwrap()),
    ];
    let ordered = SortableChildren { do_not_move: None, children: tagged }.ordered(&mut doc).unwrap();
    let kinds: Vec<&str> = ordered.iter().map(|s| s.element.create.mutation.kind.as_ref()).collect();
    assert_eq!(kinds, vec!["d", "b", "a", "c"]);
    assert_eq!(state.borrow().tags_of_children(0), vec!["d", "b", "a", "c"]);
    assert_eq!(
        state.borrow().calls.clone(),
        vec![
            Call::Before { anchor: handles[0], moved: handles[1] },
            Call::Before { anchor: handles[2], moved: handles[3] },
            Call::Before { anchor: handles[0], moved: handles[3] },
            Call::Before { anchor: handles[1], moved: handles[3] },
        ]
    );
}

#[test]
fn a_pinned_neighbour_is_passed_by_the_other() {
    let (state, mut doc) = document();
    let a = built(&mut doc, "a".build());
    let b = built(&mut doc, "b".build());
    let (ha, hb) = (a.element.create.log.element_id, b.element.create.log.element_id);
    state.borrow_mut().calls.clear();
    let ordered = SortableChildren { do_not_move: Some(hb), children: vec![(1, a), (0, b)] }
        .ordered(&mut doc)
        .unwrap();
    assert_eq!(ordered[0].element.create.log.element_id, hb);
    assert_eq!(state.borrow().calls.clone(), vec![Call::After { anchor: hb.raw, moved: ha.raw }]);
    assert_eq!(state.borrow().tags_of_children(0), vec!["b", "a"]);

    state.borrow_mut().calls.clear();
    let mut back = ordered.into_iter();
    let (b, a) = (back.next().unwrap(), back.next().unwrap());
    SortableChildren { do_not_move: Some(hb), children: vec![(1, b), (0, a)] }
        .ordered(&mut doc)
        .unwrap();
    assert_eq!(state.borrow().calls.clone(), vec![Call::Before { anchor: hb.raw, moved: ha.raw }]);
    assert_eq!(state.borrow().tags_of_children(0), vec!["a", "b"]);
}

#[test]
fn a_move_that_fails_is_reported_as_reparenting() {
    let (_state, mut doc) = document();
    let a = build_new_child(&mut doc, ROOT, &"a".build()).unwrap();
    let b = build_new_child(&mut doc, ROOT, &"b".build()).unwrap();
    raw_operations::remove_element_in_place(&mut doc, a.element.create.log.element_id).unwrap();
    let failed = SortableChildren { do_not_move: None, children: vec![(1, a), (0, b)] }.ordered(&mut doc);
    assert!(matches!(
        failed,
        Err(RuntimeError::Reparenting { source: RawOperationError::SwappingElements { .. } })
    ));
}

#[test]
fn a_subtree_is_taken_out_from_the_inside() {
    let (state, mut doc) = document();
    let tree = built(
        &mut doc,
        "div"
            .attribute("class", "a")
            .text("t")
            .child("p".event("k", "click", 1).child("b"))
            .child("input".input_value("1"))
            .build(),
    );
    state.borrow_mut().calls.clear();
    teardown(&mut doc, &tree).unwrap();
    let hash = calculate_hash(&"k");
    assert_eq!(
        state.borrow().calls.clone(),
        vec![
            Call::RemoveAttribute { element: 1, name: "class".to_string() },
            Call::SetText { element: 1, text: None },
            Call::RemoveListener { element: 2, name: "click".to_string(), callback: hash, handle: 1 },
            Call::Remove(3),
            Call::Remove(2),
            Call::SetInputValue { element: 4, value: "".to_string() },
            Call::Remove(4),
            Call::Remove(1),
        ]
    );
    assert!(state.borrow().children_of(0).is_empty());
}

#[test]
fn a_teardown_stops_at_the_removal_that_fails() {
    let (state, mut doc) = document();
    let tree = built(&mut doc, "div".child("p").child("b").build());
    state.borrow_mut().calls.clear();
    state.borrow_mut().misreport_removals = true;
    let failed = teardown(&mut doc, &tree);
    assert!(matches!(
        failed,
        Err(RuntimeError::Mutation(MutationError::ElementUncreate(
            RawOperationError::ElementMismatch { .. }
        )))
    ));
    assert_eq!(state.borrow().calls.clone(), vec![Call::Remove(2)]);
}

#[test]
fn a_build_stops_at_the_operation_that_fails() {
    let (state, mut doc) = document();
    let failed = build_new_child(
        &mut doc,
        ROOT,
        &"div".child("p").child("no tag").child("b").build(),
    );
    assert!(matches!(
        failed,
        Err(RuntimeError::Mutation(MutationError::ElementCreate(
            RawOperationError::CreatingElement { .. }
        )))
    ));
    assert_eq!(state.borrow().creations(), 3);
    assert_eq!(state.borrow().tags_of_children(1), vec!["p"]);
}

#[test]
fn a_built_snapshot_records_what_the_recipe_asked_for() {
    let (_state, mut doc) = document();
    let snapshot = built(
        &mut doc,
        "div".key("k").attribute("class", "a").text("t").child("p").child("b".text("bold")).build(),
    );
    assert_eq!(snapshot.element.key, Some(calculate_hash(&"k")));
    assert_eq!(snapshot.element.create.mutation.kind, TagName::new("div"));
    assert_eq!(snapshot.element.create.log.kind, TagName::new("div"));
    assert_eq!(snapshot.element.finish.log.element_id, snapshot.element.create.log.element_id);
    assert_eq!(snapshot.element.modify.len(), 2);
    assert!(matches!(&snapshot.element.modify[0].mutation,
        ElementBuilderModifyMutation::SetAttribute(inner) if inner.attribute == AttributeName::new("class")));
    assert!(matches!(&snapshot.element.modify[1].mutation, ElementBuilderModifyMutation::SetText(_)));
    assert_eq!(snapshot.children.len(), 2);
    assert_eq!(snapshot.children[0].element.create.mutation.kind, TagName::new("p"));
    assert_eq!(snapshot.children[1].element.create.mutation.kind, TagName::new("b"));
    assert_eq!(snapshot.children[1].element.modify.len(), 1);
}

#[test]
fn children_are_reconciled_on_their_own() {
    let (state, mut doc) = document();
    let parent = raw_operations::create_element(&mut doc, TagName::new("ul")).unwrap();
    let old = rebuild_children(
        &mut doc,
        parent,
        Vec::new(),
        &list(&["a", "b", "c"]).children,
        None,
    )
    .unwrap();
    let handles: Vec<ElementId> = old.iter().map(|s| s.element.create.log.element_id).collect();
    state.borrow_mut().calls.clear();
    let new = rebuild_children(&mut doc, parent, old, &list(&["c", "x", "a"]).children, None).unwrap();
    let new_handles: Vec<ElementId> = new.iter().map(|s| s.element.create.log.element_id).collect();
    assert_eq!(new_handles[0], handles[2]);
    assert_eq!(new_handles[2], handles[0]);
    assert!(!handles.contains(&new_handles[1]));
    assert_eq!(
        state.borrow().children_of(parent.raw),
        new_handles.iter().map(|h| h.raw).collect::<Vec<_>>()
    );
    assert_eq!(state.borrow().creations(), 1);
    assert_eq!(state.borrow().removals(), 1);
    assert_eq!(state.borrow().count(|call| *call == Call::Remove(handles[1].raw)), 1);
}

#[test]
fn the_runtime_knows_its_root_until_a_pass_fails() {
    let dom = FakeDom::new();
    let state = dom.state.clone();
    let mut runtime = Runtime::new(dom, ROOT);
    assert_eq!(*runtime.root_element(), ROOT);
    assert_eq!(runtime.try_root_element(), Some(ROOT));
    runtime.rebuild("div".child("p").build()).unwrap();
    assert_eq!(state.borrow().tags_of_children(0), vec!["div"]);
    assert_eq!(*runtime.root_element(), ROOT);
    assert!(runtime.rebuild("div".input_value("x").build()).is_err());
    assert_eq!(runtime.try_root_element(), None);
    assert!(matches!(
        runtime.rebuild("div".build()),
        Err(RuntimeError::RuntimeCrashedOnPreviousRedraw)
    ));
}

#[test]
fn a_pass_with_a_pin_given_by_hand_spares_it() {
    let mut stage = stage();
    stage.pass(list(&["1", "2", "3"])).unwrap();
    let handles = stage.child_handles();
    stage.state.borrow_mut().calls.clear();
    stage
        .executor
        .rebuild_pinned(&mut stage.doc, list(&["3", "1", "2"]), Some(handles[2]))
        .unwrap();
    let state = stage.state.borrow();
    assert_eq!(
        state.calls.clone(),
        vec![
            Call::After { anchor: handles[2].raw, moved: handles[1].raw },
            Call::After { anchor: handles[2].raw, moved: handles[0].raw },
        ]
    );
    let list_handle = stage.app_handle();
    assert_eq!(
        state.children_of(list_handle.raw),
        vec![handles[2].raw, handles[0].raw, handles[1].raw]
    );
}

#[test]
fn a_listener_with_another_key_replaces_the_one_that_was() {
    let mut stage = stage();
    stage.pass("button".event("save", "click", 1).build()).unwrap();
    let handle = stage.app_handle();
    stage.pass("button".event("load", "click", 2).build()).unwrap();
    assert_eq!(
        stage.state.borrow().calls.clone(),
        vec![
            Call::RemoveListener {
                element: handle.raw,
                name: "click".to_string(),
                callback: calculate_hash(&"save"),
                handle: 1
            },
            Call::AddListener {
                element: handle.raw,
                name: "click".to_string(),
                callback: calculate_hash(&"load"),
                handle: 2
            },
        ]
    );
}

#[test]
fn an_empty_tree_is_rebuilt_many_times() {
    let mut stage = stage();
    for pass in 0..3 {
        stage.pass(ElementBuilder::builder("div").build()).unwrap();
        assert_eq!(stage.state.borrow().creations(), if pass == 0 { 1 } else { 0 });
        assert_eq!(stage.state.borrow().tags_of_children(0), vec!["div"]);
    }
}

#[test]
fn a_nested_tree_is_rebuilt_many_times() {
    let mut stage = stage();
    for pass in 0..3 {
        stage.pass("nested".child("child".child("grandchild")).child("sibling").build()).unwrap();
        let state = stage.state.borrow();
        assert_eq!(state.calls.is_empty(), pass > 0);
        assert_eq!(state.tags_of_children(0), vec!["nested"]);
        assert_eq!(state.tags_of_children(1), vec!["child", "sibling"]);
        assert_eq!(state.tags_of_children(2), vec!["grandchild"]);
    }
}

#[test]
fn a_text_that_changes_is_set_once_per_pass() {
    let mut stage = stage();
    for pass in 0..3 {
        let text = format!("child redraw number {pass}");
        stage.pass("mutable_text_app".text(text.as_str()).build()).unwrap();
        let state = stage.state.borrow();
        assert_eq!(state.nodes[1].text.as_deref(), Some(text.as_str()));
        assert_eq!(state.count(|call| matches!(call, Call::SetText { .. })), 1);
        assert_eq!(state.writes(), 1);
    }
}

#[test]
fn children_without_keys_grow_and_shrink_at_the_end() {
    let mut stage = stage();
    let app = |count: usize| {
        "list"
            .children(
                (0..count)
                    .map(|id| "div".attribute("style", "color: red;").text(format!("child {id}").as_str()))
                    .collect(),
            )
            .build()
    };
    let mut known: Vec<ElementId> = Vec::new();
    stage.pass(app(0)).unwrap();
    for count in [0, 1, 2, 3, 5, 4, 2, 0, 3] {
        stage.pass(app(count)).unwrap();
        let handles = stage.child_handles();
        assert_eq!(handles.len(), count);
        let kept = count.min(known.len());
        assert_eq!(handles[..kept], known[..kept]);
        let state = stage.state.borrow();
        assert_eq!(state.creations(), count.saturating_sub(known.len()));
        assert_eq!(state.removals(), known.len().saturating_sub(count));
        assert_eq!(state.moves(), 0);
        let list_handle = stage.app_handle();
        let texts: Vec<String> = state
            .children_of(list_handle.raw)
            .iter()
            .map(|child| state.nodes[*child as usize].text.clone().unwrap())
            .collect();
        assert_eq!(texts, (0..count).map(|id| format!("child {id}")).collect::<Vec<_>>());
        drop(state);
        known = handles;
    }
}

#[test]
fn a_node_that_cannot_be_attached_fails_the_creation() {
    let (state, mut doc) = document();
    state.borrow_mut().refuse_appends = true;
    assert!(matches!(
        raw_operations::insert_element(&mut doc, ElementId::new(0), ROOT),
        Err(RawOperationError::InsertElement { source, .. }) if source.message == "no room"
    ));
    let failed = ElementCreateMutation { kind: TagName::new("div") }.perform(&mut doc, ROOT);
    assert!(matches!(
        failed,
        Err(MutationError::ElementCreate(RawOperationError::InsertElement { .. }))
    ));
    assert!(matches!(
        raw_operations::place_children(&mut doc, ROOT, vec![ElementId::new(1)]),
        Err(RawOperationError::InsertingChildren { source, .. }) if source.message == "no room"
    ));
    assert!(raw_operations::place_children(&mut doc, ROOT, Vec::new()).is_ok());
}

#[test]
fn a_listener_that_is_refused_fails_its_mutation() {
    let (state, mut doc) = document();
    state.borrow_mut().refuse_listeners = true;
    let listener = || EventListenerWrapper {
        name: EventName::new("click"),
        closure: KorvinClosure { hash: 1, closure: 1 },
    };
    assert!(matches!(
        raw_operations::add_event_listener(&mut doc, ROOT, listener()),
        Err(RawOperationError::AddEventListener(source)) if source.message == "deaf"
    ));
    assert!(matches!(
        raw_operations::remove_event_listener(&mut doc, ROOT, listener()),
        Err(RawOperationError::RemoveEventListener(source)) if source.message == "deaf"
    ));
    let add = ElementAddEventListenerMutation { listener: listener() };
    assert!(matches!(
        add.perform(&mut doc, ROOT),
        Err(MutationError::ElementAddEventListener(RawOperationError::AddEventListener(_)))
    ));
    state.borrow_mut().refuse_listeners = false;
    let log = add.perform(&mut doc, ROOT).unwrap();
    state.borrow_mut().refuse_listeners = true;
    assert!(matches!(
        log.revert().perform(&mut doc, ROOT),
        Err(MutationError::ElementRemoveEventListener(RawOperationError::RemoveEventListener(_)))
    ));
}

#[test]
fn children_that_cannot_be_picked_up_stay_where_they_are() {
    let (state, mut doc) = document();
    let child = raw_operations::create_element(&mut doc, TagName::new("a")).unwrap();
    raw_operations::insert_element(&mut doc, child, ROOT).unwrap();
    let to = raw_operations::create_element(&mut doc, TagName::new("to")).unwrap();
    state.borrow_mut().refuse_removals = true;
    assert!(matches!(
        raw_operations::pick_up_children(&mut doc, ROOT),
        Err(RawOperationError::PickingUpChildren { source, .. }) if source.message == "not a child"
    ));
    state.borrow_mut().calls.clear();
    assert!(matches!(
        raw_operations::reparent_all(&mut doc, ROOT, to),
        Err(RawOperationError::PickingUpChildren { .. })
    ));
    assert_eq!(state.borrow().count(|call| matches!(call, Call::Append { .. })), 0);
    assert_eq!(state.borrow().children_of(0), vec![child.raw]);
}

#[test]
fn a_pass_stops_at_the_first_operation_that_fails() {
    let mut stage = stage();
    stage.pass(list(&["a", "b", "c"])).unwrap();
    stage.state.borrow_mut().refuse_listeners = true;
    let failed = stage.pass(
        "ul".children(vec![
            keyed("li", "a").text("a"),
            keyed("li", "b").text("b").event("k", "click", 1),
            keyed("li", "c").text("changed"),
        ])
        .build(),
    );
    assert!(matches!(
        failed,
        Err(RuntimeError::Mutation(MutationError::ElementAddEventListener(_)))
    ));
    assert_eq!(stage.state.borrow().calls.len(), 1);
    assert!(matches!(stage.state.borrow().calls[0], Call::AddListener { .. }));
    assert!(stage.executor.executed.is_none());
}
