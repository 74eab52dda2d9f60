use korvin_core::data::{AttributeName, AttributeValue, EventName, KorvinClosure, TagName};
use korvin_core::element_builder::value_cache::ValueCache;
use korvin_core::element_builder::{
    calculate_hash, standing, AsElementBuilder, ElementBuilder, Standing,
};
use korvin_core::mutation::element::builder_mutation::modify::ElementBuilderModifyMutation;

fn attribute(mutation: &ElementBuilderModifyMutation) -> (String, Option<String>) {
    match mutation {
        ElementBuilderModifyMutation::SetAttribute(inner) => (
            inner.attribute.as_ref().to_string(),
            inner.value.as_ref().map(|value| value.as_ref().to_string()),
        ),
        other => panic!("not an attribute: {other:?}"),
    }
}

#[test]
fn a_bare_builder_builds_a_bare_recipe() {
    let recipe = ElementBuilder::builder("div").build();
    assert_eq!(recipe.element.key, None);
    assert_eq!(recipe.element.create.kind, TagName::new("div"));
    assert!(recipe.element.modify.is_empty());
    assert!(recipe.children.is_empty());
    let same = "div".build();
    assert_eq!(same.element.create.kind, TagName::new("div"));
    assert!(same.element.modify.is_empty());
}

#[test]
fn the_recipe_lists_attributes_then_text_then_form_value_then_listeners() {
    let recipe = "input"
        .event("typing", "input", 11)
        .input_value("3")
        .text("three")
        .attribute("type", "number")
        .attribute("class", "wide")
        .event("leaving", "blur", 12)
        .build();
    let modify = &recipe.element.modify;
    assert_eq!(modify.len(), 6);
    assert_eq!(attribute(&modify[0]), ("class".to_string(), Some("wide".to_string())));
    assert_eq!(attribute(&modify[1]), ("type".to_string(), Some("number".to_string())));
    match &modify[2] {
        ElementBuilderModifyMutation::SetText(inner) => {
            assert_eq!(inner.value, Some(AttributeValue::new("three")))
        }
        other => panic!("not a text: {other:?}"),
    }
    match &modify[3] {
        ElementBuilderModifyMutation::SetInputValue(inner) => {
            assert_eq!(inner.value, AttributeValue::new("3"))
        }
        other => panic!("not a form value: {other:?}"),
    }
    match &modify[4] {
        ElementBuilderModifyMutation::AddEventListener(inner) => {
            assert_eq!(inner.listener.name, EventName::new("input"));
            assert_eq!(inner.listener.closure.hash, calculate_hash(&"typing"));
            assert_eq!(inner.listener.closure.closure, 11);
        }
        other => panic!("not a listener: {other:?}"),
    }
    match &modify[5] {
        ElementBuilderModifyMutation::AddEventListener(inner) => {
            assert_eq!(inner.listener.name, EventName::new("blur"));
            assert_eq!(inner.listener.closure.hash, calculate_hash(&"leaving"));
        }
        other => panic!("not a listener: {other:?}"),
    }
}

#[test]
fn an_attribute_given_again_keeps_its_place_and_gets_the_new_value() {
    let recipe = "div"
        .attribute("class", "a")
        .attribute("id", "x")
        .attribute("class", "b")
        .build();
    let modify = &recipe.element.modify;
    assert_eq!(modify.len(), 2);
    assert_eq!(attribute(&modify[0]), ("class".to_string(), Some("b".to_string())));
    assert_eq!(attribute(&modify[1]), ("id".to_string(), Some("x".to_string())));
}

#[test]
fn a_text_given_again_replaces_the_first() {
    let recipe = "p".text("one").text("two").build();
    assert_eq!(recipe.element.modify.len(), 1);
    match &recipe.element.modify[0] {
        ElementBuilderModifyMutation::SetText(inner) => {
            assert_eq!(inner.value, Some(AttributeValue::new("two")))
        }
        other => panic!("not a text: {other:?}"),
    }
}

#[test]
fn children_are_built_in_the_order_in_which_they_were_given() {
    let recipe = "ul"
        .child("li".text("1"))
        .children(vec!["li".text("2"), "li".key("k").text("3")])
        .child("p")
        .build();
    let kinds: Vec<&str> =
        recipe.children.iter().map(|child| child.element.create.kind.as_ref()).collect();
    assert_eq!(kinds, vec!["li", "li", "li", "p"]);
    assert_eq!(recipe.children[0].element.key, None);
    assert_eq!(recipe.children[2].element.key, Some(calculate_hash(&"k")));
    assert_eq!(recipe.children[2].element.modify.len(), 1);
    assert!(recipe.children[3].element.modify.is_empty());
}

#[test]
fn a_tree_of_builders_builds_a_tree_of_recipes() {
    let recipe = "nested".child("child".child("grandchild")).build();
    assert_eq!(recipe.element.create.kind.as_ref(), "nested");
    assert_eq!(recipe.children.len(), 1);
    assert_eq!(recipe.children[0].element.create.kind.as_ref(), "child");
    assert_eq!(recipe.children[0].children.len(), 1);
    assert_eq!(recipe.children[0].children[0].element.create.kind.as_ref(), "grandchild");
    assert!(recipe.children[0].children[0].children.is_empty());
}

#[test]
fn keys_and_listeners_can_be_given_by_their_numbers() {
    let recipe = ElementBuilder::builder("li")
        .key_with_hash(7)
        .listener("click", KorvinClosure { hash: 9, closure: 4 })
        .build();
    assert_eq!(recipe.element.key, Some(7));
    match &recipe.element.modify[0] {
        ElementBuilderModifyMutation::AddEventListener(inner) => {
            assert_eq!(inner.listener.closure.hash, 9);
            assert_eq!(inner.listener.closure.closure, 4);
            assert_eq!(inner.listener.name, EventName::new("click"));
        }
        other => panic!("not a listener: {other:?}"),
    }
}

#[test]
fn the_hash_of_equal_things_is_equal() {
    assert_eq!(calculate_hash(&"1"), calculate_hash(&"1"));
    assert_eq!(calculate_hash(&("a", 3)), calculate_hash(&("a", 3)));
    assert_eq!(calculate_hash(&()), calculate_hash(&()));
    assert_ne!(calculate_hash(&"1"), calculate_hash(&"2"));
    assert_ne!(calculate_hash(&1u8), calculate_hash(&2u8));
    assert_ne!(calculate_hash(&"1"), "1".len() as u64);
}

#[test]
fn modify_mutations_have_an_identity_apart_from_their_value() {
    let set = |name: &str, value: &str| {
        ElementBuilderModifyMutation::SetAttribute(
            korvin_core::mutation::element::builder_mutation::modify::set_attribute::ElementSetAttributeMutation {
                attribute: AttributeName::new(name),
                value: Some(AttributeValue::new(value)),
            },
        )
    };
    let text = |value: &str| {
        ElementBuilderModifyMutation::SetText(
            korvin_core::mutation::element::builder_mutation::modify::set_text::ElementSetTextMutation {
                value: Some(AttributeValue::new(value)),
            },
        )
    };
    assert!(set("class", "a").same_identity(&set("class", "b")));
    assert!(!set("class", "a").same_identity(&set("id", "a")));
    assert!(text("a").same_identity(&text("b")));
    assert!(!text("a").same_identity(&set("class", "a")));
    assert_eq!(set("class", "a"), set("class", "a"));
    assert_ne!(set("class", "a"), set("class", "b"));
    assert_ne!(text("a"), set("class", "a"));
    assert_eq!(text("a").clone(), text("a"));
}

#[test]
fn the_cache_hands_out_the_value_it_keeps() {
    let mut cache = ValueCache::new();
    assert_eq!(cache.cached("div").as_ref(), "div");
    assert_eq!(cache.cached("div").as_ref(), "div");
    assert_eq!(cache.cached_as(1, "first").as_ref(), "first");
    assert_eq!(cache.cached_as(1, "second").as_ref(), "first");
    cache.next_rebuild();
    assert_eq!(cache.cached_as(1, "third").as_ref(), "first");
    assert_eq!(cache.cached_as(2, "other").as_ref(), "other");
    cache.next_rebuild();
    cache.next_rebuild();
    assert_eq!(cache.cached_as(1, "fourth").as_ref(), "fourth");
    assert_eq!(cache.cached_as(2, "fifth").as_ref(), "fifth");
}

#[test]
fn a_value_that_is_not_asked_for_during_one_pass_is_dropped() {
    let mut cache = ValueCache::new();
    assert_eq!(cache.cached_as(1, "kept").as_ref(), "kept");
    cache.next_rebuild();
    assert_eq!(cache.cached_as(1, "asked again").as_ref(), "kept");
    cache.next_rebuild();
    assert_eq!(cache.cached_as(1, "and again").as_ref(), "kept");
    cache.next_rebuild();
    cache.next_rebuild();
    assert_eq!(cache.cached_as(1, "new").as_ref(), "new");
}

#[test]
fn attributes_stand_in_the_order_of_their_names() {
    let recipe = "div"
        .attribute("b", "1")
        .attribute("a", "2")
        .attribute("ab", "3")
        .attribute("B", "4")
        .attribute("", "5")
        .attribute("é", "6")
        .attribute("a", "7")
        .attribute("z", "8")
        .build();
    let names: Vec<(String, Option<String>)> = recipe.element.modify.iter().map(attribute).collect();
    let expected = [("", "5"), ("B", "4"), ("a", "7"), ("ab", "3"), ("b", "1"), ("z", "8"), ("é", "6")];
    assert_eq!(
        names,
        expected
            .iter()
            .map(|(name, value)| (name.to_string(), Some(value.to_string())))
            .collect::<Vec<_>>()
    );
}

#[test]
fn texts_are_ordered_by_their_bytes() {
    assert_eq!(standing("a", "b"), Standing::Before);
    assert_eq!(standing("b", "a"), Standing::After);
    assert_eq!(standing("a", "a"), Standing::Same);
    assert_eq!(standing("", ""), Standing::Same);
    assert_eq!(standing("", "a"), Standing::Before);
    assert_eq!(standing("a", ""), Standing::After);
    assert_eq!(standing("a", "ab"), Standing::Before);
    assert_eq!(standing("ab", "a"), Standing::After);
    assert_eq!(standing("B", "a"), Standing::Before);
    assert_eq!(standing("z", "é"), Standing::Before);
    assert_eq!(standing("class", "classes"), Standing::Before);
    for (one, other) in [("x", "y"), ("id", "class"), ("data-a", "data-"), ("é", "e")] {
        let expected = match one.cmp(other) {
            std::cmp::Ordering::Less => Standing::Before,
            std::cmp::Ordering::Equal => Standing::Same,
            std::cmp::Ordering::Greater => Standing::After,
        };
        assert_eq!(standing(one, other), expected);
    }
}
