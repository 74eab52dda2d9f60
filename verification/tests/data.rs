use korvin_core::data::attribute_value::{duplicate, same_text};
use korvin_core::data::{
    AttributeName, AttributeValue, ElementId, EventListenerWrapper, EventName, KorvinClosure,
    TagName, Value,
};

#[test]
fn values_with_the_same_characters_are_equal() {
    assert_eq!(Value::new("div"), Value::from("div"));
    assert_ne!(Value::new("div"), Value::new("span"));
    assert_eq!(TagName::new("div").as_ref(), "div");
    assert_eq!(AttributeValue::from("1").clone(), AttributeValue::new("1"));
}

#[test]
fn a_value_keeps_its_text() {
    assert_eq!(Value::new("héllo wörld").as_ref(), "héllo wörld");
    assert_eq!(Value::new("").as_ref(), "");
    assert_eq!(AttributeName::from(Value::new("class")).as_ref(), "class");
    assert_eq!(AttributeValue::from(Value::new("a b")).as_ref(), "a b");
    assert_eq!(TagName::from(Value::new("input")).as_ref(), "input");
    assert_eq!(EventName::from("click").as_ref(), "click");
}

#[test]
fn names_and_values_compare_by_their_text() {
    assert_eq!(AttributeName::new("id"), AttributeName::from("id"));
    assert_ne!(AttributeName::new("id"), AttributeName::new("ID"));
    assert_ne!(TagName::new("p"), TagName::new("pre"));
    assert_eq!(EventName::new("input"), EventName::new("input").clone());
    assert_ne!(EventName::new("input"), EventName::new("change"));
}

#[test]
fn absent_values_compare_as_absent() {
    let one = Some(AttributeValue::new("1"));
    let other = Some(AttributeValue::new("2"));
    assert!(same_text(&one, &Some(AttributeValue::new("1"))));
    assert!(!same_text(&one, &other));
    assert!(!same_text(&one, &None));
    assert!(!same_text(&None, &other));
    assert!(same_text(&None, &None));
    assert_eq!(duplicate(&one), one);
    assert_eq!(duplicate(&None), None);
}

#[test]
fn handles_are_equal_when_they_name_the_same_node() {
    assert_eq!(ElementId::new(7), ElementId::new(7));
    assert_ne!(ElementId::new(7), ElementId::new(8));
    assert_eq!(ElementId::new(7).raw, 7);
    let copy = ElementId::new(u64::MAX);
    let same = copy;
    assert_eq!(copy, same);
}

#[test]
fn listeners_compare_by_name_and_callback_number() {
    let listener = |name: &str, hash: u64, closure: u64| EventListenerWrapper {
        name: EventName::new(name),
        closure: KorvinClosure { hash, closure },
    };
    assert_eq!(listener("click", 1, 10), listener("click", 1, 10));
    assert_eq!(listener("click", 1, 10), listener("click", 1, 20));
    assert_ne!(listener("click", 1, 10), listener("click", 2, 10));
    assert_ne!(listener("click", 1, 10), listener("input", 1, 10));
    assert_eq!(listener("click", 1, 10).clone().closure.closure, 10);
    assert_eq!(KorvinClosure { hash: 1, closure: 2 }, KorvinClosure { hash: 1, closure: 3 });
    assert_ne!(KorvinClosure { hash: 1, closure: 2 }, KorvinClosure { hash: 4, closure: 2 });
}
