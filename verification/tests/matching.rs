use korvin_core::data::TagName;
use korvin_core::dom_executor::children::ChildKey;
use korvin_core::dom_executor::matching::pair_up;
use korvin_core::dom_executor::slots::into_slots;

fn pairs(old: &[(Option<u64>, &str)], new: &[(Option<u64>, &str)]) -> Vec<Option<usize>> {
    let old_kinds: Vec<TagName> = old.iter().map(|(_, kind)| TagName::new(kind)).collect();
    let new_kinds: Vec<TagName> = new.iter().map(|(_, kind)| TagName::new(kind)).collect();
    let old_store: Vec<ChildKey> =
        old.iter().zip(old_kinds.iter()).map(|((key, _), kind)| ChildKey { key: *key, kind }).collect();
    let new_store: Vec<ChildKey> =
        new.iter().zip(new_kinds.iter()).map(|((key, _), kind)| ChildKey { key: *key, kind }).collect();
    let old_keys: Vec<&ChildKey> = old_store.iter().collect();
    let new_keys: Vec<&ChildKey> = new_store.iter().collect();
    pair_up(&old_keys, &new_keys)
}

#[test]
fn the_same_keys_in_the_same_order_pair_in_place() {
    let keys = [(Some(1), "li"), (Some(2), "li"), (None, "p")];
    assert_eq!(pairs(&keys, &keys), vec![Some(0), Some(1), Some(2)]);
}

#[test]
fn a_key_pairs_wherever_it_stands() {
    let old = [(Some(1), "li"), (Some(2), "li"), (Some(3), "li")];
    let new = [(Some(3), "li"), (Some(1), "li"), (Some(2), "li")];
    assert_eq!(pairs(&old, &new), vec![Some(2), Some(0), Some(1)]);
}

#[test]
fn the_same_key_with_another_kind_does_not_pair() {
    let old = [(Some(1), "li"), (None, "p")];
    let new = [(Some(1), "div"), (None, "span"), (None, "p")];
    assert_eq!(pairs(&old, &new), vec![None, None, Some(1)]);
}

#[test]
fn equal_keys_pair_first_with_first() {
    let old = [(None, "li"), (None, "p"), (None, "li"), (None, "li")];
    let new = [(None, "li"), (None, "li"), (None, "p")];
    assert_eq!(pairs(&old, &new), vec![Some(0), Some(2), Some(1)]);
}

#[test]
fn a_key_that_runs_out_pairs_no_more() {
    let old = [(None, "li")];
    let new = [(None, "li"), (None, "li"), (None, "li")];
    assert_eq!(pairs(&old, &new), vec![Some(0), None, None]);
}

#[test]
fn nothing_pairs_with_nothing() {
    assert_eq!(pairs(&[], &[(None, "li")]), vec![None]);
    assert_eq!(pairs(&[(None, "li")], &[]), Vec::<Option<usize>>::new());
    assert_eq!(pairs(&[], &[]), Vec::<Option<usize>>::new());
}

#[test]
fn child_keys_compare_by_key_and_kind() {
    let li = TagName::new("li");
    let also_li = TagName::new("li");
    let p = TagName::new("p");
    assert_eq!(ChildKey { key: Some(1), kind: &li }, ChildKey { key: Some(1), kind: &also_li });
    assert_ne!(ChildKey { key: Some(1), kind: &li }, ChildKey { key: Some(2), kind: &li });
    assert_ne!(ChildKey { key: Some(1), kind: &li }, ChildKey { key: None, kind: &li });
    assert_ne!(ChildKey { key: None, kind: &li }, ChildKey { key: None, kind: &p });
    assert_eq!(ChildKey { key: None, kind: &li }, ChildKey { key: None, kind: &also_li });
}

#[test]
fn slots_hold_the_items_in_their_order() {
    assert_eq!(into_slots(vec![1, 2, 3]), vec![Some(1), Some(2), Some(3)]);
    assert_eq!(into_slots(Vec::<u8>::new()), Vec::<Option<u8>>::new());
    assert_eq!(into_slots(vec!["a".to_string()]), vec![Some("a".to_string())]);
}
