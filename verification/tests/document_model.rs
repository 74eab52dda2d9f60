use korvin_core::data::ElementId;
use korvin_core::document_model::error::DocumentModelError;
use korvin_core::document_model::DocumentModel;
use korvin_core::raw_operations::error::{DebugOf, JsError};
use korvin_core::utils::mutation_diff::{MaybeDiffEntry, MutationDiff};
use korvin_core::data::AttributeValue;
use korvin_core::raw_operations::error::JsError as EngineError;
use korvin_core::web::{document_or_error, handed_on, reported, settled, value_of, window_or_error};
use korvin_core::RuntimeError;

#[test]
fn a_new_model_has_the_entry_point_open() {
    let model = DocumentModel::new(ElementId::new(1));
    assert_eq!(*model.current_root(), ElementId::new(1));
    assert_eq!(model.element_stack.len(), 1);
}

#[test]
fn elements_are_left_in_the_reverse_of_the_order_in_which_they_were_entered() {
    let mut model = DocumentModel::new(ElementId::new(1));
    model.push_current_root(ElementId::new(2));
    model.push_current_root(ElementId::new(3));
    assert_eq!(*model.current_root(), ElementId::new(3));
    assert_eq!(model.pop_current_root(), Ok(ElementId::new(3)));
    assert_eq!(*model.current_root(), ElementId::new(2));
    assert_eq!(model.pop_current_root(), Ok(ElementId::new(2)));
    assert_eq!(*model.current_root(), ElementId::new(1));
}

#[test]
fn the_entry_point_cannot_be_left() {
    let mut model = DocumentModel::new(ElementId::new(1));
    assert_eq!(model.pop_current_root(), Err(DocumentModelError::RootElementPopped));
    assert_eq!(*model.current_root(), ElementId::new(1));
    model.push_current_root(ElementId::new(2));
    assert_eq!(model.pop_current_root(), Ok(ElementId::new(2)));
    assert_eq!(model.pop_current_root(), Err(DocumentModelError::RootElementPopped));
    assert_eq!(model.pop_current_root(), Err(DocumentModelError::RootElementPopped));
    assert_eq!(*model.current_root(), ElementId::new(1));
}

#[test]
fn a_description_is_what_debug_renders() {
    assert_eq!(DebugOf::new(&ElementId::new(4)).text(), format!("{:?}", ElementId::new(4)));
    assert_eq!(DebugOf::new(&"a \"b\"").text(), "\"a \\\"b\\\"\"");
    assert_eq!(DebugOf::new(&vec![1, 2]).text(), "[1, 2]");
    assert_eq!(JsError::new("no".to_string()).message, "no");
}

#[test]
fn an_empty_cell_shows_a_tilde() {
    assert_eq!(MaybeDiffEntry(None).text(), "~");
    assert_eq!(MaybeDiffEntry::default().text(), "~");
    assert_eq!(MaybeDiffEntry(Some("x".to_string())).text(), "x");
    assert_eq!(MaybeDiffEntry::from_debug(Some(3)).text(), "3");
    assert_eq!(MaybeDiffEntry::from_debug(Some("a")).text(), "\"a\"");
    assert_eq!(MaybeDiffEntry::from_debug(None::<u8>).text(), "~");
}

#[test]
fn a_row_marks_a_difference() {
    let row = MutationDiff::new(MaybeDiffEntry::from_debug(Some(1)), MaybeDiffEntry(None), true);
    assert_eq!(row.old.text(), "1");
    assert_eq!(row.new.text(), "~");
    assert_eq!(row.is_diff.text(), "*");
    let same = MutationDiff::new(MaybeDiffEntry(None), MaybeDiffEntry(None), false);
    assert_eq!(same.is_diff.text(), "~");
}

#[test]
fn a_window_without_a_document_is_an_error() {
    assert!(matches!(document_or_error(None), Err(RuntimeError::NoDocument)));
}

#[test]
fn a_program_without_a_window_is_an_error() {
    assert!(matches!(window_or_error(None), Err(RuntimeError::NoWindow)));
}

#[test]
fn a_removal_reports_the_node_that_the_page_named() {
    assert_eq!(reported(ElementId::new(3), true), ElementId::new(3));
    assert_eq!(reported(ElementId::new(3), false), ElementId::new(u64::MAX));
    assert_eq!(reported(ElementId::new(0), false), ElementId::new(u64::MAX));
}

#[test]
fn what_the_page_named_becomes_a_value() {
    assert_eq!(value_of(Some("a b".to_string())), Some(AttributeValue::new("a b")));
    assert_eq!(value_of(Some(String::new())), Some(AttributeValue::new("")));
    assert_eq!(value_of(None), None);
}

#[test]
fn what_the_page_did_is_handed_on() {
    let handed: Result<u8, EngineError> = handed_on(Ok(7));
    assert_eq!(handed.unwrap(), 7);
    let done: Result<(), EngineError> = settled(Ok("whatever"));
    assert!(done.is_ok());
}
