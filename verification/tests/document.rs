use weaver_editor::document::{EditorDocument, PlainEditor};
use weaver_editor::text::EditorRope;
use weaver_editor::types::{CompositionState, Selection};
use weaver_editor::undo::UndoableBuffer;

type TestEditor = PlainEditor<UndoableBuffer<EditorRope>>;

fn make_editor(content: &str) -> TestEditor {
    let rope = EditorRope::from_str(content);
    let buf = UndoableBuffer::new(rope, 100);
    PlainEditor::new(buf)
}

#[test]
fn test_basic_insert() {
    let mut editor = make_editor("hello");
    assert_eq!(editor.content_string(), "hello");

    let edit = editor.insert(5, " world");
    assert_eq!(editor.content_string(), "hello world");
    assert_eq!(edit.inserted_len, 6);
    assert_eq!(editor.cursor_offset(), 11);
}

#[test]
fn test_delete() {
    let mut editor = make_editor("hello world");

    let edit = editor.delete(5..11);
    assert_eq!(editor.content_string(), "hello");
    assert_eq!(edit.deleted_len, 6);
    assert_eq!(editor.cursor_offset(), 5);
}

#[test]
fn document_test_replace() {
    let mut editor = make_editor("hello world");

    let edit = editor.replace(6..11, "rust");
    assert_eq!(editor.content_string(), "hello rust");
    assert_eq!(edit.deleted_len, 5);
    assert_eq!(edit.inserted_len, 4);
}

#[test]
fn document_test_undo_redo() {
    let mut editor = make_editor("hello");

    editor.insert(5, " world");
    assert_eq!(editor.content_string(), "hello world");

    assert!(editor.undo());
    assert_eq!(editor.content_string(), "hello");

    assert!(editor.redo());
    assert_eq!(editor.content_string(), "hello world");
}

#[test]
fn test_selection() {
    let mut editor = make_editor("hello world");

    editor.set_selection(Some(Selection::new(0, 5)));
    assert_eq!(editor.selected_text(), Some("hello".into()));

    let edit = editor.delete_selection();
    assert!(edit.is_some());
    assert_eq!(editor.content_string(), " world");
    assert!(editor.selection().is_none());
}

#[test]
fn test_block_syntax_zone() {
    let mut editor = make_editor("# heading\nparagraph");

    // Position 0 is in block syntax zone
    let edit = editor.insert(0, "x");
    assert!(edit.in_block_syntax_zone);

    // After the insert the text is "x# heading\nparagraph";
    // position 11 is the start of the "paragraph" line.
    let edit = editor.insert(11, "y");
    assert!(edit.in_block_syntax_zone);
}

#[test]
fn test_composition_state() {
    let mut editor = make_editor("hello");

    assert!(editor.composition().is_none());

    let comp = CompositionState::new(5, "わ".into());
    editor.set_composition(Some(comp.clone()));

    assert_eq!(editor.composition(), Some(comp));

    editor.set_composition(None);
    assert!(editor.composition().is_none());
}

#[test]
fn test_offset_conversions() {
    let editor = make_editor("héllo wörld"); // multi-byte chars

    // 'é' is 2 bytes, 'ö' is 2 bytes
    assert_eq!(editor.len_chars(), 11);
    assert!(editor.len_bytes() > 11);

    // char 1 ('é') starts at byte 1
    assert_eq!(editor.char_to_byte(1), 1);
    // char 2 ('l') starts after 'é' (2 bytes)
    assert_eq!(editor.char_to_byte(2), 3);
}

#[test]
fn document_edit_far_from_line_start_is_outside_block_zone() {
    let mut editor = make_editor("a long first line");
    let edit = editor.insert(10, "z");
    assert!(!edit.in_block_syntax_zone);
    assert!(!edit.contains_newline);
    assert_eq!(edit.doc_len_after, 18);
}

#[test]
fn document_delete_reports_newline() {
    let mut editor = make_editor("ab\ncd");
    let edit = editor.delete(1..4);
    assert!(edit.contains_newline);
    assert_eq!(editor.content_string(), "ad");
    assert_eq!(edit.edit_char_pos, 1);
}

#[test]
fn document_collapsed_selection_deletes_nothing() {
    let mut editor = make_editor("hello");
    editor.set_selection(Some(Selection::collapsed(2)));
    assert!(editor.delete_selection().is_none());
    assert_eq!(editor.content_string(), "hello");
    assert!(editor.selection().is_none());
}
