use weaver_editor::actions::{EditorAction, Range};
use weaver_editor::document::{EditorDocument, PlainEditor};
use weaver_editor::execute::execute_action;
use weaver_editor::text::EditorRope;
use weaver_editor::types::Selection;
use weaver_editor::undo::UndoableBuffer;

type TestEditor = PlainEditor<UndoableBuffer<EditorRope>>;

fn make_editor(content: &str) -> TestEditor {
    let rope = EditorRope::from_str(content);
    let buf = UndoableBuffer::new(rope, 100);
    PlainEditor::new(buf)
}

#[test]
fn test_insert() {
    let mut editor = make_editor("hello");
    let action = EditorAction::Insert {
        text: " world".to_string(),
        range: Range::caret(5),
    };
    assert!(execute_action(&mut editor, &action));
    assert_eq!(editor.content_string(), "hello world");
}

#[test]
fn test_delete_backward() {
    let mut editor = make_editor("hello");
    editor.set_cursor_offset(5);
    let action = EditorAction::DeleteBackward {
        range: Range::caret(5),
    };
    assert!(execute_action(&mut editor, &action));
    assert_eq!(editor.content_string(), "hell");
}

#[test]
fn test_delete_selection() {
    let mut editor = make_editor("hello world");
    editor.set_selection(Some(Selection::new(5, 11)));
    let action = EditorAction::DeleteBackward {
        range: Range::new(5, 11),
    };
    assert!(execute_action(&mut editor, &action));
    assert_eq!(editor.content_string(), "hello");
}

#[test]
fn execute_test_undo_redo() {
    let mut editor = make_editor("hello");

    let action = EditorAction::Insert {
        text: " world".to_string(),
        range: Range::caret(5),
    };
    execute_action(&mut editor, &action);
    assert_eq!(editor.content_string(), "hello world");

    assert!(execute_action(&mut editor, &EditorAction::Undo));
    assert_eq!(editor.content_string(), "hello");

    assert!(execute_action(&mut editor, &EditorAction::Redo));
    assert_eq!(editor.content_string(), "hello world");
}

#[test]
fn test_select_all() {
    let mut editor = make_editor("hello world");
    assert!(execute_action(&mut editor, &EditorAction::SelectAll));
    let sel = editor.selection().unwrap();
    assert_eq!(sel.start(), 0);
    assert_eq!(sel.end(), 11);
}

#[test]
fn test_toggle_bold() {
    let mut editor = make_editor("hello");
    editor.set_selection(Some(Selection::new(0, 5)));
    assert!(execute_action(&mut editor, &EditorAction::ToggleBold));
    assert_eq!(editor.content_string(), "**hello**");
}

#[test]
fn execute_insert_removes_zero_width_before_caret() {
    let mut editor = make_editor("a\n\u{200C}");
    let action = EditorAction::Insert { text: "b".to_string(), range: Range::caret(3) };
    assert!(execute_action(&mut editor, &action));
    assert_eq!(editor.content_string(), "a\nb");
    assert_eq!(editor.cursor_offset(), 3);
}

#[test]
fn execute_enter_inserts_soft_break() {
    let mut editor = make_editor("ab");
    let action = EditorAction::InsertLineBreak { range: Range::caret(1) };
    assert!(execute_action(&mut editor, &action));
    assert_eq!(editor.content_string(), "a\n\u{200C}b");
    assert_eq!(editor.cursor_offset(), 3);
}

#[test]
fn execute_second_enter_turns_soft_break_into_paragraph() {
    let mut editor = make_editor("a\n\u{200C}b");
    let action = EditorAction::InsertLineBreak { range: Range::caret(3) };
    assert!(execute_action(&mut editor, &action));
    assert_eq!(editor.content_string(), "a\n\nb");
}

#[test]
fn execute_enter_continues_lists() {
    let mut editor = make_editor("- one");
    let action = EditorAction::InsertLineBreak { range: Range::caret(5) };
    assert!(execute_action(&mut editor, &action));
    assert_eq!(editor.content_string(), "- one\n- ");
    assert_eq!(editor.cursor_offset(), 8);

    let mut editor = make_editor("9. nine");
    let action = EditorAction::InsertParagraph { range: Range::caret(7) };
    assert!(execute_action(&mut editor, &action));
    assert_eq!(editor.content_string(), "9. nine\n10. ");
}

#[test]
fn execute_enter_on_empty_item_leaves_list() {
    let mut editor = make_editor("- a\n- ");
    let action = EditorAction::InsertParagraph { range: Range::caret(6) };
    assert!(execute_action(&mut editor, &action));
    assert_eq!(editor.content_string(), "- a\n\n\n\u{200C}\n");
    assert_eq!(editor.cursor_offset(), 6);
}

#[test]
fn execute_paragraph_break_outside_lists() {
    let mut editor = make_editor("ab");
    let action = EditorAction::InsertParagraph { range: Range::caret(1) };
    assert!(execute_action(&mut editor, &action));
    assert_eq!(editor.content_string(), "a\n\nb");
}

#[test]
fn execute_backspace_merges_paragraphs() {
    let mut editor = make_editor("a\n\nb");
    let action = EditorAction::DeleteBackward { range: Range::caret(3) };
    assert!(execute_action(&mut editor, &action));
    assert_eq!(editor.content_string(), "ab");
    assert_eq!(editor.cursor_offset(), 1);
}

#[test]
fn execute_backspace_at_start_is_not_handled() {
    let mut editor = make_editor("ab");
    let action = EditorAction::DeleteBackward { range: Range::caret(0) };
    assert!(!execute_action(&mut editor, &action));
    assert_eq!(editor.content_string(), "ab");
}

#[test]
fn execute_delete_forward_and_words() {
    let mut editor = make_editor("hello world");
    assert!(execute_action(&mut editor, &EditorAction::DeleteForward { range: Range::caret(0) }));
    assert_eq!(editor.content_string(), "ello world");
    assert!(!execute_action(&mut editor, &EditorAction::DeleteForward { range: Range::caret(10) }));

    let mut editor = make_editor("hello world");
    assert!(execute_action(&mut editor, &EditorAction::DeleteWordBackward { range: Range::caret(11) }));
    assert_eq!(editor.content_string(), "hello ");

    let mut editor = make_editor("hello world");
    assert!(execute_action(&mut editor, &EditorAction::DeleteWordForward { range: Range::caret(0) }));
    assert_eq!(editor.content_string(), "world");
}

#[test]
fn execute_delete_to_line_edges() {
    let mut editor = make_editor("ab\ncdef\ngh");
    assert!(execute_action(&mut editor, &EditorAction::DeleteToLineStart { range: Range::caret(5) }));
    assert_eq!(editor.content_string(), "ab\nef\ngh");

    let mut editor = make_editor("ab\ncdef\ngh");
    assert!(execute_action(&mut editor, &EditorAction::DeleteSoftLineForward { range: Range::caret(4) }));
    assert_eq!(editor.content_string(), "ab\nc\ngh");
}

#[test]
fn execute_italic_wraps_word_at_cursor() {
    let mut editor = make_editor("say hello now");
    editor.set_cursor_offset(6);
    assert!(execute_action(&mut editor, &EditorAction::ToggleItalic));
    assert_eq!(editor.content_string(), "say *hello* now");
    assert_eq!(editor.cursor_offset(), 11);
}

#[test]
fn execute_insert_link_wraps_selection() {
    let mut editor = make_editor("see docs");
    editor.set_selection(Some(Selection::new(4, 8)));
    assert!(execute_action(&mut editor, &EditorAction::InsertLink));
    assert_eq!(editor.content_string(), "see [docs](url)");
    assert_eq!(editor.cursor_offset(), 16);
}

#[test]
fn execute_cursor_moves_are_clamped() {
    let mut editor = make_editor("abc");
    assert!(execute_action(&mut editor, &EditorAction::MoveCursor { offset: 99 }));
    assert_eq!(editor.cursor_offset(), 3);
    editor.set_cursor_offset(1);
    assert!(execute_action(&mut editor, &EditorAction::ExtendSelection { offset: 99 }));
    let sel = editor.selection().unwrap();
    assert_eq!(sel.anchor, 1);
    assert_eq!(sel.head, 3);
}

#[test]
fn execute_clipboard_actions_are_left_to_the_platform() {
    let mut editor = make_editor("abc");
    assert!(!execute_action(&mut editor, &EditorAction::Copy));
    assert!(!execute_action(&mut editor, &EditorAction::Cut));
    assert!(!execute_action(&mut editor, &EditorAction::Paste { range: Range::caret(0) }));
    assert_eq!(editor.content_string(), "abc");
}

#[test]
fn execute_undo_with_nothing_to_undo() {
    let mut editor = make_editor("abc");
    assert!(!execute_action(&mut editor, &EditorAction::Undo));
    assert!(!execute_action(&mut editor, &EditorAction::Redo));
}
