use weaver_editor::text::{EditorRope, TextBuffer};
use weaver_editor::undo::{UndoManager, UndoableBuffer};

#[test]
fn test_undoable_buffer_insert_undo() {
    let rope = EditorRope::from_str("hello");
    let mut buf = UndoableBuffer::new(rope, 100);

    assert_eq!(buf.to_string(), "hello");
    assert!(!buf.can_undo());

    // Insert " world"
    buf.insert(5, " world");
    assert_eq!(buf.to_string(), "hello world");
    assert!(buf.can_undo());

    // Undo
    assert!(buf.undo());
    assert_eq!(buf.to_string(), "hello");
    assert!(!buf.can_undo());
    assert!(buf.can_redo());

    // Redo
    assert!(buf.redo());
    assert_eq!(buf.to_string(), "hello world");
    assert!(buf.can_undo());
    assert!(!buf.can_redo());
}

#[test]
fn test_undoable_buffer_delete_undo() {
    let rope = EditorRope::from_str("hello world");
    let mut buf = UndoableBuffer::new(rope, 100);

    // Delete " world"
    buf.delete(5..11);
    assert_eq!(buf.to_string(), "hello");
    assert!(buf.can_undo());

    // Undo
    assert!(buf.undo());
    assert_eq!(buf.to_string(), "hello world");
}

#[test]
fn test_undoable_buffer_replace_undo() {
    let rope = EditorRope::from_str("hello world");
    let mut buf = UndoableBuffer::new(rope, 100);

    // Replace "world" with "rust"
    buf.delete(6..11);
    buf.insert(6, "rust");
    assert_eq!(buf.to_string(), "hello rust");

    // Undo insert
    assert!(buf.undo());
    assert_eq!(buf.to_string(), "hello ");

    // Undo delete
    assert!(buf.undo());
    assert_eq!(buf.to_string(), "hello world");
}

#[test]
fn test_new_edit_clears_redo() {
    let rope = EditorRope::from_str("abc");
    let mut buf = UndoableBuffer::new(rope, 100);

    buf.insert(3, "d");
    assert!(buf.undo());
    assert!(buf.can_redo());

    // New edit should clear redo
    buf.insert(3, "e");
    assert!(!buf.can_redo());
}

#[test]
fn test_max_steps() {
    let rope = EditorRope::from_str("");
    let mut buf = UndoableBuffer::new(rope, 3);

    buf.insert(0, "a");
    buf.insert(1, "b");
    buf.insert(2, "c");
    buf.insert(3, "d"); // should evict "a"

    assert_eq!(buf.to_string(), "abcd");

    // Should only be able to undo 3 times
    assert!(buf.undo()); // removes d
    assert!(buf.undo()); // removes c
    assert!(buf.undo()); // removes b
    assert!(!buf.undo()); // a was evicted

    assert_eq!(buf.to_string(), "a");
}

#[test]
fn test_multiple_undo_redo_cycles() {
    let rope = EditorRope::from_str("");
    let mut buf = UndoableBuffer::new(rope, 100);

    buf.insert(0, "a");
    buf.insert(1, "b");
    buf.insert(2, "c");
    assert_eq!(buf.to_string(), "abc");

    // Undo all
    assert!(buf.undo());
    assert!(buf.undo());
    assert!(buf.undo());
    assert_eq!(buf.to_string(), "");

    // Redo all
    assert!(buf.redo());
    assert!(buf.redo());
    assert!(buf.redo());
    assert_eq!(buf.to_string(), "abc");

    // Partial undo then new edit
    assert!(buf.undo()); // "ab"
    assert!(buf.undo()); // "a"
    buf.insert(1, "x");
    assert_eq!(buf.to_string(), "ax");
    assert!(!buf.can_redo()); // redo cleared
}

#[test]
fn undo_clear_history_keeps_text() {
    let rope = EditorRope::from_str("ab");
    let mut buf = UndoableBuffer::new(rope, 10);
    buf.insert(2, "c");
    assert!(buf.undo());
    buf.clear_history();
    assert!(!buf.can_undo());
    assert!(!buf.can_redo());
    assert_eq!(buf.to_string(), "ab");
}

#[test]
fn undo_replace_is_two_steps() {
    let rope = EditorRope::from_str("one two");
    let mut buf = UndoableBuffer::new(rope, 10);
    buf.replace(4..7, "three");
    assert_eq!(buf.to_string(), "one three");
    assert!(buf.undo());
    assert_eq!(buf.to_string(), "one ");
    assert!(buf.undo());
    assert_eq!(buf.to_string(), "one two");
    assert!(!buf.undo());
}

#[test]
fn undo_clone_keeps_history_and_default_is_empty() {
    let mut buf: UndoableBuffer<EditorRope> = UndoableBuffer::default();
    assert_eq!(buf.len_chars(), 0);
    assert!(!buf.can_undo());
    buf.insert(0, "abc");
    let mut copy = buf.clone();
    assert_eq!(copy.to_string(), "abc");
    assert!(copy.undo());
    assert_eq!(copy.to_string(), "");
    // The original keeps its own state.
    assert_eq!(buf.to_string(), "abc");
    assert!(buf.can_undo());
}
