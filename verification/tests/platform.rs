use std::cell::RefCell;
use weaver_editor::document::{EditorDocument, PlainEditor};
use weaver_editor::platform::{
    clipboard_copy, clipboard_cut, clipboard_paste, clipboard_paste_text, selection_clipboard_text,
    strip_zero_width, ClipboardPlatform, PlatformError,
};
use weaver_editor::text::EditorRope;
use weaver_editor::types::Selection;
use weaver_editor::undo::UndoableBuffer;

struct FakeClipboard {
    text: RefCell<Option<String>>,
}

impl ClipboardPlatform for FakeClipboard {
    fn write_text(&self, text: &str) {
        *self.text.borrow_mut() = Some(text.to_string());
    }
    fn write_html(&self, _html: &str, plain_text: &str) {
        *self.text.borrow_mut() = Some(plain_text.to_string());
    }
    fn read_text(&self) -> Option<String> {
        self.text.borrow().clone()
    }
}

fn make_editor(content: &str) -> PlainEditor<UndoableBuffer<EditorRope>> {
    PlainEditor::new(UndoableBuffer::new(EditorRope::from_str(content), 100))
}

#[test]
fn platform_strip_zero_width() {
    assert_eq!(strip_zero_width("a\u{200C}b\u{200B}c"), "abc");
    assert_eq!(strip_zero_width("plain"), "plain");
}

#[test]
fn platform_copy_cut_paste() {
    let clip = FakeClipboard { text: RefCell::new(None) };
    let mut editor = make_editor("one \u{200C}two three");
    assert!(!clipboard_copy(&editor, &clip));

    editor.set_selection(Some(Selection::new(8, 4)));
    assert_eq!(selection_clipboard_text(&editor), Some("two".to_string()));
    assert!(clipboard_copy(&editor, &clip));
    assert_eq!(clip.read_text(), Some("two".to_string()));

    assert!(clipboard_cut(&mut editor, &clip));
    assert_eq!(editor.content_string(), "one  three");
    assert!(editor.selection().is_none());

    editor.set_cursor_offset(0);
    assert!(clipboard_paste(&mut editor, &clip));
    assert_eq!(editor.content_string(), "twoone  three");
    assert_eq!(editor.cursor_offset(), 3);
}

#[test]
fn platform_paste_replaces_selection() {
    let mut editor = make_editor("hello world");
    editor.set_selection(Some(Selection::new(6, 11)));
    assert!(clipboard_paste_text(&mut editor, "rust"));
    assert_eq!(editor.content_string(), "hello rust");
    assert!(!clipboard_paste_text(&mut editor, ""));
    let empty = FakeClipboard { text: RefCell::new(None) };
    assert!(!clipboard_paste(&mut editor, &empty));
}

#[test]
fn platform_error_from_string() {
    let e = PlatformError::from("boom".to_string());
    assert_eq!(e.message(), "boom");
    assert_eq!(e.clone().0, "boom");
}

#[test]
fn platform_strip_zero_width_twice_is_once() {
    for s in ["a\u{200C}\u{200B}b", "\u{200B}", "plain", "", "x\u{200C}"] {
        let once = strip_zero_width(s);
        assert!(!once.contains('\u{200C}') && !once.contains('\u{200B}'));
        assert_eq!(strip_zero_width(&once), once);
    }
}
