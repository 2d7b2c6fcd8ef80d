use weaver_editor::actions::{InputType, Range};
use weaver_editor::browser::events::{
    get_current_range, handle_beforeinput, handle_compositionend, handle_compositionstart,
    handle_compositionupdate, handle_math_click, parse_browser_input_type,
    BeforeInputContext, BeforeInputResult, Platform,
};
use weaver_editor::document::{EditorDocument, PlainEditor};
use weaver_editor::text::EditorRope;
use weaver_editor::text_helpers::parse_usize;
use weaver_editor::types::Selection;
use weaver_editor::undo::UndoableBuffer;

type TestEditor = PlainEditor<UndoableBuffer<EditorRope>>;

fn make_editor(content: &str) -> TestEditor {
    PlainEditor::new(UndoableBuffer::new(EditorRope::from_str(content), 100))
}

const DESKTOP: Platform = Platform { android: false, chrome: false };

fn ctx<'a>(input_type: InputType, data: Option<&str>, platform: &'a Platform) -> BeforeInputContext<'a> {
    BeforeInputContext {
        input_type,
        data: data.map(|d| d.to_string()),
        target_range: None,
        is_composing: false,
        platform,
        force_innerhtml_update: true,
    }
}

#[test]
fn input_type_names() {
    assert_eq!(parse_browser_input_type("insertText"), InputType::InsertText);
    assert_eq!(parse_browser_input_type("deleteContentBackward"), InputType::DeleteContentBackward);
    assert_eq!(parse_browser_input_type("historyUndo"), InputType::HistoryUndo);
    assert!(matches!(parse_browser_input_type("somethingNew"), InputType::Unknown(_)));
}

#[test]
fn beforeinput_inserts_text_at_cursor() {
    let mut doc = make_editor("hello");
    doc.set_cursor_offset(5);
    let range = get_current_range(&doc);
    assert_eq!(range, Range { start: 5, end: 5 });
    let c = ctx(InputType::InsertText, Some(" world"), &DESKTOP);
    let r = handle_beforeinput(&mut doc, &c, range);
    assert!(matches!(r, BeforeInputResult::Handled));
    assert_eq!(doc.content_string(), "hello world");
    assert_eq!(doc.cursor_offset(), 11);
}

#[test]
fn beforeinput_backspace_deletes_char() {
    let mut doc = make_editor("abc");
    doc.set_cursor_offset(3);
    let range = get_current_range(&doc);
    let c = ctx(InputType::DeleteContentBackward, None, &DESKTOP);
    let r = handle_beforeinput(&mut doc, &c, range);
    assert!(matches!(r, BeforeInputResult::Handled));
    assert_eq!(doc.content_string(), "ab");
    assert_eq!(doc.cursor_offset(), 2);
}

#[test]
fn beforeinput_passes_through_during_composition() {
    let mut doc = make_editor("abc");
    let range = get_current_range(&doc);
    let mut c = ctx(InputType::InsertCompositionText, Some("x"), &DESKTOP);
    c.is_composing = true;
    c.force_innerhtml_update = false;
    let r = handle_beforeinput(&mut doc, &c, range);
    assert!(matches!(r, BeforeInputResult::PassThrough));
    assert_eq!(doc.content_string(), "abc");
}

#[test]
fn beforeinput_forced_rerender_always_handled() {
    const ANDROID: Platform = Platform { android: true, chrome: true };
    let mut doc = make_editor("abc");
    doc.set_cursor_offset(3);
    let range = get_current_range(&doc);
    // Composing: left alone, but answered Handled.
    let mut c = ctx(InputType::InsertText, Some("x"), &DESKTOP);
    c.is_composing = true;
    assert!(matches!(handle_beforeinput(&mut doc, &c, range), BeforeInputResult::Handled));
    assert_eq!(doc.content_string(), "abc");
    // Drop and unknown input: Handled too.
    let d = ctx(InputType::InsertFromDrop, None, &DESKTOP);
    assert!(matches!(handle_beforeinput(&mut doc, &d, range), BeforeInputResult::Handled));
    // Android backspace is not deferred: it is executed.
    let b = ctx(InputType::DeleteContentBackward, None, &ANDROID);
    assert!(matches!(handle_beforeinput(&mut doc, &b, range), BeforeInputResult::Handled));
    assert_eq!(doc.content_string(), "ab");
    // Without forced re-rendering, Android backspace is deferred.
    let mut b2 = ctx(InputType::DeleteContentBackward, None, &ANDROID);
    b2.force_innerhtml_update = false;
    let range = get_current_range(&doc);
    assert!(matches!(
        handle_beforeinput(&mut doc, &b2, range),
        BeforeInputResult::DeferredCheck { .. }
    ));
    assert_eq!(doc.content_string(), "ab");
}

#[test]
fn composition_replaces_selection_and_commits_text() {
    let mut doc = make_editor("hello world");
    doc.set_selection(Some(Selection { anchor: 6, head: 11 }));
    handle_compositionstart(&mut doc, "k".to_string());
    assert_eq!(doc.content_string(), "hello ");
    assert_eq!(doc.selection(), None);
    assert_eq!(doc.composition().map(|c| c.start_offset), Some(6));
    handle_compositionupdate(&mut doc, "ka".to_string());
    assert_eq!(doc.composition().map(|c| c.text), Some("ka".to_string()));
    handle_compositionend(&mut doc, "か".to_string());
    assert!(doc.composition().is_none());
    assert_eq!(doc.content_string(), "hello か");
}

#[test]
fn math_click_moves_cursor_and_clears_selection() {
    let mut doc = make_editor("x $y$ z");
    doc.set_selection(Some(Selection { anchor: 0, head: 1 }));
    assert!(handle_math_click(&mut doc, Some(3)));
    assert_eq!(doc.cursor_offset(), 3);
    assert_eq!(doc.selection(), None);

    let mut other = make_editor("abc");
    other.set_cursor_offset(1);
    assert!(!handle_math_click(&mut other, None));
    assert_eq!(other.cursor_offset(), 1);
}

#[test]
fn math_target_parses_like_usize() {
    assert_eq!(parse_usize("42"), Some(42));
    assert_eq!(parse_usize("+7"), Some(7));
    assert_eq!(parse_usize("0"), Some(0));
    assert_eq!(parse_usize(""), None);
    assert_eq!(parse_usize("+"), None);
    assert_eq!(parse_usize("-1"), None);
    assert_eq!(parse_usize("4x"), None);
    assert_eq!(parse_usize("99999999999999999999999"), None);
    for s in ["12", "+3", "", "a", " 1", "18446744073709551615", "18446744073709551616"] {
        assert_eq!(parse_usize(s), s.parse::<usize>().ok(), "{}", s);
    }
}
