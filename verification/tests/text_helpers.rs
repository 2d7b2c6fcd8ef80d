use weaver_editor::document::PlainEditor;
use weaver_editor::text::EditorRope;
use weaver_editor::text_helpers::{
    count_leading_zero_width, detect_list_context, find_line_end, find_line_start,
    find_word_boundary_backward, find_word_boundary_forward, is_list_item_empty,
    is_zero_width_char, ListContext,
};
use weaver_editor::undo::UndoableBuffer;

type TestEditor = PlainEditor<UndoableBuffer<EditorRope>>;

fn make_editor(content: &str) -> TestEditor {
    let rope = EditorRope::from_str(content);
    let buf = UndoableBuffer::new(rope, 100);
    PlainEditor::new(buf)
}

#[test]
fn test_find_line_start() {
    let editor = make_editor("hello\nworld\ntest");

    assert_eq!(find_line_start(&editor, 0), 0);
    assert_eq!(find_line_start(&editor, 3), 0);
    assert_eq!(find_line_start(&editor, 5), 0); // at newline
    assert_eq!(find_line_start(&editor, 6), 6); // start of "world"
    assert_eq!(find_line_start(&editor, 8), 6);
    assert_eq!(find_line_start(&editor, 12), 12); // start of "test"
}

#[test]
fn test_find_line_end() {
    let editor = make_editor("hello\nworld\ntest");

    assert_eq!(find_line_end(&editor, 0), 5);
    assert_eq!(find_line_end(&editor, 3), 5);
    assert_eq!(find_line_end(&editor, 6), 11);
    assert_eq!(find_line_end(&editor, 12), 16);
}

#[test]
fn test_find_word_boundary_backward() {
    let editor = make_editor("hello world test");

    assert_eq!(find_word_boundary_backward(&editor, 16), 12); // from end
    assert_eq!(find_word_boundary_backward(&editor, 12), 6); // from "test"
    assert_eq!(find_word_boundary_backward(&editor, 11), 6); // from space before "test"
    assert_eq!(find_word_boundary_backward(&editor, 5), 0); // from end of "hello"
}

#[test]
fn test_find_word_boundary_forward() {
    let editor = make_editor("hello world test");

    assert_eq!(find_word_boundary_forward(&editor, 0), 6); // from start
    assert_eq!(find_word_boundary_forward(&editor, 6), 12); // from space
    assert_eq!(find_word_boundary_forward(&editor, 12), 16); // from "test"
}

#[test]
fn test_detect_list_context_unordered() {
    let editor = make_editor("- item one\n- item two");

    let ctx = detect_list_context(&editor, 5);
    assert!(matches!(ctx, Some(ListContext::Unordered { marker: '-', .. })));

    let ctx = detect_list_context(&editor, 15);
    assert!(matches!(ctx, Some(ListContext::Unordered { marker: '-', .. })));
}

#[test]
fn test_detect_list_context_ordered() {
    let editor = make_editor("1. first\n2. second");

    let ctx = detect_list_context(&editor, 5);
    assert!(matches!(ctx, Some(ListContext::Ordered { number: 1, .. })));

    let ctx = detect_list_context(&editor, 12);
    assert!(matches!(ctx, Some(ListContext::Ordered { number: 2, .. })));
}

#[test]
fn test_is_list_item_empty() {
    let editor = make_editor("- \n- item");

    let ctx = detect_list_context(&editor, 1).unwrap();
    assert!(is_list_item_empty(&editor, 1, &ctx));

    let ctx = detect_list_context(&editor, 5).unwrap();
    assert!(!is_list_item_empty(&editor, 5, &ctx));
}

#[test]
fn helpers_list_context_keeps_indent_and_star() {
    let editor = make_editor("  * nested");
    match detect_list_context(&editor, 6) {
        Some(ListContext::Unordered { indent, marker }) => {
            assert_eq!(indent, "  ");
            assert_eq!(marker, '*');
        }
        other => panic!("unexpected context {:?}", other),
    }
}

#[test]
fn helpers_plain_line_has_no_list_context() {
    let editor = make_editor("just text\n12 no dot");
    assert!(detect_list_context(&editor, 3).is_none());
    assert!(detect_list_context(&editor, 12).is_none());
}

#[test]
fn helpers_zero_width_runs() {
    let editor = make_editor("a\u{200C}\u{200B}b");
    assert_eq!(count_leading_zero_width(&editor, 3), 2);
    assert_eq!(count_leading_zero_width(&editor, 1), 0);
    assert!(is_zero_width_char(&editor, 1));
    assert!(is_zero_width_char(&editor, 2));
    assert!(!is_zero_width_char(&editor, 3));
    assert!(!is_zero_width_char(&editor, 9));
}
