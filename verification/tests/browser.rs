use weaver_editor::browser::color::rgba_channels;
use weaver_editor::browser::cursor::{find_offset_map_for_char, find_text_node_at_offset, BrowserCursor};
use weaver_editor::browser::dom_sync::{
    apply_cursor_sync, editor_container_offset, existing_paragraph_update, utf16_before_child, hash_hex, is_node_id, node_offset_lookup,
    para_index_from_node_id, sync_result_from_offsets, BrowserCursorSync, CursorSyncResult,
    NodeOffset, ParagraphDomUpdate,
};
use weaver_editor::document::{EditorDocument, PlainEditor};
use weaver_editor::offset_map::OffsetMapping;
use weaver_editor::paragraph::ParagraphRender;
use weaver_editor::text::EditorRope;
use weaver_editor::types::Selection;
use weaver_editor::undo::UndoableBuffer;

/// The CSS `rgba()` text of a packed color: channels from the library,
/// alpha as a fraction of 255.
fn rgba_u32_to_css(color: u32) -> String {
    let (r, g, b, a) = rgba_channels(color);
    let a = a as f32 / 255.0;
    format!("rgba({}, {}, {}, {})", r, g, b, a)
}

/// The CSS `rgba()` text of a packed color with its alpha replaced.
fn rgba_u32_to_css_alpha(color: u32, alpha: f32) -> String {
    let (r, g, b, _) = rgba_channels(color);
    format!("rgba({}, {}, {}, {})", r, g, b, alpha)
}

#[test]
fn test_rgba_to_css_alpha() {
    // Red with 25% alpha override
    assert_eq!(rgba_u32_to_css_alpha(0xFF0000FF, 0.25), "rgba(255, 0, 0, 0.25)");
}

#[test]
fn test_rgba_to_css() {
    // Fully opaque red
    assert_eq!(rgba_u32_to_css(0xFF0000FF), "rgba(255, 0, 0, 1)");
    // Semi-transparent green
    assert_eq!(rgba_u32_to_css(0x00FF0080), "rgba(0, 255, 0, 0.5019608)");
    // Fully transparent blue
    assert_eq!(rgba_u32_to_css(0x0000FF00), "rgba(0, 0, 255, 0)");
}

#[test]
fn browser_channels_split_packed_color() {
    assert_eq!(rgba_channels(0x12345678), (0x12, 0x34, 0x56, 0x78));
    assert_eq!(rgba_channels(0), (0, 0, 0, 0));
}

#[test]
fn browser_cursor_keeps_editor_id() {
    assert_eq!(BrowserCursor::new("editor-1".to_string()).editor_id(), "editor-1");
    assert_eq!(BrowserCursorSync::new("ed".to_string()).editor_id(), "ed");
}

fn mapping(node: &str, start: usize, end: usize) -> OffsetMapping {
    OffsetMapping {
        byte_range: start..end,
        char_range: start..end,
        node_id: node.to_string(),
        char_offset_in_node: 0,
        child_index: None,
        utf16_len: end - start,
    }
}

fn para(id: &str, start: usize, end: usize, node: &str) -> ParagraphRender {
    ParagraphRender {
        id: id.to_string(),
        byte_range: start..end,
        char_range: start..end,
        html: String::new(),
        offset_map: vec![mapping(node, start, end)],
        syntax_spans: Vec::new(),
        source_hash: 0,
    }
}

#[test]
fn offset_map_for_char_picks_holding_paragraph() {
    let paras = vec![para("p-0", 0, 5, "n0"), para("p-1", 5, 10, "n1"), para("p-2", 11, 20, "n2")];
    // Boundaries are inclusive, so the first holder wins.
    assert_eq!(find_offset_map_for_char(&paras, 5)[0].node_id, "n0");
    assert_eq!(find_offset_map_for_char(&paras, 7)[0].node_id, "n1");
    assert_eq!(find_offset_map_for_char(&paras, 12)[0].node_id, "n2");
    // In a gap or past the end: the last paragraph.
    assert_eq!(find_offset_map_for_char(&paras, 10)[0].node_id, "n1");
    assert_eq!(find_offset_map_for_char(&paras, 10_000)[0].node_id, "n2");
    assert!(find_offset_map_for_char(&[], 3).is_empty());
}

#[test]
fn sync_results_and_node_ids() {
    assert_eq!(sync_result_from_offsets(Some(4), Some(4)), CursorSyncResult::Cursor(4));
    assert_eq!(
        sync_result_from_offsets(Some(2), Some(9)),
        CursorSyncResult::Selection { anchor: 2, head: 9 }
    );
    assert_eq!(sync_result_from_offsets(None, Some(9)), CursorSyncResult::Unknown);
    assert_eq!(sync_result_from_offsets(Some(1), None), CursorSyncResult::Unknown);
    assert!(is_node_id("n0"));
    assert!(is_node_id("p-2-n14"));
    assert!(!is_node_id("p-2"));
    assert!(!is_node_id("editor"));
    assert!(!is_node_id(""));
    assert!(!is_node_id("-"));
    assert!(is_node_id("x-n"));
}

#[test]
fn cursor_sync_applies_to_document() {
    let mut doc = PlainEditor::new(UndoableBuffer::new(EditorRope::from_str("hello world"), 10));
    apply_cursor_sync(&mut doc, CursorSyncResult::Selection { anchor: 2, head: 7 });
    assert_eq!(doc.cursor_offset(), 7);
    assert_eq!(doc.selection(), Some(Selection { anchor: 2, head: 7 }));
    apply_cursor_sync(&mut doc, CursorSyncResult::Unknown);
    assert_eq!(doc.cursor_offset(), 7);
    assert_eq!(doc.selection(), Some(Selection { anchor: 2, head: 7 }));
    apply_cursor_sync(&mut doc, CursorSyncResult::Selection { anchor: 4, head: 4 });
    assert_eq!(doc.cursor_offset(), 4);
    assert_eq!(doc.selection(), None);
    doc.set_selection(Some(Selection { anchor: 0, head: 1 }));
    apply_cursor_sync(&mut doc, CursorSyncResult::Cursor(9));
    assert_eq!(doc.cursor_offset(), 9);
    assert_eq!(doc.selection(), None);
}

#[test]
fn node_id_paragraph_index() {
    assert_eq!(para_index_from_node_id("p-2-n0"), Some(2));
    assert_eq!(para_index_from_node_id("p-17"), Some(17));
    assert_eq!(para_index_from_node_id("p--n0"), None);
    assert_eq!(para_index_from_node_id("n3"), None);
    assert_eq!(para_index_from_node_id("p-x-n1"), None);
    assert_eq!(para_index_from_node_id("p-+4-n1"), Some(4));
}

#[test]
fn paragraph_hash_in_hex() {
    for h in [0u64, 9, 10, 15, 16, 255, 0xdead_beef, u64::MAX] {
        assert_eq!(hash_hex(h), format!("{:x}", h));
    }
}

#[test]
fn existing_paragraph_updates() {
    // Same hash, not forced: untouched.
    assert_eq!(
        existing_paragraph_update(false, false, true, false, true, true),
        ParagraphDomUpdate::Unchanged
    );
    // Cursor paragraph whose DOM already shows the edit: hash only.
    assert_eq!(
        existing_paragraph_update(false, true, true, false, true, true),
        ParagraphDomUpdate::HashOnly
    );
    // Forcing innerHTML updates always replaces.
    assert_eq!(
        existing_paragraph_update(false, true, true, true, true, true),
        ParagraphDomUpdate::Replace
    );
    // Syntax changed, or DOM length differs, or not the cursor paragraph: replace.
    assert_eq!(
        existing_paragraph_update(false, true, true, false, false, true),
        ParagraphDomUpdate::Replace
    );
    assert_eq!(
        existing_paragraph_update(false, true, true, false, true, false),
        ParagraphDomUpdate::Replace
    );
    assert_eq!(
        existing_paragraph_update(false, true, false, false, true, true),
        ParagraphDomUpdate::Replace
    );
    // Forced re-render replaces even with an unchanged hash.
    assert_eq!(
        existing_paragraph_update(true, false, true, false, true, true),
        ParagraphDomUpdate::Replace
    );
}

#[test]
fn text_node_at_utf16_offset() {
    let lens = [3usize, 0, 4];
    assert_eq!(find_text_node_at_offset(&lens, 0), Some((0, 0)));
    assert_eq!(find_text_node_at_offset(&lens, 2), Some((0, 2)));
    // A node end reaching the target takes it.
    assert_eq!(find_text_node_at_offset(&lens, 3), Some((0, 3)));
    assert_eq!(find_text_node_at_offset(&lens, 5), Some((2, 2)));
    assert_eq!(find_text_node_at_offset(&lens, 7), Some((2, 4)));
    // Past all text: the end of the last node.
    assert_eq!(find_text_node_at_offset(&lens, 50), Some((2, 4)));
    assert_eq!(find_text_node_at_offset(&[], 0), None);
}

fn node_map(node: &str, chars: std::ops::Range<usize>, in_node: usize, len: usize) -> OffsetMapping {
    OffsetMapping {
        byte_range: chars.clone(),
        char_range: chars,
        node_id: node.to_string(),
        char_offset_in_node: in_node,
        child_index: None,
        utf16_len: len,
    }
}

#[test]
fn node_offsets_from_mappings() {
    let mut p0 = para("p-0", 0, 10, "n0");
    p0.offset_map = vec![node_map("p-0-n0", 0..4, 0, 4), node_map("p-0-n1", 4..10, 0, 6)];
    let mut p1 = para("p-1", 11, 20, "n2");
    p1.offset_map = vec![node_map("p-1-n0", 11..15, 0, 4), node_map("p-1-n0", 15..20, 4, 5)];
    let paras = vec![p0, p1];
    assert_eq!(
        node_offset_lookup(&paras, "p-0-n1", 3),
        NodeOffset::InMapping { para: 0, char_offset: 7 }
    );
    // Shared boundary: the first mapping holding it wins.
    assert_eq!(
        node_offset_lookup(&paras, "p-1-n0", 4),
        NodeOffset::InMapping { para: 1, char_offset: 15 }
    );
    assert_eq!(
        node_offset_lookup(&paras, "p-1-n0", 6),
        NodeOffset::InMapping { para: 1, char_offset: 17 }
    );
    // Past everything mapped for the node: end of the furthest mapping.
    assert_eq!(node_offset_lookup(&paras, "p-1-n0", 30), NodeOffset::PastEnd { char_offset: 20 });
    assert_eq!(node_offset_lookup(&paras, "p-9-n9", 0), NodeOffset::Unmatched);
}

#[test]
fn points_on_the_editor_and_between_children() {
    let paras = vec![para("p-0", 0, 5, "n0"), para("p-1", 6, 12, "n1")];
    assert_eq!(editor_container_offset(0, 2, &paras), Some(0));
    assert_eq!(editor_container_offset(2, 2, &paras), Some(12));
    assert_eq!(editor_container_offset(5, 2, &paras), Some(12));
    assert_eq!(editor_container_offset(1, 2, &paras), None);
    assert_eq!(editor_container_offset(3, 2, &[]), None);
    assert_eq!(utf16_before_child(&[2, 5, 1], 0), 0);
    assert_eq!(utf16_before_child(&[2, 5, 1], 2), 7);
    assert_eq!(utf16_before_child(&[2, 5, 1], 9), 8);
}
