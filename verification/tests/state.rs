use weaver_editor::syntax::{SyntaxSpanInfo, SyntaxType};
use weaver_editor::writer::state::{
    CodeBlockContext, CurrentNodeState, NodeIdGenerator, ParagraphBuildState, ParagraphTracker,
    Utf16Tracker,
};
use weaver_editor::writer::SegmentedWriter;

#[test]
fn test_node_id_generator() {
    let mut generator = NodeIdGenerator::default();
    generator.prefix = Some("p-0".to_string());

    assert_eq!(generator.next_node().as_str(), "p-0-n0");
    assert_eq!(generator.next_node().as_str(), "p-0-n1");
    assert_eq!(generator.next_syn().as_str(), "s0");
    assert_eq!(generator.next_syn().as_str(), "s1");
}

#[test]
fn test_node_id_generator_auto_increment() {
    let mut generator = NodeIdGenerator::default();
    generator.auto_increment_base = Some(0);
    generator.prefix = Some("p-0".to_string());

    assert_eq!(generator.next_node().as_str(), "p-0-n0");
    generator.next_paragraph();
    assert_eq!(generator.prefix, Some("p-1".to_string()));
    assert_eq!(generator.next_node().as_str(), "p-1-n0");
}

#[test]
fn test_paragraph_tracker() {
    let mut tracker = ParagraphTracker::default();

    tracker.start_paragraph(0, 0);
    let ranges = tracker.end_paragraph(10, 10);
    assert_eq!(ranges, Some((0..10, 0..10)));

    tracker.list_depth = 1;
    assert!(tracker.in_list());
    assert!(!tracker.should_track_boundaries());
}

#[test]
fn test_code_block_context() {
    let mut ctx = CodeBlockContext::default();
    assert!(!ctx.is_active());

    ctx.buffer = Some((Some("rust".to_string()), String::new()));
    assert!(ctx.is_active());

    ctx.clear();
    assert!(!ctx.is_active());
}

#[test]
fn state_node_ids_without_prefix_and_override() {
    let mut generator = NodeIdGenerator::default();
    assert_eq!(generator.next_node(), "n0");
    assert_eq!(generator.current_prefix(), "p-0");
    generator.auto_increment_base = Some(5);
    generator.static_override = Some((1, "p-keep".to_string()));
    assert_eq!(generator.current_prefix(), "p-5");
    generator.next_paragraph();
    assert_eq!(generator.prefix, Some("p-keep".to_string()));
    assert_eq!(generator.current_prefix(), "p-keep");
    assert_eq!(generator.next_node(), "p-keep-n0");
    generator.next_paragraph();
    assert_eq!(generator.prefix, Some("p-7".to_string()));
}

#[test]
fn state_end_without_start_tracks_nothing() {
    let mut tracker = ParagraphTracker::default();
    assert_eq!(tracker.end_paragraph(3, 3), None);
    assert!(tracker.ranges.is_empty());
    tracker.in_footnote_def = true;
    assert!(!tracker.should_track_boundaries());
}

#[test]
fn state_finalize_paired_format_sets_both_spans() {
    let mut st = ParagraphBuildState::default();
    st.syntax_spans.push(SyntaxSpanInfo {
        syn_id: "s0".to_string(),
        char_range: 0..2,
        syntax_type: SyntaxType::Inline,
        formatted_range: None,
    });
    st.syntax_spans.push(SyntaxSpanInfo {
        syn_id: "s1".to_string(),
        char_range: 7..9,
        syntax_type: SyntaxType::Inline,
        formatted_range: None,
    });
    st.pending_inline_formats.push(("s0".to_string(), 0));
    st.finalize_paired_format(9);
    assert_eq!(st.syntax_spans[0].formatted_range, Some(0..9));
    assert_eq!(st.syntax_spans[1].formatted_range, Some(0..9));
    assert!(st.pending_inline_formats.is_empty());
    // Nothing pending: nothing changes.
    st.finalize_paired_format(20);
    assert_eq!(st.syntax_spans[1].formatted_range, Some(0..9));
}

#[test]
fn state_utf16_checkpoints() {
    let mut t = Utf16Tracker::new();
    assert_eq!(t.last(), (0, 0));
    t.checkpoint(0, 5);
    assert_eq!(t.checkpoints.len(), 1);
    t.checkpoint(3, 4);
    assert_eq!(t.last(), (3, 4));
    assert_eq!(Utf16Tracker::default().last(), (0, 0));
}

#[test]
fn state_current_node_begin_end() {
    let mut n = CurrentNodeState::default();
    n.begin("n3".to_string());
    n.char_offset = 4;
    assert_eq!(n.id.as_deref(), Some("n3"));
    n.end();
    assert!(n.id.is_none());
    assert_eq!(n.char_offset, 0);
}

#[test]
fn state_segmented_writer_keeps_text() {
    let mut w = SegmentedWriter::new();
    w.write_str("<p>").unwrap();
    w.write_str("a</p>").unwrap();
    assert_eq!(w.current_len(), 8);
    w.new_segment();
    w.new_segment();
    w.write_str("<p>é</p>").unwrap();
    assert_eq!(w.current_len(), 9);
    let segs = w.into_segments();
    assert_eq!(segs, vec!["<p>a</p>".to_string(), "<p>é</p>".to_string()]);
    assert!(SegmentedWriter::default().into_segments().is_empty());
}

#[test]
fn state_take_all_empties_the_paragraph() {
    let mut st = ParagraphBuildState::default();
    st.syntax_spans.push(SyntaxSpanInfo {
        syn_id: "s3".to_string(),
        char_range: 1..2,
        syntax_type: SyntaxType::Block,
        formatted_range: None,
    });
    st.pending_inline_formats.push(("s9".to_string(), 4));
    let (maps, spans, refs) = st.take_all();
    assert!(maps.is_empty());
    assert_eq!(spans.len(), 1);
    assert_eq!(spans[0].syn_id, "s3");
    assert!(refs.is_empty());
    assert!(st.syntax_spans.is_empty());
    assert_eq!(st.pending_inline_formats.len(), 1);
}
