use weaver_editor::offset_map::OffsetMapping;
use weaver_editor::render_cache::{
    apply_delta, assemble_fast_path, assemble_slow_path, cached_render_result, cached_render_stands, cursor_para_override,
    empty_document_render, fast_path_possible, fast_path_ranges, is_boundary_affecting,
    offset_maps_from, parsed_para_id_start, reuse_plan, shift_offset_maps, shift_ranges,
    shift_syntax_spans, slow_path_para_id, CachedParagraph, RenderCache,
};
use weaver_editor::syntax::{SyntaxSpanInfo, SyntaxType};
use weaver_editor::resolve::ExtractedRef;
use weaver_editor::types::EditInfo;
use web_time::Instant;
use weaver_editor::paragraph::hash_source;
use weaver_editor::text::EditorRope;
use weaver_editor::writer::events::{EditorWriter, WriterEvent, WriterTag};
use weaver_editor::writer::WriterResult;

fn edit(pos: usize, newline: bool, zone: bool) -> EditInfo {
    EditInfo {
        edit_char_pos: pos,
        inserted_len: 1,
        deleted_len: 0,
        contains_newline: newline,
        in_block_syntax_zone: zone,
        doc_len_after: 0,
        timestamp: Instant::now(),
    }
}

fn para(id: &str, chars: std::ops::Range<usize>) -> CachedParagraph {
    CachedParagraph {
        id: id.to_string(),
        source_hash: 0,
        byte_range: chars.clone(),
        char_range: chars,
        html: String::new(),
        offset_map: vec![],
        syntax_spans: vec![],
        collected_refs: vec![],
    }
}

fn cache(paras: Vec<CachedParagraph>) -> RenderCache {
    RenderCache { paragraphs: paras, next_node_id: 0, next_syn_id: 0, next_para_id: 7 }
}

#[test]
fn cache_apply_delta_saturates() {
    assert_eq!(apply_delta(10, 5), 15);
    assert_eq!(apply_delta(10, -3), 7);
    assert_eq!(apply_delta(3, -10), 0);
    assert_eq!(apply_delta(usize::MAX - 1, 5), usize::MAX);
}

#[test]
fn cache_boundary_affecting() {
    assert!(is_boundary_affecting(&edit(0, true, false)));
    assert!(is_boundary_affecting(&edit(0, false, true)));
    assert!(!is_boundary_affecting(&edit(0, false, false)));
}

#[test]
fn cache_fast_path_shifts_later_paragraphs() {
    let c = cache(vec![para("p-0", 0..5), para("p-1", 7..12)]);
    let e = edit(2, false, false);
    assert!(fast_path_possible(Some(&c), Some(&e)));
    assert!(!fast_path_possible(None, Some(&e)));
    let ranges = fast_path_ranges(&c, &e, 14, 14).unwrap();
    assert_eq!(ranges, vec![(0..7, 0..7), (9..14, 9..14)]);
    assert_eq!(shift_ranges(&(0..1), &(0..1), 5, 3, 3), (0..1, 0..1));
}

#[test]
fn cache_fast_path_rejects_backward_ranges() {
    let c = cache(vec![para("p-0", 4..5), para("p-1", 7..12)]);
    let e = edit(4, false, false);
    // Text shrank by ten chars: the edited paragraph would end before it starts.
    assert!(fast_path_ranges(&c, &e, 2, 2).is_none());
}

#[test]
fn cache_reuse_plan_keeps_paragraphs_before_edit() {
    let c = cache(vec![para("p-0", 0..5), para("p-1", 7..12), para("p-2", 14..20)]);
    assert_eq!(reuse_plan(Some(&c), Some(&edit(18, false, false))), (2, 12, 12));
    // An edit just after a paragraph start re-parses the one before too.
    assert_eq!(reuse_plan(Some(&c), Some(&edit(8, false, false))), (0, 0, 0));
    assert_eq!(reuse_plan(Some(&c), Some(&edit(15, false, false))), (1, 5, 5));
    assert_eq!(reuse_plan(Some(&c), Some(&edit(40, false, false))), (3, 20, 20));
    assert_eq!(reuse_plan(None, Some(&edit(3, false, false))), (0, 0, 0));
}

#[test]
fn cache_paragraph_ids() {
    let c = cache(vec![para("p-0", 0..5), para("p-3", 7..12)]);
    assert_eq!(parsed_para_id_start(0, Some(&c)), 0);
    assert_eq!(parsed_para_id_start(1, Some(&c)), 7);
    let o = cursor_para_override(Some(&c), 9, 1);
    assert_eq!(o, Some((0, "p-3".to_string())));
    assert_eq!(cursor_para_override(Some(&c), 3, 1), None);
    let reused = vec![para("p-0", 0..5)];
    assert_eq!(slow_path_para_id(0, &reused, &o, 7), "p-0");
    assert_eq!(slow_path_para_id(1, &reused, &o, 7), "p-3");
    assert_eq!(slow_path_para_id(2, &reused, &o, 7), "p-8");
}

#[test]
fn cache_empty_document() {
    let r = empty_document_render();
    assert_eq!(r.paragraphs.len(), 1);
    assert_eq!(r.paragraphs[0].id, "p-0");
    assert_eq!(r.paragraphs[0].html, "<span id=\"n0\">\u{200B}</span>");
    assert_eq!(r.cache.next_para_id, 1);
    assert_eq!(r.cache.next_node_id, 1);
}

#[test]
fn cache_cached_result_collects_refs() {
    let mut a = para("p-0", 0..5);
    a.collected_refs.push(ExtractedRef::AtLink { uri: "at://x".to_string() });
    let mut b = para("p-1", 6..9);
    b.collected_refs.push(ExtractedRef::AtLink { uri: "at://y".to_string() });
    let r = cached_render_result(&cache(vec![a, b]));
    assert_eq!(r.paragraphs.len(), 2);
    assert_eq!(r.paragraphs[1].id, "p-1");
    assert_eq!(r.collected_refs.len(), 2);
    assert_eq!(r.collected_refs[1], ExtractedRef::AtLink { uri: "at://y".to_string() });
    assert_eq!(r.cache.next_para_id, 7);
}

#[test]
fn cache_delta_round_trip() {
    for (v, d) in [(10usize, 5isize), (10, -4), (0, 7), (usize::MAX - 3, 3), (100, -100)] {
        assert_eq!(apply_delta(apply_delta(v, d), -d), v);
    }
}

fn map(chars: std::ops::Range<usize>, bytes: std::ops::Range<usize>) -> OffsetMapping {
    OffsetMapping {
        byte_range: bytes,
        char_range: chars,
        node_id: "n0".to_string(),
        char_offset_in_node: 2,
        child_index: None,
        utf16_len: 3,
    }
}

#[test]
fn cache_stands_only_unedited_at_same_length() {
    let c = cache(vec![para("p-0", 0..5), para("p-1", 6..12)]);
    assert!(cached_render_stands(Some(&c), None, 12));
    assert!(!cached_render_stands(Some(&c), None, 13));
    assert!(!cached_render_stands(Some(&c), Some(&edit(3, false, false)), 12));
    assert!(!cached_render_stands(None, None, 0));
}

#[test]
fn offset_maps_shift_and_move() {
    let mut maps = vec![map(0..3, 0..4), map(3..5, 4..8)];
    shift_offset_maps(&mut maps, 10, 20);
    assert_eq!(maps[0].char_range, 10..13);
    assert_eq!(maps[0].byte_range, 20..24);
    assert_eq!(maps[1].char_range, 13..15);
    assert_eq!(maps[1].char_offset_in_node, 2);
    shift_offset_maps(&mut maps, -12, -21);
    assert_eq!(maps[0].char_range, 0..1);
    assert_eq!(maps[0].byte_range, 0..3);
    let mut fresh = vec![map(0..2, 0..2)];
    offset_maps_from(&mut fresh, 7, 9);
    assert_eq!(fresh[0].char_range, 7..9);
    assert_eq!(fresh[0].byte_range, 9..11);
}

#[test]
fn syntax_spans_shift_together() {
    let mut spans = vec![SyntaxSpanInfo {
        syn_id: "s0".to_string(),
        char_range: 4..6,
        syntax_type: SyntaxType::Inline,
        formatted_range: Some(4..12),
    }];
    shift_syntax_spans(&mut spans, 3);
    assert_eq!(spans[0].char_range, 7..9);
    assert_eq!(spans[0].formatted_range, Some(7..15));
    shift_syntax_spans(&mut spans, -7);
    assert_eq!(spans[0].char_range, 0..2);
    assert_eq!(spans[0].formatted_range, Some(0..8));
}

#[test]
fn cache_apply_delta_any_delta() {
    assert_eq!(apply_delta(3, -5), 0);
    assert_eq!(apply_delta(3, 2), 5);
    assert_eq!(apply_delta(usize::MAX, 1), usize::MAX);
    assert_eq!(apply_delta(usize::MAX, isize::MIN), usize::MAX - (isize::MAX as usize) - 1);
    assert_eq!(apply_delta(5, isize::MIN), 0);
}

#[test]
fn fast_path_assembles_paragraphs() {
    let cache = RenderCache {
        paragraphs: vec![
            CachedParagraph {
                id: "p-0".to_string(),
                source_hash: 0,
                byte_range: 0..2,
                char_range: 0..2,
                html: "<p>ab</p>".to_string(),
                offset_map: vec![],
                syntax_spans: vec![],
                collected_refs: vec![],
            },
            CachedParagraph {
                id: "p-1".to_string(),
                source_hash: 0,
                byte_range: 4..6,
                char_range: 4..6,
                html: "<p>cd</p>".to_string(),
                offset_map: vec![OffsetMapping {
                    byte_range: 4..6,
                    char_range: 4..6,
                    node_id: "p-1-n0".to_string(),
                    char_offset_in_node: 0,
                    child_index: None,
                    utf16_len: 2,
                }],
                syntax_spans: vec![],
                collected_refs: vec![],
            },
        ],
        next_node_id: 3,
        next_syn_id: 4,
        next_para_id: 2,
    };
    let text = EditorRope::from_str("aXb\n\ncd");
    let rendered = EditorWriter::new("aXb").run(vec![
        (WriterEvent::Start(WriterTag::HtmlBlock), 0..3),
        (WriterEvent::Text("aXb".to_string()), 0..3),
        (WriterEvent::End(WriterTag::HtmlBlock), 0..3),
    ]);
    let r = assemble_fast_path(&text, &cache, &edit(1, false, false), rendered);
    assert_eq!(r.paragraphs.len(), 2);
    let p0 = &r.paragraphs[0];
    assert_eq!(p0.id, "p-0");
    assert_eq!((p0.byte_range.clone(), p0.char_range.clone()), (0..3, 0..3));
    assert_eq!(p0.html, "<p id=\"n0\" class=\"html-embed html-embed-block\">aXb</p>");
    assert_eq!(p0.offset_map.len(), 2);
    assert_eq!(p0.offset_map[1].char_range, 0..3);
    assert_eq!(p0.source_hash, hash_source("aXb"));
    let p1 = &r.paragraphs[1];
    assert_eq!(p1.id, "p-1");
    assert_eq!((p1.byte_range.clone(), p1.char_range.clone()), (5..7, 5..7));
    assert_eq!(p1.html, "<p>cd</p>");
    assert_eq!(p1.offset_map[0].char_range, 5..7);
    assert_eq!(p1.offset_map[0].byte_range, 5..7);
    assert_eq!(p1.source_hash, hash_source("cd"));
    assert!(r.collected_refs.is_empty());
    assert_eq!(r.cache.paragraphs.len(), 2);
    assert_eq!(r.cache.paragraphs[1].html, "<p>cd</p>");
    assert_eq!((r.cache.next_node_id, r.cache.next_syn_id, r.cache.next_para_id), (0, 0, 2));
}

#[test]
fn slow_path_assembles_reused_and_parsed_paragraphs() {
    let mut p0 = para("p-0", 0..2);
    p0.html = "<p>ab</p>".to_string();
    let cache = RenderCache {
        paragraphs: vec![p0, para("p-1", 4..6), para("p-2", 8..10)],
        next_node_id: 5,
        next_syn_id: 6,
        next_para_id: 7,
    };
    let text = EditorRope::from_str("ab\n\ncd\n\neXf");
    let rendered = WriterResult {
        html_segments: vec!["<p>cd</p>".to_string(), "<p>eXf</p>".to_string()],
        offset_maps_by_paragraph: vec![vec![map(2..4, 2..4)], vec![]],
        paragraph_ranges: vec![(2..4, 2..4), (6..9, 6..9)],
        syntax_spans_by_paragraph: vec![vec![], vec![]],
        collected_refs_by_paragraph: vec![vec![], vec![]],
    };
    let e = edit(9, false, false);
    let r = assemble_slow_path(&text, Some(&cache), Some(&e), 9, Ok(rendered));
    assert_eq!(r.paragraphs.len(), 3);
    let ids: Vec<&str> = r.paragraphs.iter().map(|p| p.id.as_str()).collect();
    assert_eq!(ids, vec!["p-0", "p-7", "p-2"]);
    assert_eq!(r.paragraphs[0].html, "<p>ab</p>");
    assert_eq!(r.paragraphs[0].char_range, 0..2);
    assert_eq!((r.paragraphs[1].byte_range.clone(), r.paragraphs[1].char_range.clone()), (4..6, 4..6));
    assert_eq!((r.paragraphs[2].byte_range.clone(), r.paragraphs[2].char_range.clone()), (8..11, 8..11));
    assert_eq!(r.paragraphs[1].html, "<p>cd</p>");
    assert_eq!(r.paragraphs[1].offset_map[0].char_range, 4..6);
    assert_eq!(r.paragraphs[1].offset_map[0].byte_range, 4..6);
    assert_eq!(r.paragraphs[0].source_hash, hash_source("ab"));
    assert_eq!(r.paragraphs[1].source_hash, hash_source("cd"));
    assert_eq!(r.paragraphs[2].source_hash, hash_source("eXf"));
    assert_eq!(r.cache.paragraphs.len(), 3);
    assert_eq!(r.cache.paragraphs[2].id, "p-2");
    assert_eq!(r.cache.paragraphs[1].char_range, 4..6);
    assert_eq!((r.cache.next_node_id, r.cache.next_syn_id, r.cache.next_para_id), (0, 0, 9));
    assert!(r.collected_refs.is_empty());
}

#[test]
fn slow_path_failed_render_is_empty() {
    let cache = cache(vec![para("p-0", 0..2)]);
    let text = EditorRope::from_str("ab");
    let r = assemble_slow_path(&text, Some(&cache), None, 0, Err(std::fmt::Error));
    assert!(r.paragraphs.is_empty());
    assert!(r.cache.paragraphs.is_empty());
    assert!(r.collected_refs.is_empty());
}
