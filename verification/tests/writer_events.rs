use weaver_editor::resolve::ExtractedRef;
use weaver_editor::syntax::SyntaxType;
use weaver_editor::writer::events::{embed_content, EditorWriter, TextDirection, WriterEvent, WriterTag};
use weaver_editor::writer::{Alignment, SegmentedWriter};

#[test]
fn writer_html_block_is_a_paragraph() {
    let source = "<b>x</b>\n";
    let events = vec![
        (WriterEvent::Start(WriterTag::HtmlBlock), 0..9),
        (WriterEvent::Html("<b>x</b>\n".to_string()), 0..9),
        (WriterEvent::End(WriterTag::HtmlBlock), 0..9),
    ];
    let result = EditorWriter::new(source).run(events).unwrap();
    assert_eq!(
        result.html_segments,
        vec!["<p id=\"n0\" class=\"html-embed html-embed-block\"><b>x</b>\n</p>".to_string()]
    );
    assert_eq!(result.paragraph_ranges, vec![(0..9, 0..9)]);
    assert_eq!(result.offset_maps_by_paragraph.len(), 1);
    let maps = &result.offset_maps_by_paragraph[0];
    assert_eq!(maps.len(), 2);
    assert_eq!(maps[0].byte_range, 0..0);
    assert_eq!(maps[0].char_range, 0..0);
    assert_eq!(maps[0].node_id, "n0");
    assert_eq!(maps[0].child_index, Some(0));
    assert_eq!(maps[0].utf16_len, 0);
    assert_eq!(maps[1].byte_range, 0..9);
    assert_eq!(maps[1].char_range, 0..9);
    assert_eq!(maps[1].node_id, "n0");
    assert_eq!(maps[1].char_offset_in_node, 0);
    assert_eq!(maps[1].child_index, None);
    assert_eq!(maps[1].utf16_len, 9);
    assert_eq!(result.syntax_spans_by_paragraph.len(), 1);
    assert!(result.syntax_spans_by_paragraph[0].is_empty());
}

#[test]
fn writer_text_is_escaped() {
    let source = "a<b&c>";
    let events = vec![
        (WriterEvent::Start(WriterTag::Subscript), 0..6),
        (WriterEvent::Text("a<b&c>".to_string()), 0..6),
        (WriterEvent::End(WriterTag::Subscript), 0..6),
    ];
    let result = EditorWriter::new(source).run(events).unwrap();
    assert_eq!(result.html_segments, vec!["<sub>a&lt;b&amp;c&gt;</sub>".to_string()]);
    assert!(result.paragraph_ranges.is_empty());
    assert!(result.offset_maps_by_paragraph.is_empty());
}

#[test]
fn writer_maps_utf16_lengths() {
    let source = "\u{1F600}x";
    let events = vec![
        (WriterEvent::Start(WriterTag::HtmlBlock), 0..5),
        (WriterEvent::Text("\u{1F600}x".to_string()), 0..5),
        (WriterEvent::SoftBreak, 5..5),
        (WriterEvent::End(WriterTag::HtmlBlock), 0..5),
    ];
    let result = EditorWriter::new(source).with_auto_incrementing_prefix(3).run(events).unwrap();
    assert_eq!(
        result.html_segments,
        vec![
            "<p id=\"p-3-n0\" class=\"html-embed html-embed-block\">\u{1F600}x<br />\u{200B}</p>"
                .to_string()
        ]
    );
    assert_eq!(result.paragraph_ranges, vec![(0..5, 0..3)]);
    let maps = &result.offset_maps_by_paragraph[0];
    assert_eq!(maps.len(), 3);
    assert_eq!(maps[1].char_range, 0..2);
    assert_eq!(maps[1].utf16_len, 3);
    assert_eq!(maps[2].char_range, 2..3);
    assert_eq!(maps[2].char_offset_in_node, 3);
    assert_eq!(maps[2].utf16_len, 1);
}

#[test]
fn writer_metadata_block_writes_nothing() {
    let source = "title: x";
    let events = vec![
        (WriterEvent::Start(WriterTag::MetadataBlock), 0..8),
        (WriterEvent::Text("title: x".to_string()), 0..8),
        (WriterEvent::End(WriterTag::MetadataBlock), 0..8),
        (WriterEvent::InlineHtml("<i>".to_string()), 0..3),
    ];
    let result = EditorWriter::new(source).run(events).unwrap();
    assert_eq!(
        result.html_segments,
        vec![[
            "<span class=\"html-embed html-embed-inline\"><i></span>",
            "<span class=\"md-placeholder\" data-syn-id=\"s0\" data-char-start=\"3\" data-char-end=\"8\">le: x</span>"
        ]
        .concat()]
    );
    assert!(result.offset_maps_by_paragraph.is_empty());
}

#[test]
fn writer_process_event_steps() {
    let mut writer = EditorWriter::new("ab").with_offsets(0, 0, 7, 0);
    writer.start_tag(WriterTag::HtmlBlock, 0..2).unwrap();
    writer.process_event(WriterEvent::Text("ab".to_string()), 0..2).unwrap();
    writer.end_tag(WriterTag::HtmlBlock, 0..2).unwrap();
    let result = writer.run(Vec::new()).unwrap();
    assert_eq!(
        result.html_segments,
        vec![
            "<p id=\"n7\" class=\"html-embed html-embed-block\">ab</p>".to_string(),
            "<span class=\"md-placeholder\" data-syn-id=\"s0\" data-char-start=\"2\" data-char-end=\"4\">ab</span>"
                .to_string()
        ]
    );
    assert_eq!(result.paragraph_ranges, vec![(0..0, 0..2)]);
}

#[test]
fn writer_inline_code_spans() {
    let source = "`ab`";
    let events = vec![
        (WriterEvent::Start(WriterTag::HtmlBlock), 0..4),
        (WriterEvent::Code("ab".to_string()), 0..4),
        (WriterEvent::End(WriterTag::HtmlBlock), 0..4),
    ];
    let result = EditorWriter::new(source).run(events).unwrap();
    assert_eq!(
        result.html_segments,
        vec![[
            "<p id=\"n0\" class=\"html-embed html-embed-block\">",
            "<span class=\"md-syntax-inline\" data-syn-id=\"s0\" data-char-start=\"0\" data-char-end=\"1\" spellcheck=\"false\">`</span>",
            "<code>ab</code>",
            "<span class=\"md-syntax-inline\" data-syn-id=\"s1\" data-char-start=\"3\" data-char-end=\"4\" spellcheck=\"false\">`</span>",
            "</p>"
        ]
        .concat()]
    );
    assert_eq!(result.paragraph_ranges, vec![(0..4, 0..4)]);
    let spans = &result.syntax_spans_by_paragraph[0];
    assert_eq!(spans.len(), 2);
    assert_eq!(spans[0].syn_id, "s0");
    assert_eq!(spans[0].char_range, 0..1);
    assert_eq!(spans[0].syntax_type, SyntaxType::Inline);
    assert_eq!(spans[0].formatted_range, Some(0..4));
    assert_eq!(spans[1].syn_id, "s1");
    assert_eq!(spans[1].char_range, 3..4);
    assert_eq!(spans[1].formatted_range, Some(0..4));
    let maps = &result.offset_maps_by_paragraph[0];
    assert_eq!(maps[1].byte_range, 0..4);
    assert_eq!(maps[1].char_range, 1..3);
    assert_eq!(maps[1].utf16_len, 4);
}

#[test]
fn writer_hard_break_shows_spaces() {
    let source = "a  \nb";
    let events = vec![
        (WriterEvent::Start(WriterTag::HtmlBlock), 0..5),
        (WriterEvent::Text("a".to_string()), 0..1),
        (WriterEvent::HardBreak, 1..4),
        (WriterEvent::Text("b".to_string()), 4..5),
        (WriterEvent::End(WriterTag::HtmlBlock), 0..5),
    ];
    let result = EditorWriter::new(source).run(events).unwrap();
    assert_eq!(
        result.html_segments,
        vec![[
            "<p id=\"n0\" class=\"html-embed html-embed-block\">a",
            "<span class=\"md-placeholder\" data-syn-id=\"s0\" data-char-start=\"1\" data-char-end=\"3\">  </span>",
            "<br />\u{200B}b</p>"
        ]
        .concat()]
    );
    assert_eq!(result.paragraph_ranges, vec![(0..5, 0..5)]);
    let maps = &result.offset_maps_by_paragraph[0];
    assert_eq!(maps.len(), 5);
    assert_eq!((maps[2].byte_range.clone(), maps[2].char_range.clone()), (1..3, 1..3));
    assert_eq!((maps[2].char_offset_in_node, maps[2].utf16_len), (1, 2));
    assert_eq!((maps[3].byte_range.clone(), maps[3].char_range.clone()), (3..4, 3..4));
    assert_eq!((maps[3].char_offset_in_node, maps[3].utf16_len), (3, 1));
    assert_eq!((maps[4].byte_range.clone(), maps[4].char_range.clone()), (4..5, 4..5));
    assert_eq!(maps[4].char_offset_in_node, 4);
}

#[test]
fn writer_footnote_reference() {
    let source = "x[^1]";
    let events = vec![
        (WriterEvent::Start(WriterTag::HtmlBlock), 0..5),
        (WriterEvent::Text("x".to_string()), 0..1),
        (WriterEvent::FootnoteReference("1".to_string()), 1..5),
        (WriterEvent::End(WriterTag::HtmlBlock), 0..5),
    ];
    let result = EditorWriter::new(source).run(events).unwrap();
    assert_eq!(
        result.html_segments,
        vec![[
            "<p id=\"n0\" class=\"html-embed html-embed-block\">x",
            "<span class=\"footnote-ref\" data-char-start=\"1\" data-char-end=\"5\" data-footnote=\"1\">[^1]</span>",
            "</p>"
        ]
        .concat()]
    );
    let maps = &result.offset_maps_by_paragraph[0];
    assert_eq!((maps[2].byte_range.clone(), maps[2].char_range.clone()), (1..5, 1..5));
    assert_eq!(maps[2].utf16_len, 4);
}

#[test]
fn writer_table_cells_follow_alignments() {
    let events = vec![
        (WriterEvent::Start(WriterTag::Table(vec![Alignment::Left, Alignment::Unspecified])), 0..1),
        (WriterEvent::Start(WriterTag::TableHead), 0..1),
        (WriterEvent::Start(WriterTag::TableCell), 0..1),
        (WriterEvent::Text("a".to_string()), 0..1),
        (WriterEvent::End(WriterTag::TableCell), 0..1),
        (WriterEvent::Start(WriterTag::TableCell), 0..1),
        (WriterEvent::End(WriterTag::TableCell), 0..1),
        (WriterEvent::End(WriterTag::TableHead), 0..1),
        (WriterEvent::Start(WriterTag::TableRow), 0..1),
        (WriterEvent::Start(WriterTag::TableCell), 0..1),
        (WriterEvent::End(WriterTag::TableCell), 0..1),
        (WriterEvent::End(WriterTag::TableRow), 0..1),
        (WriterEvent::End(WriterTag::Table(Vec::new())), 0..1),
    ];
    let result = EditorWriter::new("a").run(events).unwrap();
    assert_eq!(
        result.html_segments,
        vec![[
            "<table><thead><tr>",
            "<th style=\"text-align: left\">a</th>",
            "<th></th>",
            "</tr></thead><tbody>",
            "<tr><td style=\"text-align: left\"></td></tr>",
            "</tbody></table>"
        ]
        .concat()]
    );
}

#[test]
fn writer_list_is_a_paragraph() {
    let events = vec![
        (WriterEvent::Start(WriterTag::List(Some(3))), 0..1),
        (WriterEvent::End(WriterTag::List(Some(3))), 0..1),
        (WriterEvent::Start(WriterTag::List(None)), 1..2),
        (WriterEvent::End(WriterTag::List(None)), 1..2),
    ];
    let result = EditorWriter::new("xy").run(events).unwrap();
    assert_eq!(
        result.html_segments,
        vec!["<ol start=\"3\"></ol>".to_string(), "<ul></ul>".to_string()]
    );
    assert_eq!(result.paragraph_ranges, vec![(0..1, 0..0), (1..2, 0..0)]);
    assert_eq!(result.offset_maps_by_paragraph.len(), 2);
    assert_eq!(result.syntax_spans_by_paragraph.len(), 2);
    assert_eq!(result.collected_refs_by_paragraph.len(), 2);
}

#[test]
fn writer_definition_list_nodes() {
    let events = vec![
        (WriterEvent::Start(WriterTag::DefinitionList), 0..2),
        (WriterEvent::Start(WriterTag::DefinitionListTitle), 0..1),
        (WriterEvent::Text("a".to_string()), 0..1),
        (WriterEvent::End(WriterTag::DefinitionListTitle), 0..1),
        (WriterEvent::Start(WriterTag::DefinitionListDefinition), 1..2),
        (WriterEvent::Text("b".to_string()), 1..2),
        (WriterEvent::End(WriterTag::DefinitionListDefinition), 1..2),
        (WriterEvent::End(WriterTag::DefinitionList), 0..2),
    ];
    let result = EditorWriter::new("ab").run(events).unwrap();
    assert_eq!(
        result.html_segments,
        vec!["<dl><dt data-node-id=\"n0\">a</dt><dd data-node-id=\"n1\">b</dd></dl>".to_string()]
    );
    assert!(result.paragraph_ranges.is_empty());
    let maps = &result.offset_maps_by_paragraph[0];
    assert_eq!(maps.len(), 2);
    assert_eq!((maps[0].node_id.as_str(), maps[0].char_range.clone()), ("n0", 0..1));
    assert_eq!((maps[1].node_id.as_str(), maps[1].char_range.clone()), ("n1", 1..2));
}

#[test]
fn writer_rule_shows_its_syntax() {
    let events = vec![
        (WriterEvent::Text("a".to_string()), 0..1),
        (WriterEvent::Rule, 2..6),
    ];
    let result = EditorWriter::new("a\n---\n").run(events).unwrap();
    assert_eq!(
        result.html_segments,
        vec![[
            "a\n",
            "<span class=\"md-syntax-block\" data-syn-id=\"s0\" data-char-start=\"1\" data-char-end=\"4\" spellcheck=\"false\">---</span>",
            "<div class=\"toggle-block\"><hr /></div>"
        ]
        .concat()]
    );
    let spans = &result.syntax_spans_by_paragraph[0];
    assert_eq!(spans.len(), 1);
    assert_eq!(spans[0].char_range, 1..4);
    assert_eq!(spans[0].syntax_type, SyntaxType::Block);
    assert_eq!(spans[0].formatted_range, None);
}

#[test]
fn segments_hold_all_written_text() {
    let mut w = SegmentedWriter::new();
    w.write_str("a").unwrap();
    w.new_segment();
    w.new_segment();
    w.write_str("").unwrap();
    w.write_str("bc").unwrap();
    let out = w.into_segments();
    assert_eq!(out, vec!["a".to_string(), "bc".to_string()]);
    assert!(out.iter().all(|s| !s.is_empty()));
    assert_eq!(out.concat(), "abc");
    assert!(out.len() <= 2 + 1);
}

#[test]
fn writer_trailing_paragraph_after_break() {
    let events = vec![
        (WriterEvent::Start(WriterTag::HtmlBlock), 0..1),
        (WriterEvent::Text("a".to_string()), 0..1),
        (WriterEvent::End(WriterTag::HtmlBlock), 0..1),
    ];
    let result = EditorWriter::new("a\n\n").run(events).unwrap();
    assert_eq!(
        result.html_segments,
        vec![
            "<p id=\"n0\" class=\"html-embed html-embed-block\">a</p>".to_string(),
            "<span id=\"n0\">\n\u{200B}</span>".to_string()
        ]
    );
    assert_eq!(result.paragraph_ranges, vec![(0..1, 0..1), (1..3, 1..2)]);
    let maps = &result.offset_maps_by_paragraph[1];
    assert_eq!(maps.len(), 1);
    assert_eq!((maps[0].byte_range.clone(), maps[0].char_range.clone()), (1..3, 1..2));
    assert_eq!((maps[0].char_offset_in_node, maps[0].utf16_len), (0, 2));
    assert!(result.syntax_spans_by_paragraph[1].is_empty());
}

#[test]
fn writer_embed_shows_its_url() {
    let events = vec![
        (WriterEvent::Start(WriterTag::HtmlBlock), 0..11),
        (
            WriterEvent::Embed {
                dest_url: "at://a".to_string(),
                title: String::new(),
                content: None,
            },
            0..11,
        ),
        (WriterEvent::End(WriterTag::HtmlBlock), 0..11),
    ];
    let result = EditorWriter::new("![[at://a]]").run(events).unwrap();
    assert_eq!(
        result.html_segments,
        vec![[
            "<p id=\"n0\" class=\"html-embed html-embed-block\">",
            "<span class=\"md-syntax-inline\" data-syn-id=\"s0\" data-char-start=\"0\" data-char-end=\"3\" spellcheck=\"false\">![[</span>",
            "<a class=\"image-alt embed-url\" href=\"https://alpha.weaver.sh/record/at://a\" data-syn-id=\"s0\" data-char-start=\"3\" data-char-end=\"9\" target=\"_blank\">at://a</a>",
            "<span class=\"md-syntax-inline\" data-syn-id=\"s0\" data-char-start=\"9\" data-char-end=\"11\" spellcheck=\"false\">]]</span>",
            "<div class=\"atproto-embed atproto-embed-placeholder\"><span class=\"embed-loading\">Loading embed...</span></div>",
            "</p>"
        ]
        .concat()]
    );
    let maps = &result.offset_maps_by_paragraph[0];
    assert_eq!(maps.len(), 4);
    assert_eq!((maps[2].char_range.clone(), maps[2].char_offset_in_node, maps[2].utf16_len), (3..9, 3, 6));
    let spans = &result.syntax_spans_by_paragraph[0];
    assert_eq!(spans.len(), 3);
    assert!(spans.iter().all(|s| s.syn_id == "s0" && s.formatted_range == Some(0..11)));
    assert_eq!(
        result.collected_refs_by_paragraph.last().unwrap(),
        &vec![ExtractedRef::AtEmbed { uri: "at://a".to_string(), alt_text: None }]
    );
}

#[test]
fn writer_embed_content_written() {
    let events = vec![(
        WriterEvent::Embed {
            dest_url: "https://x".to_string(),
            title: String::new(),
            content: Some("<b>hi</b>".to_string()),
        },
        0..14,
    )];
    let result = EditorWriter::new("![[https://x]]").run(events).unwrap();
    assert!(result.html_segments[0].ends_with("</span><b>hi</b>"));
    assert!(result.html_segments[0].contains("href=\"https://x\""));
    assert!(result.collected_refs_by_paragraph.last().map_or(true, |r| r.is_empty()));
}

struct FixedEmbeds;

impl weaver_editor::render::EmbedContentProvider for FixedEmbeds {
    fn get_embed_content(&self, tag: &weaver_editor::render::EmbedTag) -> Option<String> {
        Some(format!("<i>{}</i>", tag.dest_url))
    }
}

#[test]
fn writer_embed_content_prefers_attribute() {
    use_embed_content();
}

fn use_embed_content() {
    let tag = weaver_editor::render::EmbedTag {
        dest_url: "at://a".to_string(),
        title: String::new(),
        id: String::new(),
    };
    assert_eq!(
        embed_content(Some("<b>x</b>".to_string()), Some(&FixedEmbeds), &tag),
        Some("<b>x</b>".to_string())
    );
    assert_eq!(embed_content(None, Some(&FixedEmbeds), &tag), Some("<i>at://a</i>".to_string()));
    assert_eq!(embed_content::<FixedEmbeds>(None, None, &tag), None);
}

#[test]
fn writer_list_item_marker() {
    let events = vec![
        (WriterEvent::Start(WriterTag::List(None)), 0..3),
        (WriterEvent::Start(WriterTag::Item), 0..3),
        (WriterEvent::Text("a".to_string()), 2..3),
        (WriterEvent::End(WriterTag::Item), 0..3),
        (WriterEvent::End(WriterTag::List(None)), 0..3),
    ];
    let result = EditorWriter::new("- a").run(events).unwrap();
    assert_eq!(
        result.html_segments,
        vec![[
            "<ul><li data-node-id=\"n0\">",
            "<span class=\"md-syntax-block\" data-syn-id=\"s0\" data-char-start=\"0\" data-char-end=\"2\" spellcheck=\"false\">- </span>",
            "a</li></ul>"
        ]
        .concat()]
    );
    assert_eq!(result.paragraph_ranges, vec![(0..3, 0..3)]);
    let maps = &result.offset_maps_by_paragraph[0];
    assert_eq!(maps.len(), 2);
    assert_eq!((maps[0].byte_range.clone(), maps[0].char_range.clone()), (0..2, 0..2));
    assert_eq!((maps[1].char_range.clone(), maps[1].char_offset_in_node), (2..3, 2));
    assert_eq!(result.syntax_spans_by_paragraph[0][0].syntax_type, SyntaxType::Block);
}

#[test]
fn writer_ordered_item_marker() {
    let events = vec![(WriterEvent::Start(WriterTag::Item), 0..5)];
    let result = EditorWriter::new("12. x").run(events).unwrap();
    assert_eq!(
        result.html_segments[0],
        [
            "<li data-node-id=\"n0\">",
            "<span class=\"md-syntax-block\" data-syn-id=\"s0\" data-char-start=\"0\" data-char-end=\"4\" spellcheck=\"false\">12. </span>",
            "<span class=\"md-placeholder\" data-syn-id=\"s1\" data-char-start=\"4\" data-char-end=\"5\">x</span>"
        ]
        .concat()
    );
}

#[test]
fn writer_emphasis_shows_its_markers() {
    let source = "*a*";
    let events = vec![
        (WriterEvent::Start(WriterTag::Paragraph(None)), 0..3),
        (WriterEvent::Start(WriterTag::Emphasis), 0..3),
        (WriterEvent::Text("a".to_string()), 1..2),
        (WriterEvent::End(WriterTag::Emphasis), 0..3),
        (WriterEvent::End(WriterTag::Paragraph(None)), 0..3),
    ];
    let result = EditorWriter::new(source).run(events).unwrap();
    assert_eq!(
        result.html_segments[0],
        "<p id=\"n0\"><span class=\"md-syntax-inline\" data-syn-id=\"s0\" data-char-start=\"0\" data-char-end=\"1\">*</span><em>a</em></p>"
    );
    assert_eq!(result.paragraph_ranges[0], (0..3, 0..2));
    let spans = &result.syntax_spans_by_paragraph[0];
    assert_eq!(spans.len(), 1);
    assert_eq!(spans[0].syn_id, "s0");
    assert_eq!(spans[0].char_range, 0..1);
    assert_eq!(spans[0].syntax_type, SyntaxType::Inline);
    assert_eq!(spans[0].formatted_range, Some(0..2));
    let maps = &result.offset_maps_by_paragraph[0];
    assert_eq!(maps[1].byte_range, 0..1);
    assert_eq!(maps[1].char_range, 0..1);
    assert_eq!(maps[2].char_range, 1..2);
}

#[test]
fn writer_strong_and_strikethrough_markers() {
    let source = "__b__ ~~c~~";
    let events = vec![
        (WriterEvent::Start(WriterTag::Paragraph(Some(TextDirection::RightToLeft))), 0..11),
        (WriterEvent::Start(WriterTag::Strong), 0..5),
        (WriterEvent::Text("b".to_string()), 2..3),
        (WriterEvent::End(WriterTag::Strong), 0..5),
        (WriterEvent::Start(WriterTag::Strikethrough), 6..11),
        (WriterEvent::Text("c".to_string()), 8..9),
        (WriterEvent::End(WriterTag::Strikethrough), 6..11),
        (WriterEvent::End(WriterTag::Paragraph(None)), 0..11),
    ];
    let result = EditorWriter::new(source).run(events).unwrap();
    let html = &result.html_segments[0];
    assert!(html.starts_with("<p id=\"n0\" dir=\"rtl\"><span class=\"md-syntax-inline\" data-syn-id=\"s0\" data-char-start=\"0\" data-char-end=\"2\">__</span><strong>b</strong>"));
    assert!(html.contains("data-syn-id=\"s1\" data-char-start=\"3\" data-char-end=\"5\">~~</span><s>c</s></p>"));
    let spans = &result.syntax_spans_by_paragraph[0];
    assert_eq!(spans.len(), 2);
    assert_eq!(spans[0].formatted_range, Some(0..3));
    assert_eq!(spans[1].formatted_range, Some(3..6));
}

#[test]
fn writer_plain_paragraph_without_markers() {
    let source = "ab";
    let events = vec![
        (WriterEvent::Start(WriterTag::Paragraph(Some(TextDirection::LeftToRight))), 0..2),
        (WriterEvent::Start(WriterTag::Emphasis), 0..2),
        (WriterEvent::Text("ab".to_string()), 0..2),
        (WriterEvent::End(WriterTag::Emphasis), 0..2),
        (WriterEvent::End(WriterTag::Paragraph(None)), 0..2),
    ];
    let result = EditorWriter::new(source).run(events).unwrap();
    assert_eq!(result.html_segments[0], "<p id=\"n0\" dir=\"ltr\"><em>ab</em></p>");
    assert!(result.syntax_spans_by_paragraph[0].is_empty());
}

#[test]
fn writer_footnote_definition_prefix() {
    let source = "[^1]: note";
    let events = vec![
        (WriterEvent::Start(WriterTag::FootnoteDefinition("1".to_string())), 0..10),
        (WriterEvent::Text("note".to_string()), 6..10),
        (WriterEvent::End(WriterTag::FootnoteDefinition("1".to_string())), 0..10),
    ];
    let result = EditorWriter::new(source).run(events).unwrap();
    assert_eq!(
        result.html_segments[0],
        "<div class=\"footnote-def-editor\" data-node-id=\"n0\"><span class=\"footnote-def-syntax\" data-char-start=\"0\" data-char-end=\"6\">[^1]: </span>note</div>"
    );
    assert_eq!(result.paragraph_ranges[0], (0..10, 0..10));
    let maps = &result.offset_maps_by_paragraph[0];
    assert_eq!(maps[0].byte_range, 0..0);
    assert_eq!(maps[0].child_index, Some(0));
    assert_eq!(maps[1].byte_range, 0..6);
    assert_eq!(maps[1].char_range, 0..6);
    assert_eq!(maps[2].char_range, 6..10);
}
