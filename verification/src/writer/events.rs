//! The editor's HTML writer: turns markdown events into HTML segments, offset
//! maps and paragraph ranges.
//!
//! Events carry the markdown parser's output as plain values; the writer keeps
//! the state that rendering needs while it walks the document.
use super::state::{
    para_id, Alignment, CodeBlockContext, CurrentNodeState, NodeIdGenerator, ParagraphBuildState,
    ParagraphTracker, TableState, Utf16Tracker,
};
use super::text_units::{
    byte_slice, escape_attr, escape_body, escape_html_body_text, is_char_boundary, lemma_utf16_len_bound,
    utf16_len, utf16_len_between,
};
use super::{closed_segments, texts, SegmentedWriter, WriterResult};
use crate::offset_map::OffsetMapping;
use crate::resolve::ExtractedRef;
use crate::strings::{decimal, str_byte_len, str_to_chars, usize_to_string, utf8_len};
use crate::syntax::{SyntaxSpanInfo, SyntaxType};
use vstd::prelude::*;

verus! {

/// A markdown container that the writer opens and closes.
#[derive(Debug)]
pub enum WriterTag {
    /// A block of raw HTML, rendered as a paragraph of its own.
    HtmlBlock,
    Subscript,
    Superscript,
    /// Front matter: nothing inside it is written.
    MetadataBlock,
    /// A table, with the alignment of each column.
    Table(Vec<Alignment>),
    TableHead,
    TableRow,
    TableCell,
    /// A list: ordered from the given number, or unordered.
    List(Option<u64>),
    /// An item of a list.
    Item,
    DefinitionList,
    DefinitionListTitle,
    DefinitionListDefinition,
    /// A paragraph, with the direction of its text when the source from where
    /// it starts holds a strongly directional character (the caller finds it).
    Paragraph(Option<TextDirection>),
    /// Emphasised text, `*..*` or `_.._`.
    Emphasis,
    /// Strong text, `**..**` or `__..__`.
    Strong,
    /// Struck-through text, `~~..~~`.
    Strikethrough,
    /// A footnote definition, with the footnote's name.
    FootnoteDefinition(String),
}

/// The direction of a paragraph's text.
#[derive(Debug, Clone, Copy, PartialEq, Eq)]
pub enum TextDirection {
    LeftToRight,
    RightToLeft,
}

/// A markdown event as the parser hands it to the writer.
#[derive(Debug)]
pub enum WriterEvent {
    Start(WriterTag),
    End(WriterTag),
    Text(String),
    /// Inline code, with its text.
    Code(String),
    Html(String),
    InlineHtml(String),
    SoftBreak,
    /// Two or more trailing spaces and a newline.
    HardBreak,
    /// A thematic break.
    Rule,
    /// A footnote reference, with the footnote's name.
    FootnoteReference(String),
    /// An embed, `![[url]]`, with the URL it points at, its title, and the
    /// HTML content found for it, if any.
    Embed { dest_url: String, title: String, content: Option<String> },
    WeaverBlock(String),
}

/// An offset mapping with its node ID as text.
#[verifier::ext_equal]
pub struct MapView {
    pub byte_range: std::ops::Range<usize>,
    pub char_range: std::ops::Range<usize>,
    pub node_id: Seq<char>,
    pub char_offset_in_node: usize,
    pub child_index: Option<usize>,
    pub utf16_len: usize,
}

pub open spec fn map_view(m: OffsetMapping) -> MapView {
    MapView {
        byte_range: m.byte_range,
        char_range: m.char_range,
        node_id: m.node_id@,
        char_offset_in_node: m.char_offset_in_node,
        child_index: m.child_index,
        utf16_len: m.utf16_len,
    }
}

pub open spec fn maps_view(s: Seq<OffsetMapping>) -> Seq<MapView> {
    s.map_values(|m: OffsetMapping| map_view(m))
}

/// A syntax span with its ID as text.
#[verifier::ext_equal]
pub struct SpanView {
    pub syn_id: Seq<char>,
    pub char_range: std::ops::Range<usize>,
    pub syntax_type: SyntaxType,
    pub formatted_range: Option<std::ops::Range<usize>>,
}

pub open spec fn span_view(s: SyntaxSpanInfo) -> SpanView {
    SpanView {
        syn_id: s.syn_id@,
        char_range: s.char_range,
        syntax_type: s.syntax_type,
        formatted_range: s.formatted_range,
    }
}

pub open spec fn spans_view(s: Seq<SyntaxSpanInfo>) -> Seq<SpanView> {
    s.map_values(|x: SyntaxSpanInfo| span_view(x))
}

/// The node ID generator with its texts.
#[verifier::ext_equal]
pub struct IdsView {
    pub prefix: Option<Seq<char>>,
    pub auto_increment_base: Option<usize>,
    pub static_override: Option<(usize, Seq<char>)>,
    pub current_paragraph: usize,
    pub next_node_id: usize,
    pub next_syn_id: usize,
}

pub open spec fn ids_view(g: NodeIdGenerator) -> IdsView {
    IdsView {
        prefix: match g.prefix {
            Some(p) => Some(p@),
            None => None,
        },
        auto_increment_base: g.auto_increment_base,
        static_override: match g.static_override {
            Some(o) => Some((o.0, o.1@)),
            None => None,
        },
        current_paragraph: g.current_paragraph,
        next_node_id: g.next_node_id,
        next_syn_id: g.next_syn_id,
    }
}

/// The ID that the generator gives the next node.
pub open spec fn next_node_text(ids: IdsView) -> Seq<char> {
    match ids.prefix {
        Some(p) => p + seq!['-', 'n'] + decimal(ids.next_node_id as nat),
        None => seq!['n'] + decimal(ids.next_node_id as nat),
    }
}

/// The prefix once the generator moves on to paragraph `next`.
pub open spec fn prefix_for(ids: IdsView, next: usize) -> Option<Seq<char>> {
    if ids.static_override matches Some(o) && o.0 == next {
        Some(ids.static_override.unwrap().1)
    } else if ids.auto_increment_base is Some {
        Some(para_id((ids.auto_increment_base.unwrap() + next) as nat))
    } else {
        ids.prefix
    }
}

/// The generator after moving on to the next paragraph.
pub open spec fn ids_next_paragraph(ids: IdsView) -> IdsView {
    let next = (ids.current_paragraph + 1) as usize;
    IdsView { current_paragraph: next, next_node_id: 0, prefix: prefix_for(ids, next), ..ids }
}

/// Everything the writer holds, as plain values.
#[verifier::ext_equal]
pub struct WriterView {
    /// The markdown source.
    pub source: Seq<char>,
    /// Its length in bytes.
    pub source_byte_len: usize,
    /// Finished HTML segments, one per paragraph.
    pub segments: Seq<Seq<char>>,
    /// HTML of the paragraph being written.
    pub current: Seq<char>,
    pub last_byte_offset: usize,
    pub last_char_offset: usize,
    /// Whether the output so far ends with a newline.
    pub end_newline: bool,
    /// Inside a block whose content is not written.
    pub in_non_writing_block: bool,
    /// Language and text of the code block being buffered.
    pub code_buffer: Option<(Option<String>, Seq<char>)>,
    pub code_byte_range: Option<std::ops::Range<usize>>,
    pub code_char_range: Option<std::ops::Range<usize>>,
    pub code_block_start: Option<usize>,
    pub code_opening_span: Option<usize>,
    pub ids: IdsView,
    /// Whether table rows are in the head, the column alignments and the
    /// index of the next cell.
    pub table_state: TableState,
    pub alignments: Seq<Alignment>,
    pub cell_index: usize,
    /// The DOM node that text is mapped into, its UTF-16 offset and child count.
    pub node_id: Option<Seq<char>>,
    pub node_char_offset: usize,
    pub node_child_count: usize,
    pub para_start: Option<(usize, usize)>,
    pub list_depth: usize,
    pub in_footnote_def: bool,
    pub paragraph_ranges: Seq<(std::ops::Range<usize>, std::ops::Range<usize>)>,
    /// Offset maps, syntax spans and refs of the paragraph being written.
    pub para_maps: Seq<MapView>,
    pub para_spans: Seq<SpanView>,
    pub para_refs: Seq<ExtractedRef>,
    /// References collected since the run began or was last filed.
    pub collected: Seq<ExtractedRef>,
    /// Inline formats still open: the ID of the opening syntax span and the
    /// character where the format starts.
    pub pending_formats: Seq<(Seq<char>, usize)>,
    /// UTF-16 checkpoints: (char offset, UTF-16 offset).
    pub utf16: Seq<(usize, usize)>,
    /// Text of the weaver block being buffered.
    pub weaver_buffer: Seq<char>,
    /// Offset maps, syntax spans and refs of the finished paragraphs.
    pub maps_by_para: Seq<Seq<MapView>>,
    pub spans_by_para: Seq<Seq<SpanView>>,
    pub refs_by_para: Seq<Seq<ExtractedRef>>,
}

/// HTML writer that keeps markdown syntax visible and records where each
/// piece of source text lands in the DOM.
pub struct EditorWriter {
    source: Vec<char>,
    source_byte_len: usize,
    writer: SegmentedWriter,
    last_byte_offset: usize,
    last_char_offset: usize,
    end_newline: bool,
    in_non_writing_block: bool,
    code_block: CodeBlockContext,
    node_ids: NodeIdGenerator,
    table_state: TableState,
    table_alignments: Vec<Alignment>,
    table_cell_index: usize,
    current_node: CurrentNodeState,
    paragraphs: ParagraphTracker,
    current_para: ParagraphBuildState,
    utf16: Utf16Tracker,
    weaver_buffer: String,
    ref_collector: Vec<ExtractedRef>,
    offset_maps_by_para: Vec<Vec<OffsetMapping>>,
    syntax_spans_by_para: Vec<Vec<SyntaxSpanInfo>>,
    refs_by_para: Vec<Vec<ExtractedRef>>,
}

impl View for EditorWriter {
    type V = WriterView;

    closed spec fn view(&self) -> WriterView {
        WriterView {
            source: self.source@,
            source_byte_len: self.source_byte_len,
            segments: self.writer@.0,
            current: self.writer@.1,
            last_byte_offset: self.last_byte_offset,
            last_char_offset: self.last_char_offset,
            end_newline: self.end_newline,
            in_non_writing_block: self.in_non_writing_block,
            code_buffer: match self.code_block.buffer {
                Some(b) => Some((b.0, b.1@)),
                None => None,
            },
            code_byte_range: self.code_block.byte_range,
            code_char_range: self.code_block.char_range,
            code_block_start: self.code_block.block_start,
            code_opening_span: self.code_block.opening_span_idx,
            ids: ids_view(self.node_ids),
            table_state: self.table_state,
            alignments: self.table_alignments@,
            cell_index: self.table_cell_index,
            node_id: match self.current_node.id {
                Some(s) => Some(s@),
                None => None,
            },
            node_char_offset: self.current_node.char_offset,
            node_child_count: self.current_node.child_count,
            para_start: self.paragraphs.current_start,
            list_depth: self.paragraphs.list_depth,
            in_footnote_def: self.paragraphs.in_footnote_def,
            paragraph_ranges: self.paragraphs.ranges@,
            para_maps: maps_view(self.current_para.offset_maps@),
            para_spans: spans_view(self.current_para.syntax_spans@),
            para_refs: self.current_para.collected_refs@,
            collected: self.ref_collector@,
            pending_formats: self.current_para.pending_inline_formats@.map_values(
                |f: (String, usize)| (f.0@, f.1),
            ),
            utf16: self.utf16.checkpoints@,
            weaver_buffer: self.weaver_buffer@,
            maps_by_para: self.offset_maps_by_para@.map_values(
                |v: Vec<OffsetMapping>| maps_view(v@),
            ),
            spans_by_para: self.syntax_spans_by_para@.map_values(
                |v: Vec<SyntaxSpanInfo>| spans_view(v@),
            ),
            refs_by_para: self.refs_by_para@.map_values(|v: Vec<ExtractedRef>| v@),
        }
    }
}

/// The output after `s` went through the writer's `write`: appended, and the
/// newline flag following its last character.
pub open spec fn spec_write(v: WriterView, s: Seq<char>) -> WriterView {
    WriterView {
        current: v.current + s,
        end_newline: if s.len() > 0 {
            s.last() == '\n'
        } else {
            v.end_newline
        },
        ..v
    }
}

/// The output after `s` was written straight into the segment, leaving the
/// newline flag alone.
pub open spec fn spec_emit(v: WriterView, s: Seq<char>) -> WriterView {
    WriterView { current: v.current + s, ..v }
}

/// The last UTF-16 checkpoint, or the start.
pub open spec fn last_checkpoint(cps: Seq<(usize, usize)>) -> (usize, usize) {
    if cps.len() > 0 {
        cps.last()
    } else {
        (0usize, 0usize)
    }
}

/// The checkpoints with `(c, u)` added, unless the last one is at `c`.
pub open spec fn checkpointed(cps: Seq<(usize, usize)>, c: usize, u: usize) -> Seq<(usize, usize)> {
    if cps.len() > 0 && cps.last().0 == c {
        cps
    } else {
        cps.push((c, u))
    }
}

/// Recording that the source bytes `br` (characters `cr`) land in the current
/// node: a mapping with the text's UTF-16 length, a checkpoint when the
/// characters move past the last one, and the node offset moved on. Without a
/// current node nothing is recorded.
pub open spec fn spec_record_mapping(
    v: WriterView,
    br: std::ops::Range<usize>,
    cr: std::ops::Range<usize>,
) -> WriterView {
    match v.node_id {
        None => v,
        Some(id) => {
            let u = utf16_len(byte_slice(v.source, br.start as int, br.end as int));
            let last = last_checkpoint(v.utf16);
            WriterView {
                utf16: if cr.end > last.0 {
                    checkpointed(v.utf16, cr.end, (last.1 + u) as usize)
                } else {
                    v.utf16
                },
                para_maps: v.para_maps.push(
                    MapView {
                        byte_range: br,
                        char_range: cr,
                        node_id: id,
                        char_offset_in_node: v.node_char_offset,
                        child_index: None,
                        utf16_len: u as usize,
                    },
                ),
                node_char_offset: (v.node_char_offset + u) as usize,
                ..v
            }
        },
    }
}

/// Paragraph boundaries are tracked outside lists and footnote definitions.
pub open spec fn tracks_boundaries(v: WriterView) -> bool {
    v.list_depth == 0 && !v.in_footnote_def
}

/// Closing the paragraph with ranges `(br, cr)`: the ranges, offset maps,
/// spans and refs are filed, IDs move on to the next paragraph and the HTML
/// segment closes.
pub open spec fn spec_finalize_paragraph(
    v: WriterView,
    br: std::ops::Range<usize>,
    cr: std::ops::Range<usize>,
) -> WriterView {
    WriterView {
        paragraph_ranges: v.paragraph_ranges.push((br, cr)),
        maps_by_para: v.maps_by_para.push(v.para_maps),
        spans_by_para: v.spans_by_para.push(v.para_spans),
        refs_by_para: v.refs_by_para.push(v.para_refs),
        para_maps: Seq::empty(),
        para_spans: Seq::empty(),
        para_refs: Seq::empty(),
        ids: ids_next_paragraph(v.ids),
        segments: closed_segments(v.segments, v.current),
        current: Seq::empty(),
        ..v
    }
}

/// The numbers that the writer's counters can still grow by: a source whose
/// UTF-16 length fits, and `n` more characters or bytes of output.
pub open spec fn has_room(v: WriterView, n: nat) -> bool {
    &&& map_room(v)
    &&& v.last_char_offset + v.source.len() + n + 2 <= usize::MAX
    &&& v.last_byte_offset + n <= usize::MAX
    &&& v.node_child_count + 3 <= usize::MAX
    &&& v.ids.next_node_id < usize::MAX
    &&& v.cell_index < usize::MAX
    &&& v.list_depth < usize::MAX
    &&& v.ids.next_syn_id + 2 <= usize::MAX
    &&& v.ids.current_paragraph < usize::MAX
    &&& (v.ids.auto_increment_base matches Some(b) ==> b + v.ids.current_paragraph + 1
        <= usize::MAX)
}

/// The node offset and the UTF-16 checkpoints can grow by the UTF-16 length
/// of any piece of the source.
pub open spec fn map_room(v: WriterView) -> bool {
    &&& 2 * v.source.len() <= usize::MAX
    &&& v.node_char_offset + 2 * v.source.len() + 1 <= usize::MAX
    &&& last_checkpoint(v.utf16).1 + 2 * v.source.len() <= usize::MAX
}

/// `range` lies on character boundaries of the source.
pub open spec fn range_in_source(v: WriterView, range: std::ops::Range<usize>) -> bool {
    &&& range.start <= range.end
    &&& is_char_boundary(v.source, range.start as int)
    &&& is_char_boundary(v.source, range.end as int)
}

/// A boundary before `b` lies at or after a boundary before `a <= b`.
proof fn lemma_utf8_len_take_mono_any(s: Seq<char>, a: int, b: int)
    requires
        0 <= a <= b <= s.len(),
    ensures
        utf8_len(s.take(a)) <= utf8_len(s.take(b)),
{
    crate::strings::lemma_utf8_len_take_mono(s, a, b);
}

proof fn lemma_maps_view_push(s: Seq<OffsetMapping>, m: OffsetMapping)
    ensures
        maps_view(s.push(m)) == maps_view(s).push(map_view(m)),
{
    assert(maps_view(s.push(m)) =~= maps_view(s).push(map_view(m)));
}

impl EditorWriter {
    /// A writer for `source`, with nothing written yet.
    pub fn new(source: &str) -> (r: Self)
        ensures
            r@.source == source@,
            r@.source_byte_len == utf8_len(source@),
            r@.segments.len() == 0,
            r@.current.len() == 0,
            r@.last_byte_offset == 0,
            r@.last_char_offset == 0,
            r@.end_newline,
            !r@.in_non_writing_block,
            r@.code_buffer is None,
            r@.ids == (IdsView {
                prefix: None,
                auto_increment_base: None,
                static_override: None,
                current_paragraph: 0,
                next_node_id: 0,
                next_syn_id: 0,
            }),
            r@.table_state == TableState::Head,
            r@.alignments.len() == 0,
            r@.cell_index == 0,
            r@.node_id is None,
            r@.node_char_offset == 0,
            r@.node_child_count == 0,
            r@.para_start is None,
            r@.list_depth == 0,
            !r@.in_footnote_def,
            r@.paragraph_ranges.len() == 0,
            r@.para_maps.len() == 0,
            r@.para_spans.len() == 0,
            r@.para_refs.len() == 0,
            r@.collected.len() == 0,
            r@.pending_formats.len() == 0,
            r@.utf16 == seq![(0usize, 0usize)],
            r@.weaver_buffer.len() == 0,
            r@.maps_by_para.len() == 0,
            r@.spans_by_para.len() == 0,
            r@.refs_by_para.len() == 0,
    {
        let r = EditorWriter {
            source: str_to_chars(source),
            source_byte_len: str_byte_len(source),
            writer: SegmentedWriter::new(),
            last_byte_offset: 0,
            last_char_offset: 0,
            end_newline: true,
            in_non_writing_block: false,
            code_block: CodeBlockContext::default(),
            node_ids: NodeIdGenerator::default(),
            table_state: TableState::Head,
            table_alignments: Vec::new(),
            table_cell_index: 0,
            current_node: CurrentNodeState::default(),
            paragraphs: ParagraphTracker::default(),
            current_para: ParagraphBuildState::default(),
            utf16: Utf16Tracker::new(),
            weaver_buffer: String::new(),
            ref_collector: Vec::new(),
            offset_maps_by_para: Vec::new(),
            syntax_spans_by_para: Vec::new(),
            refs_by_para: Vec::new(),
        };
        proof {
            assert(r@.maps_by_para =~= Seq::empty());
        }
        r
    }

    /// Set a static node ID prefix for all paragraphs.
    pub fn with_node_id_prefix(self, prefix: &str) -> (r: Self)
        ensures
            r@ == (WriterView {
                ids: IdsView { prefix: Some(prefix@), next_node_id: 0, ..self@.ids },
                ..self@
            }),
    {
        let mut w = self;
        w.node_ids.prefix = Some(prefix.to_string());
        w.node_ids.next_node_id = 0;
        w
    }

    /// Use auto-incrementing paragraph prefixes starting from `base`.
    pub fn with_auto_incrementing_prefix(self, base: usize) -> (r: Self)
        ensures
            r@ == (WriterView {
                ids: IdsView {
                    auto_increment_base: Some(base),
                    prefix: Some(para_id(base as nat)),
                    next_node_id: 0,
                    ..self@.ids
                },
                ..self@
            }),
    {
        let mut w = self;
        w.node_ids.auto_increment_base = Some(base);
        w.node_ids.prefix = Some(crate::paragraph::make_paragraph_id(base));
        w.node_ids.next_node_id = 0;
        w
    }

    /// Set initial offsets, for rendering a part of a document.
    pub fn with_offsets(self, byte_offset: usize, char_offset: usize, node_id_offset: usize, syn_id_offset: usize) -> (r: Self)
        ensures
            r@ == (WriterView {
                last_byte_offset: byte_offset,
                last_char_offset: char_offset,
                ids: IdsView { next_node_id: node_id_offset, next_syn_id: syn_id_offset, ..self@.ids },
                ..self@
            }),
    {
        let mut w = self;
        w.last_byte_offset = byte_offset;
        w.last_char_offset = char_offset;
        w.node_ids.next_node_id = node_id_offset;
        w.node_ids.next_syn_id = syn_id_offset;
        w
    }

    /// Write `s` to the output.
    fn write(&mut self, s: &str)
        ensures
            final(self)@ == spec_write(old(self)@, s@),
    {
        let n = s.unicode_len();
        if n > 0 {
            self.end_newline = s.get_char(n - 1) == '\n';
        }
        let _ = self.writer.write_str(s);
    }

    /// Write `s` straight into the current segment.
    fn emit(&mut self, s: &str)
        ensures
            final(self)@ == spec_emit(old(self)@, s@),
    {
        let _ = self.writer.write_str(s);
    }

    /// Record that the source bytes `byte_range` (characters `char_range`)
    /// land in the current node.
    fn record_mapping(&mut self, byte_range: std::ops::Range<usize>, char_range: std::ops::Range<usize>)
        requires
            range_in_source(old(self)@, byte_range),
            map_room(old(self)@),
        ensures
            final(self)@ == spec_record_mapping(old(self)@, byte_range, char_range),
    {
        if let Some(id) = &self.current_node.id {
            let node_id = id.clone();
            let utf16_len = utf16_len_between(self.source.as_slice(), byte_range.start, byte_range.end);
            proof {
                crate::writer::text_units::lemma_byte_slice_len(
                    self.source@,
                    byte_range.start as int,
                    byte_range.end as int,
                );
                lemma_utf16_len_bound(byte_slice(self.source@, byte_range.start as int, byte_range.end as int));
            }
            let last = self.utf16.last();
            let new_utf16 = last.1 + utf16_len;
            if char_range.end > last.0 {
                self.utf16.checkpoint(char_range.end, new_utf16);
            }
            let mapping = OffsetMapping {
                byte_range,
                char_range,
                node_id,
                char_offset_in_node: self.current_node.char_offset,
                child_index: None,
                utf16_len,
            };
            proof {
                lemma_maps_view_push(self.current_para.offset_maps@, mapping);
            }
            self.current_para.offset_maps.push(mapping);
            self.current_node.char_offset = self.current_node.char_offset + utf16_len;
        }
    }

    /// Close the current paragraph with ranges `byte_range` and `char_range`.
    fn finalize_paragraph(&mut self, byte_range: std::ops::Range<usize>, char_range: std::ops::Range<usize>)
        requires
            has_room(old(self)@, 0),
        ensures
            final(self)@ == spec_finalize_paragraph(old(self)@, byte_range, char_range),
    {
        self.paragraphs.ranges.push((byte_range, char_range));
        let (maps, spans, refs) = self.current_para.take_all();
        let ghost mb = self.offset_maps_by_para@;
        let ghost sb = self.syntax_spans_by_para@;
        let ghost rb = self.refs_by_para@;
        self.offset_maps_by_para.push(maps);
        self.syntax_spans_by_para.push(spans);
        self.refs_by_para.push(refs);
        proof {
            assert(self.offset_maps_by_para@.map_values(|v: Vec<OffsetMapping>| maps_view(v@))
                =~= mb.map_values(|v: Vec<OffsetMapping>| maps_view(v@)).push(
                maps_view(maps@),
            ));
            assert(self.syntax_spans_by_para@.map_values(|v: Vec<SyntaxSpanInfo>| spans_view(v@))
                =~= sb.map_values(|v: Vec<SyntaxSpanInfo>| spans_view(v@)).push(spans_view(spans@)));
            assert(spans_view(self.current_para.syntax_spans@) =~= Seq::empty());
            assert(self.refs_by_para@.map_values(|v: Vec<ExtractedRef>| v@) =~= rb.map_values(
                |v: Vec<ExtractedRef>| v@,
            ).push(refs@));
            assert(maps_view(self.current_para.offset_maps@) =~= Seq::empty());
        }
        self.node_ids.next_paragraph();
        self.writer.new_segment();
    }
}


/// How many characters or bytes an event can add to the writer's offsets.
pub open spec fn event_len(e: WriterEvent) -> nat {
    match e {
        WriterEvent::Text(t) => utf8_len(t@),
        WriterEvent::Code(t) => utf8_len(t@) + 2,
        WriterEvent::Html(t) => utf8_len(t@),
        WriterEvent::InlineHtml(t) => utf8_len(t@),
        WriterEvent::WeaverBlock(t) => utf8_len(t@),
        WriterEvent::Embed { dest_url, .. } => utf8_len(dest_url@) + 5,
        _ => 0,
    }
}

/// Text: buffered while a code block is open; otherwise written escaped and
/// mapped, unless inside a block that is not written.
pub open spec fn spec_text(v: WriterView, text: Seq<char>, range: std::ops::Range<usize>) -> WriterView {
    match v.code_buffer {
        Some(b) => {
            let end_char = (v.last_char_offset + text.len()) as usize;
            WriterView {
                code_buffer: Some((b.0, b.1 + text)),
                code_byte_range: match v.code_byte_range {
                    Some(r) => Some(std::ops::Range { start: r.start, end: range.end }),
                    None => Some(range),
                },
                code_char_range: match v.code_byte_range {
                    Some(_) => match v.code_char_range {
                        Some(c) => Some(std::ops::Range { start: c.start, end: end_char }),
                        None => None,
                    },
                    None => Some(std::ops::Range { start: v.last_char_offset, end: end_char }),
                },
                last_char_offset: end_char,
                last_byte_offset: (v.last_byte_offset + utf8_len(text)) as usize,
                ..v
            }
        },
        None => if v.in_non_writing_block {
            v
        } else {
            let cs = v.last_char_offset;
            let ce = (cs + text.len()) as usize;
            let v1 = WriterView {
                current: v.current + escape_body(text),
                node_child_count: if text.len() > 0 {
                    (v.node_child_count + 1) as usize
                } else {
                    v.node_child_count
                },
                ..v
            };
            let v2 = spec_record_mapping(v1, range, std::ops::Range { start: cs, end: ce });
            WriterView {
                last_char_offset: ce,
                end_newline: text.len() > 0 && text.last() == '\n',
                ..v2
            }
        },
    }
}

/// The ID that the generator gives the next syntax span.
pub open spec fn syn_text(ids: IdsView) -> Seq<char> {
    seq!['s'] + decimal(ids.next_syn_id as nat)
}

/// A visible-syntax span of class `class` with ID `syn` over characters
/// `cs..ce`, holding `body`.
pub open spec fn syntax_span_html(class: Seq<char>, syn: Seq<char>, cs: nat, ce: nat, body: Seq<char>) -> Seq<char> {
    "<span class=\""@ + class + "\" data-syn-id=\""@ + syn + "\" data-char-start=\""@ + decimal(cs)
        + "\" data-char-end=\""@ + decimal(ce) + "\" spellcheck=\"false\">"@ + body + "</span>"@
}

/// An inline syntax span for one backtick at character `cs`.
pub open spec fn backtick_span(v: WriterView, cs: usize, formatted: Option<std::ops::Range<usize>>) -> WriterView {
    let syn = syn_text(v.ids);
    WriterView {
        current: v.current + syntax_span_html(
            "md-syntax-inline"@,
            syn,
            cs as nat,
            (cs + 1) as nat,
            "`"@,
        ),
        para_spans: v.para_spans.push(
            SpanView {
                syn_id: syn,
                char_range: std::ops::Range { start: cs, end: (cs + 1) as usize },
                syntax_type: SyntaxType::Inline,
                formatted_range: formatted,
            },
        ),
        ids: IdsView { next_syn_id: (v.ids.next_syn_id + 1) as usize, ..v.ids },
        last_char_offset: (cs + 1) as usize,
        ..v
    }
}

/// The code element: the escaped code, mapped.
pub open spec fn spec_code_content(v: WriterView, text: Seq<char>, range: std::ops::Range<usize>) -> WriterView {
    let v2 = spec_write(v, "<code>"@);
    let ccs = v2.last_char_offset;
    let cce = (ccs + text.len()) as usize;
    let v3 = spec_record_mapping(
        WriterView { current: v2.current + escape_body(text), ..v2 },
        range,
        std::ops::Range { start: ccs, end: cce },
    );
    spec_write(WriterView { last_char_offset: cce, ..v3 }, "</code>"@)
}

/// The closing backtick's span, with the range from `fs` through it; when
/// there was an opening one, at index `i`, it gets the same range.
pub open spec fn spec_code_close(v: WriterView, fs: usize, opens: bool, i: int) -> WriterView {
    let formatted = std::ops::Range { start: fs, end: (v.last_char_offset + 1) as usize };
    let v5 = backtick_span(v, v.last_char_offset, Some(formatted));
    if opens {
        WriterView {
            para_spans: v5.para_spans.update(
                i,
                SpanView { formatted_range: Some(formatted), ..v5.para_spans[i] },
            ),
            ..v5
        }
    } else {
        v5
    }
}

/// Inline code: the backticks of its source as syntax spans around the
/// escaped, mapped code; the closing backtick's span, and the opening one's,
/// get the range from the opening backtick through the closing one.
pub open spec fn spec_code(v: WriterView, text: Seq<char>, range: std::ops::Range<usize>) -> WriterView {
    let raw = byte_slice(v.source, range.start as int, range.end as int);
    let opens = raw.len() > 0 && raw[0] == '`';
    let v1 = if opens {
        backtick_span(v, v.last_char_offset, None)
    } else {
        v
    };
    let v4 = spec_code_content(v1, text, range);
    if raw.len() > 0 && raw.last() == '`' {
        spec_code_close(v4, v.last_char_offset, opens, v.para_spans.len() as int)
    } else {
        v4
    }
}

/// Raw HTML: written as it is and mapped.
pub open spec fn spec_html(v: WriterView, html: Seq<char>, range: std::ops::Range<usize>) -> WriterView {
    let cs = v.last_char_offset;
    let ce = (cs + html.len()) as usize;
    let v1 = spec_record_mapping(spec_write(v, html), range, std::ops::Range { start: cs, end: ce });
    WriterView { last_char_offset: ce, ..v1 }
}

/// Inline HTML: written inside a marking span and mapped.
pub open spec fn spec_inline_html(v: WriterView, html: Seq<char>, range: std::ops::Range<usize>) -> WriterView {
    let cs = v.last_char_offset;
    let ce = (cs + html.len()) as usize;
    let v0 = spec_write(
        spec_write(spec_write(v, "<span class=\"html-embed html-embed-inline\">"@), html),
        "</span>"@,
    );
    let v1 = spec_record_mapping(v0, range, std::ops::Range { start: cs, end: ce });
    WriterView { last_char_offset: ce, ..v1 }
}

/// A soft break: a line break and a zero-width space that the newline maps to.
pub open spec fn spec_soft_break(v: WriterView, range: std::ops::Range<usize>) -> WriterView {
    let cs = v.last_char_offset;
    let v1 = spec_write(v, "<br />"@);
    let v2 = WriterView { node_child_count: (v1.node_child_count + 1) as usize, ..v1 };
    let v3 = spec_write(v2, "\u{200B}"@);
    let v4 = WriterView { node_child_count: (v3.node_child_count + 1) as usize, ..v3 };
    let v5 = match v4.node_id {
        Some(id) => WriterView {
            para_maps: v4.para_maps.push(
                MapView {
                    byte_range: range,
                    char_range: std::ops::Range { start: cs, end: (cs + 1) as usize },
                    node_id: id,
                    char_offset_in_node: v4.node_char_offset,
                    child_index: None,
                    utf16_len: 1,
                },
            ),
            node_char_offset: (v4.node_char_offset + 1) as usize,
            ..v4
        },
        None => v4,
    };
    WriterView { last_char_offset: (cs + 1) as usize, ..v5 }
}

/// The opening of a footnote reference over characters `cs..ce`.
pub open spec fn footnote_open(cs: nat, ce: nat, name: Seq<char>) -> Seq<char> {
    "<span class=\"footnote-ref\" data-char-start=\""@ + decimal(cs) + "\" data-char-end=\""@
        + decimal(ce) + "\" data-footnote=\""@ + name + "\">"@
}

/// A footnote reference: its source text, escaped, in a visible span, mapped.
pub open spec fn spec_footnote_ref(v: WriterView, name: Seq<char>, range: std::ops::Range<usize>) -> WriterView {
    let raw = byte_slice(v.source, range.start as int, range.end as int);
    let cs = v.last_char_offset;
    let ce = (cs + raw.len()) as usize;
    let v1 = spec_emit(v, footnote_open(cs as nat, ce as nat, name) + escape_attr(raw));
    let v2 = spec_record_mapping(spec_write(v1, "</span>"@), range, std::ops::Range { start: cs, end: ce });
    WriterView {
        node_child_count: (v2.node_child_count + 1) as usize,
        last_char_offset: ce,
        last_byte_offset: range.end,
        ..v2
    }
}

/// The opening of a placeholder span with ID `syn` over characters `cs..ce`.
pub open spec fn placeholder_open(syn: Seq<char>, cs: nat, ce: nat) -> Seq<char> {
    "<span class=\"md-placeholder\" data-syn-id=\""@ + syn + "\" data-char-start=\""@ + decimal(cs)
        + "\" data-char-end=\""@ + decimal(ce) + "\">"@
}

/// A hard break: the trailing spaces shown dimmed and mapped, then a line
/// break and a zero-width space that the newline maps to. Without a newline at
/// the end of its source, just a line break.
pub open spec fn spec_hard_break(v: WriterView, range: std::ops::Range<usize>) -> WriterView {
    let gap = byte_slice(v.source, range.start as int, range.end as int);
    if gap.len() > 0 && gap.last() == '\n' {
        let spaces = gap.drop_last();
        let cs = v.last_char_offset;
        let ce = (cs + spaces.len()) as usize;
        let syn = syn_text(v.ids);
        let v1 = WriterView {
            ids: IdsView { next_syn_id: (v.ids.next_syn_id + 1) as usize, ..v.ids },
            current: v.current + placeholder_open(syn, cs as nat, ce as nat) + escape_attr(spaces),
            ..v
        };
        let v2 = spec_write(v1, "</span>"@);
        let v3 = WriterView { node_child_count: (v2.node_child_count + 1) as usize, ..v2 };
        let nl = (range.end - 1) as usize;
        let v4 = spec_record_mapping(
            v3,
            std::ops::Range { start: range.start, end: nl },
            std::ops::Range { start: cs, end: ce },
        );
        let v5 = spec_write(v4, "<br />"@);
        let v6 = WriterView { node_child_count: (v5.node_child_count + 1) as usize, ..v5 };
        let v7 = spec_write(v6, "\u{200B}"@);
        let v8 = WriterView { node_child_count: (v7.node_child_count + 1) as usize, ..v7 };
        let v9 = match v8.node_id {
            Some(id) => WriterView {
                para_maps: v8.para_maps.push(
                    MapView {
                        byte_range: std::ops::Range { start: nl, end: range.end },
                        char_range: std::ops::Range { start: ce, end: (ce + 1) as usize },
                        node_id: id,
                        char_offset_in_node: v8.node_char_offset,
                        child_index: None,
                        utf16_len: 1,
                    },
                ),
                node_char_offset: (v8.node_char_offset + 1) as usize,
                ..v8
            },
            None => v8,
        };
        WriterView { last_char_offset: (ce + 1) as usize, ..v9 }
    } else {
        spec_write(v, "<br />"@)
    }
}

/// The opening of a block syntax span with ID `syn` over characters `cs..ce`.
pub open spec fn block_span_open(syn: Seq<char>, cs: nat, ce: nat) -> Seq<char> {
    "<span class=\"md-syntax-block\" data-syn-id=\""@ + syn + "\" data-char-start=\""@ + decimal(cs)
        + "\" data-char-end=\""@ + decimal(ce) + "\" spellcheck=\"false\">"@
}

/// A thematic break: on a line of its own, its trimmed source as block syntax,
/// then the rule.
pub open spec fn spec_rule(v: WriterView, range: std::ops::Range<usize>) -> WriterView {
    let v1 = if !v.end_newline {
        spec_write(v, "\n"@)
    } else {
        v
    };
    let t = crate::writer::text_units::trimmed(byte_slice(v.source, range.start as int, range.end as int));
    let v2 = if range.start < range.end && t.len() > 0 {
        let syn = syn_text(v1.ids);
        let cs = v1.last_char_offset;
        let ce = (cs + t.len()) as usize;
        spec_write(
            WriterView {
                ids: IdsView { next_syn_id: (v1.ids.next_syn_id + 1) as usize, ..v1.ids },
                current: v1.current + block_span_open(syn, cs as nat, ce as nat) + escape_attr(t),
                para_spans: v1.para_spans.push(
                    SpanView {
                        syn_id: syn,
                        char_range: std::ops::Range { start: cs, end: ce },
                        syntax_type: SyntaxType::Block,
                        formatted_range: None,
                    },
                ),
                ..v1
            },
            "</span>"@,
        )
    } else {
        v1
    };
    spec_write(v2, "<div class=\"toggle-block\"><hr /></div>"@)
}

/// The opening element of an HTML block with node ID `id`.
pub open spec fn html_block_open(id: Seq<char>) -> Seq<char> {
    "<p id=\""@ + id + "\" class=\"html-embed html-embed-block\">"@
}

/// The opening element of a paragraph with node ID `id`, with its text
/// direction when it has one.
pub open spec fn paragraph_open(id: Seq<char>, dir: Option<TextDirection>) -> Seq<char> {
    match dir {
        Some(d) => "<p id=\""@ + id + "\" dir=\""@ + match d {
            TextDirection::LeftToRight => "ltr"@,
            TextDirection::RightToLeft => "rtl"@,
        } + "\">"@,
        None => "<p id=\""@ + id + "\">"@,
    }
}

/// A block that makes a paragraph of its own opens: outside lists and
/// footnote definitions its start is recorded, it takes the next node ID, its
/// element is written (an HTML block's, or a paragraph's with direction
/// `dir`), and text maps into it from a first mapping of no width.
#[verifier::opaque]
pub open spec fn spec_open_block(
    v: WriterView,
    range: std::ops::Range<usize>,
    html: bool,
    dir: Option<TextDirection>,
) -> WriterView {
    let v1 = if tracks_boundaries(v) {
        WriterView { para_start: Some((v.last_byte_offset, v.last_char_offset)), ..v }
    } else {
        v
    };
    let id = next_node_text(v1.ids);
    let v2 = WriterView { ids: IdsView { next_node_id: (v1.ids.next_node_id + 1) as usize, ..v1.ids }, ..v1 };
    let v3 = spec_emit(
        v2,
        if html {
            html_block_open(id)
        } else {
            paragraph_open(id, dir)
        },
    );
    WriterView {
        node_id: Some(id),
        node_char_offset: 0,
        node_child_count: 0,
        para_maps: v3.para_maps.push(
            MapView {
                byte_range: std::ops::Range { start: range.start, end: range.start },
                char_range: std::ops::Range { start: v3.last_char_offset, end: v3.last_char_offset },
                node_id: id,
                char_offset_in_node: 0,
                child_index: Some(0),
                utf16_len: 0,
            },
        ),
        ..v3
    }
}

/// `raw` starts with `c` twice.
pub open spec fn doubled(raw: Seq<char>, c: char) -> bool {
    raw.len() >= 2 && raw[0] == c && raw[1] == c
}

/// The marker that opens an inline format at the start of its source `raw`:
/// `**` or `__` for strong text, `*` or `_` for emphasis, `~~` for
/// strikethrough; empty when `raw` starts with none of these.
pub open spec fn format_marker(tag: WriterTag, raw: Seq<char>) -> Seq<char> {
    match tag {
        WriterTag::Strong => if doubled(raw, '*') {
            seq!['*', '*']
        } else if doubled(raw, '_') {
            seq!['_', '_']
        } else {
            Seq::empty()
        },
        WriterTag::Emphasis => if raw.len() >= 1 && raw[0] == '*' {
            seq!['*']
        } else if raw.len() >= 1 && raw[0] == '_' {
            seq!['_']
        } else {
            Seq::empty()
        },
        WriterTag::Strikethrough => if doubled(raw, '~') {
            seq!['~', '~']
        } else {
            Seq::empty()
        },
        _ => Seq::empty(),
    }
}

/// The opening of a marker's syntax span of class `class`, with ID `syn`,
/// over characters `cs..ce`.
pub open spec fn marker_span_open(class: Seq<char>, syn: Seq<char>, cs: nat, ce: nat) -> Seq<char> {
    "<span class=\""@ + class + "\" data-syn-id=\""@ + syn + "\" data-char-start=\""@ + decimal(cs)
        + "\" data-char-end=\""@ + decimal(ce) + "\">"@
}

/// An inline format's opening marker `m`, when it has one: shown as syntax
/// over the next characters, mapped to its bytes from byte `start`, and
/// remembered as an open format that starts at the marker.
#[verifier::opaque]
pub open spec fn spec_format_open(v: WriterView, m: Seq<char>, start: usize) -> WriterView {
    if m.len() == 0 {
        v
    } else {
        let syn = syn_text(v.ids);
        let cs = v.last_char_offset;
        let ce = (cs + m.len()) as usize;
        let be = (start + m.len()) as usize;
        let block = crate::syntax::is_block_syntax(m);
        let v1 = spec_write(
            WriterView {
                ids: IdsView { next_syn_id: (v.ids.next_syn_id + 1) as usize, ..v.ids },
                current: v.current + marker_span_open(
                    if block {
                        "md-syntax-block"@
                    } else {
                        "md-syntax-inline"@
                    },
                    syn,
                    cs as nat,
                    ce as nat,
                ) + m,
                para_spans: v.para_spans.push(
                    SpanView {
                        syn_id: syn,
                        char_range: std::ops::Range { start: cs, end: ce },
                        syntax_type: if block {
                            SyntaxType::Block
                        } else {
                            SyntaxType::Inline
                        },
                        formatted_range: None,
                    },
                ),
                ..v
            },
            "</span>"@,
        );
        let v2 = spec_record_mapping(
            v1,
            std::ops::Range { start: start, end: be },
            std::ops::Range { start: cs, end: ce },
        );
        WriterView {
            pending_formats: v2.pending_formats.push((syn, cs)),
            last_char_offset: ce,
            last_byte_offset: be,
            ..v2
        }
    }
}

/// Index of the first span of `spans` with ID `id`, or `spans.len()`.
pub open spec fn first_view_span(spans: Seq<SpanView>, id: Seq<char>) -> int
    decreases spans.len(),
{
    if spans.len() == 0 {
        0
    } else if first_view_span(spans.drop_last(), id) < spans.len() - 1 {
        first_view_span(spans.drop_last(), id)
    } else if spans.last().syn_id == id {
        spans.len() - 1
    } else {
        spans.len() as int
    }
}

/// The spans once the format opened by the span with ID `id` closes over
/// `range`: that span and, when inline, the last span get the range.
pub open spec fn view_spans_finalized(
    spans: Seq<SpanView>,
    id: Seq<char>,
    range: std::ops::Range<usize>,
) -> Seq<SpanView> {
    let i = first_view_span(spans, id);
    let s1 = if i < spans.len() {
        spans.update(i, SpanView { formatted_range: Some(range), ..spans[i] })
    } else {
        spans
    };
    if s1.len() > 0 && s1.last().syntax_type == SyntaxType::Inline {
        s1.update(s1.len() - 1, SpanView { formatted_range: Some(range), ..s1.last() })
    } else {
        s1
    }
}

/// The innermost open inline format closes where the writer stands: its
/// opening span, and the last span when that is inline, get the range it
/// formats.
#[verifier::opaque]
pub open spec fn spec_format_close(v: WriterView) -> WriterView {
    if v.pending_formats.len() > 0 {
        let (id, start) = v.pending_formats.last();
        WriterView {
            pending_formats: v.pending_formats.drop_last(),
            para_spans: view_spans_finalized(
                v.para_spans,
                id,
                std::ops::Range { start: start, end: v.last_char_offset },
            ),
            ..v
        }
    } else {
        v
    }
}

/// Index of the first `]:` in `raw`, or -1.
pub open spec fn def_colon(raw: Seq<char>) -> int
    decreases raw.len(),
{
    if raw.len() < 2 {
        -1
    } else if def_colon(raw.drop_last()) >= 0 {
        def_colon(raw.drop_last())
    } else if raw[raw.len() - 2] == ']' && raw[raw.len() - 1] == ':' {
        raw.len() - 2
    } else {
        -1
    }
}

/// How many characters of a footnote definition's source make its prefix:
/// through its first `]:` and one space after it; none without a `]:`.
pub open spec fn def_prefix_len(raw: Seq<char>) -> int {
    let p = def_colon(raw);
    if p < 0 {
        0
    } else if p + 2 < raw.len() && raw[p + 2] == ' ' {
        p + 3
    } else {
        p + 2
    }
}

/// The opening of a footnote definition's prefix span over characters `cs..ce`.
pub open spec fn def_prefix_open(cs: nat, ce: nat) -> Seq<char> {
    "<span class=\"footnote-def-syntax\" data-char-start=\""@ + decimal(cs) + "\" data-char-end=\""@
        + decimal(ce) + "\">"@
}

/// A footnote definition opens a paragraph of its own, on a new line: an
/// element that text maps into, from a first mapping of no width, and its
/// prefix `[^name]: ` shown escaped and mapped.
#[verifier::opaque]
pub open spec fn spec_footnote_def_start(v: WriterView, range: std::ops::Range<usize>) -> WriterView {
    let v1 = WriterView { para_start: Some((v.last_byte_offset, v.last_char_offset)), in_footnote_def: true, ..v };
    let v2 = if !v1.end_newline {
        spec_write(v1, "\n"@)
    } else {
        v1
    };
    let v3 = spec_open_node(v2, "<div class=\"footnote-def-editor\" data-node-id=\""@);
    let cs = v3.last_char_offset;
    let v4 = WriterView {
        para_maps: v3.para_maps.push(
            MapView {
                byte_range: std::ops::Range { start: range.start, end: range.start },
                char_range: std::ops::Range { start: cs, end: cs },
                node_id: next_node_text(v2.ids),
                char_offset_in_node: 0,
                child_index: Some(0),
                utf16_len: 0,
            },
        ),
        ..v3
    };
    let raw = byte_slice(v.source, range.start as int, range.end as int);
    let prefix = raw.take(def_prefix_len(raw));
    let ce = (cs + prefix.len()) as usize;
    let be = (range.start + utf8_len(prefix)) as usize;
    let v5 = spec_write(spec_emit(v4, def_prefix_open(cs as nat, ce as nat) + escape_attr(prefix)), "</span>"@);
    let v6 = spec_record_mapping(v5, std::ops::Range { start: range.start, end: be }, std::ops::Range { start: cs, end: ce });
    WriterView { last_char_offset: ce, last_byte_offset: be, ..v6 }
}

/// A text of ASCII characters takes one byte a character.
proof fn lemma_ascii_utf8_len(m: Seq<char>)
    requires
        forall|i: int| 0 <= i < m.len() ==> (#[trigger] m[i] as u32) < 0x80,
    ensures
        utf8_len(m) == m.len(),
    decreases m.len(),
{
    if m.len() > 0 {
        lemma_ascii_utf8_len(m.drop_last());
    }
}

/// Once a prefix holds a `]:`, the whole text's first `]:` is that one.
proof fn lemma_def_colon_prefix(t: Seq<char>, n: int)
    requires
        0 <= n <= t.len(),
        def_colon(t.take(n)) >= 0,
    ensures
        def_colon(t) == def_colon(t.take(n)),
    decreases t.len() - n,
{
    if n < t.len() {
        assert(t.take(n + 1).drop_last() =~= t.take(n));
        lemma_def_colon_prefix(t, n + 1);
    } else {
        assert(t.take(n) =~= t);
    }
}

/// The view of the spans once a format closes is the view's spans closed
/// the same way.
proof fn lemma_spans_view_finalized(s: Seq<SyntaxSpanInfo>, id: Seq<char>, r: std::ops::Range<usize>)
    ensures
        spans_view(super::state::spans_finalized(s, id, r)) == view_spans_finalized(spans_view(s), id, r),
{
    lemma_first_view_span(s, id);
    let v = spans_view(s);
    let i = super::state::first_span_with_id(s, id);
    let s1 = if i < s.len() {
        s.update(i, super::state::with_formatted(s[i], r))
    } else {
        s
    };
    let v1 = if i < v.len() {
        v.update(i, SpanView { formatted_range: Some(r), ..v[i] })
    } else {
        v
    };
    assert(v.len() == s.len());
    assert(s1.len() == s.len());
    assert forall|j: int| 0 <= j < s1.len() implies #[trigger] spans_view(s1)[j] == v1[j] by {
        assert(spans_view(s1)[j] == span_view(s1[j]));
        assert(v[j] == span_view(s[j]));
    }
    assert(spans_view(s1) =~= v1);
    if s1.len() > 0 {
        assert(spans_view(s1).last() == span_view(s1.last()));
        let s2 = s1.update(s1.len() - 1, super::state::with_formatted(s1.last(), r));
        let v2 = v1.update(v1.len() - 1, SpanView { formatted_range: Some(r), ..v1.last() });
        assert(spans_view(s2) =~= v2);
    }
}

proof fn lemma_first_view_span(s: Seq<SyntaxSpanInfo>, id: Seq<char>)
    ensures
        super::state::first_span_with_id(s, id) == first_view_span(spans_view(s), id),
        0 <= super::state::first_span_with_id(s, id) <= s.len(),
    decreases s.len(),
{
    if s.len() > 0 {
        lemma_first_view_span(s.drop_last(), id);
        assert(spans_view(s).drop_last() =~= spans_view(s.drop_last()));
    }
}

/// Opening or closing a block or an inline format keeps the source and the
/// finished paragraphs as they were.
proof fn lemma_tag_parts_keep(v: WriterView, m: Seq<char>, range: std::ops::Range<usize>, html: bool, dir: Option<TextDirection>)
    ensures
        keeps_finished(v, spec_open_block(v, range, html, dir)),
        keeps_finished(v, spec_format_open(v, m, range.start)),
        keeps_finished(v, spec_format_close(v)),
        keeps_finished(v, spec_footnote_def_start(v, range)),
{
    reveal(spec_open_block);
    reveal(spec_format_open);
    reveal(spec_format_close);
    reveal(spec_footnote_def_start);
}

/// `w` has the source and the finished paragraphs of `v`.
pub open spec fn keeps_finished(v: WriterView, w: WriterView) -> bool {
    &&& w.source == v.source
    &&& w.source_byte_len == v.source_byte_len
    &&& w.paragraph_ranges == v.paragraph_ranges
    &&& w.maps_by_para == v.maps_by_para
    &&& w.spans_by_para == v.spans_by_para
    &&& w.refs_by_para == v.refs_by_para
}

/// Opening a format without a marker changes nothing.
proof fn lemma_format_open_empty(v: WriterView, range: std::ops::Range<usize>)
    ensures
        spec_format_open(v, Seq::empty(), range.start) == v,
{
    reveal(spec_format_open);
}

/// The marker that opens the inline format `tag` at the start of `s[a..z]`.
fn marker_at(tag: &WriterTag, s: &[char], a: usize, z: usize) -> (m: &'static str)
    requires
        a < z <= s@.len(),
    ensures
        m@ == format_marker(*tag, s@.subrange(a as int, z as int)),
        m@.len() <= z - a,
        forall|i: int| 0 <= i < m@.len() ==> (#[trigger] m@[i] as u32) < 0x80,
{
    let ghost raw = s@.subrange(a as int, z as int);
    let c0 = s[a];
    let two = z - a >= 2;
    let c1 = if two {
        s[a + 1]
    } else {
        ' '
    };
    proof {
        assert(raw[0] == c0);
        if two {
            assert(raw[1] == c1);
        }
        reveal_strlit("**");
        reveal_strlit("__");
        reveal_strlit("*");
        reveal_strlit("_");
        reveal_strlit("~~");
        reveal_strlit("");
    }
    match tag {
        WriterTag::Strong => if two && c0 == '*' && c1 == '*' {
            "**"
        } else if two && c0 == '_' && c1 == '_' {
            "__"
        } else {
            ""
        },
        WriterTag::Emphasis => if c0 == '*' {
            "*"
        } else if c0 == '_' {
            "_"
        } else {
            ""
        },
        WriterTag::Strikethrough => if two && c0 == '~' && c1 == '~' {
            "~~"
        } else {
            ""
        },
        _ => "",
    }
}

/// Opening a tag.
pub open spec fn spec_start_tag(v: WriterView, tag: WriterTag, range: std::ops::Range<usize>) -> WriterView {
    match tag {
        WriterTag::HtmlBlock => spec_open_block(v, range, true, None),
        WriterTag::Paragraph(dir) => spec_open_block(v, range, false, dir),
        WriterTag::Emphasis => spec_write(
            spec_format_open(v, format_marker(tag, byte_slice(v.source, range.start as int, range.end as int)), range.start),
            "<em>"@,
        ),
        WriterTag::Strong => spec_write(
            spec_format_open(v, format_marker(tag, byte_slice(v.source, range.start as int, range.end as int)), range.start),
            "<strong>"@,
        ),
        WriterTag::Strikethrough => spec_write(
            spec_format_open(v, format_marker(tag, byte_slice(v.source, range.start as int, range.end as int)), range.start),
            "<s>"@,
        ),
        WriterTag::FootnoteDefinition(_) => spec_footnote_def_start(v, range),
        WriterTag::Subscript => spec_write(v, "<sub>"@),
        WriterTag::Superscript => spec_write(v, "<sup>"@),
        WriterTag::MetadataBlock => WriterView { in_non_writing_block: true, ..v },
        WriterTag::Table(alignments) => spec_write(
            WriterView { alignments: alignments@, ..v },
            "<table>"@,
        ),
        WriterTag::TableHead => spec_write(
            WriterView { table_state: TableState::Head, cell_index: 0, ..v },
            "<thead><tr>"@,
        ),
        WriterTag::TableRow => spec_write(WriterView { cell_index: 0, ..v }, "<tr>"@),
        WriterTag::TableCell => spec_write(
            spec_write(
                v,
                if v.table_state == TableState::Head {
                    "<th"@
                } else {
                    "<td"@
                },
            ),
            cell_align_attr(v.alignments, v.cell_index),
        ),
        WriterTag::List(first) => {
            let v1 = WriterView {
                para_start: Some((v.last_byte_offset, v.last_char_offset)),
                list_depth: (v.list_depth + 1) as usize,
                ..v
            };
            match first {
                Some(n) => if n == 1 {
                    spec_write(v1, "<ol>"@)
                } else {
                    spec_write(spec_emit(spec_write(v1, "<ol start=\""@), decimal(n as nat)), "\">"@)
                },
                None => spec_write(v1, "<ul>"@),
            }
        },
        WriterTag::DefinitionList => spec_write(v, "<dl>"@),
        WriterTag::Item => spec_item_start(v, range),
        WriterTag::DefinitionListTitle => spec_open_node(v, "<dt data-node-id=\""@),
        WriterTag::DefinitionListDefinition => spec_open_node(v, "<dd data-node-id=\""@),
    }
}

/// How many characters of a list item's source, its leading whitespace
/// skipped, make its marker: a run of `-` and `*` with the character after
/// it, or the number up to its `.` and the character after that.
pub open spec fn item_marker_len(t: Seq<char>) -> Option<int> {
    if t.len() == 0 {
        None
    } else if t[0] == '-' || t[0] == '*' {
        let p = crate::writer::text_units::first_in_class(t, crate::writer::text_units::CharClass::NotBullet);
        Some(if p < t.len() { p + 1 } else { 1 })
    } else if '0' <= t[0] && t[0] <= '9' {
        let d = crate::writer::text_units::first_in_class(t, crate::writer::text_units::CharClass::Dot);
        if d < t.len() {
            Some(if d + 2 <= t.len() { d + 2 } else { t.len() as int })
        } else {
            None
        }
    } else {
        None
    }
}

/// A list item's source lies on character boundaries, and its marker ends on
/// one: the character the marker takes after its bullets or its `.` is one
/// byte long.
pub open spec fn item_ok(v: WriterView, range: std::ops::Range<usize>) -> bool {
    let raw = byte_slice(v.source, range.start as int, range.end as int);
    let t = raw.skip(crate::writer::text_units::first_in_class(raw, crate::writer::text_units::CharClass::NotWhitespace));
    let p = crate::writer::text_units::first_in_class(t, crate::writer::text_units::CharClass::NotBullet);
    let d = crate::writer::text_units::first_in_class(t, crate::writer::text_units::CharClass::Dot);
    &&& range_in_source(v, range)
    &&& 4 * v.source.len() <= usize::MAX
    &&& (t.len() > 0 && (t[0] == '-' || t[0] == '*') && p < t.len() ==> (t[p] as u32) < 0x80)
    &&& (t.len() > 0 && '0' <= t[0] && t[0] <= '9' && d + 1 < t.len() ==> (t[d + 1] as u32) < 0x80)
}

/// A list item's marker `marker`, shown as block syntax over the next `n`
/// characters (its leading whitespace and the marker), mapped to the source
/// bytes `start..be`.
pub open spec fn spec_item_marker(v: WriterView, marker: Seq<char>, n: nat, start: usize, be: usize) -> WriterView {
    let cs = v.last_char_offset;
    let ce = (cs + n) as usize;
    let syn = syn_text(v.ids);
    let v4 = spec_write(
        WriterView {
            ids: IdsView { next_syn_id: (v.ids.next_syn_id + 1) as usize, ..v.ids },
            current: v.current + block_span_open(syn, cs as nat, ce as nat) + escape_attr(marker),
            para_spans: v.para_spans.push(
                SpanView {
                    syn_id: syn,
                    char_range: std::ops::Range { start: cs, end: ce },
                    syntax_type: SyntaxType::Block,
                    formatted_range: None,
                },
            ),
            ..v
        },
        "</span>"@,
    );
    let v5 = spec_record_mapping(
        v4,
        std::ops::Range { start: start, end: be },
        std::ops::Range { start: cs, end: ce },
    );
    WriterView { last_char_offset: ce, last_byte_offset: be, ..v5 }
}

/// A list item: an element that text maps into, with its marker, and the
/// whitespace before it, as block syntax, mapped.
pub open spec fn spec_item_start(v: WriterView, range: std::ops::Range<usize>) -> WriterView {
    let v3 = spec_open_node(v, "<li data-node-id=\""@);
    let raw = byte_slice(v.source, range.start as int, range.end as int);
    let i = crate::writer::text_units::first_in_class(raw, crate::writer::text_units::CharClass::NotWhitespace);
    let t = raw.skip(i);
    if range.start < range.end && item_marker_len(t) is Some {
        let k = item_marker_len(t).unwrap();
        let be = (range.start + utf8_len(raw.take(i + k))) as usize;
        spec_item_marker(v3, t.take(k), (i + k) as nat, range.start, be)
    } else {
        v3
    }
}

/// An element that opens with `open`, the next node ID and `">`, and becomes
/// the node that text is mapped into.
pub open spec fn spec_open_node(v: WriterView, open: Seq<char>) -> WriterView {
    let id = next_node_text(v.ids);
    let v1 = WriterView { ids: IdsView { next_node_id: (v.ids.next_node_id + 1) as usize, ..v.ids }, ..v };
    let v2 = spec_emit(v1, open + id + "\">"@);
    WriterView { node_id: Some(id), node_char_offset: 0, node_child_count: 0, ..v2 }
}

/// The element closes with `close` and text is no longer mapped into it.
pub open spec fn spec_close_node(v: WriterView, close: Seq<char>) -> WriterView {
    spec_write(WriterView { node_id: None, node_char_offset: 0, node_child_count: 0, ..v }, close)
}

/// The end of a cell's opening tag: its column's alignment as a style.
pub open spec fn cell_align_attr(alignments: Seq<Alignment>, i: usize) -> Seq<char> {
    if i < alignments.len() {
        match alignments[i as int] {
            Alignment::Left => " style=\"text-align: left\">"@,
            Alignment::Center => " style=\"text-align: center\">"@,
            Alignment::Right => " style=\"text-align: right\">"@,
            Alignment::Unspecified => ">"@,
        }
    } else {
        ">"@
    }
}

/// Closing a tag; closing an HTML block or a paragraph outside lists and
/// footnote definitions, or a footnote definition, closes its paragraph;
/// closing an inline format closes the innermost open one.
pub open spec fn spec_end_tag(v: WriterView, tag: WriterTag) -> WriterView {
    match tag {
        WriterTag::HtmlBlock | WriterTag::Paragraph(_) => {
            let v1 = if tracks_boundaries(v) {
                WriterView { para_start: None, ..v }
            } else {
                v
            };
            let v2 = WriterView { node_id: None, node_char_offset: 0, node_child_count: 0, ..v1 };
            let v3 = spec_write(v2, "</p>"@);
            if tracks_boundaries(v) && v.para_start is Some {
                let st = v.para_start.unwrap();
                spec_finalize_paragraph(
                    v3,
                    std::ops::Range { start: st.0, end: v.last_byte_offset },
                    std::ops::Range { start: st.1, end: v.last_char_offset },
                )
            } else {
                v3
            }
        },
        WriterTag::Subscript => spec_write(v, "</sub>"@),
        WriterTag::Superscript => spec_write(v, "</sup>"@),
        WriterTag::Emphasis => spec_format_close(spec_write(v, "</em>"@)),
        WriterTag::Strong => spec_format_close(spec_write(v, "</strong>"@)),
        WriterTag::Strikethrough => spec_format_close(spec_write(v, "</s>"@)),
        WriterTag::FootnoteDefinition(_) => {
            let v1 = spec_close_node(v, "</div>"@);
            let v2 = WriterView { in_footnote_def: false, para_start: None, ..v1 };
            match v.para_start {
                Some(st) => spec_finalize_paragraph(
                    v2,
                    std::ops::Range { start: st.0, end: v.last_byte_offset },
                    std::ops::Range { start: st.1, end: v.last_char_offset },
                ),
                None => v2,
            }
        },
        WriterTag::MetadataBlock => WriterView { in_non_writing_block: false, ..v },
        WriterTag::Table(_) => spec_write(v, "</tbody></table>"@),
        WriterTag::TableHead => WriterView {
            table_state: TableState::Body,
            ..spec_write(v, "</tr></thead><tbody>"@)
        },
        WriterTag::TableRow => spec_write(v, "</tr>"@),
        WriterTag::List(first) => {
            let v1 = WriterView {
                list_depth: if v.list_depth > 0 {
                    (v.list_depth - 1) as usize
                } else {
                    0
                },
                para_start: None,
                ..v
            };
            let v2 = spec_write(
                v1,
                if first is Some {
                    "</ol>"@
                } else {
                    "</ul>"@
                },
            );
            match v.para_start {
                Some(st) => spec_finalize_paragraph(
                    v2,
                    std::ops::Range { start: st.0, end: v.last_byte_offset },
                    std::ops::Range { start: st.1, end: v.last_char_offset },
                ),
                None => v2,
            }
        },
        WriterTag::DefinitionList => spec_write(v, "</dl>"@),
        WriterTag::Item => spec_close_node(v, "</li>"@),
        WriterTag::DefinitionListTitle => spec_close_node(v, "</dt>"@),
        WriterTag::DefinitionListDefinition => spec_close_node(v, "</dd>"@),
        WriterTag::TableCell => WriterView {
            cell_index: (v.cell_index + 1) as usize,
            ..spec_write(
                v,
                if v.table_state == TableState::Head {
                    "</th>"@
                } else {
                    "</td>"@
                },
            )
        },
    }
}

/// The embed's source is `![[`, the URL and `]]`, at character boundaries of
/// the source.
pub open spec fn embed_range_ok(v: WriterView, range: std::ops::Range<usize>) -> bool {
    &&& embed_bounds_ok(v, range)
    &&& v.node_char_offset + 6 * v.source.len() + 1 <= usize::MAX
    &&& last_checkpoint(v.utf16).1 + 6 * v.source.len() <= usize::MAX
}

/// The embed's `![[` and `]]` lie inside its range, at character boundaries.
pub open spec fn embed_bounds_ok(v: WriterView, range: std::ops::Range<usize>) -> bool {
    &&& range.start + 5 <= range.end
    &&& is_char_boundary(v.source, range.start + 3)
    &&& is_char_boundary(v.source, range.end - 2)
}

/// Recording a mapping moves the node offset and the last checkpoint by at
/// most twice the source's length, and leaves the source alone.
proof fn lemma_record_growth(v: WriterView, br: std::ops::Range<usize>, cr: std::ops::Range<usize>)
    requires
        range_in_source(v, br),
        map_room(v),
    ensures
        spec_record_mapping(v, br, cr).node_char_offset <= v.node_char_offset + 2 * v.source.len(),
        last_checkpoint(spec_record_mapping(v, br, cr).utf16).1 <= last_checkpoint(v.utf16).1 + 2
            * v.source.len(),
        spec_record_mapping(v, br, cr).source == v.source,
        spec_record_mapping(v, br, cr).last_char_offset == v.last_char_offset,
        spec_record_mapping(v, br, cr).ids == v.ids,
{
    crate::writer::text_units::lemma_byte_slice_len(v.source, br.start as int, br.end as int);
    lemma_utf16_len_bound(byte_slice(v.source, br.start as int, br.end as int));
}

/// The link an embed's URL shows as: AT URIs through the record viewer,
/// others as they are.
pub open spec fn embed_href(url: Seq<char>) -> Seq<char> {
    if "at://"@.is_prefix_of(url) {
        "https://alpha.weaver.sh/record/"@ + url
    } else {
        url
    }
}

/// An inline syntax span with ID `syn` over `cs..cs + n` holding `text`.
pub open spec fn embed_syntax_span(v: WriterView, syn: Seq<char>, cs: usize, n: nat, text: Seq<char>, formatted: std::ops::Range<usize>) -> WriterView {
    WriterView {
        current: v.current + syntax_span_html("md-syntax-inline"@, syn, cs as nat, (cs + n) as nat, text),
        para_spans: v.para_spans.push(
            SpanView {
                syn_id: syn,
                char_range: std::ops::Range { start: cs, end: (cs + n) as usize },
                syntax_type: SyntaxType::Inline,
                formatted_range: Some(formatted),
            },
        ),
        ..v
    }
}

/// The embed's URL as its source shows it between `![[` and `]]`, or as the
/// event gives it.
pub open spec fn embed_url_text(v: WriterView, dest_url: Seq<char>, range: std::ops::Range<usize>) -> Seq<char> {
    let raw = byte_slice(v.source, range.start as int, range.end as int);
    if embed_opens(raw) && embed_closes(raw) {
        raw.subrange(3, raw.len() - 2)
    } else {
        dest_url
    }
}

/// The source starts with `![[`.
pub open spec fn embed_opens(raw: Seq<char>) -> bool {
    raw.len() >= 3 && raw.take(3) == "![["@
}

/// The source ends with `]]`.
pub open spec fn embed_closes(raw: Seq<char>) -> bool {
    raw.len() >= 2 && raw.skip(raw.len() - 2) == "]]"@
}

/// The opening `![[` as a syntax span, mapped, when the source has it.
pub open spec fn spec_embed_open(v: WriterView, syn: Seq<char>, cce: usize, range: std::ops::Range<usize>, opens: bool) -> WriterView {
    let ocs = v.last_char_offset;
    if opens {
        spec_record_mapping(
            embed_syntax_span(v, syn, ocs, 3, "![["@, std::ops::Range { start: ocs, end: cce }),
            std::ops::Range { start: range.start, end: (range.start + 3) as usize },
            std::ops::Range { start: ocs, end: (ocs + 3) as usize },
        )
    } else {
        v
    }
}

/// The URL as a link, its span and its mapping.
pub open spec fn spec_embed_url(
    v: WriterView,
    dest_url: Seq<char>,
    syn: Seq<char>,
    url_text: Seq<char>,
    ocs: usize,
    ucs: usize,
    uce: usize,
    cce: usize,
    range: std::ops::Range<usize>,
) -> WriterView {
    let v2 = spec_write(
        WriterView {
            current: v.current + "<a class=\"image-alt embed-url\" href=\""@ + embed_href(dest_url)
                + "\" data-syn-id=\""@ + syn + "\" data-char-start=\""@ + decimal(ucs as nat)
                + "\" data-char-end=\""@ + decimal(uce as nat) + "\" target=\"_blank\">"@
                + escape_attr(url_text),
            ..v
        },
        "</a>"@,
    );
    spec_record_mapping(
        WriterView {
            para_spans: v2.para_spans.push(
                SpanView {
                    syn_id: syn,
                    char_range: std::ops::Range { start: ucs, end: uce },
                    syntax_type: SyntaxType::Inline,
                    formatted_range: Some(std::ops::Range { start: ocs, end: cce }),
                },
            ),
            ..v2
        },
        std::ops::Range { start: (range.start + 3) as usize, end: (range.end - 2) as usize },
        std::ops::Range { start: ucs, end: uce },
    )
}

/// The closing `]]` as a syntax span, mapped, when the source has it.
pub open spec fn spec_embed_close(v: WriterView, syn: Seq<char>, ocs: usize, uce: usize, cce: usize, range: std::ops::Range<usize>, closes: bool) -> WriterView {
    if closes {
        spec_record_mapping(
            embed_syntax_span(v, syn, uce, 2, "]]"@, std::ops::Range { start: ocs, end: cce }),
            std::ops::Range { start: (range.end - 2) as usize, end: range.end },
            std::ops::Range { start: uce, end: cce },
        )
    } else {
        v
    }
}

/// An AT URI or DID collected as a reference, then the embed's content, or a
/// placeholder while it loads; the offsets move past the embed.
pub open spec fn spec_embed_tail(
    v: WriterView,
    dest_url: String,
    title: String,
    content: Option<String>,
    cce: usize,
    range: std::ops::Range<usize>,
) -> WriterView {
    let v5 = if "at://"@.is_prefix_of(dest_url@) || "did:"@.is_prefix_of(dest_url@) {
        WriterView {
            collected: v.collected.push(
                ExtractedRef::AtEmbed {
                    uri: dest_url,
                    alt_text: if title@.len() == 0 {
                        None
                    } else {
                        Some(title)
                    },
                },
            ),
            ..v
        }
    } else {
        v
    };
    let v6 = match content {
        Some(h) => spec_write(v5, h@),
        None => spec_write(
            spec_write(
                spec_write(v5, "<div class=\"atproto-embed atproto-embed-placeholder\">"@),
                "<span class=\"embed-loading\">Loading embed...</span>"@,
            ),
            "</div>"@,
        ),
    };
    WriterView { last_char_offset: cce, last_byte_offset: range.end, ..v6 }
}

/// An embed: its `![[` and `]]` as syntax spans and its URL as a link, all
/// under one syntax ID and mapped; an AT URI or DID collected as a reference;
/// then the embed's content, or a placeholder while it loads.
pub open spec fn spec_embed(
    v: WriterView,
    dest_url: String,
    title: String,
    content: Option<String>,
    range: std::ops::Range<usize>,
) -> WriterView {
    let raw = byte_slice(v.source, range.start as int, range.end as int);
    let url_text = embed_url_text(v, dest_url@, range);
    let syn = syn_text(v.ids);
    let ocs = v.last_char_offset;
    let ucs = (ocs + 3) as usize;
    let uce = (ucs + url_text.len()) as usize;
    let cce = (uce + 2) as usize;
    let v0 = WriterView { ids: IdsView { next_syn_id: (v.ids.next_syn_id + 1) as usize, ..v.ids }, ..v };
    let v1 = spec_embed_open(v0, syn, cce, range, embed_opens(raw));
    let v3 = spec_embed_url(WriterView { last_char_offset: ocs, ..v1 }, dest_url@, syn, url_text, ocs, ucs, uce, cce, range);
    let v4 = spec_embed_close(v3, syn, ocs, uce, cce, range, embed_closes(raw));
    spec_embed_tail(v4, dest_url, title, content, cce, range)
}

/// One event with source range `range`.
#[verifier::opaque]
pub open spec fn spec_process_event(v: WriterView, e: WriterEvent, range: std::ops::Range<usize>) -> WriterView {
    match e {
        WriterEvent::Start(t) => spec_start_tag(v, t, range),
        WriterEvent::End(t) => spec_end_tag(v, t),
        WriterEvent::Text(t) => spec_text(v, t@, range),
        WriterEvent::Code(t) => spec_code(v, t@, range),
        WriterEvent::Html(t) => spec_html(v, t@, range),
        WriterEvent::InlineHtml(t) => spec_inline_html(v, t@, range),
        WriterEvent::SoftBreak => spec_soft_break(v, range),
        WriterEvent::HardBreak => spec_hard_break(v, range),
        WriterEvent::Rule => spec_rule(v, range),
        WriterEvent::FootnoteReference(name) => spec_footnote_ref(v, name@, range),
        WriterEvent::Embed { dest_url, title, content } => spec_embed(v, dest_url, title, content, range),
        WriterEvent::WeaverBlock(t) => WriterView { weaver_buffer: v.weaver_buffer + t@, ..v },
    }
}


impl EditorWriter {
    #[verifier::rlimit(50)]
    fn process_text(&mut self, text: &str, range: std::ops::Range<usize>)
        requires
            range_in_source(old(self)@, range),
            has_room(old(self)@, utf8_len(text@)),
        ensures
            final(self)@ == spec_text(old(self)@, text@, range),
    {
        proof {
            crate::strings::lemma_utf8_len_bounds(text@);
        }
        let n = text.unicode_len();
        if self.code_block.buffer.is_some() {
            let b = str_byte_len(text);
            let mut buffer = None;
            std::mem::swap(&mut buffer, &mut self.code_block.buffer);
            match buffer {
                Some((lang, content)) => {
                    let mut content = content;
                    crate::strings::string_push_str(&mut content, text);
                    self.code_block.buffer = Some((lang, content));
                },
                None => {},
            }
            let start_char = self.last_char_offset;
            match &self.code_block.byte_range {
                Some(r) => {
                    let byte_start = r.start;
                    self.code_block.byte_range = Some(std::ops::Range { start: byte_start, end: range.end });
                    match &self.code_block.char_range {
                        Some(c) => {
                            let char_start = c.start;
                            self.code_block.char_range = Some(
                                std::ops::Range { start: char_start, end: start_char + n },
                            );
                        },
                        None => {},
                    }
                },
                None => {
                    self.code_block.byte_range = Some(range);
                    self.code_block.char_range = Some(
                        std::ops::Range { start: start_char, end: start_char + n },
                    );
                },
            }
            self.last_char_offset = start_char + n;
            self.last_byte_offset = self.last_byte_offset + b;
        } else if !self.in_non_writing_block {
            let char_start = self.last_char_offset;
            let escaped = escape_html_body_text(text);
            self.emit(escaped.as_str());
            let char_end = char_start + n;
            if n > 0 {
                self.current_node.child_count = self.current_node.child_count + 1;
            }
            self.record_mapping(range, std::ops::Range { start: char_start, end: char_end });
            self.last_char_offset = char_end;
            self.end_newline = n > 0 && text.get_char(n - 1) == '\n';
        }
    }

    /// Take the next syntax span ID.
    fn gen_syn_id(&mut self) -> (r: String)
        requires
            old(self)@.ids.next_syn_id < usize::MAX,
        ensures
            r@ == syn_text(old(self)@.ids),
            final(self)@ == (WriterView {
                ids: IdsView { next_syn_id: (old(self)@.ids.next_syn_id + 1) as usize, ..old(self)@.ids },
                ..old(self)@
            }),
    {
        self.node_ids.next_syn()
    }

    /// Write a visible-syntax span straight into the segment.
    fn emit_syntax_span(&mut self, class: &str, syn: &str, cs: usize, ce: usize, body: &str)
        ensures
            final(self)@ == spec_emit(old(self)@, syntax_span_html(class@, syn@, cs as nat, ce as nat, body@)),
    {
        let start = usize_to_string(cs);
        let end = usize_to_string(ce);
        self.emit("<span class=\"");
        self.emit(class);
        self.emit("\" data-syn-id=\"");
        self.emit(syn);
        self.emit("\" data-char-start=\"");
        self.emit(start.as_str());
        self.emit("\" data-char-end=\"");
        self.emit(end.as_str());
        self.emit("\" spellcheck=\"false\">");
        self.emit(body);
        self.emit("</span>");
        proof {
            assert(self@.current =~= old(self)@.current + syntax_span_html(
                class@,
                syn@,
                cs as nat,
                ce as nat,
                body@,
            ));
        }
    }

    /// A syntax span for one backtick at the current character.
    fn emit_backtick(&mut self, formatted: Option<std::ops::Range<usize>>)
        requires
            old(self)@.ids.next_syn_id < usize::MAX,
            old(self)@.last_char_offset < usize::MAX,
        ensures
            final(self)@ == backtick_span(old(self)@, old(self)@.last_char_offset, formatted),
    {
        let syn_id = self.gen_syn_id();
        let char_start = self.last_char_offset;
        self.emit_syntax_span("md-syntax-inline", syn_id.as_str(), char_start, char_start + 1, "`");
        let span = SyntaxSpanInfo {
            syn_id,
            char_range: std::ops::Range { start: char_start, end: char_start + 1 },
            syntax_type: SyntaxType::Inline,
            formatted_range: formatted,
        };
        let ghost before = self.current_para.syntax_spans@;
        self.current_para.syntax_spans.push(span);
        proof {
            assert(spans_view(self.current_para.syntax_spans@) =~= spans_view(before).push(span_view(span)));
        }
        self.last_char_offset = char_start + 1;
    }

    fn code_content(&mut self, text: &str, range: std::ops::Range<usize>)
        requires
            range_in_source(old(self)@, range),
            map_room(old(self)@),
            old(self)@.last_char_offset + text@.len() <= usize::MAX,
        ensures
            final(self)@ == spec_code_content(old(self)@, text@, range),
    {
        self.write("<code>");
        let n = text.unicode_len();
        let content_start = self.last_char_offset;
        let escaped = escape_html_body_text(text);
        self.emit(escaped.as_str());
        let content_end = content_start + n;
        self.record_mapping(range, std::ops::Range { start: content_start, end: content_end });
        self.last_char_offset = content_end;
        self.write("</code>");
    }

    fn code_close(&mut self, format_start: usize, opens: bool, opening_idx: usize)
        requires
            opens ==> opening_idx < old(self)@.para_spans.len(),
            old(self)@.ids.next_syn_id < usize::MAX,
            old(self)@.last_char_offset < usize::MAX,
        ensures
            final(self)@ == spec_code_close(old(self)@, format_start, opens, opening_idx as int),
    {
        let formatted = std::ops::Range { start: format_start, end: self.last_char_offset + 1 };
        self.emit_backtick(Some(std::ops::Range { start: format_start, end: self.last_char_offset + 1 }));
        proof {
            assert(self@.para_spans.len() == self.current_para.syntax_spans@.len());
        }
        if opens {
            let old_span = &self.current_para.syntax_spans[opening_idx];
            let updated = SyntaxSpanInfo {
                syn_id: old_span.syn_id.clone(),
                char_range: std::ops::Range { start: old_span.char_range.start, end: old_span.char_range.end },
                syntax_type: old_span.syntax_type,
                formatted_range: Some(formatted),
            };
            let ghost before = self.current_para.syntax_spans@;
            self.current_para.syntax_spans.set(opening_idx, updated);
            proof {
                assert(spans_view(self.current_para.syntax_spans@) =~= spans_view(before).update(
                    opening_idx as int,
                    span_view(updated),
                ));
            }
        }
    }

    fn process_code(&mut self, text: &str, range: std::ops::Range<usize>)
        requires
            range_in_source(old(self)@, range),
            has_room(old(self)@, utf8_len(text@) + 2),
        ensures
            final(self)@ == spec_code(old(self)@, text@, range),
    {
        proof {
            crate::strings::lemma_utf8_len_bounds(text@);
            crate::writer::text_units::lemma_byte_slice_len(self.source@, range.start as int, range.end as int);
        }
        let a = crate::writer::text_units::char_index_at_byte(self.source.as_slice(), range.start);
        let z = crate::writer::text_units::char_index_at_byte(self.source.as_slice(), range.end);
        let opens = a < z && self.source[a] == '`';
        let closes = a < z && self.source[z - 1] == '`';
        let ghost raw = byte_slice(self.source@, range.start as int, range.end as int);
        proof {
            assert(raw =~= self.source@.subrange(a as int, z as int));
            assert(self@.para_spans.len() == self.current_para.syntax_spans@.len());
        }
        let format_start = self.last_char_offset;
        let opening_idx = self.current_para.syntax_spans.len();
        if opens {
            self.emit_backtick(None);
        }
        self.code_content(text, range);
        if closes {
            self.code_close(format_start, opens, opening_idx);
        }
    }

    #[verifier::rlimit(50)]
    fn process_rule(&mut self, range: std::ops::Range<usize>)
        requires
            range_in_source(old(self)@, range),
            has_room(old(self)@, 0),
        ensures
            final(self)@ == spec_rule(old(self)@, range),
    {
        if !self.end_newline {
            self.write("\n");
        }
        if range.start < range.end {
            proof {
                crate::writer::text_units::lemma_byte_slice_len(self.source@, range.start as int, range.end as int);
            }
            let a = crate::writer::text_units::char_index_at_byte(self.source.as_slice(), range.start);
            let z = crate::writer::text_units::char_index_at_byte(self.source.as_slice(), range.end);
            let (i, j) = crate::writer::text_units::trim_range(self.source.as_slice(), a, z);
            if i < j {
                let ghost before = self@;
                let syn_id = self.gen_syn_id();
                let char_start = self.last_char_offset;
                let char_end = char_start + (j - i);
                let start_text = usize_to_string(char_start);
                let end_text = usize_to_string(char_end);
                let escaped = crate::writer::text_units::escape_html_chars(self.source.as_slice(), i, j);
                self.emit("<span class=\"md-syntax-block\" data-syn-id=\"");
                self.emit(syn_id.as_str());
                self.emit("\" data-char-start=\"");
                self.emit(start_text.as_str());
                self.emit("\" data-char-end=\"");
                self.emit(end_text.as_str());
                self.emit("\" spellcheck=\"false\">");
                self.emit(escaped.as_str());
                proof {
                    assert(self@.current =~= before.current + block_span_open(
                        syn_id@,
                        char_start as nat,
                        char_end as nat,
                    ) + escape_attr(self.source@.subrange(i as int, j as int)));
                }
                let span = SyntaxSpanInfo {
                    syn_id,
                    char_range: std::ops::Range { start: char_start, end: char_end },
                    syntax_type: SyntaxType::Block,
                    formatted_range: None,
                };
                let ghost spans = self.current_para.syntax_spans@;
                self.current_para.syntax_spans.push(span);
                proof {
                    assert(spans_view(self.current_para.syntax_spans@) =~= spans_view(spans).push(span_view(span)));
                }
                self.write("</span>");
            }
        }
        self.write("<div class=\"toggle-block\"><hr /></div>");
    }

    #[verifier::rlimit(50)]
    /// Write an inline syntax span over `cs..cs + n` holding `text`, under
    /// syntax ID `syn`.
    fn embed_span(&mut self, syn: &String, cs: usize, n: usize, text: &str, formatted: std::ops::Range<usize>)
        requires
            cs + n <= usize::MAX,
        ensures
            final(self)@ == embed_syntax_span(old(self)@, syn@, cs, n as nat, text@, formatted),
    {
        self.emit_syntax_span("md-syntax-inline", syn.as_str(), cs, cs + n, text);
        let span = SyntaxSpanInfo {
            syn_id: syn.clone(),
            char_range: std::ops::Range { start: cs, end: cs + n },
            syntax_type: SyntaxType::Inline,
            formatted_range: Some(formatted),
        };
        let ghost before = self.current_para.syntax_spans@;
        self.current_para.syntax_spans.push(span);
        proof {
            assert(spans_view(self.current_para.syntax_spans@) =~= spans_view(before).push(span_view(span)));
        }
    }

    /// The embed's link: its URL, as text and as a link, then the span of
    /// the URL and its mapping.
    fn embed_link(&mut self, dest_url: &str, syn: &String, escaped: &str, ucs: usize, uce: usize)
        ensures
            final(self)@ == spec_write(
                WriterView {
                    current: old(self)@.current + "<a class=\"image-alt embed-url\" href=\""@
                        + embed_href(dest_url@) + "\" data-syn-id=\""@ + syn@
                        + "\" data-char-start=\""@ + decimal(ucs as nat) + "\" data-char-end=\""@
                        + decimal(uce as nat) + "\" target=\"_blank\">"@ + escaped@,
                    ..old(self)@
                },
                "</a>"@,
            ),
    {
        let start_text = usize_to_string(ucs);
        let end_text = usize_to_string(uce);
        self.emit("<a class=\"image-alt embed-url\" href=\"");
        let at = crate::strings::str_strip_prefix(dest_url, "at://").is_some();
        if at {
            self.emit("https://alpha.weaver.sh/record/");
        }
        self.emit(dest_url);
        self.emit("\" data-syn-id=\"");
        self.emit(syn.as_str());
        self.emit("\" data-char-start=\"");
        self.emit(start_text.as_str());
        self.emit("\" data-char-end=\"");
        self.emit(end_text.as_str());
        self.emit("\" target=\"_blank\">");
        self.emit(escaped);
        proof {
            assert(self@.current =~= old(self)@.current + "<a class=\"image-alt embed-url\" href=\""@
                + embed_href(dest_url@) + "\" data-syn-id=\""@ + syn@ + "\" data-char-start=\""@
                + decimal(ucs as nat) + "\" data-char-end=\""@ + decimal(uce as nat)
                + "\" target=\"_blank\">"@ + escaped@);
        }
        self.write("</a>");
    }

    /// The URL of the embed as its source shows it, and whether the source
    /// opens with `![[` and closes with `]]`.
    fn embed_source(&self, dest_url: &str, range: std::ops::Range<usize>) -> (r: (Vec<char>, bool, bool))
        requires
            range_in_source(self@, range),
        ensures
            r.0@ == embed_url_text(self@, dest_url@, range),
            r.1 == embed_opens(byte_slice(self@.source, range.start as int, range.end as int)),
            r.2 == embed_closes(byte_slice(self@.source, range.start as int, range.end as int)),
    {
        proof {
            crate::writer::text_units::lemma_byte_slice_len(self.source@, range.start as int, range.end as int);
            reveal_strlit("![[");
            reveal_strlit("]]");
        }
        let a = crate::writer::text_units::char_index_at_byte(self.source.as_slice(), range.start);
        let z = crate::writer::text_units::char_index_at_byte(self.source.as_slice(), range.end);
        let ghost raw = byte_slice(self.source@, range.start as int, range.end as int);
        proof {
            assert(raw =~= self.source@.subrange(a as int, z as int));
        }
        let opens = z - a >= 3 && self.source[a] == '!' && self.source[a + 1] == '[' && self.source[a + 2] == '[';
        let closes = z - a >= 2 && self.source[z - 2] == ']' && self.source[z - 1] == ']';
        proof {
            if raw.len() >= 3 {
                if raw.take(3) == "![["@ {
                    assert(raw.take(3)[0] == '!' && raw.take(3)[1] == '[' && raw.take(3)[2] == '[');
                }
                if opens {
                    assert(raw.take(3) =~= "![["@);
                }
            }
            if raw.len() >= 2 {
                if raw.skip(raw.len() - 2) == "]]"@ {
                    assert(raw.skip(raw.len() - 2)[0] == ']' && raw.skip(raw.len() - 2)[1] == ']');
                }
                if closes {
                    assert(raw.skip(raw.len() - 2) =~= "]]"@);
                }
            }
        }
        if opens && closes {
            let mut v: Vec<char> = Vec::new();
            let mut k: usize = a + 3;
            while k < z - 2
                invariant
                    a + 3 <= k <= z - 2,
                    z <= self.source@.len(),
                    v@ == self.source@.subrange(a + 3, k as int),
                decreases z - 2 - k,
            {
                v.push(self.source[k]);
                proof {
                    assert(v@ =~= self.source@.subrange(a + 3, k + 1));
                }
                k = k + 1;
            }
            proof {
                assert(v@ =~= raw.subrange(3, raw.len() - 2));
            }
            (v, opens, closes)
        } else {
            (str_to_chars(dest_url), opens, closes)
        }
    }

    fn embed_open(&mut self, syn: &String, cce: usize, range: std::ops::Range<usize>, opens: bool)
        requires
            range_in_source(old(self)@, range),
            embed_bounds_ok(old(self)@, range),
            map_room(old(self)@),
            old(self)@.last_char_offset + 3 <= usize::MAX,
        ensures
            final(self)@ == spec_embed_open(old(self)@, syn@, cce, range, opens),
    {
        if opens {
            let ocs = self.last_char_offset;
            self.embed_span(syn, ocs, 3, "![[", std::ops::Range { start: ocs, end: cce });
            self.record_mapping(
                std::ops::Range { start: range.start, end: range.start + 3 },
                std::ops::Range { start: ocs, end: ocs + 3 },
            );
        }
    }

    fn embed_url(
        &mut self,
        dest_url: &str,
        syn: &String,
        url_chars: &Vec<char>,
        ocs: usize,
        ucs: usize,
        uce: usize,
        cce: usize,
        range: std::ops::Range<usize>,
    )
        requires
            range_in_source(old(self)@, range),
            embed_bounds_ok(old(self)@, range),
            map_room(old(self)@),
        ensures
            final(self)@ == spec_embed_url(old(self)@, dest_url@, syn@, url_chars@, ocs, ucs, uce, cce, range),
    {
        let escaped = crate::writer::text_units::escape_html_chars(url_chars.as_slice(), 0, url_chars.len());
        proof {
            assert(url_chars@.subrange(0, url_chars@.len() as int) =~= url_chars@);
        }
        self.embed_link(dest_url, syn, escaped.as_str(), ucs, uce);
        let url_span = SyntaxSpanInfo {
            syn_id: syn.clone(),
            char_range: std::ops::Range { start: ucs, end: uce },
            syntax_type: SyntaxType::Inline,
            formatted_range: Some(std::ops::Range { start: ocs, end: cce }),
        };
        let ghost before = self.current_para.syntax_spans@;
        self.current_para.syntax_spans.push(url_span);
        proof {
            assert(spans_view(self.current_para.syntax_spans@) =~= spans_view(before).push(span_view(url_span)));
        }
        self.record_mapping(
            std::ops::Range { start: range.start + 3, end: range.end - 2 },
            std::ops::Range { start: ucs, end: uce },
        );
    }

    fn embed_close(&mut self, syn: &String, ocs: usize, uce: usize, cce: usize, range: std::ops::Range<usize>, closes: bool)
        requires
            range_in_source(old(self)@, range),
            embed_bounds_ok(old(self)@, range),
            map_room(old(self)@),
            uce + 2 == cce,
        ensures
            final(self)@ == spec_embed_close(old(self)@, syn@, ocs, uce, cce, range, closes),
    {
        if closes {
            self.embed_span(syn, uce, 2, "]]", std::ops::Range { start: ocs, end: cce });
            self.record_mapping(
                std::ops::Range { start: range.end - 2, end: range.end },
                std::ops::Range { start: uce, end: cce },
            );
        }
    }

    fn embed_tail(&mut self, dest_url: String, title: String, content: Option<String>, cce: usize, range: std::ops::Range<usize>)
        ensures
            final(self)@ == spec_embed_tail(old(self)@, dest_url, title, content, cce, range),
    {
        let at = crate::strings::str_strip_prefix(dest_url.as_str(), "at://").is_some();
        let did = crate::strings::str_strip_prefix(dest_url.as_str(), "did:").is_some();
        if at || did {
            let alt_text = if title.unicode_len() == 0 {
                None
            } else {
                Some(title.clone())
            };
            let r = ExtractedRef::AtEmbed { uri: dest_url.clone(), alt_text };
            self.ref_collector.push(r);
        }
        match content {
            Some(h) => self.write(h.as_str()),
            None => {
                self.write("<div class=\"atproto-embed atproto-embed-placeholder\">");
                self.write("<span class=\"embed-loading\">Loading embed...</span>");
                self.write("</div>");
            },
        }
        self.last_char_offset = cce;
        self.last_byte_offset = range.end;
    }

    #[verifier::rlimit(60)]
    fn process_embed(&mut self, dest_url: String, title: String, content: Option<String>, range: std::ops::Range<usize>)
        requires
            range_in_source(old(self)@, range),
            has_room(old(self)@, utf8_len(dest_url@) + 5),
            embed_range_ok(old(self)@, range),
        ensures
            final(self)@ == spec_embed(old(self)@, dest_url, title, content, range),
    {
        proof {
            crate::strings::lemma_utf8_len_bounds(dest_url@);
            crate::writer::text_units::lemma_byte_slice_len(self.source@, range.start as int, range.end as int);
        }
        let (url_chars, opens, closes) = self.embed_source(dest_url.as_str(), std::ops::Range { start: range.start, end: range.end });
        let url_len = url_chars.len();
        proof {
            let raw = byte_slice(self.source@, range.start as int, range.end as int);
            if embed_opens(raw) && embed_closes(raw) {
                reveal_strlit("![[");
                reveal_strlit("]]");
                assert(raw.take(3)[1] == '[' && raw.take(3)[2] == '[');
                assert(raw.skip(raw.len() - 2)[0] == ']');
                assert(raw[1] == '[' && raw[2] == '[');
                assert(raw[raw.len() - 2] == ']');
                assert(raw.len() >= 5);
                assert(url_chars@.len() <= raw.len());
            }
        }
        let syn_id = self.gen_syn_id();
        let ocs = self.last_char_offset;
        let ucs = ocs + 3;
        let uce = ucs + url_len;
        let cce = uce + 2;
        let ghost v0 = self@;
        self.embed_open(&syn_id, cce, std::ops::Range { start: range.start, end: range.end }, opens);
        proof {
            if opens {
                lemma_record_growth(
                    embed_syntax_span(v0, syn_id@, ocs, 3, "![["@, std::ops::Range { start: ocs, end: cce }),
                    std::ops::Range { start: range.start, end: (range.start + 3) as usize },
                    std::ops::Range { start: ocs, end: (ocs + 3) as usize },
                );
            }
        }
        self.last_char_offset = ocs;
        let ghost v1 = self@;
        self.embed_url(dest_url.as_str(), &syn_id, &url_chars, ocs, ucs, uce, cce, std::ops::Range { start: range.start, end: range.end });
        proof {
            lemma_record_growth(
                spec_write(
                    WriterView {
                        current: v1.current + "<a class=\"image-alt embed-url\" href=\""@ + embed_href(dest_url@)
                            + "\" data-syn-id=\""@ + syn_id@ + "\" data-char-start=\""@ + decimal(ucs as nat)
                            + "\" data-char-end=\""@ + decimal(uce as nat) + "\" target=\"_blank\">"@
                            + escape_attr(url_chars@),
                        para_spans: v1.para_spans.push(
                            SpanView {
                                syn_id: syn_id@,
                                char_range: std::ops::Range { start: ucs, end: uce },
                                syntax_type: SyntaxType::Inline,
                                formatted_range: Some(std::ops::Range { start: ocs, end: cce }),
                            },
                        ),
                        ..v1
                    },
                    "</a>"@,
                ),
                std::ops::Range { start: (range.start + 3) as usize, end: (range.end - 2) as usize },
                std::ops::Range { start: ucs, end: uce },
            );
        }
        self.embed_close(&syn_id, ocs, uce, cce, std::ops::Range { start: range.start, end: range.end }, closes);
        self.embed_tail(dest_url, title, content, cce, range);
    }

    fn process_footnote_ref(&mut self, name: &str, range: std::ops::Range<usize>)
        requires
            range_in_source(old(self)@, range),
            has_room(old(self)@, 0),
        ensures
            final(self)@ == spec_footnote_ref(old(self)@, name@, range),
    {
        proof {
            crate::writer::text_units::lemma_byte_slice_len(self.source@, range.start as int, range.end as int);
        }
        let a = crate::writer::text_units::char_index_at_byte(self.source.as_slice(), range.start);
        let z = crate::writer::text_units::char_index_at_byte(self.source.as_slice(), range.end);
        let char_start = self.last_char_offset;
        let char_end = char_start + (z - a);
        let start_text = usize_to_string(char_start);
        let end_text = usize_to_string(char_end);
        let escaped = crate::writer::text_units::escape_html_chars(self.source.as_slice(), a, z);
        self.emit("<span class=\"footnote-ref\" data-char-start=\"");
        self.emit(start_text.as_str());
        self.emit("\" data-char-end=\"");
        self.emit(end_text.as_str());
        self.emit("\" data-footnote=\"");
        self.emit(name);
        self.emit("\">");
        self.emit(escaped.as_str());
        proof {
            assert(self@.current =~= old(self)@.current + (footnote_open(
                char_start as nat,
                char_end as nat,
                name@,
            ) + crate::writer::text_units::escape_attr(
                byte_slice(old(self)@.source, range.start as int, range.end as int),
            )));
        }
        self.write("</span>");
        let byte_end = range.end;
        self.record_mapping(range, std::ops::Range { start: char_start, end: char_end });
        self.current_node.child_count = self.current_node.child_count + 1;
        self.last_char_offset = char_end;
        self.last_byte_offset = byte_end;
    }

    /// Show the source characters `a..b` dimmed, in a placeholder span that
    /// takes the next syntax span ID.
    fn emit_placeholder(&mut self, a: usize, b: usize)
        requires
            a <= b <= old(self)@.source.len(),
            old(self)@.ids.next_syn_id < usize::MAX,
            old(self)@.last_char_offset + (b - a) <= usize::MAX,
        ensures
            final(self)@ == spec_write(
                WriterView {
                    ids: IdsView { next_syn_id: (old(self)@.ids.next_syn_id + 1) as usize, ..old(self)@.ids },
                    current: old(self)@.current + placeholder_open(
                        syn_text(old(self)@.ids),
                        old(self)@.last_char_offset as nat,
                        (old(self)@.last_char_offset + (b - a)) as nat,
                    ) + escape_attr(old(self)@.source.subrange(a as int, b as int)),
                    ..old(self)@
                },
                "</span>"@,
            ),
    {
        let char_start = self.last_char_offset;
        let char_end = char_start + (b - a);
        let syn_id = self.gen_syn_id();
        let start_text = usize_to_string(char_start);
        let end_text = usize_to_string(char_end);
        let escaped = crate::writer::text_units::escape_html_chars(self.source.as_slice(), a, b);
        self.emit("<span class=\"md-placeholder\" data-syn-id=\"");
        self.emit(syn_id.as_str());
        self.emit("\" data-char-start=\"");
        self.emit(start_text.as_str());
        self.emit("\" data-char-end=\"");
        self.emit(end_text.as_str());
        self.emit("\">");
        self.emit(escaped.as_str());
        proof {
            assert(self@.current =~= old(self)@.current + placeholder_open(
                syn_id@,
                char_start as nat,
                char_end as nat,
            ) + escape_attr(old(self)@.source.subrange(a as int, b as int)));
        }
        self.write("</span>");
    }

    #[verifier::rlimit(40)]
    fn process_hard_break(&mut self, range: std::ops::Range<usize>)
        requires
            range_in_source(old(self)@, range),
            has_room(old(self)@, 0),
        ensures
            final(self)@ == spec_hard_break(old(self)@, range),
    {
        proof {
            crate::writer::text_units::lemma_byte_slice_len(self.source@, range.start as int, range.end as int);
        }
        let a = crate::writer::text_units::char_index_at_byte(self.source.as_slice(), range.start);
        let z = crate::writer::text_units::char_index_at_byte(self.source.as_slice(), range.end);
        let ghost gap = byte_slice(self.source@, range.start as int, range.end as int);
        proof {
            assert(gap =~= self.source@.subrange(a as int, z as int));
        }
        if a < z && self.source[z - 1] == '\n' {
            let nl = range.end - 1;
            proof {
                let s = self.source@;
                assert(s.take(z as int).drop_last() =~= s.take(z - 1));
                assert(crate::writer::text_units::starts_char(s, z - 1, nl as int));
                assert(gap.drop_last() =~= s.subrange(a as int, z - 1));
                lemma_utf8_len_take_mono_any(s, a as int, z - 1);
            }
            let char_start = self.last_char_offset;
            let char_end = char_start + (z - 1 - a);
            self.emit_placeholder(a, z - 1);
            self.current_node.child_count = self.current_node.child_count + 1;
            self.record_mapping(
                std::ops::Range { start: range.start, end: nl },
                std::ops::Range { start: char_start, end: char_end },
            );
            proof {
                crate::writer::text_units::lemma_byte_slice_len(self.source@, range.start as int, nl as int);
                lemma_utf16_len_bound(byte_slice(self.source@, range.start as int, nl as int));
            }
            self.write("<br />");
            self.current_node.child_count = self.current_node.child_count + 1;
            self.write("\u{200B}");
            self.current_node.child_count = self.current_node.child_count + 1;
            if let Some(id) = &self.current_node.id {
                let mapping = OffsetMapping {
                    byte_range: std::ops::Range { start: nl, end: range.end },
                    char_range: std::ops::Range { start: char_end, end: char_end + 1 },
                    node_id: id.clone(),
                    char_offset_in_node: self.current_node.char_offset,
                    child_index: None,
                    utf16_len: 1,
                };
                proof {
                    lemma_maps_view_push(self.current_para.offset_maps@, mapping);
                }
                self.current_para.offset_maps.push(mapping);
                self.current_node.char_offset = self.current_node.char_offset + 1;
            }
            self.last_char_offset = char_end + 1;
        } else {
            self.write("<br />");
        }
    }

    fn process_html(&mut self, html: &str, range: std::ops::Range<usize>, inline: bool)
        requires
            range_in_source(old(self)@, range),
            has_room(old(self)@, utf8_len(html@)),
        ensures
            inline ==> final(self)@ == spec_inline_html(old(self)@, html@, range),
            !inline ==> final(self)@ == spec_html(old(self)@, html@, range),
    {
        proof {
            crate::strings::lemma_utf8_len_bounds(html@);
        }
        let char_start = self.last_char_offset;
        let char_end = char_start + html.unicode_len();
        if inline {
            self.write("<span class=\"html-embed html-embed-inline\">");
            self.write(html);
            self.write("</span>");
        } else {
            self.write(html);
        }
        self.record_mapping(range, std::ops::Range { start: char_start, end: char_end });
        self.last_char_offset = char_end;
    }

    fn process_soft_break(&mut self, range: std::ops::Range<usize>)
        requires
            has_room(old(self)@, 0),
        ensures
            final(self)@ == spec_soft_break(old(self)@, range),
    {
        let char_start = self.last_char_offset;
        self.write("<br />");
        self.current_node.child_count = self.current_node.child_count + 1;
        self.write("\u{200B}");
        self.current_node.child_count = self.current_node.child_count + 1;
        if let Some(id) = &self.current_node.id {
            let mapping = OffsetMapping {
                byte_range: range,
                char_range: std::ops::Range { start: char_start, end: char_start + 1 },
                node_id: id.clone(),
                char_offset_in_node: self.current_node.char_offset,
                child_index: None,
                utf16_len: 1,
            };
            proof {
                lemma_maps_view_push(self.current_para.offset_maps@, mapping);
            }
            self.current_para.offset_maps.push(mapping);
            self.current_node.char_offset = self.current_node.char_offset + 1;
        }
        self.last_char_offset = char_start + 1;
    }

    /// Open `tag`, whose markdown spans `range`.
    #[verifier::rlimit(50)]
    pub fn start_tag(&mut self, tag: WriterTag, range: std::ops::Range<usize>) -> (r: Result<(), std::fmt::Error>)
        requires
            has_room(old(self)@, 0),
            range_in_source(old(self)@, range),
            tag is Item ==> item_ok(old(self)@, range),
        ensures
            r is Ok,
            final(self)@ == spec_start_tag(old(self)@, tag, range),
    {
        match tag {
            WriterTag::HtmlBlock => self.open_block(range, true, None),
            WriterTag::Paragraph(dir) => self.open_block(range, false, dir),
            WriterTag::Emphasis => {
                self.open_format(&WriterTag::Emphasis, range);
                self.write("<em>");
            },
            WriterTag::Strong => {
                self.open_format(&WriterTag::Strong, range);
                self.write("<strong>");
            },
            WriterTag::Strikethrough => {
                self.open_format(&WriterTag::Strikethrough, range);
                self.write("<s>");
            },
            WriterTag::FootnoteDefinition(_) => self.footnote_def_start(range),
            WriterTag::Subscript => self.write("<sub>"),
            WriterTag::Superscript => self.write("<sup>"),
            WriterTag::MetadataBlock => {
                self.in_non_writing_block = true;
            },
            WriterTag::Table(alignments) => {
                self.table_alignments = alignments;
                self.write("<table>");
            },
            WriterTag::TableHead => {
                self.table_state = TableState::Head;
                self.table_cell_index = 0;
                self.write("<thead><tr>");
            },
            WriterTag::TableRow => {
                self.table_cell_index = 0;
                self.write("<tr>");
            },
            WriterTag::TableCell => {
                match self.table_state {
                    TableState::Head => self.write("<th"),
                    TableState::Body => self.write("<td"),
                }
                if self.table_cell_index < self.table_alignments.len() {
                    match self.table_alignments[self.table_cell_index] {
                        Alignment::Left => self.write(" style=\"text-align: left\">"),
                        Alignment::Center => self.write(" style=\"text-align: center\">"),
                        Alignment::Right => self.write(" style=\"text-align: right\">"),
                        Alignment::Unspecified => self.write(">"),
                    }
                } else {
                    self.write(">");
                }
            },
            WriterTag::List(first) => {
                self.paragraphs.current_start = Some((self.last_byte_offset, self.last_char_offset));
                self.paragraphs.list_depth = self.paragraphs.list_depth + 1;
                match first {
                    Some(n) => {
                        if n == 1 {
                            self.write("<ol>");
                        } else {
                            self.write("<ol start=\"");
                            let digits = crate::strings::u64_to_string(n);
                            self.emit(digits.as_str());
                            self.write("\">");
                        }
                    },
                    None => self.write("<ul>"),
                }
            },
            WriterTag::DefinitionList => self.write("<dl>"),
            WriterTag::Item => self.item_start(range),
            WriterTag::DefinitionListTitle => self.open_node("<dt data-node-id=\""),
            WriterTag::DefinitionListDefinition => self.open_node("<dd data-node-id=\""),
        }
        Ok(())
    }

    /// Open a block that makes a paragraph of its own: an HTML block, or a
    /// paragraph with text direction `dir`.
    fn open_block(&mut self, range: std::ops::Range<usize>, html: bool, dir: Option<TextDirection>)
        requires
            has_room(old(self)@, 0),
        ensures
            final(self)@ == spec_open_block(old(self)@, range, html, dir),
    {
        reveal(spec_open_block);
        if self.paragraphs.should_track_boundaries() {
            self.paragraphs.current_start = Some((self.last_byte_offset, self.last_char_offset));
        }
        let node_id = self.node_ids.next_node();
        let ghost before = self@;
        self.emit("<p id=\"");
        self.emit(node_id.as_str());
        if html {
            self.emit("\" class=\"html-embed html-embed-block\">");
        } else {
            match dir {
                Some(d) => {
                    self.emit("\" dir=\"");
                    match d {
                        TextDirection::LeftToRight => self.emit("ltr"),
                        TextDirection::RightToLeft => self.emit("rtl"),
                    }
                    self.emit("\">");
                },
                None => self.emit("\">"),
            }
        }
        proof {
            assert(self@.current =~= before.current + if html {
                html_block_open(node_id@)
            } else {
                paragraph_open(node_id@, dir)
            });
        }
        self.current_node.begin(node_id.clone());
        let para_start_char = self.last_char_offset;
        let mapping = OffsetMapping {
            byte_range: std::ops::Range { start: range.start, end: range.start },
            char_range: std::ops::Range { start: para_start_char, end: para_start_char },
            node_id,
            char_offset_in_node: 0,
            child_index: Some(0),
            utf16_len: 0,
        };
        proof {
            lemma_maps_view_push(self.current_para.offset_maps@, mapping);
        }
        self.current_para.offset_maps.push(mapping);
    }

    /// The opening marker of the inline format `tag`, at the start of `range`,
    /// when its source starts with one.
    fn open_format(&mut self, tag: &WriterTag, range: std::ops::Range<usize>)
        requires
            has_room(old(self)@, 0),
            range_in_source(old(self)@, range),
        ensures
            final(self)@ == spec_format_open(
                old(self)@,
                format_marker(*tag, byte_slice(old(self)@.source, range.start as int, range.end as int)),
                range.start,
            ),
    {
        let ghost raw = byte_slice(self.source@, range.start as int, range.end as int);
        proof {
            crate::writer::text_units::lemma_byte_slice_len(self.source@, range.start as int, range.end as int);
            lemma_format_open_empty(self@, range);
        }
        let a = crate::writer::text_units::char_index_at_byte(self.source.as_slice(), range.start);
        let z = crate::writer::text_units::char_index_at_byte(self.source.as_slice(), range.end);
        proof {
            assert(raw =~= self.source@.subrange(a as int, z as int));
        }
        if a >= z {
            proof {
                assert(raw.len() == 0);
                assert(format_marker(*tag, raw) =~= Seq::<char>::empty());
            }
            return;
        }
        let marker = marker_at(tag, self.source.as_slice(), a, z);
        let k = marker.unicode_len();
        if k == 0 {
            proof {
                assert(marker@ =~= Seq::<char>::empty());
            }
            return;
        }
        proof {
            let s = self.source@;
            assert(s.subrange(a as int, a + k) =~= marker@);
            lemma_ascii_utf8_len(marker@);
            crate::strings::lemma_utf8_len_concat(s.take(a as int), s.subrange(a as int, a + k));
            assert(s.take(a as int) + s.subrange(a as int, a + k) =~= s.take(a + k));
            crate::strings::lemma_utf8_len_take_mono(s, a + k, z as int);
            assert(crate::writer::text_units::starts_char(s, a + k, range.start + k));
        }
        self.marker_span(marker, range.start);
    }

    /// A format's opening marker `m`, starting at byte `start`, as syntax.
    #[verifier::rlimit(100)]
    fn marker_span(&mut self, m: &str, start: usize)
        requires
            has_room(old(self)@, 0),
            0 < m@.len() <= old(self)@.source.len(),
            forall|i: int| 0 <= i < m@.len() ==> (#[trigger] m@[i] as u32) < 0x80,
            start + m@.len() <= usize::MAX,
            is_char_boundary(old(self)@.source, start as int),
            is_char_boundary(old(self)@.source, start + m@.len()),
        ensures
            final(self)@ == spec_format_open(
                old(self)@,
                m@,
                start,
            ),
    {
        reveal(spec_format_open);
        let syn_id = self.gen_syn_id();
        let n = m.unicode_len();
        let char_start = self.last_char_offset;
        let char_end = char_start + n;
        let start_text = usize_to_string(char_start);
        let end_text = usize_to_string(char_end);
        let syntax_type = crate::syntax::classify_syntax(m);
        let ghost before = self@;
        self.emit("<span class=\"");
        match syntax_type {
            SyntaxType::Block => self.emit("md-syntax-block"),
            SyntaxType::Inline => self.emit("md-syntax-inline"),
        }
        self.emit("\" data-syn-id=\"");
        self.emit(syn_id.as_str());
        self.emit("\" data-char-start=\"");
        self.emit(start_text.as_str());
        self.emit("\" data-char-end=\"");
        self.emit(end_text.as_str());
        self.emit("\">");
        self.emit(m);
        proof {
            assert(self@.current =~= before.current + marker_span_open(
                if crate::syntax::is_block_syntax(m@) {
                    "md-syntax-block"@
                } else {
                    "md-syntax-inline"@
                },
                syn_id@,
                char_start as nat,
                char_end as nat,
            ) + m@);
        }
        self.write("</span>");
        let span = SyntaxSpanInfo {
            syn_id: syn_id.clone(),
            char_range: std::ops::Range { start: char_start, end: char_end },
            syntax_type,
            formatted_range: None,
        };
        let ghost spans = self.current_para.syntax_spans@;
        self.current_para.syntax_spans.push(span);
        proof {
            assert(spans_view(self.current_para.syntax_spans@) =~= spans_view(spans).push(span_view(span)));
        }
        self.record_mapping(
            std::ops::Range { start: start, end: start + n },
            std::ops::Range { start: char_start, end: char_end },
        );
        let ghost pending = self.current_para.pending_inline_formats@;
        self.current_para.pending_inline_formats.push((syn_id, char_start));
        proof {
            assert(self.current_para.pending_inline_formats@.map_values(|f: (String, usize)| (f.0@, f.1))
                =~= pending.map_values(|f: (String, usize)| (f.0@, f.1)).push((syn_id@, char_start)));
        }
        self.last_char_offset = char_end;
        self.last_byte_offset = start + n;
    }

    /// Open a footnote definition whose source spans `range`.
    #[verifier::rlimit(60)]
    fn footnote_def_start(&mut self, range: std::ops::Range<usize>)
        requires
            has_room(old(self)@, 0),
            range_in_source(old(self)@, range),
        ensures
            final(self)@ == spec_footnote_def_start(old(self)@, range),
    {
        reveal(spec_footnote_def_start);
        self.paragraphs.current_start = Some((self.last_byte_offset, self.last_char_offset));
        self.paragraphs.in_footnote_def = true;
        if !self.end_newline {
            self.write("\n");
        }
        let node_id = self.node_ids.next_node();
        let ghost before = self@;
        self.emit("<div class=\"footnote-def-editor\" data-node-id=\"");
        self.emit(node_id.as_str());
        self.emit("\">");
        proof {
            assert(self@.current =~= before.current + ("<div class=\"footnote-def-editor\" data-node-id=\""@
                + node_id@ + "\">"@));
        }
        self.current_node.begin(node_id.clone());
        let cs = self.last_char_offset;
        let mapping = OffsetMapping {
            byte_range: std::ops::Range { start: range.start, end: range.start },
            char_range: std::ops::Range { start: cs, end: cs },
            node_id,
            char_offset_in_node: 0,
            child_index: Some(0),
            utf16_len: 0,
        };
        proof {
            lemma_maps_view_push(self.current_para.offset_maps@, mapping);
        }
        self.current_para.offset_maps.push(mapping);
        let (a, e, be) = self.def_prefix(std::ops::Range { start: range.start, end: range.end });
        let ce = cs + (e - a);
        let start_text = usize_to_string(cs);
        let end_text = usize_to_string(ce);
        let escaped = crate::writer::text_units::escape_html_chars(self.source.as_slice(), a, e);
        let ghost mid = self@;
        self.emit("<span class=\"footnote-def-syntax\" data-char-start=\"");
        self.emit(start_text.as_str());
        self.emit("\" data-char-end=\"");
        self.emit(end_text.as_str());
        self.emit("\">");
        self.emit(escaped.as_str());
        proof {
            assert(self@.current =~= mid.current + (def_prefix_open(cs as nat, ce as nat) + escape_attr(
                self.source@.subrange(a as int, e as int),
            )));
        }
        self.write("</span>");
        self.record_mapping(
            std::ops::Range { start: range.start, end: be },
            std::ops::Range { start: cs, end: ce },
        );
        self.last_char_offset = ce;
        self.last_byte_offset = be;
    }

    /// Where a footnote definition's prefix lies: the characters `a..e` of
    /// the source, ending at byte `be`.
    fn def_prefix(&self, range: std::ops::Range<usize>) -> (r: (usize, usize, usize))
        requires
            range_in_source(self@, range),
        ensures
            ({
                let raw = byte_slice(self@.source, range.start as int, range.end as int);
                let prefix = raw.take(def_prefix_len(raw));
                &&& r.0 <= r.1 <= self@.source.len()
                &&& self@.source.subrange(r.0 as int, r.1 as int) == prefix
                &&& r.2 == range.start + utf8_len(prefix)
                &&& r.2 <= range.end
                &&& is_char_boundary(self@.source, r.2 as int)
            }),
    {
        let ghost s = self.source@;
        let ghost raw = byte_slice(s, range.start as int, range.end as int);
        proof {
            crate::writer::text_units::lemma_byte_slice_len(s, range.start as int, range.end as int);
        }
        let a = crate::writer::text_units::char_index_at_byte(self.source.as_slice(), range.start);
        let z = crate::writer::text_units::char_index_at_byte(self.source.as_slice(), range.end);
        proof {
            assert(raw =~= s.subrange(a as int, z as int));
        }
        let mut len: usize = 0;
        if a < z && z - a >= 2 {
            let mut i: usize = a;
            while i + 1 < z && !(self.source[i] == ']' && self.source[i + 1] == ':')
                invariant
                    a <= i < z <= s.len(),
                    s == self.source@,
                    raw == s.subrange(a as int, z as int),
                    def_colon(s.subrange(a as int, i + 1)) < 0,
                decreases z - i,
            {
                proof {
                    let t = s.subrange(a as int, i + 2);
                    assert(t.drop_last() =~= s.subrange(a as int, i + 1));
                }
                i = i + 1;
            }
            if i + 1 < z {
                proof {
                    let t = s.subrange(a as int, i + 2);
                    assert(t.drop_last() =~= s.subrange(a as int, i + 1));
                    assert(def_colon(t) == i - a);
                    assert(raw.take(i - a + 2) =~= t);
                    lemma_def_colon_prefix(raw, i - a + 2);
                }
                len = if i + 2 < z && self.source[i + 2] == ' ' {
                    i - a + 3
                } else {
                    i - a + 2
                };
            } else {
                proof {
                    assert(raw =~= s.subrange(a as int, i + 1));
                }
            }
        } else {
            proof {
                assert(raw.len() < 2);
            }
        }
        let e = a + len;
        proof {
            assert(len == def_prefix_len(raw));
            assert(s.subrange(a as int, e as int) =~= raw.take(len as int));
            crate::strings::lemma_utf8_len_concat(s.take(a as int), s.subrange(a as int, e as int));
            assert(s.take(a as int) + s.subrange(a as int, e as int) =~= s.take(e as int));
            crate::strings::lemma_utf8_len_take_mono(s, e as int, z as int);
        }
        let n = crate::writer::text_units::utf8_len_upto(self.source.as_slice(), a, e, range.end - range.start);
        proof {
            assert(crate::writer::text_units::starts_char(s, e as int, range.start + n));
        }
        (a, e, range.start + n)
    }

    fn item_marker(&self, ta: usize, z: usize) -> (r: Option<usize>)
        requires
            ta < z <= self@.source.len(),
        ensures
            match r {
                Some(k) => item_marker_len(self@.source.subrange(ta as int, z as int)) == Some(k as int)
                    && k <= z - ta,
                None => item_marker_len(self@.source.subrange(ta as int, z as int)) is None,
            },
    {
        let ghost t = self.source@.subrange(ta as int, z as int);
        let m = self.source[ta];
        proof {
            assert(t[0] == m);
        }
        if m == '-' || m == '*' {
            let p = crate::writer::text_units::find_in_class(
                self.source.as_slice(),
                ta,
                z,
                crate::writer::text_units::CharClass::NotBullet,
            );
            Some(if p < z - ta { p + 1 } else { 1 })
        } else if '0' <= m && m <= '9' {
            let d = crate::writer::text_units::find_in_class(
                self.source.as_slice(),
                ta,
                z,
                crate::writer::text_units::CharClass::Dot,
            );
            if d < z - ta {
                Some(if d < z - ta - 1 { d + 2 } else { z - ta })
            } else {
                None
            }
        } else {
            None
        }
    }

    fn item_marker_span(&mut self, ma: usize, mz: usize, n: usize, start: usize, be: usize)
        requires
            ma <= mz <= old(self)@.source.len(),
            old(self)@.last_char_offset + n <= usize::MAX,
            old(self)@.ids.next_syn_id < usize::MAX,
            start <= be,
            is_char_boundary(old(self)@.source, start as int),
            is_char_boundary(old(self)@.source, be as int),
            map_room(old(self)@),
        ensures
            final(self)@ == spec_item_marker(
                old(self)@,
                old(self)@.source.subrange(ma as int, mz as int),
                n as nat,
                start,
                be,
            ),
    {
        let syn_id = self.gen_syn_id();
        let char_start = self.last_char_offset;
        let char_end = char_start + n;
        let start_text = usize_to_string(char_start);
        let end_text = usize_to_string(char_end);
        let escaped = crate::writer::text_units::escape_html_chars(self.source.as_slice(), ma, mz);
        let ghost before = self@;
        self.emit("<span class=\"md-syntax-block\" data-syn-id=\"");
        self.emit(syn_id.as_str());
        self.emit("\" data-char-start=\"");
        self.emit(start_text.as_str());
        self.emit("\" data-char-end=\"");
        self.emit(end_text.as_str());
        self.emit("\" spellcheck=\"false\">");
        self.emit(escaped.as_str());
        proof {
            assert(self@.current =~= before.current + block_span_open(
                syn_id@,
                char_start as nat,
                char_end as nat,
            ) + escape_attr(self.source@.subrange(ma as int, mz as int)));
        }
        self.write("</span>");
        let span = SyntaxSpanInfo {
            syn_id,
            char_range: std::ops::Range { start: char_start, end: char_end },
            syntax_type: SyntaxType::Block,
            formatted_range: None,
        };
        let ghost spans = self.current_para.syntax_spans@;
        self.current_para.syntax_spans.push(span);
        proof {
            assert(spans_view(self.current_para.syntax_spans@) =~= spans_view(spans).push(span_view(span)));
        }
        self.record_mapping(
            std::ops::Range { start: start, end: be },
            std::ops::Range { start: char_start, end: char_end },
        );
        self.last_char_offset = char_end;
        self.last_byte_offset = be;
    }

    #[verifier::rlimit(60)]
    fn item_start(&mut self, range: std::ops::Range<usize>)
        requires
            has_room(old(self)@, 0),
            item_ok(old(self)@, range),
        ensures
            final(self)@ == spec_item_start(old(self)@, range),
    {
        self.open_node("<li data-node-id=\"");
        if range.start < range.end {
            proof {
                crate::writer::text_units::lemma_byte_slice_len(self.source@, range.start as int, range.end as int);
            }
            let a = crate::writer::text_units::char_index_at_byte(self.source.as_slice(), range.start);
            let z = crate::writer::text_units::char_index_at_byte(self.source.as_slice(), range.end);
            let ghost raw = byte_slice(self.source@, range.start as int, range.end as int);
            proof {
                assert(raw =~= self.source@.subrange(a as int, z as int));
            }
            let i = crate::writer::text_units::find_in_class(
                self.source.as_slice(),
                a,
                z,
                crate::writer::text_units::CharClass::NotWhitespace,
            );
            let ta = a + i;
            let ghost t = raw.skip(i as int);
            proof {
                assert(t =~= self.source@.subrange(ta as int, z as int));
            }
            if ta < z {
                let k_opt = self.item_marker(ta, z);
                if let Some(k) = k_opt {
                    let byte_len = crate::writer::text_units::utf8_len_of(self.source.as_slice(), a, ta + k);
                    proof {
                        let s = self.source@;
                        crate::strings::lemma_utf8_len_concat(s.take(a as int), s.subrange(a as int, ta + k));
                        assert(s.take(a as int) + s.subrange(a as int, ta + k) =~= s.take(ta + k));
                        crate::strings::lemma_utf8_len_take_mono(s, ta + k, z as int);
                    }
                    let byte_end = range.start + byte_len;
                    proof {
                        let s = self.source@;
                        assert(crate::writer::text_units::starts_char(s, ta + k, byte_end as int));
                        assert(raw.take(i + k) =~= s.subrange(a as int, ta + k));
                        crate::strings::lemma_utf8_len_take_mono(s, ta + k, z as int);
                        assert(t.take(k as int) =~= s.subrange(ta as int, ta + k));
                    }
                    self.item_marker_span(ta, ta + k, i + k, range.start, byte_end);
                }
            }
        }
    }

    fn open_node(&mut self, open: &str)
        requires
            old(self)@.ids.next_node_id < usize::MAX,
        ensures
            final(self)@ == spec_open_node(old(self)@, open@),
    {
        let node_id = self.node_ids.next_node();
        self.emit(open);
        self.emit(node_id.as_str());
        self.emit("\">");
        proof {
            assert(self@.current =~= old(self)@.current + (open@ + node_id@ + "\">"@));
        }
        self.current_node.begin(node_id);
    }

    fn close_node(&mut self, close: &str)
        ensures
            final(self)@ == spec_close_node(old(self)@, close@),
    {
        self.current_node.end();
        self.write(close);
    }

    /// Close the innermost open inline format where the writer stands.
    fn close_format(&mut self)
        ensures
            final(self)@ == spec_format_close(old(self)@),
    {
        reveal(spec_format_close);
        let ghost spans = self.current_para.syntax_spans@;
        let ghost pending = self.current_para.pending_inline_formats@;
        let ghost v = self@;
        self.current_para.finalize_paired_format(self.last_char_offset);
        proof {
            if pending.len() > 0 {
                let (id, start) = pending.last();
                lemma_spans_view_finalized(
                    spans,
                    id@,
                    std::ops::Range { start: start, end: v.last_char_offset },
                );
                assert(pending.drop_last().map_values(|f: (String, usize)| (f.0@, f.1))
                    =~= v.pending_formats.drop_last());
            }
        }
    }

    /// Close `tag`.
    #[verifier::rlimit(50)]
    pub fn end_tag(&mut self, tag: WriterTag, range: std::ops::Range<usize>) -> (r: Result<(), std::fmt::Error>)
        requires
            has_room(old(self)@, 0),
        ensures
            r is Ok,
            final(self)@ == spec_end_tag(old(self)@, tag),
    {
        match tag {
            WriterTag::HtmlBlock | WriterTag::Paragraph(_) => {
                let track = self.paragraphs.should_track_boundaries();
                let start = self.paragraphs.current_start;
                if track {
                    self.paragraphs.current_start = None;
                }
                let byte_end = self.last_byte_offset;
                let char_end = self.last_char_offset;
                self.current_node.end();
                self.write("</p>");
                if track {
                    if let Some((byte_start, char_start)) = start {
                        self.finalize_paragraph(
                            std::ops::Range { start: byte_start, end: byte_end },
                            std::ops::Range { start: char_start, end: char_end },
                        );
                    }
                }
            },
            WriterTag::Subscript => self.write("</sub>"),
            WriterTag::Superscript => self.write("</sup>"),
            WriterTag::Emphasis => {
                self.write("</em>");
                self.close_format();
            },
            WriterTag::Strong => {
                self.write("</strong>");
                self.close_format();
            },
            WriterTag::Strikethrough => {
                self.write("</s>");
                self.close_format();
            },
            WriterTag::FootnoteDefinition(_) => {
                let start = self.paragraphs.current_start;
                let byte_end = self.last_byte_offset;
                let char_end = self.last_char_offset;
                self.close_node("</div>");
                self.paragraphs.in_footnote_def = false;
                self.paragraphs.current_start = None;
                if let Some((byte_start, char_start)) = start {
                    self.finalize_paragraph(
                        std::ops::Range { start: byte_start, end: byte_end },
                        std::ops::Range { start: char_start, end: char_end },
                    );
                }
            },
            WriterTag::MetadataBlock => {
                self.in_non_writing_block = false;
            },
            WriterTag::Table(_) => self.write("</tbody></table>"),
            WriterTag::TableHead => {
                self.write("</tr></thead><tbody>");
                self.table_state = TableState::Body;
            },
            WriterTag::TableRow => self.write("</tr>"),
            WriterTag::List(first) => {
                if self.paragraphs.list_depth > 0 {
                    self.paragraphs.list_depth = self.paragraphs.list_depth - 1;
                }
                let start = self.paragraphs.current_start;
                self.paragraphs.current_start = None;
                let byte_end = self.last_byte_offset;
                let char_end = self.last_char_offset;
                if first.is_some() {
                    self.write("</ol>");
                } else {
                    self.write("</ul>");
                }
                if let Some((byte_start, char_start)) = start {
                    self.finalize_paragraph(
                        std::ops::Range { start: byte_start, end: byte_end },
                        std::ops::Range { start: char_start, end: char_end },
                    );
                }
            },
            WriterTag::DefinitionList => self.write("</dl>"),
            WriterTag::Item => self.close_node("</li>"),
            WriterTag::DefinitionListTitle => self.close_node("</dt>"),
            WriterTag::DefinitionListDefinition => self.close_node("</dd>"),
            WriterTag::TableCell => {
                match self.table_state {
                    TableState::Head => self.write("</th>"),
                    TableState::Body => self.write("</td>"),
                }
                self.table_cell_index = self.table_cell_index + 1;
            },
        }
        Ok(())
    }

    /// Process one markdown event whose source spans `range`.
    #[verifier::rlimit(50)]
    pub fn process_event(&mut self, event: WriterEvent, range: std::ops::Range<usize>) -> (r: Result<
        (),
        std::fmt::Error,
    >)
        requires
            range_in_source(old(self)@, range),
            has_room(old(self)@, event_len(event)),
            event is Embed ==> embed_range_ok(old(self)@, range),
            event matches WriterEvent::Start(WriterTag::Item) ==> item_ok(old(self)@, range),
        ensures
            r is Ok,
            final(self)@ == spec_process_event(old(self)@, event, range),
            final(self)@.source == old(self)@.source,
            final(self)@.source_byte_len == old(self)@.source_byte_len,
    {
        proof {
            reveal(spec_process_event);
        }
        match event {
            WriterEvent::Start(tag) => {
                proof {
                    lemma_start_keeps_source(old(self)@, tag, range);
                }
                self.start_tag(tag, range)
            },
            WriterEvent::End(tag) => {
                proof {
                    lemma_end_keeps_source(old(self)@, tag);
                }
                self.end_tag(tag, range)
            },
            WriterEvent::Text(text) => {
                self.process_text(text.as_str(), range);
                Ok(())
            },
            WriterEvent::Code(text) => {
                self.process_code(text.as_str(), range);
                Ok(())
            },
            WriterEvent::Html(html) => {
                self.process_html(html.as_str(), range, false);
                Ok(())
            },
            WriterEvent::InlineHtml(html) => {
                self.process_html(html.as_str(), range, true);
                Ok(())
            },
            WriterEvent::SoftBreak => {
                self.process_soft_break(range);
                Ok(())
            },
            WriterEvent::HardBreak => {
                self.process_hard_break(range);
                Ok(())
            },
            WriterEvent::Rule => {
                self.process_rule(range);
                Ok(())
            },
            WriterEvent::FootnoteReference(name) => {
                self.process_footnote_ref(name.as_str(), range);
                Ok(())
            },
            WriterEvent::Embed { dest_url, title, content } => {
                self.process_embed(dest_url, title, content, range);
                Ok(())
            },
            WriterEvent::WeaverBlock(text) => {
                crate::strings::string_push_str(&mut self.weaver_buffer, text.as_str());
                Ok(())
            },
        }
    }
}


/// One step of the run: the event, and the source position moved to the
/// event's end unless the event moved it itself.
pub open spec fn spec_step(v: WriterView, e: WriterEvent, range: std::ops::Range<usize>) -> WriterView {
    let w = spec_process_event(v, e, range);
    if w.last_byte_offset == v.last_byte_offset {
        WriterView { last_byte_offset: range.end, ..w }
    } else {
        w
    }
}

/// The writer after the events, one after another.
pub open spec fn spec_run_events(v: WriterView, events: Seq<(WriterEvent, std::ops::Range<usize>)>) -> WriterView
    decreases events.len(),
{
    if events.len() == 0 {
        v
    } else {
        spec_step(spec_run_events(v, events.drop_last()), events.last().0, events.last().1)
    }
}

/// Every event's range lies on character boundaries of the source, and the
/// writer's counters have room for it when it comes.
pub open spec fn run_fits(v: WriterView, events: Seq<(WriterEvent, std::ops::Range<usize>)>) -> bool
    decreases events.len(),
{
    if events.len() == 0 {
        true
    } else {
        let w = spec_run_events(v, events.drop_last());
        &&& run_fits(v, events.drop_last())
        &&& range_in_source(w, events.last().1)
        &&& has_room(w, event_len(events.last().0))
        &&& (events.last().0 is Embed ==> embed_range_ok(w, events.last().1))
        &&& (events.last().0 matches WriterEvent::Start(WriterTag::Item) ==> item_ok(
            w,
            events.last().1,
        ))
    }
}

/// The writer once the last paragraph's offset maps, spans and refs are
/// filed, when there are any.
pub open spec fn spec_flush(v: WriterView) -> WriterView {
    if v.para_maps.len() > 0 || v.para_spans.len() > 0 || v.collected.len() > 0 {
        WriterView {
            maps_by_para: v.maps_by_para.push(v.para_maps),
            spans_by_para: v.spans_by_para.push(v.para_spans),
            refs_by_para: v.refs_by_para.push(v.collected),
            para_maps: Seq::empty(),
            para_spans: Seq::empty(),
            collected: Seq::empty(),
            ..v
        }
    } else {
        v
    }
}

/// `r` holds what the writer `v` has written: its segments, paragraph ranges
/// and per-paragraph offset maps, spans and refs.
pub open spec fn result_of(r: WriterResult, v: WriterView) -> bool {
    &&& texts(r.html_segments@) == closed_segments(v.segments, v.current)
    &&& r.paragraph_ranges@ == v.paragraph_ranges
    &&& r.offset_maps_by_paragraph@.map_values(|m: Vec<OffsetMapping>| maps_view(m@)) == v.maps_by_para
    &&& r.syntax_spans_by_paragraph@.map_values(|m: Vec<SyntaxSpanInfo>| spans_view(m@)) == v.spans_by_para
    &&& r.collected_refs_by_paragraph@.map_values(|m: Vec<ExtractedRef>| m@) == v.refs_by_para
}

/// The source ends with a paragraph break: two newlines, or two around a
/// zero-width non-joiner.
pub open spec fn ends_para_break(s: Seq<char>) -> bool {
    ||| s.len() >= 2 && s[s.len() - 1] == '\n' && s[s.len() - 2] == '\n'
    ||| s.len() >= 3 && s[s.len() - 1] == '\n' && s[s.len() - 2] == '\u{200C}' && s[s.len()
        - 3] == '\n'
}

/// The source after the last written byte, shown dimmed in a placeholder
/// span and mapped by its character count.
pub open spec fn spec_trailing_placeholder(v: WriterView) -> WriterView {
    let t = byte_slice(v.source, v.last_byte_offset as int, v.source_byte_len as int);
    if t.len() > 0 {
        let cs = v.last_char_offset;
        let ce = (cs + t.len()) as usize;
        let syn = syn_text(v.ids);
        let v1 = spec_write(
            WriterView {
                ids: IdsView { next_syn_id: (v.ids.next_syn_id + 1) as usize, ..v.ids },
                current: v.current + placeholder_open(syn, cs as nat, ce as nat) + escape_attr(t),
                ..v
            },
            "</span>"@,
        );
        let v2 = match v1.node_id {
            Some(id) => WriterView {
                para_maps: v1.para_maps.push(
                    MapView {
                        byte_range: std::ops::Range { start: v.last_byte_offset, end: v.source_byte_len },
                        char_range: std::ops::Range { start: cs, end: ce },
                        node_id: id,
                        char_offset_in_node: v1.node_char_offset,
                        child_index: None,
                        utf16_len: t.len() as usize,
                    },
                ),
                node_char_offset: (v1.node_char_offset + t.len()) as usize,
                ..v1
            },
            None => v1,
        };
        WriterView { last_char_offset: ce, ..v2 }
    } else {
        v
    }
}

/// A paragraph of its own for the source's last newline, after a paragraph
/// break: its ranges, a segment with the newline and a zero-width space in a
/// span of its own, and one mapping that covers both.
pub open spec fn spec_trailing_paragraph(v: WriterView) -> WriterView {
    let t = byte_slice(v.source, v.source_byte_len - 1, v.source_byte_len as int);
    let te_char = (v.last_char_offset + t.len()) as usize;
    let br = std::ops::Range { start: v.last_byte_offset, end: v.source_byte_len };
    let cr = std::ops::Range { start: v.last_char_offset, end: te_char };
    let id = next_node_text(v.ids);
    let v1 = WriterView {
        paragraph_ranges: v.paragraph_ranges.push((br, cr)),
        segments: closed_segments(v.segments, v.current),
        current: "<span id=\""@ + id + "\">"@ + escape_attr(t),
        ids: IdsView { next_node_id: (v.ids.next_node_id + 1) as usize, ..v.ids },
        maps_by_para: v.maps_by_para.push(
            seq![
                MapView {
                    byte_range: br,
                    char_range: cr,
                    node_id: id,
                    char_offset_in_node: 0,
                    child_index: None,
                    utf16_len: (t.len() + 1) as usize,
                },
            ],
        ),
        spans_by_para: v.spans_by_para.push(Seq::empty()),
        refs_by_para: v.refs_by_para.push(Seq::empty()),
        ..v
    };
    spec_write(v1, "\u{200B}</span>"@)
}

/// The end of a run: the source after the last written byte as a placeholder,
/// unless the source ends with a paragraph break; the last paragraph's offset
/// maps, spans and refs filed; and, after a paragraph break, a paragraph of
/// its own for the last newline.
pub open spec fn spec_finish(v: WriterView) -> WriterView {
    let pb = ends_para_break(v.source);
    let v1 = if !pb && v.last_byte_offset < v.source_byte_len {
        spec_trailing_placeholder(v)
    } else {
        v
    };
    let v2 = spec_flush(v1);
    if pb {
        spec_trailing_paragraph(v2)
    } else {
        v2
    }
}

/// The end of a run has room: the last written byte lies on a character
/// boundary where trailing source follows it, and the counters can grow by
/// the source's length.
pub open spec fn finish_fits(v: WriterView) -> bool {
    &&& (!ends_para_break(v.source) && v.last_byte_offset < v.source_byte_len ==> is_char_boundary(
        v.source,
        v.last_byte_offset as int,
    ))
    &&& v.last_char_offset + v.source.len() + 1 <= usize::MAX
    &&& v.node_char_offset + v.source.len() <= usize::MAX
    &&& v.ids.next_syn_id < usize::MAX
    &&& v.ids.next_node_id < usize::MAX
}

impl EditorWriter {
    fn ends_with_para_break(&self) -> (r: bool)
        ensures
            r == ends_para_break(self@.source),
    {
        let n = self.source.len();
        (n >= 2 && self.source[n - 1] == '\n' && self.source[n - 2] == '\n') || (n >= 3
            && self.source[n - 1] == '\n' && self.source[n - 2] == '\u{200C}' && self.source[n
            - 3] == '\n')
    }

    fn flush(&mut self)
        ensures
            final(self)@ == spec_flush(old(self)@),
    {
        if self.current_para.offset_maps.len() > 0 || self.current_para.syntax_spans.len() > 0
            || self.ref_collector.len() > 0 {
            let mut maps = Vec::new();
            std::mem::swap(&mut maps, &mut self.current_para.offset_maps);
            let mut spans = Vec::new();
            std::mem::swap(&mut spans, &mut self.current_para.syntax_spans);
            let mut refs = Vec::new();
            std::mem::swap(&mut refs, &mut self.ref_collector);
            let ghost mb = self.offset_maps_by_para@;
            let ghost sb = self.syntax_spans_by_para@;
            let ghost rb = self.refs_by_para@;
            self.offset_maps_by_para.push(maps);
            self.syntax_spans_by_para.push(spans);
            self.refs_by_para.push(refs);
            proof {
                assert(self.offset_maps_by_para@.map_values(|v: Vec<OffsetMapping>| maps_view(v@))
                    =~= mb.map_values(|v: Vec<OffsetMapping>| maps_view(v@)).push(
                    maps_view(maps@),
                ));
                assert(self.syntax_spans_by_para@.map_values(
                    |v: Vec<SyntaxSpanInfo>| spans_view(v@),
                ) =~= sb.map_values(|v: Vec<SyntaxSpanInfo>| spans_view(v@)).push(
                    spans_view(spans@),
                ));
                assert(spans_view(self.current_para.syntax_spans@) =~= Seq::empty());
                assert(self.refs_by_para@.map_values(|v: Vec<ExtractedRef>| v@) =~= rb.map_values(
                    |v: Vec<ExtractedRef>| v@,
                ).push(refs@));
                assert(maps_view(self.current_para.offset_maps@) =~= Seq::empty());
            }
        }
    }

    #[verifier::rlimit(50)]
    fn trailing_placeholder(&mut self)
        requires
            old(self)@.source_byte_len == utf8_len(old(self)@.source),
            old(self)@.last_byte_offset < old(self)@.source_byte_len,
            is_char_boundary(old(self)@.source, old(self)@.last_byte_offset as int),
            old(self)@.last_char_offset + old(self)@.source.len() + 1 <= usize::MAX,
            old(self)@.node_char_offset + old(self)@.source.len() <= usize::MAX,
            old(self)@.ids.next_syn_id < usize::MAX,
        ensures
            final(self)@ == spec_trailing_placeholder(old(self)@),
    {
        let n = self.source.len();
        proof {
            assert(self.source@.take(n as int) =~= self.source@);
            assert(crate::writer::text_units::starts_char(self.source@, n as int, self.source_byte_len as int));
            crate::writer::text_units::lemma_byte_slice_len(
                self.source@,
                self.last_byte_offset as int,
                self.source_byte_len as int,
            );
        }
        let a = crate::writer::text_units::char_index_at_byte(self.source.as_slice(), self.last_byte_offset);
        let z = crate::writer::text_units::char_index_at_byte(self.source.as_slice(), self.source_byte_len);
        let ghost t = byte_slice(self.source@, self.last_byte_offset as int, self.source_byte_len as int);
        proof {
            assert(t =~= self.source@.subrange(a as int, z as int));
        }
        if a < z {
            let char_start = self.last_char_offset;
            let char_end = char_start + (z - a);
            let byte_start = self.last_byte_offset;
            let byte_end = self.source_byte_len;
            self.emit_placeholder(a, z);
            if let Some(id) = &self.current_node.id {
                let mapping = OffsetMapping {
                    byte_range: std::ops::Range { start: byte_start, end: byte_end },
                    char_range: std::ops::Range { start: char_start, end: char_end },
                    node_id: id.clone(),
                    char_offset_in_node: self.current_node.char_offset,
                    child_index: None,
                    utf16_len: z - a,
                };
                proof {
                    lemma_maps_view_push(self.current_para.offset_maps@, mapping);
                }
                self.current_para.offset_maps.push(mapping);
                self.current_node.char_offset = self.current_node.char_offset + (z - a);
            }
            self.last_char_offset = char_end;
        }
    }

    #[verifier::rlimit(50)]
    fn trailing_paragraph(&mut self)
        requires
            old(self)@.source_byte_len == utf8_len(old(self)@.source),
            ends_para_break(old(self)@.source),
            old(self)@.last_char_offset + old(self)@.source.len() + 1 <= usize::MAX,
            old(self)@.ids.next_node_id < usize::MAX,
        ensures
            final(self)@ == spec_trailing_paragraph(old(self)@),
    {
        let n = self.source.len();
        let ghost s = self.source@;
        proof {
            assert(s.take(n as int) =~= s);
            assert(s.take(n as int).drop_last() =~= s.take(n - 1));
            assert(crate::writer::text_units::starts_char(s, n as int, self.source_byte_len as int));
            assert(crate::writer::text_units::starts_char(s, n - 1, self.source_byte_len - 1));
            let a = crate::writer::text_units::char_at_byte(s, self.source_byte_len - 1);
            let z = crate::writer::text_units::char_at_byte(s, self.source_byte_len as int);
            crate::writer::text_units::lemma_starts_char_unique(s, a, n - 1, self.source_byte_len - 1);
            crate::writer::text_units::lemma_starts_char_unique(s, z, n as int, self.source_byte_len as int);
        }
        let byte_start = self.last_byte_offset;
        let byte_end = self.source_byte_len;
        let char_start = self.last_char_offset;
        let char_end = char_start + 1;
        self.paragraphs.ranges.push(
            (
                std::ops::Range { start: byte_start, end: byte_end },
                std::ops::Range { start: char_start, end: char_end },
            ),
        );
        self.writer.new_segment();
        let node_id = self.node_ids.next_node();
        let escaped = crate::writer::text_units::escape_html_chars(self.source.as_slice(), n - 1, n);
        self.emit("<span id=\"");
        self.emit(node_id.as_str());
        self.emit("\">");
        self.emit(escaped.as_str());
        self.write("\u{200B}</span>");
        let mapping = OffsetMapping {
            byte_range: std::ops::Range { start: byte_start, end: byte_end },
            char_range: std::ops::Range { start: char_start, end: char_end },
            node_id,
            char_offset_in_node: 0,
            child_index: None,
            utf16_len: 2,
        };
        let ghost mb = self.offset_maps_by_para@;
        let ghost sb = self.syntax_spans_by_para@;
        let ghost rb = self.refs_by_para@;
        let mut maps = Vec::new();
        maps.push(mapping);
        self.offset_maps_by_para.push(maps);
        let no_spans: Vec<SyntaxSpanInfo> = Vec::new();
        let no_refs: Vec<ExtractedRef> = Vec::new();
        proof {
            assert(spans_view(no_spans@) =~= Seq::empty());
            assert(no_refs@ =~= Seq::empty());
        }
        self.syntax_spans_by_para.push(no_spans);
        self.refs_by_para.push(no_refs);
        proof {
            assert(maps_view(maps@) =~= seq![map_view(mapping)]);
            assert(self.offset_maps_by_para@.map_values(|v: Vec<OffsetMapping>| maps_view(v@))
                =~= mb.map_values(|v: Vec<OffsetMapping>| maps_view(v@)).push(maps_view(maps@)));
            assert(self.syntax_spans_by_para@.map_values(|v: Vec<SyntaxSpanInfo>| spans_view(v@))
                =~= sb.map_values(|v: Vec<SyntaxSpanInfo>| spans_view(v@)).push(Seq::empty()));
            assert(self.refs_by_para@.map_values(|v: Vec<ExtractedRef>| v@) =~= rb.map_values(
                |v: Vec<ExtractedRef>| v@,
            ).push(Seq::empty()));
        }
    }
}

impl EditorWriter {
    /// Write the events, each with its source range, and hand out the HTML
    /// segments, paragraph ranges and per-paragraph offset maps, spans and refs.
    /// Source text after the last written byte is shown as a placeholder, or,
    /// when the source ends with a paragraph break, its last newline becomes a
    /// paragraph of its own. Source text between events is not written.
    #[verifier::rlimit(50)]
    pub fn run(self, events: Vec<(WriterEvent, std::ops::Range<usize>)>) -> (r: Result<WriterResult, std::fmt::Error>)
        requires
            self@.source_byte_len == utf8_len(self@.source),
            run_fits(self@, events@),
            finish_fits(spec_run_events(self@, events@)),
        ensures
            r is Ok,
            result_of(r.unwrap(), spec_finish(spec_run_events(self@, events@))),
    {
        let ghost v0 = self@;
        let ghost all = events@;
        let mut w = self;
        let mut events = events;
        let mut k: usize = 0;
        let total = events.len();
        while events.len() > 0
            invariant
                total == all.len(),
                k + events@.len() == all.len(),
                events@ == all.skip(k as int),
                w@ == spec_run_events(v0, all.take(k as int)),
                w@.source == v0.source,
                w@.source_byte_len == v0.source_byte_len,
                run_fits(v0, all),
            decreases events@.len(),
        {
            proof {
                lemma_run_fits_prefix(v0, all, k + 1);
                assert(all.take(k + 1).drop_last() =~= all.take(k as int));
                assert(all.take(k + 1).last() == all[k as int]);
                assert(events@[0] == all[k as int]);
            }
            let (event, range) = events.remove(0);
            let before = w.last_byte_offset;
            let end = range.end;
            let _ = w.process_event(event, range);
            if w.last_byte_offset == before {
                w.last_byte_offset = end;
            }
            proof {
                assert(events@ =~= all.skip(k + 1));
            }
            k = k + 1;
        }
        proof {
            assert(all.take(k as int) =~= all);
        }
        let para_break = w.ends_with_para_break();
        if !para_break && w.last_byte_offset < w.source_byte_len {
            w.trailing_placeholder();
        }
        w.flush();
        if para_break {
            w.trailing_paragraph();
        }
        let EditorWriter {
            writer,
            paragraphs,
            offset_maps_by_para,
            syntax_spans_by_para,
            refs_by_para,
            ..
        } = w;
        let html_segments = writer.into_segments();
        Ok(
            WriterResult {
                html_segments,
                offset_maps_by_paragraph: offset_maps_by_para,
                paragraph_ranges: paragraphs.ranges,
                syntax_spans_by_paragraph: syntax_spans_by_para,
                collected_refs_by_paragraph: refs_by_para,
            },
        )
    }
}

/// Each finished paragraph has one range and one list each of offset maps,
/// syntax spans and refs.
pub open spec fn results_in_step(v: WriterView) -> bool {
    &&& v.maps_by_para.len() == v.paragraph_ranges.len()
    &&& v.spans_by_para.len() == v.paragraph_ranges.len()
    &&& v.refs_by_para.len() == v.paragraph_ranges.len()
}

/// Writing an event keeps the finished paragraphs' ranges and their offset
/// maps, syntax spans and refs in step.
#[verifier::rlimit(50)]
pub proof fn law_event_keeps_results_in_step(v: WriterView, e: WriterEvent, range: std::ops::Range<usize>)
    requires
        results_in_step(v),
    ensures
        results_in_step(spec_step(v, e, range)),
{
    reveal(spec_process_event);
    match e {
        WriterEvent::Start(t) => lemma_start_in_step(v, t, range),
        WriterEvent::End(t) => lemma_end_in_step(v, t),
        WriterEvent::Text(t) => lemma_leaf_in_step(v, WriterEvent::Text(t), range),
        WriterEvent::Code(t) => lemma_leaf_in_step(v, WriterEvent::Code(t), range),
        WriterEvent::Html(t) => lemma_leaf_in_step(v, WriterEvent::Html(t), range),
        WriterEvent::InlineHtml(t) => lemma_leaf_in_step(v, WriterEvent::InlineHtml(t), range),
        WriterEvent::SoftBreak => lemma_leaf_in_step(v, WriterEvent::SoftBreak, range),
        WriterEvent::HardBreak => lemma_leaf_in_step(v, WriterEvent::HardBreak, range),
        WriterEvent::Rule => lemma_leaf_in_step(v, WriterEvent::Rule, range),
        WriterEvent::FootnoteReference(t) => lemma_leaf_in_step(
            v,
            WriterEvent::FootnoteReference(t),
            range,
        ),
        WriterEvent::WeaverBlock(t) => lemma_leaf_in_step(v, WriterEvent::WeaverBlock(t), range),
        WriterEvent::Embed { dest_url, title, content } => lemma_leaf_in_step(
            v,
            WriterEvent::Embed { dest_url, title, content },
            range,
        ),
    }
}

/// Events other than tags leave the finished paragraphs alone.
#[verifier::rlimit(50)]
proof fn lemma_leaf_in_step(v: WriterView, e: WriterEvent, range: std::ops::Range<usize>)
    requires
        results_in_step(v),
        !(e is Start),
        !(e is End),
    ensures
        spec_process_event(v, e, range).paragraph_ranges == v.paragraph_ranges,
        spec_process_event(v, e, range).maps_by_para == v.maps_by_para,
        spec_process_event(v, e, range).spans_by_para == v.spans_by_para,
        spec_process_event(v, e, range).refs_by_para == v.refs_by_para,
{
    reveal(spec_process_event);
}

proof fn lemma_start_in_step(v: WriterView, t: WriterTag, range: std::ops::Range<usize>)
    requires
        results_in_step(v),
    ensures
        results_in_step(spec_start_tag(v, t, range)),
{
    lemma_start_keeps_source(v, t, range);
}

proof fn lemma_end_in_step(v: WriterView, t: WriterTag)
    requires
        results_in_step(v),
    ensures
        results_in_step(spec_end_tag(v, t)),
{
    lemma_end_keeps_source(v, t);
}

/// Opening a tag keeps the source, and the finished paragraphs unless the
/// tag is a list or an item.
proof fn lemma_start_keeps_source(v: WriterView, t: WriterTag, range: std::ops::Range<usize>)
    ensures
        spec_start_tag(v, t, range).source == v.source,
        spec_start_tag(v, t, range).source_byte_len == v.source_byte_len,
        !(t is List) ==> keeps_finished(v, spec_start_tag(v, t, range)),
{
    let raw = byte_slice(v.source, range.start as int, range.end as int);
    lemma_tag_parts_keep(v, format_marker(t, raw), range, true, None);
    match t {
        WriterTag::Paragraph(d) => lemma_tag_parts_keep(v, raw, range, false, d),
        _ => {},
    }
}

/// Closing an inline format keeps the source and the finished paragraphs;
/// no closing tag changes the source.
proof fn lemma_end_keeps_source(v: WriterView, t: WriterTag)
    ensures
        spec_end_tag(v, t).source == v.source,
        spec_end_tag(v, t).source_byte_len == v.source_byte_len,
        (t is Emphasis || t is Strong || t is Strikethrough) ==> keeps_finished(v, spec_end_tag(v, t)),
{
    let r = std::ops::Range { start: 0usize, end: 0usize };
    lemma_tag_parts_keep(spec_write(v, "</em>"@), Seq::empty(), r, true, None);
    lemma_tag_parts_keep(spec_write(v, "</strong>"@), Seq::empty(), r, true, None);
    lemma_tag_parts_keep(spec_write(v, "</s>"@), Seq::empty(), r, true, None);
}

/// Writing any run of events keeps the finished paragraphs' ranges and their
/// offset maps, syntax spans and refs in step.
pub proof fn law_run_keeps_results_in_step(v: WriterView, events: Seq<(WriterEvent, std::ops::Range<usize>)>)
    requires
        results_in_step(v),
    ensures
        results_in_step(spec_run_events(v, events)),
    decreases events.len(),
{
    if events.len() > 0 {
        law_run_keeps_results_in_step(v, events.drop_last());
        law_event_keeps_results_in_step(
            spec_run_events(v, events.drop_last()),
            events.last().0,
            events.last().1,
        );
    }
}

/// Fitting runs fit on every prefix.
proof fn lemma_run_fits_prefix(v: WriterView, events: Seq<(WriterEvent, std::ops::Range<usize>)>, n: int)
    requires
        run_fits(v, events),
        0 <= n <= events.len(),
    ensures
        run_fits(v, events.take(n)),
    decreases events.len(),
{
    if n < events.len() {
        assert(events.drop_last().take(n) =~= events.take(n));
        lemma_run_fits_prefix(v, events.drop_last(), n);
    } else {
        assert(events.take(n) =~= events);
    }
}


/// The content an embed shows: that of its `content` attribute, when it has
/// one; otherwise what the embed provider, if any, gives for it.
pub fn embed_content<E: crate::render::EmbedContentProvider>(
    content_attr: Option<String>,
    provider: Option<&E>,
    tag: &crate::render::EmbedTag,
) -> (r: Option<String>)
    ensures
        content_attr is Some ==> r == content_attr,
        content_attr is None && provider is None ==> r is None,
        content_attr is None ==> (provider matches Some(p) ==> call_ensures(
            E::get_embed_content,
            (p, tag),
            r,
        )),
{
    if content_attr.is_some() {
        content_attr
    } else {
        match provider {
            Some(p) => p.get_embed_content(tag),
            None => None,
        }
    }
}


/// Each column alignment gets its own CSS alignment in a cell's opening tag:
/// a right-aligned column's cells are aligned right, a centred column's
/// centre, a left-aligned column's left; cells of columns with different
/// alignments open differently; and a header cell of a right-aligned column
/// opens as `<th style="text-align: right">`.
pub proof fn law_cell_alignment(v: WriterView, i: usize, j: usize, range: std::ops::Range<usize>)
    ensures
        i < v.alignments.len() && v.alignments[i as int] == Alignment::Right ==> cell_align_attr(v.alignments, i)
            == seq![' ', 's', 't', 'y', 'l', 'e', '=', '"', 't', 'e', 'x', 't', '-', 'a', 'l', 'i', 'g', 'n', ':', ' ', 'r', 'i', 'g', 'h', 't', '"', '>'],
        i < v.alignments.len() && v.alignments[i as int] == Alignment::Center ==> cell_align_attr(v.alignments, i)
            == seq![' ', 's', 't', 'y', 'l', 'e', '=', '"', 't', 'e', 'x', 't', '-', 'a', 'l', 'i', 'g', 'n', ':', ' ', 'c', 'e', 'n', 't', 'e', 'r', '"', '>'],
        i < v.alignments.len() && v.alignments[i as int] == Alignment::Left ==> cell_align_attr(v.alignments, i)
            == seq![' ', 's', 't', 'y', 'l', 'e', '=', '"', 't', 'e', 'x', 't', '-', 'a', 'l', 'i', 'g', 'n', ':', ' ', 'l', 'e', 'f', 't', '"', '>'],
        i >= v.alignments.len() || v.alignments[i as int] == Alignment::Unspecified ==> cell_align_attr(v.alignments, i)
            == seq!['>'],
        i < v.alignments.len() && j < v.alignments.len() && v.alignments[i as int] != v.alignments[j as int]
            ==> cell_align_attr(v.alignments, i) != cell_align_attr(v.alignments, j),
        v.table_state == TableState::Head && v.cell_index < v.alignments.len() && v.alignments[v.cell_index as int]
            == Alignment::Right ==> spec_start_tag(v, WriterTag::TableCell, range).current == v.current + seq![
            '<', 't', 'h', ' ', 's', 't', 'y', 'l', 'e', '=', '"', 't', 'e', 'x', 't', '-', 'a', 'l', 'i', 'g', 'n', ':', ' ', 'r', 'i', 'g', 'h', 't', '"', '>'],
{
    reveal_strlit(" style=\"text-align: right\">");
    reveal_strlit(" style=\"text-align: center\">");
    reveal_strlit(" style=\"text-align: left\">");
    reveal_strlit(">");
    reveal_strlit("<th");
    let r = " style=\"text-align: right\">"@;
    let c = " style=\"text-align: center\">"@;
    let l = " style=\"text-align: left\">"@;
    let e = ">"@;
    assert(r[20] != c[20] && r[20] != l[20] && c[20] != l[20]);
    assert(r.len() != e.len() && c.len() != e.len() && l.len() != e.len());
    assert(e =~= seq!['>']);
    if v.table_state == TableState::Head && v.cell_index < v.alignments.len() && v.alignments[v.cell_index as int]
        == Alignment::Right {
        assert("<th"@ + r =~= seq![
            '<', 't', 'h', ' ', 's', 't', 'y', 'l', 'e', '=', '"', 't', 'e', 'x', 't', '-', 'a', 'l', 'i', 'g', 'n', ':', ' ', 'r', 'i', 'g', 'h', 't', '"', '>']);
        assert(spec_start_tag(v, WriterTag::TableCell, range).current =~= v.current + "<th"@ + r);
    }
    assert(r =~= seq![' ', 's', 't', 'y', 'l', 'e', '=', '"', 't', 'e', 'x', 't', '-', 'a', 'l', 'i', 'g', 'n', ':', ' ', 'r', 'i', 'g', 'h', 't', '"', '>']);
    assert(c =~= seq![' ', 's', 't', 'y', 'l', 'e', '=', '"', 't', 'e', 'x', 't', '-', 'a', 'l', 'i', 'g', 'n', ':', ' ', 'c', 'e', 'n', 't', 'e', 'r', '"', '>']);
    assert(l =~= seq![' ', 's', 't', 'y', 'l', 'e', '=', '"', 't', 'e', 'x', 't', '-', 'a', 'l', 'i', 'g', 'n', ':', ' ', 'l', 'e', 'f', 't', '"', '>']);
}

} // verus!
