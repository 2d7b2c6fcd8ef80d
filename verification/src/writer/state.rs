//! State structures for the HTML writer, grouped by concern.
use crate::offset_map::OffsetMapping;
use crate::paragraph::make_paragraph_id;
use crate::resolve::ExtractedRef;
use crate::strings::{decimal, string_push, string_push_str, usize_to_string};
use crate::syntax::{SyntaxSpanInfo, SyntaxType};
use std::collections::HashMap;
use vstd::prelude::*;

verus! {

/// Column alignment of a table.
#[derive(Debug, Clone, Copy, PartialEq, Eq, Structural)]
pub enum Alignment {
    /// No alignment given.
    Unspecified,
    Left,
    Center,
    Right,
}

/// Table rendering state.
#[derive(Debug)]
pub struct TableContext {
    pub state: TableState,
    pub alignments: Vec<Alignment>,
    pub cell_index: usize,
    pub render_as_markdown: bool,
    pub start_offset: Option<usize>,
}

impl Default for TableContext {
    fn default() -> (r: Self)
        ensures
            r.state == TableState::Head,
            r.alignments@.len() == 0,
            r.cell_index == 0,
            !r.render_as_markdown,
            r.start_offset is None,
    {
        TableContext {
            state: TableState::Head,
            alignments: Vec::new(),
            cell_index: 0,
            render_as_markdown: false,
            start_offset: None,
        }
    }
}

/// Whether a table's rows are still its head.
#[derive(Debug, Clone, Copy, PartialEq, Eq, Structural)]
pub enum TableState {
    Head,
    Body,
}

impl Default for TableState {
    fn default() -> (r: Self)
        ensures
            r == TableState::Head,
    {
        TableState::Head
    }
}

/// Code block buffering state.
#[derive(Debug)]
pub struct CodeBlockContext {
    /// (language, content) being buffered
    pub buffer: Option<(Option<String>, String)>,
    /// Byte range of buffered content
    pub byte_range: Option<std::ops::Range<usize>>,
    /// Char range of buffered content
    pub char_range: Option<std::ops::Range<usize>>,
    /// Char offset where code block started
    pub block_start: Option<usize>,
    /// Index of opening fence syntax span
    pub opening_span_idx: Option<usize>,
}

impl CodeBlockContext {
    /// Nothing buffered.
    pub open spec fn is_cleared(&self) -> bool {
        &&& self.buffer is None
        &&& self.byte_range is None
        &&& self.char_range is None
        &&& self.block_start is None
        &&& self.opening_span_idx is None
    }

    pub fn is_active(&self) -> (r: bool)
        ensures
            r == self.buffer is Some,
    {
        self.buffer.is_some()
    }

    pub fn clear(&mut self)
        ensures
            final(self).is_cleared(),
    {
        *self = Self::default();
    }
}

impl Default for CodeBlockContext {
    fn default() -> (r: Self)
        ensures
            r.is_cleared(),
    {
        CodeBlockContext {
            buffer: None,
            byte_range: None,
            char_range: None,
            block_start: None,
            opening_span_idx: None,
        }
    }
}

/// Node ID generation for DOM element IDs.
#[derive(Debug)]
pub struct NodeIdGenerator {
    /// Paragraph ID prefix (e.g., "p-0")
    pub prefix: Option<String>,
    /// Auto-increment base for paragraph prefixes
    pub auto_increment_base: Option<usize>,
    /// Override for specific paragraph index
    pub static_override: Option<(usize, String)>,
    /// Current paragraph index (0-indexed)
    pub current_paragraph: usize,
    /// Next node ID counter within paragraph
    pub next_node_id: usize,
    /// Next syntax span ID counter
    pub next_syn_id: usize,
}

impl Default for NodeIdGenerator {
    fn default() -> (r: Self)
        ensures
            r.prefix is None,
            r.auto_increment_base is None,
            r.static_override is None,
            r.current_paragraph == 0,
            r.next_node_id == 0,
            r.next_syn_id == 0,
    {
        NodeIdGenerator {
            prefix: None,
            auto_increment_base: None,
            static_override: None,
            current_paragraph: 0,
            next_node_id: 0,
            next_syn_id: 0,
        }
    }
}

/// The ID of paragraph `n`: `p-` and its number.
pub open spec fn para_id(n: nat) -> Seq<char> {
    seq!['p', '-'] + decimal(n)
}

/// The override applies to paragraph `index`.
pub open spec fn overrides(o: Option<(usize, String)>, index: usize) -> bool {
    o matches Some(p) && p.0 == index
}

impl NodeIdGenerator {
    /// The prefix of the current paragraph.
    pub open spec fn spec_current_prefix(&self) -> Seq<char> {
        if overrides(self.static_override, self.current_paragraph) {
            self.static_override.unwrap().1@
        } else if self.auto_increment_base is Some {
            para_id((self.auto_increment_base.unwrap() + self.current_paragraph) as nat)
        } else if self.prefix is Some {
            self.prefix.unwrap()@
        } else {
            para_id(0)
        }
    }

    /// The paragraph number the auto-increment base gives paragraph `index` fits a `usize`.
    pub open spec fn numbering_fits(&self, index: int) -> bool {
        self.auto_increment_base matches Some(b) ==> b + index <= usize::MAX
    }

    /// Get the current paragraph prefix.
    pub fn current_prefix(&self) -> (r: String)
        requires
            !overrides(self.static_override, self.current_paragraph) ==> self.numbering_fits(
                self.current_paragraph as int,
            ),
        ensures
            r@ == self.spec_current_prefix(),
    {
        if let Some((idx, prefix)) = &self.static_override {
            if *idx == self.current_paragraph {
                return prefix.clone();
            }
        }
        if let Some(base) = self.auto_increment_base {
            return make_paragraph_id(base + self.current_paragraph);
        }
        match &self.prefix {
            Some(p) => p.clone(),
            None => make_paragraph_id(0),
        }
    }

    /// Generate a node ID (e.g., "p-0-n3")
    pub fn next_node(&mut self) -> (r: String)
        requires
            old(self).next_node_id < usize::MAX,
        ensures
            r@ == match old(self).prefix {
                Some(p) => p@ + seq!['-', 'n'] + decimal(old(self).next_node_id as nat),
                None => seq!['n'] + decimal(old(self).next_node_id as nat),
            },
            *final(self) == (NodeIdGenerator {
                next_node_id: (old(self).next_node_id + 1) as usize,
                ..*old(self)
            }),
    {
        let mut id = String::new();
        if let Some(prefix) = &self.prefix {
            string_push_str(&mut id, prefix.as_str());
            string_push(&mut id, '-');
        }
        string_push(&mut id, 'n');
        let digits = usize_to_string(self.next_node_id);
        string_push_str(&mut id, digits.as_str());
        proof {
            match old(self).prefix {
                Some(p) => {
                    assert(id@ =~= p@ + seq!['-', 'n'] + decimal(old(self).next_node_id as nat));
                },
                None => {
                    assert(id@ =~= seq!['n'] + decimal(old(self).next_node_id as nat));
                },
            }
        }
        self.next_node_id += 1;
        id
    }

    /// Generate a syntax span ID (e.g., "s5")
    pub fn next_syn(&mut self) -> (r: String)
        requires
            old(self).next_syn_id < usize::MAX,
        ensures
            r@ == seq!['s'] + decimal(old(self).next_syn_id as nat),
            *final(self) == (NodeIdGenerator {
                next_syn_id: (old(self).next_syn_id + 1) as usize,
                ..*old(self)
            }),
    {
        let mut id = String::new();
        string_push(&mut id, 's');
        let digits = usize_to_string(self.next_syn_id);
        string_push_str(&mut id, digits.as_str());
        self.next_syn_id += 1;
        id
    }

    /// The prefix after moving on to paragraph `next`.
    pub open spec fn prefix_for_next(&self, next: usize) -> Option<Seq<char>> {
        if overrides(self.static_override, next) {
            Some(self.static_override.unwrap().1@)
        } else if self.auto_increment_base is Some {
            Some(para_id((self.auto_increment_base.unwrap() + next) as nat))
        } else {
            match self.prefix {
                Some(p) => Some(p@),
                None => None,
            }
        }
    }

    /// Advance to next paragraph.
    pub fn next_paragraph(&mut self)
        requires
            old(self).current_paragraph < usize::MAX,
            !overrides(old(self).static_override, (old(self).current_paragraph + 1) as usize)
                ==> old(self).numbering_fits(old(self).current_paragraph + 1),
        ensures
            final(self).current_paragraph == old(self).current_paragraph + 1,
            final(self).next_node_id == 0,
            final(self).next_syn_id == old(self).next_syn_id,
            final(self).auto_increment_base == old(self).auto_increment_base,
            final(self).static_override == old(self).static_override,
            match old(self).prefix_for_next(final(self).current_paragraph) {
                Some(p) => final(self).prefix matches Some(x) && x@ == p,
                None => final(self).prefix is None,
            },
    {
        self.current_paragraph += 1;
        self.next_node_id = 0;
        // Update prefix for next paragraph
        let mut overridden = false;
        if let Some((override_idx, override_prefix)) = &self.static_override {
            if self.current_paragraph == *override_idx {
                self.prefix = Some(override_prefix.clone());
                overridden = true;
            }
        }
        if !overridden {
            if let Some(base) = self.auto_increment_base {
                self.prefix = Some(make_paragraph_id(base + self.current_paragraph));
            }
        }
    }
}

/// Current DOM node tracking for offset mapping.
#[derive(Debug)]
pub struct CurrentNodeState {
    /// Node ID for current text container
    pub id: Option<String>,
    /// UTF-16 offset within current node
    pub char_offset: usize,
    /// Number of child elements in current container
    pub child_count: usize,
}

impl Default for CurrentNodeState {
    fn default() -> (r: Self)
        ensures
            r.id is None,
            r.char_offset == 0,
            r.child_count == 0,
    {
        CurrentNodeState { id: None, char_offset: 0, child_count: 0 }
    }
}

impl CurrentNodeState {
    pub fn begin(&mut self, id: String)
        ensures
            final(self).id == Some(id),
            final(self).char_offset == 0,
            final(self).child_count == 0,
    {
        self.id = Some(id);
        self.char_offset = 0;
        self.child_count = 0;
    }

    pub fn end(&mut self)
        ensures
            final(self).id is None,
            final(self).char_offset == 0,
            final(self).child_count == 0,
    {
        self.id = None;
        self.char_offset = 0;
        self.child_count = 0;
    }
}

/// Paragraph boundary tracking.
#[derive(Debug)]
pub struct ParagraphTracker {
    /// Completed paragraph ranges: (byte_range, char_range)
    pub ranges: Vec<(std::ops::Range<usize>, std::ops::Range<usize>)>,
    /// Start of current paragraph: (byte_offset, char_offset)
    pub current_start: Option<(usize, usize)>,
    /// List nesting depth (suppress paragraph boundaries inside lists)
    pub list_depth: usize,
    /// In footnote definition (suppress inner paragraph boundaries)
    pub in_footnote_def: bool,
}

impl Default for ParagraphTracker {
    fn default() -> (r: Self)
        ensures
            r.ranges@.len() == 0,
            r.current_start is None,
            r.list_depth == 0,
            !r.in_footnote_def,
    {
        ParagraphTracker { ranges: Vec::new(), current_start: None, list_depth: 0, in_footnote_def: false }
    }
}

/// Byte and char range of a paragraph running from `start` to the given end offsets.
pub open spec fn para_ranges(start: (usize, usize), byte_end: usize, char_end: usize) -> (
    std::ops::Range<usize>,
    std::ops::Range<usize>,
) {
    (
        std::ops::Range { start: start.0, end: byte_end },
        std::ops::Range { start: start.1, end: char_end },
    )
}

impl ParagraphTracker {
    pub fn start_paragraph(&mut self, byte_offset: usize, char_offset: usize)
        ensures
            *final(self) == (ParagraphTracker {
                current_start: Some((byte_offset, char_offset)),
                ..*old(self)
            }),
    {
        self.current_start = Some((byte_offset, char_offset));
    }

    pub fn end_paragraph(&mut self, byte_offset: usize, char_offset: usize) -> (r: Option<
        (std::ops::Range<usize>, std::ops::Range<usize>),
    >)
        ensures
            final(self).current_start is None,
            final(self).list_depth == old(self).list_depth,
            final(self).in_footnote_def == old(self).in_footnote_def,
            match old(self).current_start {
                Some(st) => {
                    &&& r == Some(para_ranges(st, byte_offset, char_offset))
                    &&& final(self).ranges@ == old(self).ranges@.push(
                        para_ranges(st, byte_offset, char_offset),
                    )
                },
                None => r is None && final(self).ranges@ == old(self).ranges@,
            },
    {
        match self.current_start.take() {
            Some((start_byte, start_char)) => {
                let byte_range = std::ops::Range { start: start_byte, end: byte_offset };
                let char_range = std::ops::Range { start: start_char, end: char_offset };
                self.ranges.push(
                    (
                        std::ops::Range { start: start_byte, end: byte_offset },
                        std::ops::Range { start: start_char, end: char_offset },
                    ),
                );
                Some((byte_range, char_range))
            },
            None => None,
        }
    }

    pub fn in_list(&self) -> (r: bool)
        ensures
            r == (self.list_depth > 0),
    {
        self.list_depth > 0
    }

    pub fn should_track_boundaries(&self) -> (r: bool)
        ensures
            r == (self.list_depth == 0 && !self.in_footnote_def),
    {
        self.list_depth == 0 && !self.in_footnote_def
    }
}

/// Current paragraph build state (offset maps, syntax spans, refs).
#[derive(Debug)]
pub struct ParagraphBuildState {
    /// Offset mappings for current paragraph
    pub offset_maps: Vec<OffsetMapping>,
    /// Syntax spans for current paragraph
    pub syntax_spans: Vec<SyntaxSpanInfo>,
    /// Collected refs for current paragraph
    pub collected_refs: Vec<ExtractedRef>,
    /// Stack of pending inline formats: (syn_id, char_start)
    pub pending_inline_formats: Vec<(String, usize)>,
}

impl Default for ParagraphBuildState {
    fn default() -> (r: Self)
        ensures
            r.offset_maps@.len() == 0,
            r.syntax_spans@.len() == 0,
            r.collected_refs@.len() == 0,
            r.pending_inline_formats@.len() == 0,
    {
        ParagraphBuildState {
            offset_maps: Vec::new(),
            syntax_spans: Vec::new(),
            collected_refs: Vec::new(),
            pending_inline_formats: Vec::new(),
        }
    }
}

/// Index of the first span of `spans` with ID `id`, or `spans.len()`.
pub open spec fn first_span_with_id(spans: Seq<SyntaxSpanInfo>, id: Seq<char>) -> int
    decreases spans.len(),
{
    if spans.len() == 0 {
        0
    } else if first_span_with_id(spans.drop_last(), id) < spans.len() - 1 {
        first_span_with_id(spans.drop_last(), id)
    } else if spans.last().syn_id@ == id {
        spans.len() - 1
    } else {
        spans.len() as int
    }
}

/// `span` with its formatted range set to `range`.
pub open spec fn with_formatted(span: SyntaxSpanInfo, range: std::ops::Range<usize>) -> SyntaxSpanInfo {
    SyntaxSpanInfo { formatted_range: Some(range), ..span }
}

/// The spans once the paired format with opening ID `id` closes over `range`:
/// the opening span and, if inline, the most recent one get the range.
pub open spec fn spans_finalized(
    spans: Seq<SyntaxSpanInfo>,
    id: Seq<char>,
    range: std::ops::Range<usize>,
) -> Seq<SyntaxSpanInfo> {
    let i = first_span_with_id(spans, id);
    let s1 = if i < spans.len() {
        spans.update(i, with_formatted(spans[i], range))
    } else {
        spans
    };
    if s1.len() > 0 && s1.last().syntax_type == SyntaxType::Inline {
        s1.update(s1.len() - 1, with_formatted(s1.last(), range))
    } else {
        s1
    }
}

proof fn lemma_first_span_with_id(spans: Seq<SyntaxSpanInfo>, id: Seq<char>)
    ensures
        0 <= first_span_with_id(spans, id) <= spans.len(),
        first_span_with_id(spans, id) < spans.len() ==> spans[first_span_with_id(
            spans,
            id,
        )].syn_id@ == id,
        forall|j: int|
            0 <= j < first_span_with_id(spans, id) ==> (#[trigger] spans[j]).syn_id@ != id,
    decreases spans.len(),
{
    if spans.len() > 0 {
        let t = spans.drop_last();
        lemma_first_span_with_id(t, id);
        assert forall|j: int| 0 <= j < first_span_with_id(spans, id) implies (
        #[trigger] spans[j]).syn_id@ != id by {
            if j < t.len() {
                assert(spans[j] == t[j]);
            }
        }
        if first_span_with_id(t, id) < t.len() {
            assert(spans[first_span_with_id(t, id)] == t[first_span_with_id(t, id)]);
        }
    }
}

impl ParagraphBuildState {
    pub fn take_all(&mut self) -> (r: (Vec<OffsetMapping>, Vec<SyntaxSpanInfo>, Vec<ExtractedRef>))
        ensures
            r.0@ == old(self).offset_maps@,
            r.1@ == old(self).syntax_spans@,
            r.2@ == old(self).collected_refs@,
            final(self).offset_maps@.len() == 0,
            final(self).syntax_spans@.len() == 0,
            final(self).collected_refs@.len() == 0,
            final(self).pending_inline_formats == old(self).pending_inline_formats,
    {
        let mut maps = Vec::new();
        std::mem::swap(&mut maps, &mut self.offset_maps);
        let mut spans = Vec::new();
        std::mem::swap(&mut spans, &mut self.syntax_spans);
        let mut refs = Vec::new();
        std::mem::swap(&mut refs, &mut self.collected_refs);
        (maps, spans, refs)
    }

    /// Finalize a paired inline format (Strong, Emphasis, Strikethrough).
    pub fn finalize_paired_format(&mut self, last_char_offset: usize)
        ensures
            final(self).offset_maps == old(self).offset_maps,
            final(self).collected_refs == old(self).collected_refs,
            old(self).pending_inline_formats@.len() == 0 ==> *final(self) == *old(self),
            old(self).pending_inline_formats@.len() > 0 ==> ({
                let (id, start) = old(self).pending_inline_formats@.last();
                &&& final(self).pending_inline_formats@
                    == old(self).pending_inline_formats@.drop_last()
                &&& final(self).syntax_spans@ == spans_finalized(
                    old(self).syntax_spans@,
                    id@,
                    std::ops::Range { start, end: last_char_offset },
                )
            }),
    {
        if self.pending_inline_formats.len() == 0 {
            return;
        }
        let (opening_syn_id, format_start) = self.pending_inline_formats.pop().unwrap();
        let ghost spans0 = self.syntax_spans@;
        let ghost range = std::ops::Range { start: format_start, end: last_char_offset };
        proof {
            lemma_first_span_with_id(spans0, opening_syn_id@);
        }
        // Update opening span
        let mut i: usize = 0;
        while i < self.syntax_spans.len()
            invariant
                i <= self.syntax_spans@.len(),
                self.syntax_spans@ == spans0,
                forall|j: int| 0 <= j < i ==> (#[trigger] spans0[j]).syn_id@ != opening_syn_id@,
            ensures
                i <= spans0.len(),
                self.syntax_spans@ == spans0,
                forall|j: int| 0 <= j < i ==> (#[trigger] spans0[j]).syn_id@ != opening_syn_id@,
                i < spans0.len() ==> spans0[i as int].syn_id@ == opening_syn_id@,
            decreases self.syntax_spans@.len() - i,
        {
            if self.syntax_spans[i].syn_id.eq(&opening_syn_id) {
                break ;
            }
            i = i + 1;
        }
        proof {
            let f = first_span_with_id(spans0, opening_syn_id@);
            if i < spans0.len() {
                if f < i {
                    assert(spans0[f].syn_id@ != opening_syn_id@);
                }
                if i < f {
                    assert(spans0[i as int].syn_id@ != opening_syn_id@);
                }
                assert(f == i);
            } else {
                if f < spans0.len() {
                    assert(spans0[f].syn_id@ != opening_syn_id@);
                }
                assert(first_span_with_id(spans0, opening_syn_id@) >= spans0.len());
            }
        }
        if i < self.syntax_spans.len() {
            let mut span = self.syntax_spans[i].clone();
            span.formatted_range = Some(std::ops::Range { start: format_start, end: last_char_offset });
            self.syntax_spans.set(i, span);
        }
        // Update closing span (most recent)
        let n = self.syntax_spans.len();
        if n > 0 {
            if self.syntax_spans[n - 1].syntax_type == SyntaxType::Inline {
                let mut closing = self.syntax_spans[n - 1].clone();
                closing.formatted_range = Some(std::ops::Range { start: format_start, end: last_char_offset });
                self.syntax_spans.set(n - 1, closing);
            }
        }
    }
}

/// Which element wraps a block of the document.
#[derive(Debug, Clone, Copy, PartialEq, Eq, Structural)]
pub enum WrapperElement {
    Aside,
    Div,
}

/// Footnote reference/definition linking state.
#[derive(Debug)]
pub struct FootnoteContext {
    /// Maps footnote name -> (syntax_span_index, char_start)
    pub ref_spans: HashMap<String, (usize, usize)>,
    /// Current footnote def being processed: (name, span_idx, char_start)
    pub current_def: Option<(String, usize, usize)>,
}

impl Default for FootnoteContext {
    fn default() -> (r: Self)
        ensures
            r.ref_spans@.len() == 0,
            r.current_def is None,
    {
        FootnoteContext { ref_spans: HashMap::new(), current_def: None }
    }
}

/// UTF-16 offset checkpoints for incremental tracking.
#[derive(Debug)]
pub struct Utf16Tracker {
    /// Checkpoints: (char_offset, utf16_offset)
    pub checkpoints: Vec<(usize, usize)>,
}

impl Default for Utf16Tracker {
    fn default() -> (r: Self)
        ensures
            r.checkpoints@.len() == 0,
    {
        Utf16Tracker { checkpoints: Vec::new() }
    }
}

impl Utf16Tracker {
    pub fn new() -> (r: Self)
        ensures
            r.checkpoints@ == seq![(0usize, 0usize)],
    {
        let mut checkpoints = Vec::new();
        checkpoints.push((0, 0));
        Utf16Tracker { checkpoints }
    }

    /// Add a checkpoint, unless the last one is at the same char offset.
    pub fn checkpoint(&mut self, char_offset: usize, utf16_offset: usize)
        ensures
            final(self).checkpoints@ == if old(self).checkpoints@.len() > 0
                && old(self).checkpoints@.last().0 == char_offset {
                old(self).checkpoints@
            } else {
                old(self).checkpoints@.push((char_offset, utf16_offset))
            },
    {
        let n = self.checkpoints.len();
        if n > 0 && self.checkpoints[n - 1].0 == char_offset {
            return;
        }
        self.checkpoints.push((char_offset, utf16_offset));
    }

    /// Get the last checkpoint.
    pub fn last(&self) -> (r: (usize, usize))
        ensures
            r == if self.checkpoints@.len() > 0 {
                self.checkpoints@.last()
            } else {
                (0usize, 0usize)
            },
    {
        let n = self.checkpoints.len();
        if n > 0 {
            self.checkpoints[n - 1]
        } else {
            (0, 0)
        }
    }
}

} // verus!
