//! Output and state of the editor's HTML writer.
//!
//! Holds the segmented HTML output buffer and the grouped state structs that
//! rendering keeps while it walks a document.
pub mod embed;
pub mod events;
pub mod state;
pub mod text_units;

pub use embed::EditorImageResolver;

pub use state::{
    Alignment, CodeBlockContext, CurrentNodeState, FootnoteContext, NodeIdGenerator,
    ParagraphBuildState, ParagraphTracker, TableContext, TableState, Utf16Tracker, WrapperElement,
};

use crate::offset_map::OffsetMapping;
use crate::resolve::ExtractedRef;
use crate::strings::{str_byte_len, string_push_str, utf8_len};
use crate::syntax::SyntaxSpanInfo;
use vstd::prelude::*;

verus! {

/// The error type of `std::fmt` writers.
#[verifier::external_type_specification]
#[verifier::external_body]
pub struct ExFmtError(std::fmt::Error);

/// Result of rendering with EditorWriter.
#[derive(Debug)]
pub struct WriterResult {
    /// HTML segments, one per paragraph
    pub html_segments: Vec<String>,
    /// Offset mappings per paragraph
    pub offset_maps_by_paragraph: Vec<Vec<OffsetMapping>>,
    /// Paragraph boundaries: (byte_range, char_range)
    pub paragraph_ranges: Vec<(std::ops::Range<usize>, std::ops::Range<usize>)>,
    /// Syntax spans per paragraph
    pub syntax_spans_by_paragraph: Vec<Vec<SyntaxSpanInfo>>,
    /// Collected refs per paragraph
    pub collected_refs_by_paragraph: Vec<Vec<ExtractedRef>>,
}

impl Default for WriterResult {
    fn default() -> (r: Self)
        ensures
            r.html_segments@.len() == 0,
            r.offset_maps_by_paragraph@.len() == 0,
            r.paragraph_ranges@.len() == 0,
            r.syntax_spans_by_paragraph@.len() == 0,
            r.collected_refs_by_paragraph@.len() == 0,
    {
        WriterResult {
            html_segments: Vec::new(),
            offset_maps_by_paragraph: Vec::new(),
            paragraph_ranges: Vec::new(),
            syntax_spans_by_paragraph: Vec::new(),
            collected_refs_by_paragraph: Vec::new(),
        }
    }
}

/// The texts of the strings in `v`.
pub open spec fn texts(v: Seq<String>) -> Seq<Seq<char>> {
    v.map_values(|s: String| s@)
}

/// All the pieces of `s`, one after another.
pub open spec fn flatten(s: Seq<Seq<char>>) -> Seq<char>
    decreases s.len(),
{
    if s.len() == 0 {
        Seq::empty()
    } else {
        flatten(s.drop_last()) + s.last()
    }
}

/// The segments a writer hands out: the finished ones, and the current one
/// when it holds text.
pub open spec fn closed_segments(segments: Seq<Seq<char>>, current: Seq<char>) -> Seq<Seq<char>> {
    if current.len() > 0 {
        segments.push(current)
    } else {
        segments
    }
}

/// Segmented HTML output writer.
#[derive(Debug)]
pub struct SegmentedWriter {
    segments: Vec<String>,
    current: String,
}

impl View for SegmentedWriter {
    type V = (Seq<Seq<char>>, Seq<char>);

    closed spec fn view(&self) -> (Seq<Seq<char>>, Seq<char>) {
        (texts(self.segments@), self.current@)
    }
}

impl SegmentedWriter {
    #[verifier::type_invariant]
    closed spec fn segments_not_empty(&self) -> bool {
        forall|i: int| 0 <= i < self.segments@.len() ==> (#[trigger] self.segments@[i])@.len() > 0
    }

    pub fn new() -> (r: Self)
        ensures
            r@.0.len() == 0,
            r@.1.len() == 0,
    {
        SegmentedWriter { segments: Vec::new(), current: String::new() }
    }

    pub fn write_str(&mut self, s: &str) -> (r: Result<(), std::fmt::Error>)
        ensures
            r is Ok,
            final(self)@ == (old(self)@.0, old(self)@.1 + s@),
    {
        proof {
            use_type_invariant(&*self);
        }
        let mut current = String::new();
        std::mem::swap(&mut current, &mut self.current);
        string_push_str(&mut current, s);
        self.current = current;
        Ok(())
    }

    pub fn new_segment(&mut self)
        ensures
            final(self)@ == (closed_segments(old(self)@.0, old(self)@.1), Seq::<char>::empty()),
    {
        proof {
            use_type_invariant(&*self);
        }
        if self.current.as_str().unicode_len() > 0 {
            let mut current = String::new();
            std::mem::swap(&mut current, &mut self.current);
            let mut segments = Vec::new();
            std::mem::swap(&mut segments, &mut self.segments);
            let ghost before = segments@;
            segments.push(current);
            proof {
                assert(texts(segments@) =~= texts(before).push(current@));
                assert forall|i: int| 0 <= i < segments@.len() implies (#[trigger] segments@[i])@.len()
                    > 0 by {
                    if i < before.len() {
                        assert(segments@[i] == before[i]);
                    }
                }
            }
            self.segments = segments;
        }
    }

    pub fn into_segments(self) -> (r: Vec<String>)
        ensures
            texts(r@) == closed_segments(self@.0, self@.1),
            forall|i: int| 0 <= i < r@.len() ==> (#[trigger] r@[i])@.len() > 0,
    {
        proof {
            use_type_invariant(&self);
        }
        let mut w = self;
        w.new_segment();
        proof {
            use_type_invariant(&w);
        }
        let SegmentedWriter { segments, current: _ } = w;
        segments
    }

    /// Length of the current segment in bytes.
    pub fn current_len(&self) -> (r: usize)
        ensures
            r == utf8_len(self@.1),
    {
        str_byte_len(self.current.as_str())
    }
}

impl Default for SegmentedWriter {
    fn default() -> (r: Self)
        ensures
            r@.0.len() == 0,
            r@.1.len() == 0,
    {
        SegmentedWriter::new()
    }
}

/// Nothing written is lost: the segments handed out hold, in order, exactly
/// the text written.
pub proof fn law_segments_keep_text(segments: Seq<Seq<char>>, current: Seq<char>)
    ensures
        flatten(closed_segments(segments, current)) == flatten(segments) + current,
{
    if current.len() > 0 {
        assert(segments.push(current).drop_last() =~= segments);
    } else {
        assert(flatten(segments) + current =~= flatten(segments));
    }
}


/// A call on a segmented writer: writing a string, or starting a new segment.
pub enum SegmentCall {
    Write(Seq<char>),
    NewSegment,
}

/// The writer's view after `calls`, starting from `w`, following each
/// method's contract.
pub open spec fn after_calls(w: (Seq<Seq<char>>, Seq<char>), calls: Seq<SegmentCall>) -> (Seq<Seq<char>>, Seq<char>)
    decreases calls.len(),
{
    if calls.len() == 0 {
        w
    } else {
        let v = after_calls(w, calls.drop_last());
        match calls.last() {
            SegmentCall::Write(s) => (v.0, v.1 + s),
            SegmentCall::NewSegment => (closed_segments(v.0, v.1), Seq::empty()),
        }
    }
}

/// Everything `calls` write, in order.
pub open spec fn written(calls: Seq<SegmentCall>) -> Seq<char>
    decreases calls.len(),
{
    if calls.len() == 0 {
        Seq::empty()
    } else {
        match calls.last() {
            SegmentCall::Write(s) => written(calls.drop_last()) + s,
            SegmentCall::NewSegment => written(calls.drop_last()),
        }
    }
}

/// How many of `calls` start a new segment.
pub open spec fn new_segment_calls(calls: Seq<SegmentCall>) -> nat
    decreases calls.len(),
{
    if calls.len() == 0 {
        0
    } else {
        match calls.last() {
            SegmentCall::Write(_) => new_segment_calls(calls.drop_last()),
            SegmentCall::NewSegment => new_segment_calls(calls.drop_last()) + 1,
        }
    }
}

proof fn lemma_after_calls(calls: Seq<SegmentCall>)
    ensures
        ({
            let w = after_calls((Seq::empty(), Seq::empty()), calls);
            &&& forall|i: int| 0 <= i < w.0.len() ==> (#[trigger] w.0[i]).len() > 0
            &&& flatten(w.0) + w.1 == written(calls)
            &&& w.0.len() <= new_segment_calls(calls)
        }),
    decreases calls.len(),
{
    if calls.len() == 0 {
        assert(flatten(Seq::<Seq<char>>::empty()) + Seq::<char>::empty() =~= Seq::<char>::empty());
    } else {
        lemma_after_calls(calls.drop_last());
        let v = after_calls((Seq::empty(), Seq::empty()), calls.drop_last());
        match calls.last() {
            SegmentCall::Write(s) => {
                assert(flatten(v.0) + (v.1 + s) =~= (flatten(v.0) + v.1) + s);
            },
            SegmentCall::NewSegment => {
                law_segments_keep_text(v.0, v.1);
                let c = closed_segments(v.0, v.1);
                assert forall|i: int| 0 <= i < c.len() implies (#[trigger] c[i]).len() > 0 by {
                    if i < v.0.len() {
                        assert(c[i] == v.0[i]);
                    }
                }
                assert(flatten(c) + Seq::<char>::empty() =~= flatten(c));
            },
        }
    }
}

/// From a new writer, whatever calls come: no segment handed out is empty,
/// the segments together hold exactly the text written, in order, and there
/// is at most one segment more than calls to start a new one.
pub proof fn law_segments_from_calls(calls: Seq<SegmentCall>)
    ensures
        ({
            let w = after_calls((Seq::empty(), Seq::empty()), calls);
            let out = closed_segments(w.0, w.1);
            &&& forall|i: int| 0 <= i < out.len() ==> (#[trigger] out[i]).len() > 0
            &&& flatten(out) == written(calls)
            &&& out.len() <= new_segment_calls(calls) + 1
        }),
{
    lemma_after_calls(calls);
    let w = after_calls((Seq::empty(), Seq::empty()), calls);
    law_segments_keep_text(w.0, w.1);
    let out = closed_segments(w.0, w.1);
    assert forall|i: int| 0 <= i < out.len() implies (#[trigger] out[i]).len() > 0 by {
        if i < w.0.len() {
            assert(out[i] == w.0[i]);
        }
    }
}

} // verus!
