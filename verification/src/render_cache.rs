//! Render caching for incremental paragraph rendering.
//!
//! The cache keeps paragraph renders so that unchanged content is not
//! rendered again. The decisions of an incremental render live here: when the
//! cached render still stands, how cached paragraph ranges move after an edit,
//! which cached paragraphs are reused and where parsing resumes, and which ID
//! each paragraph gets.
use crate::offset_map::OffsetMapping;
use crate::paragraph::{make_paragraph_id, ParagraphRender};
use crate::resolve::ExtractedRef;
use crate::strings::{decimal, string_push, string_push_str, utf8_len};
use crate::syntax::SyntaxSpanInfo;
use crate::types::EditInfo;
use vstd::prelude::*;

verus! {

/// Cache for incremental paragraph rendering.
/// Stores previously rendered paragraphs to avoid re-rendering unchanged content.
#[derive(Debug)]
pub struct RenderCache {
    /// Cached paragraph renders (content paragraphs only, gaps computed fresh).
    pub paragraphs: Vec<CachedParagraph>,
    /// Next available node ID for fresh renders.
    pub next_node_id: usize,
    /// Next available syntax span ID for fresh renders.
    pub next_syn_id: usize,
    /// Next available paragraph ID (monotonic counter).
    pub next_para_id: usize,
}

impl Default for RenderCache {
    fn default() -> (r: Self)
        ensures
            r.paragraphs@.len() == 0,
            r.next_node_id == 0,
            r.next_syn_id == 0,
            r.next_para_id == 0,
    {
        RenderCache { paragraphs: Vec::new(), next_node_id: 0, next_syn_id: 0, next_para_id: 0 }
    }
}

/// A cached paragraph render that can be reused if source hasn't changed.
#[derive(Debug)]
pub struct CachedParagraph {
    /// Stable monotonic ID for DOM element identity.
    pub id: String,
    /// Hash of paragraph source text for change detection.
    pub source_hash: u64,
    /// Byte range in source document.
    pub byte_range: std::ops::Range<usize>,
    /// Char range in source document.
    pub char_range: std::ops::Range<usize>,
    /// Rendered HTML.
    pub html: String,
    /// Offset mappings for cursor positioning.
    pub offset_map: Vec<OffsetMapping>,
    /// Syntax spans for conditional visibility.
    pub syntax_spans: Vec<SyntaxSpanInfo>,
    /// Collected refs (wikilinks, AT embeds) from this paragraph.
    pub collected_refs: Vec<ExtractedRef>,
}

/// Result of incremental paragraph rendering.
pub struct IncrementalRenderResult {
    /// Rendered paragraphs.
    pub paragraphs: Vec<ParagraphRender>,
    /// Updated cache for next render.
    pub cache: RenderCache,
    /// Collected refs (wikilinks, AT embeds) found during render.
    pub collected_refs: Vec<ExtractedRef>,
}

/// Check if an edit affects paragraph boundaries.
///
/// Edits that don't contain newlines and aren't in the block-syntax zone
/// are considered "safe" and can skip boundary rediscovery.
pub fn is_boundary_affecting(edit: &EditInfo) -> (r: bool)
    ensures
        r == (edit.contains_newline || edit.in_block_syntax_zone),
{
    // Newlines always affect boundaries (paragraph splits/joins).
    if edit.contains_newline {
        return true;
    }
    // Edits in the block-syntax zone (first ~6 chars of line) could affect
    // headings, lists, blockquotes, code fences, etc.
    if edit.in_block_syntax_zone {
        return true;
    }
    false
}

/// `val + delta`, held within `0..=usize::MAX`.
pub open spec fn saturated(val: usize, delta: isize) -> usize {
    if val + delta < 0 {
        0
    } else if val + delta > usize::MAX {
        usize::MAX
    } else {
        (val + delta) as usize
    }
}

/// Apply a signed delta to a usize, saturating at 0 on underflow.
pub fn apply_delta(val: usize, delta: isize) -> (r: usize)
    ensures
        r == saturated(val, delta),
{
    if delta >= 0 {
        val.saturating_add(delta as usize)
    } else {
        // The magnitude of a negative delta, `isize::MIN` included.
        let magnitude: usize = if delta == isize::MIN {
            (isize::MAX as usize) + 1
        } else {
            (-delta) as usize
        };
        val.saturating_sub(magnitude)
    }
}

/// A shift that stays in range is undone by the opposite shift.
pub proof fn law_delta_round_trip(val: usize, delta: isize)
    requires
        delta > isize::MIN,
        0 <= val + delta <= usize::MAX,
    ensures
        saturated(saturated(val, delta), (-delta) as isize) == val,
{
}

/// `b - a` for lengths seen as `isize`, as the render computes length changes.
pub open spec fn length_delta(now: usize, before: usize) -> int {
    (now as isize) - (before as isize)
}

/// The change from `before` to `now` fits an `isize` and can be negated.
pub open spec fn delta_fits(now: usize, before: usize) -> bool {
    isize::MIN < length_delta(now, before) <= isize::MAX
}

fn compute_delta(now: usize, before: usize) -> (r: isize)
    requires
        delta_fits(now, before),
    ensures
        r == length_delta(now, before),
        r > isize::MIN,
{
    now as isize - before as isize
}

/// Char and byte end of the last cached paragraph, or `(0, 0)`.
pub open spec fn spec_cached_end(paragraphs: Seq<CachedParagraph>) -> (usize, usize) {
    if paragraphs.len() > 0 {
        (paragraphs.last().char_range.end, paragraphs.last().byte_range.end)
    } else {
        (0usize, 0usize)
    }
}

/// Char and byte length of the text the cache was rendered from.
pub fn cached_end(cache: &RenderCache) -> (r: (usize, usize))
    ensures
        r == spec_cached_end(cache.paragraphs@),
{
    let n = cache.paragraphs.len();
    if n > 0 {
        (cache.paragraphs[n - 1].char_range.end, cache.paragraphs[n - 1].byte_range.end)
    } else {
        (0, 0)
    }
}

/// With a cache and no edit, the cached render stands when the text's length
/// is the one it was rendered from.
pub fn cached_render_stands(cache: Option<&RenderCache>, edit: Option<&EditInfo>, current_len: usize) -> (r: bool)
    ensures
        r == (edit is None && match cache {
            Some(c) => spec_cached_end(c.paragraphs@).0 == current_len,
            None => false,
        }),
{
    match (cache, edit) {
        (Some(c), None) => cached_end(c).0 == current_len,
        _ => false,
    }
}

/// The cached boundaries may be shifted in place of a fresh discovery: there is
/// a cache and an edit, and the edit cannot move paragraph boundaries.
pub fn fast_path_possible(cache: Option<&RenderCache>, edit: Option<&EditInfo>) -> (r: bool)
    ensures
        r == (cache is Some && match edit {
            Some(e) => !(e.contains_newline || e.in_block_syntax_zone),
            None => false,
        }),
{
    match (cache, edit) {
        (Some(_), Some(e)) => !is_boundary_affecting(e),
        _ => false,
    }
}

/// Where a cached paragraph's ranges go after an edit at `edit_pos`:
/// paragraphs before it stay, paragraphs after it shift by the deltas, and the
/// paragraph holding it keeps its start and moves its end.
pub open spec fn shifted_ranges(
    byte_range: std::ops::Range<usize>,
    char_range: std::ops::Range<usize>,
    edit_pos: usize,
    char_delta: isize,
    byte_delta: isize,
) -> (std::ops::Range<usize>, std::ops::Range<usize>) {
    if char_range.end < edit_pos {
        (byte_range, char_range)
    } else if char_range.start > edit_pos {
        (
            std::ops::Range {
                start: saturated(byte_range.start, byte_delta),
                end: saturated(byte_range.end, byte_delta),
            },
            std::ops::Range {
                start: saturated(char_range.start, char_delta),
                end: saturated(char_range.end, char_delta),
            },
        )
    } else {
        (
            std::ops::Range { start: byte_range.start, end: saturated(byte_range.end, byte_delta) },
            std::ops::Range { start: char_range.start, end: saturated(char_range.end, char_delta) },
        )
    }
}

/// Move a cached paragraph's ranges for an edit at `edit_pos`.
pub fn shift_ranges(
    byte_range: &std::ops::Range<usize>,
    char_range: &std::ops::Range<usize>,
    edit_pos: usize,
    char_delta: isize,
    byte_delta: isize,
) -> (r: (std::ops::Range<usize>, std::ops::Range<usize>))
    ensures
        r == shifted_ranges(*byte_range, *char_range, edit_pos, char_delta, byte_delta),
{
    if char_range.end < edit_pos {
        (
            std::ops::Range { start: byte_range.start, end: byte_range.end },
            std::ops::Range { start: char_range.start, end: char_range.end },
        )
    } else if char_range.start > edit_pos {
        (
            std::ops::Range {
                start: apply_delta(byte_range.start, byte_delta),
                end: apply_delta(byte_range.end, byte_delta),
            },
            std::ops::Range {
                start: apply_delta(char_range.start, char_delta),
                end: apply_delta(char_range.end, char_delta),
            },
        )
    } else {
        (
            std::ops::Range { start: byte_range.start, end: apply_delta(byte_range.end, byte_delta) },
            std::ops::Range { start: char_range.start, end: apply_delta(char_range.end, char_delta) },
        )
    }
}

/// The cached paragraphs' ranges, shifted for an edit.
pub open spec fn all_shifted(
    paragraphs: Seq<CachedParagraph>,
    edit_pos: usize,
    char_delta: isize,
    byte_delta: isize,
) -> Seq<(std::ops::Range<usize>, std::ops::Range<usize>)> {
    Seq::new(
        paragraphs.len(),
        |i: int|
            shifted_ranges(
                paragraphs[i].byte_range,
                paragraphs[i].char_range,
                edit_pos,
                char_delta,
                byte_delta,
            ),
    )
}

/// The cache, the edit and the text's lengths leave length changes that fit an `isize`.
pub open spec fn deltas_fit(cache: RenderCache, current_len: usize, current_byte_len: usize) -> bool {
    let (cl, cb) = spec_cached_end(cache.paragraphs@);
    delta_fits(current_len, cl) && delta_fits(current_byte_len, cb)
}

/// The fast path's paragraph ranges: the cached ones shifted for the edit,
/// when there are some and every char range still runs forward.
pub open spec fn spec_fast_path_ranges(
    cache: RenderCache,
    edit: EditInfo,
    current_len: usize,
    current_byte_len: usize,
) -> Option<Seq<(std::ops::Range<usize>, std::ops::Range<usize>)>> {
    let (cl, cb) = spec_cached_end(cache.paragraphs@);
    let shifted = all_shifted(
        cache.paragraphs@,
        edit.edit_char_pos,
        length_delta(current_len, cl) as isize,
        length_delta(current_byte_len, cb) as isize,
    );
    if shifted.len() > 0 && forall|i: int|
        0 <= i < shifted.len() ==> (#[trigger] shifted[i]).1.start <= shifted[i].1.end {
        Some(shifted)
    } else {
        None
    }
}

/// Shift the cached paragraph ranges for an edit, when the result is usable.
pub fn fast_path_ranges(
    cache: &RenderCache,
    edit: &EditInfo,
    current_len: usize,
    current_byte_len: usize,
) -> (r: Option<Vec<(std::ops::Range<usize>, std::ops::Range<usize>)>>)
    requires
        deltas_fit(*cache, current_len, current_byte_len),
    ensures
        match spec_fast_path_ranges(*cache, *edit, current_len, current_byte_len) {
            Some(s) => r matches Some(v) && v@ == s,
            None => r is None,
        },
{
    let edit_pos = edit.edit_char_pos;
    let (cached_len, cached_byte_len) = cached_end(cache);
    let char_delta = compute_delta(current_len, cached_len);
    let byte_delta = compute_delta(current_byte_len, cached_byte_len);
    let ghost shifted = all_shifted(cache.paragraphs@, edit_pos, char_delta, byte_delta);
    let mut out: Vec<(std::ops::Range<usize>, std::ops::Range<usize>)> = Vec::new();
    let mut all_valid = true;
    let mut i: usize = 0;
    while i < cache.paragraphs.len()
        invariant
            i <= cache.paragraphs@.len(),
            shifted == all_shifted(cache.paragraphs@, edit_pos, char_delta, byte_delta),
            out@ == shifted.take(i as int),
            all_valid == forall|j: int| 0 <= j < i ==> (#[trigger] shifted[j]).1.start <= shifted[j].1.end,
        decreases cache.paragraphs@.len() - i,
    {
        let p = &cache.paragraphs[i];
        let pair = shift_ranges(&p.byte_range, &p.char_range, edit_pos, char_delta, byte_delta);
        assert(pair == shifted[i as int]);
        if pair.1.start > pair.1.end {
            all_valid = false;
        }
        out.push(pair);
        proof {
            assert(out@ =~= shifted.take(i + 1));
            assert(all_valid == forall|j: int|
                0 <= j < i + 1 ==> (#[trigger] shifted[j]).1.start <= shifted[j].1.end) by {
                if !all_valid {
                    assert(exists|j: int|
                        0 <= j < i + 1 && !((#[trigger] shifted[j]).1.start <= shifted[j].1.end)) by {
                        if pair.1.start > pair.1.end {
                            assert(!(shifted[i as int].1.start <= shifted[i as int].1.end));
                        }
                    }
                }
            }
        }
        i = i + 1;
    }
    proof {
        assert(shifted.take(i as int) =~= shifted);
    }
    if out.len() > 0 && all_valid {
        Some(out)
    } else {
        None
    }
}

/// Index of the first range pair whose char range holds `pos` (ends included).
pub open spec fn first_holding(ranges: Seq<(std::ops::Range<usize>, std::ops::Range<usize>)>, pos: usize) -> Option<int>
    decreases ranges.len(),
{
    if ranges.len() == 0 {
        None
    } else {
        match first_holding(ranges.drop_last(), pos) {
            Some(i) => Some(i),
            None => if ranges.last().1.start <= pos && pos <= ranges.last().1.end {
                Some(ranges.len() - 1)
            } else {
                None
            },
        }
    }
}

/// Find the paragraph whose char range holds `pos` (ends included), the first one if several do.
pub fn paragraph_holding(
    ranges: &Vec<(std::ops::Range<usize>, std::ops::Range<usize>)>,
    pos: usize,
) -> (r: Option<usize>)
    ensures
        match r {
            Some(k) => first_holding(ranges@, pos) == Some(k as int),
            None => first_holding(ranges@, pos) is None,
        },
{
    let mut i: usize = 0;
    while i < ranges.len()
        invariant
            i <= ranges@.len(),
            first_holding(ranges@.take(i as int), pos) is None,
        decreases ranges@.len() - i,
    {
        proof {
            assert(ranges@.take(i + 1).drop_last() =~= ranges@.take(i as int));
        }
        if ranges[i].1.start <= pos && pos <= ranges[i].1.end {
            proof {
                let t = ranges@.take(i + 1);
                assert(t.last() == ranges@[i as int]);
                assert(first_holding(t, pos) == Some(i as int));
                lemma_first_holding_prefix(ranges@, i + 1, pos);
            }
            return Some(i);
        }
        i = i + 1;
    }
    proof {
        assert(ranges@.take(i as int) =~= ranges@);
    }
    None
}

proof fn lemma_first_holding_prefix(
    ranges: Seq<(std::ops::Range<usize>, std::ops::Range<usize>)>,
    n: int,
    pos: usize,
)
    requires
        0 <= n <= ranges.len(),
        first_holding(ranges.take(n), pos) is Some,
    ensures
        first_holding(ranges, pos) == first_holding(ranges.take(n), pos),
    decreases ranges.len() - n,
{
    if n < ranges.len() {
        assert(ranges.take(n + 1).drop_last() =~= ranges.take(n));
        lemma_first_holding_prefix(ranges, n + 1, pos);
    } else {
        assert(ranges.take(n) =~= ranges);
    }
}

/// The char and byte ranges of the cached paragraphs.
pub open spec fn cached_ranges(paragraphs: Seq<CachedParagraph>) -> Seq<(std::ops::Range<usize>, std::ops::Range<usize>)> {
    Seq::new(paragraphs.len(), |i: int| (paragraphs[i].byte_range, paragraphs[i].char_range))
}

/// Collect the ranges of the cached paragraphs.
pub fn ranges_of(paragraphs: &Vec<CachedParagraph>) -> (r: Vec<(std::ops::Range<usize>, std::ops::Range<usize>)>)
    ensures
        r@ == cached_ranges(paragraphs@),
{
    let mut out: Vec<(std::ops::Range<usize>, std::ops::Range<usize>)> = Vec::new();
    let mut i: usize = 0;
    while i < paragraphs.len()
        invariant
            i <= paragraphs@.len(),
            out@ == cached_ranges(paragraphs@).take(i as int),
        decreases paragraphs@.len() - i,
    {
        let p = &paragraphs[i];
        out.push(
            (
                std::ops::Range { start: p.byte_range.start, end: p.byte_range.end },
                std::ops::Range { start: p.char_range.start, end: p.char_range.end },
            ),
        );
        proof {
            assert(out@ =~= cached_ranges(paragraphs@).take(i + 1));
        }
        i = i + 1;
    }
    proof {
        assert(cached_ranges(paragraphs@).take(i as int) =~= cached_ranges(paragraphs@));
    }
    out
}

/// Edits this close after a paragraph's start re-parse the paragraph before it too.
pub const BOUNDARY_SLOP: usize = 3;

/// Index of the first cached paragraph whose char range ends at or after `pos`.
pub open spec fn first_ending_at_or_after(paragraphs: Seq<CachedParagraph>, pos: usize) -> Option<int>
    decreases paragraphs.len(),
{
    if paragraphs.len() == 0 {
        None
    } else {
        match first_ending_at_or_after(paragraphs.drop_last(), pos) {
            Some(i) => Some(i),
            None => if paragraphs.last().char_range.end >= pos {
                Some(paragraphs.len() - 1)
            } else {
                None
            },
        }
    }
}

/// What a partial re-render reuses: the number of cached paragraphs kept, and
/// the byte and char offsets where parsing resumes.
pub open spec fn spec_reuse_plan(cache: Option<RenderCache>, edit: Option<EditInfo>) -> (usize, usize, usize) {
    match (cache, edit) {
        (Some(c), Some(e)) => {
            let ps = c.paragraphs@;
            let pos = e.edit_char_pos;
            match first_ending_at_or_after(ps, pos) {
                Some(found) => {
                    let idx = if found > 0 && pos < ps[found].char_range.start + BOUNDARY_SLOP {
                        found - 1
                    } else {
                        found
                    };
                    if idx > 0 {
                        (idx as usize, ps[idx - 1].byte_range.end, ps[idx - 1].char_range.end)
                    } else {
                        (0usize, 0usize, 0usize)
                    }
                },
                None => if ps.len() > 0 {
                    (ps.len() as usize, ps.last().byte_range.end, ps.last().char_range.end)
                } else {
                    (0usize, 0usize, 0usize)
                },
            }
        },
        _ => (0usize, 0usize, 0usize),
    }
}

/// Decide which cached paragraphs a partial re-render reuses and where parsing resumes.
pub fn reuse_plan(cache: Option<&RenderCache>, edit: Option<&EditInfo>) -> (r: (usize, usize, usize))
    ensures
        r == spec_reuse_plan(
            match cache {
                Some(c) => Some(*c),
                None => None,
            },
            match edit {
                Some(e) => Some(*e),
                None => None,
            },
        ),
{
    let (c, e) = match (cache, edit) {
        (Some(c), Some(e)) => (c, e),
        _ => {
            return (0, 0, 0);
        },
    };
    let ghost ps = c.paragraphs@;
    let edit_pos = e.edit_char_pos;
    let mut i: usize = 0;
    while i < c.paragraphs.len()
        invariant
            i <= ps.len(),
            ps == c.paragraphs@,
            edit_pos == e.edit_char_pos,
            cache == Some(c),
            edit == Some(e),
            first_ending_at_or_after(ps.take(i as int), edit_pos) is None,
        decreases ps.len() - i,
    {
        proof {
            assert(ps.take(i + 1).drop_last() =~= ps.take(i as int));
        }
        if c.paragraphs[i].char_range.end >= edit_pos {
            proof {
                let t = ps.take(i + 1);
                assert(t.last() == ps[i as int]);
                assert(first_ending_at_or_after(t.drop_last(), edit_pos) is None);
                assert(first_ending_at_or_after(t, edit_pos) == Some(i as int));
                lemma_first_ending_prefix(ps, i + 1, edit_pos);
                assert(first_ending_at_or_after(ps, edit_pos) == Some(i as int));
            }
            let mut idx = i;
            let para_start = c.paragraphs[idx].char_range.start;
            let ghost want = if i > 0 && edit_pos < ps[i as int].char_range.start + BOUNDARY_SLOP {
                i - 1
            } else {
                i as int
            };
            if idx > 0 && (edit_pos as u128) < (para_start as u128) + (BOUNDARY_SLOP as u128) {
                idx -= 1;
            }
            assert(idx == want);
            if idx > 0 {
                let last_reused = &c.paragraphs[idx - 1];
                return (idx, last_reused.byte_range.end, last_reused.char_range.end);
            } else {
                return (0, 0, 0);
            }
        }
        i = i + 1;
    }
    proof {
        assert(ps.take(i as int) =~= ps);
    }
    let n = c.paragraphs.len();
    if n > 0 {
        (n, c.paragraphs[n - 1].byte_range.end, c.paragraphs[n - 1].char_range.end)
    } else {
        (0, 0, 0)
    }
}

proof fn lemma_first_ending_prefix(paragraphs: Seq<CachedParagraph>, n: int, pos: usize)
    requires
        0 <= n <= paragraphs.len(),
        first_ending_at_or_after(paragraphs.take(n), pos) is Some,
    ensures
        first_ending_at_or_after(paragraphs, pos) == first_ending_at_or_after(paragraphs.take(n), pos),
    decreases paragraphs.len() - n,
{
    if n < paragraphs.len() {
        assert(paragraphs.take(n + 1).drop_last() =~= paragraphs.take(n));
        lemma_first_ending_prefix(paragraphs, n + 1, pos);
    } else {
        assert(paragraphs.take(n) =~= paragraphs);
    }
}

/// The first paragraph number given to freshly parsed paragraphs: 0 when
/// nothing is reused, else the cache's next number.
pub fn parsed_para_id_start(reused_count: usize, cache: Option<&RenderCache>) -> (r: usize)
    ensures
        r == if reused_count == 0 {
            0
        } else {
            match cache {
                Some(c) => c.next_para_id,
                None => 0,
            }
        },
{
    if reused_count == 0 {
        0
    } else {
        match cache {
            Some(c) => c.next_para_id,
            None => 0,
        }
    }
}

/// The parsed paragraph that keeps the cursor paragraph's cached ID: the
/// cached paragraph holding `cursor_offset`, when it is not reused, counted
/// among the parsed ones.
pub open spec fn spec_cursor_override(
    paragraphs: Seq<CachedParagraph>,
    cursor_offset: usize,
    reused_count: usize,
) -> Option<(int, Seq<char>)> {
    match first_holding(cached_ranges(paragraphs), cursor_offset) {
        Some(idx) => if idx < reused_count {
            None
        } else {
            Some((idx - reused_count, paragraphs[idx].id@))
        },
        None => None,
    }
}

/// Decide which parsed paragraph keeps the ID of the paragraph the cursor was in.
pub fn cursor_para_override(cache: Option<&RenderCache>, cursor_offset: usize, reused_count: usize) -> (r: Option<(usize, String)>)
    ensures
        match cache {
            None => r is None,
            Some(c) => match spec_cursor_override(c.paragraphs@, cursor_offset, reused_count) {
                Some((idx, id)) => r matches Some(x) && x.0 == idx && x.1@ == id,
                None => r is None,
            },
        },
{
    let c = match cache {
        Some(c) => c,
        None => {
            return None;
        },
    };
    let ranges = ranges_of(&c.paragraphs);
    let cached_cursor_idx = match paragraph_holding(&ranges, cursor_offset) {
        Some(i) => i,
        None => {
            return None;
        },
    };
    proof {
        lemma_first_holding_bound(ranges@, cursor_offset);
        assert(ranges@ == cached_ranges(c.paragraphs@));
    }
    if cached_cursor_idx < reused_count {
        assert(spec_cursor_override(c.paragraphs@, cursor_offset, reused_count) is None);
        return None;
    }
    let cached_para = &c.paragraphs[cached_cursor_idx];
    Some((cached_cursor_idx - reused_count, cached_para.id.clone()))
}

proof fn lemma_first_holding_bound(ranges: Seq<(std::ops::Range<usize>, std::ops::Range<usize>)>, pos: usize)
    ensures
        first_holding(ranges, pos) matches Some(i) ==> 0 <= i < ranges.len(),
    decreases ranges.len(),
{
    if ranges.len() > 0 {
        lemma_first_holding_bound(ranges.drop_last(), pos);
    }
}

/// The ID a paragraph gets in a partial re-render: a reused paragraph keeps
/// its cached ID, the cursor paragraph keeps its own, and the other parsed
/// paragraphs are numbered on from `parsed_start`.
pub open spec fn spec_slow_path_id(
    idx: int,
    reused_ids: Seq<Seq<char>>,
    cursor_override: Option<(int, Seq<char>)>,
    parsed_start: int,
) -> Seq<char> {
    if idx < reused_ids.len() {
        reused_ids[idx]
    } else {
        let parsed_idx = idx - reused_ids.len();
        match cursor_override {
            Some((o, id)) => if parsed_idx == o {
                id
            } else {
                seq!['p', '-'] + decimal((parsed_start + parsed_idx) as nat)
            },
            None => seq!['p', '-'] + decimal((parsed_start + parsed_idx) as nat),
        }
    }
}

/// The ID of paragraph `idx` of a partial re-render.
pub fn slow_path_para_id(
    idx: usize,
    reused: &Vec<CachedParagraph>,
    cursor_override: &Option<(usize, String)>,
    parsed_start: usize,
) -> (r: String)
    requires
        idx >= reused@.len() ==> parsed_start + (idx - reused@.len()) <= usize::MAX,
    ensures
        r@ == spec_slow_path_id(
            idx as int,
            reused@.map_values(|p: CachedParagraph| p.id@),
            match cursor_override {
                Some(o) => Some((o.0 as int, o.1@)),
                None => None,
            },
            parsed_start as int,
        ),
{
    if idx < reused.len() {
        return reused[idx].id.clone();
    }
    let parsed_idx = idx - reused.len();
    match cursor_override {
        Some((override_idx, override_prefix)) => {
            if parsed_idx == *override_idx {
                return override_prefix.clone();
            }
        },
        None => {},
    }
    make_paragraph_id(parsed_start + parsed_idx)
}

/// The HTML of an empty document: one span holding a zero-width space.
pub open spec fn empty_document_html() -> Seq<char> {
    seq!['<', 's', 'p', 'a', 'n', ' ', 'i', 'd', '=', '"', 'n', '0', '"', '>', '\u{200B}', '<', '/', 's', 'p', 'a', 'n', '>']
}

/// The render of an empty document: one empty paragraph `p-0` holding a
/// zero-width space, and a cache that numbers on from there.
pub fn empty_document_render() -> (r: IncrementalRenderResult)
    ensures
        r.paragraphs@.len() == 1,
        r.paragraphs@[0].id@ == seq!['p', '-', '0'],
        r.paragraphs@[0].html@ == empty_document_html(),
        r.paragraphs@[0].byte_range == (std::ops::Range { start: 0usize, end: 0usize }),
        r.paragraphs@[0].char_range == (std::ops::Range { start: 0usize, end: 0usize }),
        r.paragraphs@[0].offset_map@.len() == 0,
        r.paragraphs@[0].syntax_spans@.len() == 0,
        r.paragraphs@[0].source_hash == 0,
        r.cache.paragraphs@.len() == 1,
        r.cache.paragraphs@[0].id@ == seq!['p', '-', '0'],
        r.cache.paragraphs@[0].html@ == empty_document_html(),
        r.cache.paragraphs@[0].source_hash == 0,
        r.cache.paragraphs@[0].byte_range == (std::ops::Range { start: 0usize, end: 0usize }),
        r.cache.paragraphs@[0].char_range == (std::ops::Range { start: 0usize, end: 0usize }),
        r.cache.paragraphs@[0].offset_map@.len() == 0,
        r.cache.paragraphs@[0].syntax_spans@.len() == 0,
        r.cache.paragraphs@[0].collected_refs@.len() == 0,
        r.cache.next_node_id == 1,
        r.cache.next_syn_id == 0,
        r.cache.next_para_id == 1,
        r.collected_refs@.len() == 0,
        render_agrees(r),
{
    let mut html = String::new();
    string_push_str(&mut html, "<span id=\"n0\">");
    string_push(&mut html, '\u{200B}');
    string_push_str(&mut html, "</span>");
    proof {
        reveal_strlit("<span id=\"n0\">");
        reveal_strlit("</span>");
        assert(html@ =~= empty_document_html());
    }
    let para_id = make_paragraph_id(0);
    proof {
        assert(decimal(0) =~= seq!['0']);
        assert(para_id@ =~= seq!['p', '-', '0']);
    }
    let para = ParagraphRender {
        id: para_id.clone(),
        byte_range: std::ops::Range { start: 0, end: 0 },
        char_range: std::ops::Range { start: 0, end: 0 },
        html: html.clone(),
        offset_map: Vec::new(),
        syntax_spans: Vec::new(),
        source_hash: 0,
    };
    let cached = CachedParagraph {
        id: para_id,
        source_hash: 0,
        byte_range: std::ops::Range { start: 0, end: 0 },
        char_range: std::ops::Range { start: 0, end: 0 },
        html,
        offset_map: Vec::new(),
        syntax_spans: Vec::new(),
        collected_refs: Vec::new(),
    };
    let mut paragraphs = Vec::new();
    paragraphs.push(para);
    let mut cached_paragraphs = Vec::new();
    cached_paragraphs.push(cached);
    proof {
        assert(cached_paragraphs@.drop_last() =~= Seq::<CachedParagraph>::empty());
        assert(all_refs(Seq::<CachedParagraph>::empty()) == Seq::<ExtractedRef>::empty());
        assert(cached_paragraphs@.last().collected_refs@ =~= Seq::<ExtractedRef>::empty());
        assert(all_refs(cached_paragraphs@) =~= Seq::<ExtractedRef>::empty());
    }
    IncrementalRenderResult {
        paragraphs,
        cache: RenderCache { paragraphs: cached_paragraphs, next_node_id: 1, next_syn_id: 0, next_para_id: 1 },
        collected_refs: Vec::new(),
    }
}

/// Shift the mappings of a paragraph that moved, by the given deltas.
pub fn shift_offset_maps(maps: &mut Vec<OffsetMapping>, char_delta: isize, byte_delta: isize)
    ensures
        final(maps)@.len() == old(maps)@.len(),
        forall|i: int|
            0 <= i < old(maps)@.len() ==> (#[trigger] final(maps)@[i]) == (OffsetMapping {
                char_range: std::ops::Range {
                    start: saturated(old(maps)@[i].char_range.start, char_delta),
                    end: saturated(old(maps)@[i].char_range.end, char_delta),
                },
                byte_range: std::ops::Range {
                    start: saturated(old(maps)@[i].byte_range.start, byte_delta),
                    end: saturated(old(maps)@[i].byte_range.end, byte_delta),
                },
                ..old(maps)@[i]
            }),
{
    let mut i: usize = 0;
    while i < maps.len()
        invariant
            i <= maps@.len(),
            maps@.len() == old(maps)@.len(),
            forall|j: int| i <= j < maps@.len() ==> (#[trigger] maps@[j]) == old(maps)@[j],
            forall|j: int|
                0 <= j < i ==> (#[trigger] maps@[j]) == (OffsetMapping {
                    char_range: std::ops::Range {
                        start: saturated(old(maps)@[j].char_range.start, char_delta),
                        end: saturated(old(maps)@[j].char_range.end, char_delta),
                    },
                    byte_range: std::ops::Range {
                        start: saturated(old(maps)@[j].byte_range.start, byte_delta),
                        end: saturated(old(maps)@[j].byte_range.end, byte_delta),
                    },
                    ..old(maps)@[j]
                }),
        decreases maps@.len() - i,
    {
        let mut m = maps[i].clone();
        m.char_range = std::ops::Range {
            start: apply_delta(m.char_range.start, char_delta),
            end: apply_delta(m.char_range.end, char_delta),
        };
        m.byte_range = std::ops::Range {
            start: apply_delta(m.byte_range.start, byte_delta),
            end: apply_delta(m.byte_range.end, byte_delta),
        };
        maps.set(i, m);
        i = i + 1;
    }
}

/// Move the mappings of a freshly parsed paragraph from the parsed slice's
/// offsets to the document's, the slice starting at the given offsets.
pub fn offset_maps_from(maps: &mut Vec<OffsetMapping>, char_start: usize, byte_start: usize)
    requires
        forall|i: int|
            0 <= i < old(maps)@.len() ==> (#[trigger] old(maps)@[i]).char_range.end + char_start
                <= usize::MAX && old(maps)@[i].char_range.start + char_start <= usize::MAX
                && old(maps)@[i].byte_range.end + byte_start <= usize::MAX
                && old(maps)@[i].byte_range.start + byte_start <= usize::MAX,
    ensures
        final(maps)@.len() == old(maps)@.len(),
        forall|i: int|
            0 <= i < old(maps)@.len() ==> (#[trigger] final(maps)@[i]) == (OffsetMapping {
                char_range: std::ops::Range {
                    start: (old(maps)@[i].char_range.start + char_start) as usize,
                    end: (old(maps)@[i].char_range.end + char_start) as usize,
                },
                byte_range: std::ops::Range {
                    start: (old(maps)@[i].byte_range.start + byte_start) as usize,
                    end: (old(maps)@[i].byte_range.end + byte_start) as usize,
                },
                ..old(maps)@[i]
            }),
{
    let mut i: usize = 0;
    while i < maps.len()
        invariant
            i <= maps@.len(),
            maps@.len() == old(maps)@.len(),
            forall|j: int| i <= j < maps@.len() ==> (#[trigger] maps@[j]) == old(maps)@[j],
            forall|j: int|
                0 <= j < old(maps)@.len() ==> (#[trigger] old(maps)@[j]).char_range.end
                    + char_start <= usize::MAX && old(maps)@[j].char_range.start + char_start
                    <= usize::MAX && old(maps)@[j].byte_range.end + byte_start <= usize::MAX
                    && old(maps)@[j].byte_range.start + byte_start <= usize::MAX,
            forall|j: int|
                0 <= j < i ==> (#[trigger] maps@[j]) == (OffsetMapping {
                    char_range: std::ops::Range {
                        start: (old(maps)@[j].char_range.start + char_start) as usize,
                        end: (old(maps)@[j].char_range.end + char_start) as usize,
                    },
                    byte_range: std::ops::Range {
                        start: (old(maps)@[j].byte_range.start + byte_start) as usize,
                        end: (old(maps)@[j].byte_range.end + byte_start) as usize,
                    },
                    ..old(maps)@[j]
                }),
        decreases maps@.len() - i,
    {
        let mut m = maps[i].clone();
        m.char_range = std::ops::Range { start: m.char_range.start + char_start, end: m.char_range.end + char_start };
        m.byte_range = std::ops::Range { start: m.byte_range.start + byte_start, end: m.byte_range.end + byte_start };
        maps.set(i, m);
        i = i + 1;
    }
}


fn clone_maps(v: &Vec<OffsetMapping>) -> (r: Vec<OffsetMapping>)
    ensures
        r@ == v@,
{
    let mut out: Vec<OffsetMapping> = Vec::new();
    let mut i: usize = 0;
    while i < v.len()
        invariant
            i <= v@.len(),
            out@ == v@.take(i as int),
        decreases v@.len() - i,
    {
        out.push(v[i].clone());
        proof {
            assert(out@ =~= v@.take(i + 1));
        }
        i = i + 1;
    }
    proof {
        assert(v@.take(i as int) =~= v@);
    }
    out
}

fn clone_spans(v: &Vec<SyntaxSpanInfo>) -> (r: Vec<SyntaxSpanInfo>)
    ensures
        r@ == v@,
{
    let mut out: Vec<SyntaxSpanInfo> = Vec::new();
    let mut i: usize = 0;
    while i < v.len()
        invariant
            i <= v@.len(),
            out@ == v@.take(i as int),
        decreases v@.len() - i,
    {
        out.push(v[i].clone());
        proof {
            assert(out@ =~= v@.take(i + 1));
        }
        i = i + 1;
    }
    proof {
        assert(v@.take(i as int) =~= v@);
    }
    out
}

/// Appends clones of the refs of `v` to `out`.
fn extend_refs(out: &mut Vec<ExtractedRef>, v: &Vec<ExtractedRef>)
    ensures
        final(out)@ == old(out)@ + v@,
{
    let mut i: usize = 0;
    while i < v.len()
        invariant
            i <= v@.len(),
            out@ == old(out)@ + v@.take(i as int),
        decreases v@.len() - i,
    {
        out.push(v[i].clone());
        proof {
            assert(out@ =~= old(out)@ + v@.take(i + 1));
        }
        i = i + 1;
    }
    proof {
        assert(v@.take(i as int) =~= v@);
    }
}

/// The refs of the cached paragraphs, one paragraph after another.
pub open spec fn all_refs(paragraphs: Seq<CachedParagraph>) -> Seq<ExtractedRef>
    decreases paragraphs.len(),
{
    if paragraphs.len() == 0 {
        Seq::empty()
    } else {
        all_refs(paragraphs.drop_last()) + paragraphs.last().collected_refs@
    }
}

/// Two paragraph lists with the same refs, paragraph by paragraph, have the
/// same refs in all.
proof fn lemma_all_refs_same(a: Seq<CachedParagraph>, b: Seq<CachedParagraph>)
    requires
        a.len() == b.len(),
        forall|i: int| 0 <= i < a.len() ==> (#[trigger] a[i]).collected_refs@ == b[i].collected_refs@,
    ensures
        all_refs(a) == all_refs(b),
    decreases a.len(),
{
    if a.len() > 0 {
        lemma_all_refs_same(a.drop_last(), b.drop_last());
    }
}

/// The paragraph a cached one renders as.
pub open spec fn render_of(p: CachedParagraph, r: ParagraphRender) -> bool {
    &&& r.id == p.id
    &&& r.byte_range == p.byte_range
    &&& r.char_range == p.char_range
    &&& r.html == p.html
    &&& r.offset_map@ == p.offset_map@
    &&& r.syntax_spans@ == p.syntax_spans@
    &&& r.source_hash == p.source_hash
}

fn clone_cached(p: &CachedParagraph) -> (r: CachedParagraph)
    ensures
        r.id == p.id,
        r.source_hash == p.source_hash,
        r.byte_range == p.byte_range,
        r.char_range == p.char_range,
        r.html == p.html,
        r.offset_map@ == p.offset_map@,
        r.syntax_spans@ == p.syntax_spans@,
        r.collected_refs@ == p.collected_refs@,
{
    let mut refs = Vec::new();
    extend_refs(&mut refs, &p.collected_refs);
    assert(refs@ =~= p.collected_refs@);
    CachedParagraph {
        id: p.id.clone(),
        source_hash: p.source_hash,
        byte_range: std::ops::Range { start: p.byte_range.start, end: p.byte_range.end },
        char_range: std::ops::Range { start: p.char_range.start, end: p.char_range.end },
        html: p.html.clone(),
        offset_map: clone_maps(&p.offset_map),
        syntax_spans: clone_spans(&p.syntax_spans),
        collected_refs: refs,
    }
}

/// The render the cache already holds, handed out again: its paragraphs, the
/// cache itself, and the refs of all its paragraphs.
pub fn cached_render_result(cache: &RenderCache) -> (r: IncrementalRenderResult)
    ensures
        r.paragraphs@.len() == cache.paragraphs@.len(),
        forall|i: int|
            0 <= i < cache.paragraphs@.len() ==> render_of(
                #[trigger] cache.paragraphs@[i],
                r.paragraphs@[i],
            ),
        r.cache.paragraphs@.len() == cache.paragraphs@.len(),
        forall|i: int|
            0 <= i < cache.paragraphs@.len() ==> {
                let a = #[trigger] r.cache.paragraphs@[i];
                let b = cache.paragraphs@[i];
                &&& a.id == b.id
                &&& a.source_hash == b.source_hash
                &&& a.byte_range == b.byte_range
                &&& a.char_range == b.char_range
                &&& a.html == b.html
                &&& a.offset_map@ == b.offset_map@
                &&& a.syntax_spans@ == b.syntax_spans@
                &&& a.collected_refs@ == b.collected_refs@
            },
        r.cache.next_node_id == cache.next_node_id,
        r.cache.next_syn_id == cache.next_syn_id,
        r.cache.next_para_id == cache.next_para_id,
        r.collected_refs@ == all_refs(cache.paragraphs@),
        render_agrees(r),
{
    let mut paragraphs: Vec<ParagraphRender> = Vec::new();
    let mut cached: Vec<CachedParagraph> = Vec::new();
    let mut refs: Vec<ExtractedRef> = Vec::new();
    let ghost ps = cache.paragraphs@;
    let mut i: usize = 0;
    while i < cache.paragraphs.len()
        invariant
            i <= ps.len(),
            ps == cache.paragraphs@,
            paragraphs@.len() == i,
            cached@.len() == i,
            forall|j: int| 0 <= j < i ==> render_of(#[trigger] ps[j], paragraphs@[j]),
            forall|j: int|
                0 <= j < i ==> {
                    let a = #[trigger] cached@[j];
                    let b = ps[j];
                    &&& a.id == b.id
                    &&& a.source_hash == b.source_hash
                    &&& a.byte_range == b.byte_range
                    &&& a.char_range == b.char_range
                    &&& a.html == b.html
                    &&& a.offset_map@ == b.offset_map@
                    &&& a.syntax_spans@ == b.syntax_spans@
                    &&& a.collected_refs@ == b.collected_refs@
                },
            refs@ == all_refs(ps.take(i as int)),
        decreases ps.len() - i,
    {
        let p = &cache.paragraphs[i];
        paragraphs.push(
            ParagraphRender {
                id: p.id.clone(),
                byte_range: std::ops::Range { start: p.byte_range.start, end: p.byte_range.end },
                char_range: std::ops::Range { start: p.char_range.start, end: p.char_range.end },
                html: p.html.clone(),
                offset_map: clone_maps(&p.offset_map),
                syntax_spans: clone_spans(&p.syntax_spans),
                source_hash: p.source_hash,
            },
        );
        cached.push(clone_cached(p));
        extend_refs(&mut refs, &p.collected_refs);
        proof {
            assert(ps.take(i + 1).drop_last() =~= ps.take(i as int));
        }
        i = i + 1;
    }
    proof {
        assert(ps.take(i as int) =~= ps);
        lemma_all_refs_same(cached@, ps);
    }
    IncrementalRenderResult {
        paragraphs,
        cache: RenderCache {
            paragraphs: cached,
            next_node_id: cache.next_node_id,
            next_syn_id: cache.next_syn_id,
            next_para_id: cache.next_para_id,
        },
        collected_refs: refs,
    }
}


/// Every position of every span moves by `delta` without overflowing an `isize`.
pub open spec fn spans_shift_fit(spans: Seq<SyntaxSpanInfo>, delta: isize) -> bool {
    forall|i: int|
        0 <= i < spans.len() ==> {
            let sp = #[trigger] spans[i];
            &&& crate::syntax::shift_fits(sp.char_range.start, delta)
            &&& crate::syntax::shift_fits(sp.char_range.end, delta)
            &&& sp.formatted_range matches Some(fr) ==> crate::syntax::shift_fits(fr.start, delta)
                && crate::syntax::shift_fits(fr.end, delta)
        }
}

/// `b` is span `a` with its positions moved by `delta`.
pub open spec fn span_shifted(a: SyntaxSpanInfo, b: SyntaxSpanInfo, delta: isize) -> bool {
    &&& b.syn_id == a.syn_id
    &&& b.syntax_type == a.syntax_type
    &&& b.char_range.start == crate::syntax::shifted(a.char_range.start, delta)
    &&& b.char_range.end == crate::syntax::shifted(a.char_range.end, delta)
    &&& match a.formatted_range {
        Some(fr) => b.formatted_range matches Some(nr) && nr.start == crate::syntax::shifted(
            fr.start,
            delta,
        ) && nr.end == crate::syntax::shifted(fr.end, delta),
        None => b.formatted_range is None,
    }
}

/// Move every syntax span by `delta`.
pub fn shift_syntax_spans(spans: &mut Vec<SyntaxSpanInfo>, delta: isize)
    requires
        spans_shift_fit(old(spans)@, delta),
    ensures
        final(spans)@.len() == old(spans)@.len(),
        forall|i: int|
            0 <= i < old(spans)@.len() ==> span_shifted(
                old(spans)@[i],
                #[trigger] final(spans)@[i],
                delta,
            ),
{
    let mut i: usize = 0;
    while i < spans.len()
        invariant
            i <= spans@.len(),
            spans@.len() == old(spans)@.len(),
            spans_shift_fit(old(spans)@, delta),
            forall|j: int| i <= j < spans@.len() ==> (#[trigger] spans@[j]) == old(spans)@[j],
            forall|j: int|
                0 <= j < i ==> span_shifted(old(spans)@[j], #[trigger] spans@[j], delta),
        decreases spans@.len() - i,
    {
        let mut sp = spans[i].clone();
        assert(sp == old(spans)@[i as int]);
        sp.adjust_positions(delta);
        spans.set(i, sp);
        i = i + 1;
    }
}


/// The hash a paragraph gets: that of its text, or of no text when its range
/// runs past the document.
pub open spec fn para_hash(s: Seq<char>, cr: std::ops::Range<usize>) -> u64 {
    if cr.end <= s.len() {
        crate::paragraph::source_hash(s.subrange(cr.start as int, cr.end as int))
    } else {
        crate::paragraph::source_hash(Seq::empty())
    }
}

/// The first entry of `s`, or none.
pub open spec fn first_vec<A>(s: Seq<Vec<A>>) -> Seq<A> {
    if s.len() > 0 {
        s[0]@
    } else {
        Seq::empty()
    }
}

/// The first of the HTML segments, or the empty text.
pub open spec fn first_html(s: Seq<String>) -> Seq<char> {
    if s.len() > 0 {
        s[0]@
    } else {
        Seq::empty()
    }
}

/// Mapping `m` of a paragraph rendered on its own, moved to where the
/// paragraph starts in the document.
pub open spec fn moved_map(m: OffsetMapping, char_start: usize, byte_start: usize) -> OffsetMapping {
    OffsetMapping {
        char_range: std::ops::Range {
            start: (m.char_range.start + char_start) as usize,
            end: (m.char_range.end + char_start) as usize,
        },
        byte_range: std::ops::Range {
            start: (m.byte_range.start + byte_start) as usize,
            end: (m.byte_range.end + byte_start) as usize,
        },
        ..m
    }
}

/// Mapping `m` of a paragraph after the edit, moved by the length changes.
pub open spec fn slid_map(m: OffsetMapping, char_delta: isize, byte_delta: isize) -> OffsetMapping {
    OffsetMapping {
        char_range: std::ops::Range {
            start: saturated(m.char_range.start, char_delta),
            end: saturated(m.char_range.end, char_delta),
        },
        byte_range: std::ops::Range {
            start: saturated(m.byte_range.start, byte_delta),
            end: saturated(m.byte_range.end, byte_delta),
        },
        ..m
    }
}

/// The re-rendered paragraph's mappings and spans can move to where it starts.
pub open spec fn rendered_fits(
    rendered: Result<crate::writer::WriterResult, std::fmt::Error>,
    br: std::ops::Range<usize>,
    cr: std::ops::Range<usize>,
) -> bool {
    rendered matches Ok(w) ==> {
        let maps = first_vec(w.offset_maps_by_paragraph@);
        &&& cr.start <= isize::MAX
        &&& forall|j: int|
            0 <= j < maps.len() ==> (#[trigger] maps[j]).char_range.end + cr.start <= usize::MAX
                && maps[j].char_range.start + cr.start <= usize::MAX && maps[j].byte_range.end
                + br.start <= usize::MAX && maps[j].byte_range.start + br.start <= usize::MAX
        &&& spans_shift_fit(first_vec(w.syntax_spans_by_paragraph@), cr.start as isize)
    }
}

/// `p` and `q` are the fast path's render and cache entry of cached paragraph
/// `c`, now at `(br, cr)`: the re-rendered one, when `is_cursor`, takes the
/// writer's first paragraph moved to where it starts (nothing, when the writer
/// failed); any other keeps its HTML, with its mappings and spans moved by the
/// length changes when it starts after the edit.
pub open spec fn fast_para_ok(
    text: Seq<char>,
    c: CachedParagraph,
    br: std::ops::Range<usize>,
    cr: std::ops::Range<usize>,
    is_cursor: bool,
    rendered: Result<crate::writer::WriterResult, std::fmt::Error>,
    edit_pos: usize,
    char_delta: isize,
    byte_delta: isize,
    p: ParagraphRender,
    q: CachedParagraph,
) -> bool {
    &&& p.id == c.id && q.id == c.id
    &&& p.byte_range == br && q.byte_range == br
    &&& p.char_range == cr && q.char_range == cr
    &&& p.source_hash == para_hash(text, cr) && q.source_hash == p.source_hash
    &&& p.html == q.html
    &&& p.offset_map@ == q.offset_map@
    &&& p.syntax_spans@ == q.syntax_spans@
    &&& if is_cursor {
        match rendered {
            Ok(w) => {
                let maps = first_vec(w.offset_maps_by_paragraph@);
                let spans = first_vec(w.syntax_spans_by_paragraph@);
                &&& q.html@ == first_html(w.html_segments@)
                &&& q.offset_map@.len() == maps.len()
                &&& forall|j: int|
                    0 <= j < maps.len() ==> #[trigger] q.offset_map@[j] == moved_map(
                        maps[j],
                        cr.start,
                        br.start,
                    )
                &&& q.syntax_spans@.len() == spans.len()
                &&& forall|j: int|
                    0 <= j < spans.len() ==> span_shifted(
                        spans[j],
                        #[trigger] q.syntax_spans@[j],
                        cr.start as isize,
                    )
                &&& q.collected_refs@ == first_vec(w.collected_refs_by_paragraph@)
            },
            Err(_) => {
                &&& q.html@.len() == 0
                &&& q.offset_map@.len() == 0
                &&& q.syntax_spans@.len() == 0
                &&& q.collected_refs@.len() == 0
            },
        }
    } else {
        &&& q.html == c.html
        &&& q.collected_refs@ == c.collected_refs@
        &&& if c.char_range.start > edit_pos {
            &&& q.offset_map@.len() == c.offset_map@.len()
            &&& forall|j: int|
                0 <= j < c.offset_map@.len() ==> #[trigger] q.offset_map@[j] == slid_map(
                    c.offset_map@[j],
                    char_delta,
                    byte_delta,
                )
            &&& q.syntax_spans@.len() == c.syntax_spans@.len()
            &&& forall|j: int|
                0 <= j < c.syntax_spans@.len() ==> span_shifted(
                    c.syntax_spans@[j],
                    #[trigger] q.syntax_spans@[j],
                    char_delta,
                )
        } else {
            &&& q.offset_map@ == c.offset_map@
            &&& q.syntax_spans@ == c.syntax_spans@
        }
    }
}

fn clone_refs(v: &Vec<ExtractedRef>) -> (r: Vec<ExtractedRef>)
    ensures
        r@ == v@,
{
    let mut out = Vec::new();
    extend_refs(&mut out, v);
    assert(out@ =~= v@);
    out
}

/// One paragraph of the fast path: its render and its cache entry.
#[verifier::rlimit(50)]
fn fast_para<T: crate::text::TextBuffer>(
    text: &T,
    c: &CachedParagraph,
    br: std::ops::Range<usize>,
    cr: std::ops::Range<usize>,
    is_cursor: bool,
    rendered: &Result<crate::writer::WriterResult, std::fmt::Error>,
    edit_pos: usize,
    char_delta: isize,
    byte_delta: isize,
) -> (r: (ParagraphRender, CachedParagraph))
    requires
        cr.start <= cr.end,
        is_cursor ==> rendered_fits(*rendered, br, cr),
        !is_cursor && c.char_range.start > edit_pos ==> spans_shift_fit(c.syntax_spans@, char_delta),
    ensures
        fast_para_ok(text.text(), *c, br, cr, is_cursor, *rendered, edit_pos, char_delta, byte_delta, r.0, r.1),
{
    let para_source = match text.slice(std::ops::Range { start: cr.start, end: cr.end }) {
        Some(s) => s,
        None => String::new(),
    };
    let source_hash = crate::paragraph::hash_source(para_source.as_str());
    let (html, offset_map, syntax_spans, refs) = if is_cursor {
        match rendered {
            Ok(w) => {
                let mut maps = clone_maps_of_first(&w.offset_maps_by_paragraph);
                offset_maps_from(&mut maps, cr.start, br.start);
                let mut spans = clone_spans_of_first(&w.syntax_spans_by_paragraph);
                shift_syntax_spans(&mut spans, cr.start as isize);
                let refs = if w.collected_refs_by_paragraph.len() > 0 {
                    clone_refs(&w.collected_refs_by_paragraph[0])
                } else {
                    Vec::new()
                };
                let html = if w.html_segments.len() > 0 {
                    w.html_segments[0].clone()
                } else {
                    String::new()
                };
                proof {
                    assert forall|j: int| 0 <= j < maps@.len() implies #[trigger] maps@[j] == moved_map(
                        first_vec(w.offset_maps_by_paragraph@)[j],
                        cr.start,
                        br.start,
                    ) by {}
                    reveal_strlit("");
                }
                (html, maps, spans, refs)
            },
            Err(_) => (String::new(), Vec::new(), Vec::new(), Vec::new()),
        }
    } else {
        let mut maps = clone_maps(&c.offset_map);
        let mut spans = clone_spans(&c.syntax_spans);
        if c.char_range.start > edit_pos {
            shift_offset_maps(&mut maps, char_delta, byte_delta);
            shift_syntax_spans(&mut spans, char_delta);
        }
        (c.html.clone(), maps, spans, clone_refs(&c.collected_refs))
    };
    let p = ParagraphRender {
        id: c.id.clone(),
        byte_range: std::ops::Range { start: br.start, end: br.end },
        char_range: std::ops::Range { start: cr.start, end: cr.end },
        html: html.clone(),
        offset_map: clone_maps(&offset_map),
        syntax_spans: clone_spans(&syntax_spans),
        source_hash,
    };
    let q = CachedParagraph {
        id: c.id.clone(),
        source_hash,
        byte_range: br,
        char_range: cr,
        html,
        offset_map,
        syntax_spans,
        collected_refs: refs,
    };
    (p, q)
}

fn clone_maps_of_first(v: &Vec<Vec<OffsetMapping>>) -> (r: Vec<OffsetMapping>)
    ensures
        r@ == first_vec(v@),
{
    if v.len() > 0 {
        clone_maps(&v[0])
    } else {
        Vec::new()
    }
}

fn clone_spans_of_first(v: &Vec<Vec<SyntaxSpanInfo>>) -> (r: Vec<SyntaxSpanInfo>)
    ensures
        r@ == first_vec(v@),
{
    if v.len() > 0 {
        clone_spans(&v[0])
    } else {
        Vec::new()
    }
}


/// The paragraph the edit falls in: the first cached paragraph whose char
/// range holds the edit position.
pub open spec fn spec_cursor_para(cache: RenderCache, edit: EditInfo) -> Option<int> {
    first_holding(cached_ranges(cache.paragraphs@), edit.edit_char_pos)
}

/// The change in char length since the cache, as the fast path moves by it.
pub open spec fn char_delta_of(cache: RenderCache, current_len: usize) -> isize {
    length_delta(current_len, spec_cached_end(cache.paragraphs@).0) as isize
}

/// The change in byte length since the cache, as the fast path moves by it.
pub open spec fn byte_delta_of(cache: RenderCache, current_byte_len: usize) -> isize {
    length_delta(current_byte_len, spec_cached_end(cache.paragraphs@).1) as isize
}

/// The fast path applies to the text's lengths, and the re-rendered paragraph
/// and the paragraphs after the edit can move without overflowing.
pub open spec fn fast_path_fits(
    cache: RenderCache,
    edit: EditInfo,
    current_len: usize,
    current_byte_len: usize,
    rendered: Result<crate::writer::WriterResult, std::fmt::Error>,
) -> bool {
    &&& deltas_fit(cache, current_len, current_byte_len)
    &&& spec_fast_path_ranges(cache, edit, current_len, current_byte_len) is Some
    &&& forall|i: int|
        0 <= i < cache.paragraphs@.len() ==> {
            let rg = spec_fast_path_ranges(cache, edit, current_len, current_byte_len).unwrap();
            &&& (spec_cursor_para(cache, edit) == Some(i) ==> rendered_fits(
                rendered,
                rg[i].0,
                rg[i].1,
            ))
            &&& (spec_cursor_para(cache, edit) != Some(i) && (#[trigger] cache.paragraphs@[i]).char_range.start
                > edit.edit_char_pos ==> spans_shift_fit(
                cache.paragraphs@[i].syntax_spans@,
                char_delta_of(cache, current_len),
            ))
        }
}

/// The fast path's render, once the ranges are known: every cached paragraph
/// kept, under its ID, at its shifted ranges and with the hash of its text;
/// the paragraph the edit falls in takes what the writer rendered from its
/// text, the others keep their HTML, moved when they start after the edit.
/// The refs are those of the new paragraphs, in order; the cache keeps the
/// paragraph counter and restarts the node and syntax counters.
#[verifier::rlimit(50)]
pub fn assemble_fast_path<T: crate::text::TextBuffer>(
    text: &T,
    cache: &RenderCache,
    edit: &EditInfo,
    rendered: Result<crate::writer::WriterResult, std::fmt::Error>,
) -> (r: IncrementalRenderResult)
    requires
        fast_path_fits(*cache, *edit, text.text().len() as usize, utf8_len(text.text()) as usize, rendered),
        text.text().len() <= usize::MAX,
        utf8_len(text.text()) <= usize::MAX,
    ensures
        ({
            let n = text.text().len() as usize;
            let b = utf8_len(text.text()) as usize;
            let rg = spec_fast_path_ranges(*cache, *edit, n, b).unwrap();
            &&& r.paragraphs@.len() == cache.paragraphs@.len()
            &&& r.cache.paragraphs@.len() == cache.paragraphs@.len()
            &&& forall|i: int|
                0 <= i < cache.paragraphs@.len() ==> fast_para_ok(
                    text.text(),
                    cache.paragraphs@[i],
                    rg[i].0,
                    rg[i].1,
                    spec_cursor_para(*cache, *edit) == Some(i),
                    rendered,
                    edit.edit_char_pos,
                    char_delta_of(*cache, n),
                    byte_delta_of(*cache, b),
                    #[trigger] r.paragraphs@[i],
                    r.cache.paragraphs@[i],
                )
            &&& r.collected_refs@ == all_refs(r.cache.paragraphs@)
            &&& r.cache.next_node_id == 0
            &&& r.cache.next_syn_id == 0
            &&& r.cache.next_para_id == cache.next_para_id
        }),
        render_agrees(r),
{
    let current_len = text.len_chars();
    let current_byte_len = text.len_bytes();
    let ranges = fast_path_ranges(cache, edit, current_len, current_byte_len).unwrap();
    let edit_pos = edit.edit_char_pos;
    let (cached_len, cached_byte_len) = cached_end(cache);
    let char_delta = compute_delta(current_len, cached_len);
    let byte_delta = compute_delta(current_byte_len, cached_byte_len);
    let cached = ranges_of(&cache.paragraphs);
    let cursor = paragraph_holding(&cached, edit_pos);
    let ghost rg = ranges@;
    let mut paragraphs: Vec<ParagraphRender> = Vec::new();
    let mut new_cached: Vec<CachedParagraph> = Vec::new();
    let mut refs: Vec<ExtractedRef> = Vec::new();
    let mut i: usize = 0;
    proof {
        assert(rg.len() == cache.paragraphs@.len());
    }
    while i < cache.paragraphs.len()
        invariant
            i <= cache.paragraphs@.len(),
            rg == ranges@,
            rg == spec_fast_path_ranges(*cache, *edit, current_len, current_byte_len).unwrap(),
            rg.len() == cache.paragraphs@.len(),
            current_len == text.text().len(),
            current_byte_len == utf8_len(text.text()),
            char_delta == char_delta_of(*cache, current_len),
            byte_delta == byte_delta_of(*cache, current_byte_len),
            edit_pos == edit.edit_char_pos,
            match cursor {
                Some(k) => spec_cursor_para(*cache, *edit) == Some(k as int),
                None => spec_cursor_para(*cache, *edit) is None,
            },
            fast_path_fits(*cache, *edit, current_len, current_byte_len, rendered),
            paragraphs@.len() == i,
            new_cached@.len() == i,
            forall|j: int|
                0 <= j < i ==> fast_para_ok(
                    text.text(),
                    cache.paragraphs@[j],
                    rg[j].0,
                    rg[j].1,
                    spec_cursor_para(*cache, *edit) == Some(j),
                    rendered,
                    edit_pos,
                    char_delta,
                    byte_delta,
                    #[trigger] paragraphs@[j],
                    new_cached@[j],
                ),
            refs@ == all_refs(new_cached@),
        decreases cache.paragraphs@.len() - i,
    {
        let is_cursor = match cursor {
            Some(k) => k == i,
            None => false,
        };
        let br = std::ops::Range { start: ranges[i].0.start, end: ranges[i].0.end };
        let cr = std::ops::Range { start: ranges[i].1.start, end: ranges[i].1.end };
        proof {
            assert(rg[i as int].1.start <= rg[i as int].1.end);
            assert(cache.paragraphs@[i as int] == cache.paragraphs@[i as int]);
        }
        let (p, q) = fast_para(
            text,
            &cache.paragraphs[i],
            br,
            cr,
            is_cursor,
            &rendered,
            edit_pos,
            char_delta,
            byte_delta,
        );
        let ghost nc = new_cached@;
        extend_refs(&mut refs, &q.collected_refs);
        paragraphs.push(p);
        new_cached.push(q);
        proof {
            assert(new_cached@.drop_last() =~= nc);
        }
        i = i + 1;
    }
    IncrementalRenderResult {
        paragraphs,
        cache: RenderCache {
            paragraphs: new_cached,
            next_node_id: 0,
            next_syn_id: 0,
            next_para_id: cache.next_para_id,
        },
        collected_refs: refs,
    }
}


/// The render's paragraphs and cache agree: the cache holds each paragraph
/// as rendered, in order, and the refs are those of the cached paragraphs,
/// one after another.
pub open spec fn render_agrees(r: IncrementalRenderResult) -> bool {
    &&& r.cache.paragraphs@.len() == r.paragraphs@.len()
    &&& forall|i: int|
        0 <= i < r.paragraphs@.len() ==> render_of(#[trigger] r.cache.paragraphs@[i], r.paragraphs@[i])
    &&& r.collected_refs@ == all_refs(r.cache.paragraphs@)
}

/// Entry `j` of `s`, or nothing.
pub open spec fn nth_vec<A>(s: Seq<Vec<A>>, j: int) -> Seq<A> {
    if 0 <= j < s.len() {
        s[j]@
    } else {
        Seq::empty()
    }
}

/// Segment `j` of `s`, or the empty text.
pub open spec fn nth_html(s: Seq<String>, j: int) -> Seq<char> {
    if 0 <= j < s.len() {
        s[j]@
    } else {
        Seq::empty()
    }
}

/// The ranges of paragraph `idx` of a partial re-render: a reused one's
/// cached ranges, a parsed one's moved by where parsing started.
pub open spec fn slow_ranges(
    cached: Seq<CachedParagraph>,
    reused: int,
    pb: usize,
    pc: usize,
    w: crate::writer::WriterResult,
    idx: int,
) -> (std::ops::Range<usize>, std::ops::Range<usize>) {
    if idx < reused {
        (cached[idx].byte_range, cached[idx].char_range)
    } else {
        let pr = w.paragraph_ranges@[idx - reused];
        (
            std::ops::Range { start: (pr.0.start + pb) as usize, end: (pr.0.end + pb) as usize },
            std::ops::Range { start: (pr.1.start + pc) as usize, end: (pr.1.end + pc) as usize },
        )
    }
}

/// `p` and `q` are the render and cache entry of paragraph `idx` of a partial
/// re-render: the reused paragraphs keep their cached render, the parsed ones
/// take the writer's paragraph moved to where parsing started; each gets its
/// ID as `spec_slow_path_id` gives it and the hash of its text.
pub open spec fn slow_para_ok(
    text: Seq<char>,
    cached: Seq<CachedParagraph>,
    reused: int,
    pb: usize,
    pc: usize,
    ov: Option<(int, Seq<char>)>,
    parsed_start: int,
    w: crate::writer::WriterResult,
    idx: int,
    p: ParagraphRender,
    q: CachedParagraph,
) -> bool {
    let (br, cr) = slow_ranges(cached, reused, pb, pc, w, idx);
    let j = idx - reused;
    &&& render_of(q, p)
    &&& p.id@ == spec_slow_path_id(
        idx,
        cached.take(reused).map_values(|c: CachedParagraph| c.id@),
        ov,
        parsed_start,
    )
    &&& p.byte_range == br && p.char_range == cr
    &&& p.source_hash == para_hash(text, cr)
    &&& if idx < reused {
        &&& p.html == cached[idx].html
        &&& p.offset_map@ == cached[idx].offset_map@
        &&& p.syntax_spans@ == cached[idx].syntax_spans@
        &&& q.collected_refs@ == cached[idx].collected_refs@
    } else {
        let maps = nth_vec(w.offset_maps_by_paragraph@, j);
        let spans = nth_vec(w.syntax_spans_by_paragraph@, j);
        &&& p.html@ == nth_html(w.html_segments@, j)
        &&& p.offset_map@.len() == maps.len()
        &&& forall|k: int|
            0 <= k < maps.len() ==> #[trigger] p.offset_map@[k] == moved_map(maps[k], pc, pb)
        &&& p.syntax_spans@.len() == spans.len()
        &&& forall|k: int|
            0 <= k < spans.len() ==> span_shifted(spans[k], #[trigger] p.syntax_spans@[k], pc as isize)
        &&& q.collected_refs@ == nth_vec(w.collected_refs_by_paragraph@, j)
    }
}

/// A parsed paragraph's pieces can move to where parsing started.
pub open spec fn parsed_fits(w: crate::writer::WriterResult, pb: usize, pc: usize, j: int) -> bool {
    let pr = w.paragraph_ranges@[j];
    let maps = nth_vec(w.offset_maps_by_paragraph@, j);
    &&& pr.0.end + pb <= usize::MAX && pr.0.start + pb <= usize::MAX
    &&& pr.1.end + pc <= usize::MAX && pr.1.start + pc <= usize::MAX
    &&& pr.1.start <= pr.1.end
    &&& forall|k: int|
        0 <= k < maps.len() ==> (#[trigger] maps[k]).char_range.end + pc <= usize::MAX
            && maps[k].char_range.start + pc <= usize::MAX && maps[k].byte_range.end + pb <= usize::MAX
            && maps[k].byte_range.start + pb <= usize::MAX
    &&& spans_shift_fit(nth_vec(w.syntax_spans_by_paragraph@, j), pc as isize)
}

/// The partial re-render can be assembled without overflowing: the reused
/// paragraphs' ranges run forward, the parsed ones fit where parsing started,
/// and the paragraph counter can move past them.
pub open spec fn slow_path_fits(
    cache: Option<RenderCache>,
    edit: Option<EditInfo>,
    rendered: Result<crate::writer::WriterResult, std::fmt::Error>,
) -> bool {
    let (reused, pb, pc) = spec_reuse_plan(cache, edit);
    rendered matches Ok(w) ==> {
        &&& pc <= isize::MAX
        &&& (cache matches Some(c) ==> forall|i: int|
            0 <= i < reused ==> (#[trigger] c.paragraphs@[i]).char_range.start
                <= c.paragraphs@[i].char_range.end)
        &&& forall|j: int| 0 <= j < w.paragraph_ranges@.len() ==> #[trigger] parsed_fits(w, pb, pc, j)
        &&& reused + w.paragraph_ranges@.len() <= usize::MAX
        &&& (if reused == 0 {
            0
        } else {
            match cache {
                Some(c) => c.next_para_id as int,
                None => 0,
            }
        }) + w.paragraph_ranges@.len() <= usize::MAX
    }
}

fn nth_maps(v: &Vec<Vec<OffsetMapping>>, j: usize) -> (r: Vec<OffsetMapping>)
    ensures
        r@ == nth_vec(v@, j as int),
{
    if j < v.len() {
        clone_maps(&v[j])
    } else {
        Vec::new()
    }
}

fn nth_spans(v: &Vec<Vec<SyntaxSpanInfo>>, j: usize) -> (r: Vec<SyntaxSpanInfo>)
    ensures
        r@ == nth_vec(v@, j as int),
{
    if j < v.len() {
        clone_spans(&v[j])
    } else {
        Vec::new()
    }
}

fn nth_refs(v: &Vec<Vec<ExtractedRef>>, j: usize) -> (r: Vec<ExtractedRef>)
    ensures
        r@ == nth_vec(v@, j as int),
{
    if j < v.len() {
        clone_refs(&v[j])
    } else {
        Vec::new()
    }
}

/// One parsed paragraph of a partial re-render.
#[verifier::rlimit(50)]
fn slow_parsed_para<T: crate::text::TextBuffer>(
    text: &T,
    w: &crate::writer::WriterResult,
    j: usize,
    id: String,
    pb: usize,
    pc: usize,
) -> (r: (ParagraphRender, CachedParagraph))
    requires
        j < w.paragraph_ranges@.len(),
        parsed_fits(*w, pb, pc, j as int),
        pc <= isize::MAX,
    ensures
        ({
            let pr = w.paragraph_ranges@[j as int];
            let br = std::ops::Range { start: (pr.0.start + pb) as usize, end: (pr.0.end + pb) as usize };
            let cr = std::ops::Range { start: (pr.1.start + pc) as usize, end: (pr.1.end + pc) as usize };
            let maps = nth_vec(w.offset_maps_by_paragraph@, j as int);
            let spans = nth_vec(w.syntax_spans_by_paragraph@, j as int);
            &&& render_of(r.1, r.0)
            &&& r.0.id == id
            &&& r.0.byte_range == br && r.0.char_range == cr
            &&& r.0.source_hash == para_hash(text.text(), cr)
            &&& r.0.html@ == nth_html(w.html_segments@, j as int)
            &&& r.0.offset_map@.len() == maps.len()
            &&& forall|k: int|
                0 <= k < maps.len() ==> #[trigger] r.0.offset_map@[k] == moved_map(maps[k], pc, pb)
            &&& r.0.syntax_spans@.len() == spans.len()
            &&& forall|k: int|
                0 <= k < spans.len() ==> span_shifted(spans[k], #[trigger] r.0.syntax_spans@[k], pc as isize)
            &&& r.1.collected_refs@ == nth_vec(w.collected_refs_by_paragraph@, j as int)
        }),
{
    let pr = &w.paragraph_ranges[j];
    let br = std::ops::Range { start: pr.0.start + pb, end: pr.0.end + pb };
    let cr = std::ops::Range { start: pr.1.start + pc, end: pr.1.end + pc };
    let para_source = match text.slice(std::ops::Range { start: cr.start, end: cr.end }) {
        Some(s) => s,
        None => String::new(),
    };
    let source_hash = crate::paragraph::hash_source(para_source.as_str());
    let html = if j < w.html_segments.len() {
        w.html_segments[j].clone()
    } else {
        String::new()
    };
    proof {
        reveal_strlit("");
    }
    let mut maps = nth_maps(&w.offset_maps_by_paragraph, j);
    offset_maps_from(&mut maps, pc, pb);
    let mut spans = nth_spans(&w.syntax_spans_by_paragraph, j);
    shift_syntax_spans(&mut spans, pc as isize);
    let refs = nth_refs(&w.collected_refs_by_paragraph, j);
    let p = ParagraphRender {
        id: id.clone(),
        byte_range: std::ops::Range { start: br.start, end: br.end },
        char_range: std::ops::Range { start: cr.start, end: cr.end },
        html: html.clone(),
        offset_map: clone_maps(&maps),
        syntax_spans: clone_spans(&spans),
        source_hash,
    };
    let q = CachedParagraph {
        id,
        source_hash,
        byte_range: br,
        char_range: cr,
        html,
        offset_map: maps,
        syntax_spans: spans,
        collected_refs: refs,
    };
    (p, q)
}

/// One reused paragraph of a partial re-render.
fn slow_reused_para<T: crate::text::TextBuffer>(text: &T, c: &CachedParagraph) -> (r: (ParagraphRender, CachedParagraph))
    requires
        c.char_range.start <= c.char_range.end,
    ensures
        render_of(r.1, r.0),
        r.0.id == c.id,
        r.0.byte_range == c.byte_range && r.0.char_range == c.char_range,
        r.0.source_hash == para_hash(text.text(), c.char_range),
        r.0.html == c.html,
        r.0.offset_map@ == c.offset_map@,
        r.0.syntax_spans@ == c.syntax_spans@,
        r.1.collected_refs@ == c.collected_refs@,
{
    let para_source = match text.slice(std::ops::Range { start: c.char_range.start, end: c.char_range.end }) {
        Some(s) => s,
        None => String::new(),
    };
    let source_hash = crate::paragraph::hash_source(para_source.as_str());
    proof {
        reveal_strlit("");
    }
    let p = ParagraphRender {
        id: c.id.clone(),
        byte_range: std::ops::Range { start: c.byte_range.start, end: c.byte_range.end },
        char_range: std::ops::Range { start: c.char_range.start, end: c.char_range.end },
        html: c.html.clone(),
        offset_map: clone_maps(&c.offset_map),
        syntax_spans: clone_spans(&c.syntax_spans),
        source_hash,
    };
    let q = CachedParagraph {
        id: c.id.clone(),
        source_hash,
        byte_range: std::ops::Range { start: c.byte_range.start, end: c.byte_range.end },
        char_range: std::ops::Range { start: c.char_range.start, end: c.char_range.end },
        html: c.html.clone(),
        offset_map: clone_maps(&c.offset_map),
        syntax_spans: clone_spans(&c.syntax_spans),
        collected_refs: clone_refs(&c.collected_refs),
    };
    (p, q)
}

/// The slow path's render, once the writer has rendered the text from where
/// parsing resumed: the reused cached paragraphs first, then the writer's
/// paragraphs moved to where parsing started, each under its ID as
/// `spec_slow_path_id` gives it and with the hash of its text; the refs are
/// those of the new paragraphs, in order; the cache's paragraph counter moves
/// past the parsed paragraphs. When the writer failed, nothing is rendered
/// and the cache is emptied.
#[verifier::rlimit(80)]
pub fn assemble_slow_path<T: crate::text::TextBuffer>(
    text: &T,
    cache: Option<&RenderCache>,
    edit: Option<&EditInfo>,
    cursor_offset: usize,
    rendered: Result<crate::writer::WriterResult, std::fmt::Error>,
) -> (r: IncrementalRenderResult)
    requires
        slow_path_fits(
            match cache {
                Some(c) => Some(*c),
                None => None,
            },
            match edit {
                Some(e) => Some(*e),
                None => None,
            },
            rendered,
        ),
    ensures
        render_agrees(r),
        ({
            let oc = match cache {
                Some(c) => Some(*c),
                None => None,
            };
            let oe = match edit {
                Some(e) => Some(*e),
                None => None,
            };
            let (reused, pb, pc) = spec_reuse_plan(oc, oe);
            let parsed_start = if reused == 0 {
                0
            } else {
                match cache {
                    Some(c) => c.next_para_id as int,
                    None => 0,
                }
            };
            let cached = match cache {
                Some(c) => c.paragraphs@,
                None => Seq::empty(),
            };
            let ov = match cache {
                Some(c) => spec_cursor_override(c.paragraphs@, cursor_offset, reused),
                None => None,
            };
            match rendered {
                Ok(w) => {
                    &&& r.paragraphs@.len() == reused + w.paragraph_ranges@.len()
                    &&& forall|i: int|
                        0 <= i < r.paragraphs@.len() ==> slow_para_ok(
                            text.text(),
                            cached,
                            reused as int,
                            pb,
                            pc,
                            ov,
                            parsed_start,
                            w,
                            i,
                            #[trigger] r.paragraphs@[i],
                            r.cache.paragraphs@[i],
                        )
                    &&& r.cache.next_node_id == 0
                    &&& r.cache.next_syn_id == 0
                    &&& r.cache.next_para_id == parsed_start + w.paragraph_ranges@.len()
                },
                Err(_) => {
                    &&& r.paragraphs@.len() == 0
                    &&& r.cache.next_node_id == 0
                    &&& r.cache.next_syn_id == 0
                    &&& r.cache.next_para_id == 0
                },
            }
        }),
{
    let w = match rendered {
        Ok(w) => w,
        Err(_) => {
            let r = IncrementalRenderResult {
                paragraphs: Vec::new(),
                cache: RenderCache::default(),
                collected_refs: Vec::new(),
            };
            proof {
                assert(r.collected_refs@ =~= all_refs(r.cache.paragraphs@));
            }
            return r;
        },
    };
    let (reused_count, pb, pc) = reuse_plan(cache, edit);
    let parsed_start = parsed_para_id_start(reused_count, cache);
    let ov = cursor_para_override(cache, cursor_offset, reused_count);
    let ghost cached: Seq<CachedParagraph> = match cache {
        Some(c) => c.paragraphs@,
        None => Seq::empty(),
    };
    let mut reused: Vec<CachedParagraph> = Vec::new();
    let mut i: usize = 0;
    proof {
        assert(reused_count <= cached.len()) by {
            reveal_reuse_plan_bound(
                match cache {
                    Some(c) => Some(*c),
                    None => None,
                },
                match edit {
                    Some(e) => Some(*e),
                    None => None,
                },
            );
        }
    }
    while i < reused_count
        invariant
            i <= reused_count <= cached.len(),
            cache matches Some(c) ==> cached == c.paragraphs@,
            cache is None ==> reused_count == 0,
            reused@.len() == i,
            forall|k: int| 0 <= k < i ==> (#[trigger] reused@[k]).id == cached[k].id,
        decreases reused_count - i,
    {
        let c = cache.unwrap();
        reused.push(clone_cached(&c.paragraphs[i]));
        i = i + 1;
    }
    proof {
        assert(reused@.map_values(|p: CachedParagraph| p.id@) =~= cached.take(reused_count as int).map_values(
            |c: CachedParagraph| c.id@,
        ));
    }
    proof {
        assert(rendered == Ok::<crate::writer::WriterResult, std::fmt::Error>(w));
        assert(forall|j: int| 0 <= j < w.paragraph_ranges@.len() ==> #[trigger] parsed_fits(w, pb, pc, j));
    }
    let total = reused_count + w.paragraph_ranges.len();
    let mut paragraphs: Vec<ParagraphRender> = Vec::new();
    let mut new_cached: Vec<CachedParagraph> = Vec::new();
    let mut refs: Vec<ExtractedRef> = Vec::new();
    let mut idx: usize = 0;
    while idx < total
        invariant
            idx <= total == reused_count + w.paragraph_ranges@.len(),
            forall|j: int| 0 <= j < w.paragraph_ranges@.len() ==> #[trigger] parsed_fits(w, pb, pc, j),
            pc <= isize::MAX,
            reused_count <= cached.len(),
            cache matches Some(c) ==> cached == c.paragraphs@,
            cache is None ==> reused_count == 0,
            reused@.map_values(|p: CachedParagraph| p.id@) == cached.take(reused_count as int).map_values(
                |c: CachedParagraph| c.id@,
            ),
            slow_path_fits(
                match cache {
                    Some(c) => Some(*c),
                    None => None,
                },
                match edit {
                    Some(e) => Some(*e),
                    None => None,
                },
                Ok(w),
            ),
            (reused_count, pb, pc) == spec_reuse_plan(
                match cache {
                    Some(c) => Some(*c),
                    None => None,
                },
                match edit {
                    Some(e) => Some(*e),
                    None => None,
                },
            ),
            parsed_start == (if reused_count == 0 {
                0
            } else {
                match cache {
                    Some(c) => c.next_para_id,
                    None => 0,
                }
            }),
            match cache {
                None => ov is None,
                Some(c) => match spec_cursor_override(c.paragraphs@, cursor_offset, reused_count) {
                    Some((oi, oid)) => ov matches Some(x) && x.0 == oi && x.1@ == oid,
                    None => ov is None,
                },
            },
            paragraphs@.len() == idx,
            new_cached@.len() == idx,
            forall|k: int|
                0 <= k < idx ==> slow_para_ok(
                    text.text(),
                    cached,
                    reused_count as int,
                    pb,
                    pc,
                    match cache {
                        Some(c) => spec_cursor_override(c.paragraphs@, cursor_offset, reused_count),
                        None => None,
                    },
                    parsed_start as int,
                    w,
                    k,
                    #[trigger] paragraphs@[k],
                    new_cached@[k],
                ),
            refs@ == all_refs(new_cached@),
        decreases total - idx,
    {
        let id = slow_path_para_id(idx, &reused, &ov, parsed_start);
        let (p, q) = if idx < reused_count {
            let c = cache.unwrap();
            slow_reused_para(text, &c.paragraphs[idx])
        } else {
            proof {
                assert(parsed_fits(w, pb, pc, idx - reused_count));
            }
            slow_parsed_para(text, &w, idx - reused_count, id, pb, pc)
        };
        proof {
            if idx < reused_count {
                assert(reused@.map_values(|p: CachedParagraph| p.id@)[idx as int] == cached[idx as int].id@);
            }
        }
        let ghost nc = new_cached@;
        extend_refs(&mut refs, &q.collected_refs);
        paragraphs.push(p);
        new_cached.push(q);
        proof {
            assert(new_cached@.drop_last() =~= nc);
        }
        idx = idx + 1;
    }
    let r = IncrementalRenderResult {
        paragraphs,
        cache: RenderCache {
            paragraphs: new_cached,
            next_node_id: 0,
            next_syn_id: 0,
            next_para_id: parsed_start + w.paragraph_ranges.len(),
        },
        collected_refs: refs,
    };
    r
}

proof fn lemma_first_ending_bound(paragraphs: Seq<CachedParagraph>, pos: usize)
    ensures
        first_ending_at_or_after(paragraphs, pos) matches Some(i) ==> 0 <= i < paragraphs.len(),
    decreases paragraphs.len(),
{
    if paragraphs.len() > 0 {
        lemma_first_ending_bound(paragraphs.drop_last(), pos);
    }
}

/// A partial re-render reuses no more paragraphs than the cache holds.
proof fn reveal_reuse_plan_bound(cache: Option<RenderCache>, edit: Option<EditInfo>)
    ensures
        spec_reuse_plan(cache, edit).0 <= match cache {
            Some(c) => c.paragraphs@.len(),
            None => 0,
        },
{
    if let (Some(c), Some(e)) = (cache, edit) {
        lemma_first_ending_bound(c.paragraphs@, e.edit_char_pos);
    }
}


/// A cached paragraph after an edit at character `p` that changes the
/// length by `d` (bytes by `bd`): a paragraph holding `p`, its end included,
/// keeps its start, grows by exactly `d` and still holds `p` once the text
/// grew; one ending before `p` keeps its ranges; one starting after `p` keeps
/// its length and moves by `d`. So typing at a paragraph's end lands inside it.
pub proof fn law_shift_keeps_edit_inside(
    br: std::ops::Range<usize>,
    cr: std::ops::Range<usize>,
    p: usize,
    d: isize,
    bd: isize,
)
    requires
        cr.start <= cr.end,
        br.start <= br.end,
        0 <= cr.start + d,
        cr.end + d <= usize::MAX,
        0 <= br.start + bd,
        br.end + bd <= usize::MAX,
        0 <= cr.end - cr.start + d,
        0 <= br.end - br.start + bd,
    ensures
        ({
            let (nb, nc) = shifted_ranges(br, cr, p, d, bd);
            &&& cr.start <= p <= cr.end ==> {
                &&& nc.start == cr.start && nb.start == br.start
                &&& nc.end - nc.start == cr.end - cr.start + d
                &&& nb.end - nb.start == br.end - br.start + bd
                &&& (d >= 0 ==> nc.start <= p <= nc.end)
            }
            &&& p > cr.end ==> nb == br && nc == cr
            &&& p < cr.start ==> {
                &&& nc.start == cr.start + d && nb.start == br.start + bd
                &&& nc.end - nc.start == cr.end - cr.start
                &&& nb.end - nb.start == br.end - br.start
            }
        }),
{
}

} // verus!
