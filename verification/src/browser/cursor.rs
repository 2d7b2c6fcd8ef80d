//! Browser cursor handling: the editor element it works on, and which
//! paragraph's offset map places a cursor.
use crate::offset_map::OffsetMapping;
use crate::paragraph::ParagraphRender;
use vstd::prelude::*;

verus! {

/// Browser-based cursor handling for the editor element with a given ID.
pub struct BrowserCursor {
    editor_id: String,
}

impl BrowserCursor {
    /// The ID of the editor element.
    pub closed spec fn spec_editor_id(&self) -> Seq<char> {
        self.editor_id@
    }

    /// Create a new browser cursor handler for the given editor element.
    pub fn new(editor_id: String) -> (r: Self)
        ensures
            r.spec_editor_id() == editor_id@,
    {
        BrowserCursor { editor_id }
    }

    /// Get the editor element ID.
    pub fn editor_id(&self) -> (r: &str)
        ensures
            r@ == self.spec_editor_id(),
    {
        self.editor_id.as_str()
    }
}

/// Index of the first paragraph whose char range holds `c`, ends included.
pub open spec fn first_para_holding(ps: Seq<ParagraphRender>, c: usize) -> Option<int>
    decreases ps.len(),
{
    if ps.len() == 0 {
        None
    } else {
        match first_para_holding(ps.drop_last(), c) {
            Some(i) => Some(i),
            None => if ps.last().char_range.start <= c && c <= ps.last().char_range.end {
                Some(ps.len() - 1)
            } else {
                None
            },
        }
    }
}

/// The paragraph whose offset map places `c`: the first holding it, else
/// the last paragraph; none when there are no paragraphs.
pub open spec fn map_paragraph_for_char(ps: Seq<ParagraphRender>, c: usize) -> Option<int> {
    match first_para_holding(ps, c) {
        Some(i) => Some(i),
        None => if ps.len() > 0 {
            Some(ps.len() - 1)
        } else {
            None
        },
    }
}

proof fn lemma_first_para_prefix(ps: Seq<ParagraphRender>, k: int, c: usize)
    requires
        0 <= k <= ps.len(),
        first_para_holding(ps.take(k), c) is Some,
    ensures
        first_para_holding(ps, c) == first_para_holding(ps.take(k), c),
    decreases ps.len(),
{
    if k < ps.len() {
        assert(ps.drop_last().take(k) =~= ps.take(k));
        lemma_first_para_prefix(ps.drop_last(), k, c);
    } else {
        assert(ps.take(k) =~= ps);
    }
}

/// Find the offset map for a character offset from paragraphs.
///
/// Returns the offset map of the paragraph containing the given offset,
/// or an empty slice if no paragraph contains it.
pub fn find_offset_map_for_char(paragraphs: &[ParagraphRender], char_offset: usize) -> (r:
    &[OffsetMapping])
    ensures
        match map_paragraph_for_char(paragraphs@, char_offset) {
            Some(i) => r@ == paragraphs@[i].offset_map@,
            None => r@.len() == 0,
        },
{
    let n = paragraphs.len();
    let mut i: usize = 0;
    while i < n
        invariant
            i <= n == paragraphs@.len(),
            first_para_holding(paragraphs@.take(i as int), char_offset) is None,
        decreases n - i,
    {
        let para = &paragraphs[i];
        proof {
            assert(paragraphs@.take(i + 1).drop_last() =~= paragraphs@.take(i as int));
        }
        if para.char_range.start <= char_offset && char_offset <= para.char_range.end {
            proof {
                lemma_first_para_prefix(paragraphs@, i + 1, char_offset);
            }
            return para.offset_map.as_slice();
        }
        i = i + 1;
    }
    proof {
        assert(paragraphs@.take(n as int) =~= paragraphs@);
    }
    // Fallback: if offset is past the end, use the last paragraph.
    if n > 0 {
        paragraphs[n - 1].offset_map.as_slice()
    } else {
        let empty: &[OffsetMapping] = &[];
        empty
    }
}


/// Sum of the first `n` lengths.
pub open spec fn lens_before(lens: Seq<usize>, n: int) -> nat
    decreases n,
{
    if n <= 0 || n > lens.len() {
        0
    } else {
        lens_before(lens, n - 1) + lens[n - 1] as nat
    }
}

/// Index of the first node whose end, counted from the start of the first
/// node, reaches `target`.
pub open spec fn first_reaching(lens: Seq<usize>, target: nat) -> Option<int>
    decreases lens.len(),
{
    if lens.len() == 0 {
        None
    } else {
        match first_reaching(lens.drop_last(), target) {
            Some(i) => Some(i),
            None => if lens_before(lens, lens.len() as int) >= target {
                Some(lens.len() - 1)
            } else {
                None
            },
        }
    }
}

/// Among the visible text nodes of a container, in document order and with
/// these UTF-16 lengths, the one holding UTF-16 offset `target` and the
/// offset within it: the first node whose end reaches the target; past the
/// end of all text, the end of the last node; none without text nodes.
pub open spec fn text_node_at(lens: Seq<usize>, target: nat) -> Option<(int, nat)> {
    match first_reaching(lens, target) {
        Some(i) => Some((i, (target - lens_before(lens, i)) as nat)),
        None => if lens.len() > 0 {
            Some((lens.len() - 1, lens[lens.len() - 1] as nat))
        } else {
            None
        },
    }
}

proof fn lemma_lens_before_prefix(lens: Seq<usize>, k: int, j: int)
    requires
        0 <= j <= k <= lens.len(),
    ensures
        lens_before(lens.take(k), j) == lens_before(lens, j),
    decreases j,
{
    if j > 0 {
        lemma_lens_before_prefix(lens, k, j - 1);
    }
}

/// Sums of lengths grow with the number of lengths taken.
pub proof fn lemma_lens_before_mono(lens: Seq<usize>, i: int, j: int)
    requires
        0 <= i <= j <= lens.len(),
    ensures
        lens_before(lens, i) <= lens_before(lens, j),
    decreases j,
{
    if i < j {
        lemma_lens_before_mono(lens, i, j - 1);
    }
}

proof fn lemma_first_reaching_prefix(lens: Seq<usize>, k: int, target: nat)
    requires
        0 <= k <= lens.len(),
        first_reaching(lens.take(k), target) is Some,
    ensures
        first_reaching(lens, target) == first_reaching(lens.take(k), target),
    decreases lens.len(),
{
    if k < lens.len() {
        assert(lens.drop_last().take(k) =~= lens.take(k));
        lemma_first_reaching_prefix(lens.drop_last(), k, target);
    } else {
        assert(lens.take(k) =~= lens);
    }
}

/// Find the text node holding a UTF-16 offset within a container.
///
/// `text_lens` are the UTF-16 lengths of the container's visible text
/// nodes in document order (text inside `contenteditable="false"` elements
/// left out). Gives the node's index and the offset within it, as
/// `text_node_at` says; `None` where there is no text node.
pub fn find_text_node_at_offset(text_lens: &[usize], target_utf16_offset: usize) -> (r: Option<
    (usize, usize),
>)
    requires
        lens_before(text_lens@, text_lens@.len() as int) <= usize::MAX,
    ensures
        match text_node_at(text_lens@, target_utf16_offset as nat) {
            Some((i, off)) => r == Some((i as usize, off as usize)),
            None => r is None,
        },
{
    let n = text_lens.len();
    let mut accumulated: usize = 0;
    let mut i: usize = 0;
    while i < n
        invariant
            i <= n == text_lens@.len(),
            accumulated == lens_before(text_lens@, i as int),
            accumulated <= target_utf16_offset,
            lens_before(text_lens@, n as int) <= usize::MAX,
            first_reaching(text_lens@.take(i as int), target_utf16_offset as nat) is None,
        decreases n - i,
    {
        let len = text_lens[i];
        proof {
            lemma_lens_before_mono(text_lens@, i + 1, n as int);
            lemma_lens_before_prefix(text_lens@, i + 1, i + 1);
            lemma_lens_before_prefix(text_lens@, i + 1, i as int);
            assert(text_lens@.take(i + 1).drop_last() =~= text_lens@.take(i as int));
        }
        if accumulated + len >= target_utf16_offset {
            proof {
                lemma_first_reaching_prefix(text_lens@, i + 1, target_utf16_offset as nat);
            }
            return Some((i, target_utf16_offset - accumulated));
        }
        accumulated = accumulated + len;
        i = i + 1;
    }
    proof {
        assert(text_lens@.take(n as int) =~= text_lens@);
    }
    if n > 0 {
        Some((n - 1, text_lens[n - 1]))
    } else {
        None
    }
}

} // verus!
