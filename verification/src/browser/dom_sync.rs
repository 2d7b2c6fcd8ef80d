//! Syncing the cursor from the browser's selection back to the editor, and
//! the decisions of updating paragraph elements in place.
use crate::document::{with_cursor_offset, DocState, EditorDocument};
use crate::browser::cursor::lens_before;
use crate::offset_map::OffsetMapping;
use crate::paragraph::ParagraphRender;
use crate::strings::{str_eq, str_strip_prefix, string_push};
use crate::text_helpers::{parse_usize, usize_from_str};
use crate::types::Selection;
use vstd::prelude::*;

verus! {

/// Result of reading the cursor or selection from the DOM.
#[derive(Debug, Clone, Copy, PartialEq, Eq, Structural)]
pub enum CursorSyncResult {
    /// Cursor is collapsed at this offset.
    Cursor(usize),
    /// Selection from anchor to head.
    Selection { anchor: usize, head: usize },
    /// Could not determine cursor position.
    Unknown,
}

/// Browser-based cursor sync for the editor element with a given ID.
pub struct BrowserCursorSync {
    editor_id: String,
}

impl BrowserCursorSync {
    /// The ID of the editor element.
    pub closed spec fn spec_editor_id(&self) -> Seq<char> {
        self.editor_id@
    }

    /// Create a new browser cursor sync for the given editor element.
    pub fn new(editor_id: String) -> (r: Self)
        ensures
            r.spec_editor_id() == editor_id@,
    {
        BrowserCursorSync { editor_id }
    }

    /// Get the editor element ID.
    pub fn editor_id(&self) -> (r: &str)
        ensures
            r@ == self.spec_editor_id(),
    {
        self.editor_id.as_str()
    }
}


/// What a browser selection comes to once both its ends are mapped to text
/// offsets: a cursor where they meet, a selection where they differ, and
/// unknown where either end could not be mapped.
pub fn sync_result_from_offsets(anchor: Option<usize>, head: Option<usize>) -> (r:
    CursorSyncResult)
    ensures
        r == match (anchor, head) {
            (Some(a), Some(h)) => if a == h {
                CursorSyncResult::Cursor(h)
            } else {
                CursorSyncResult::Selection { anchor: a, head: h }
            },
            _ => CursorSyncResult::Unknown,
        },
{
    match (anchor, head) {
        (Some(anchor), Some(head)) => {
            if anchor == head {
                CursorSyncResult::Cursor(head)
            } else {
                CursorSyncResult::Selection { anchor, head }
            }
        },
        _ => CursorSyncResult::Unknown,
    }
}

/// Whether an element ID names a rendered node: old-style `n0`, or
/// paragraph-prefixed `p-2-n0`.
pub open spec fn names_node(id: Seq<char>) -> bool {
    ||| id.len() > 0 && id[0] == 'n'
    ||| exists|i: int| 0 <= i < id.len() - 1 && #[trigger] id[i] == '-' && id[i + 1] == 'n'
}

/// Match both old-style "n0" and paragraph-prefixed "p-2-n0" node IDs.
pub fn is_node_id(id: &str) -> (r: bool)
    ensures
        r == names_node(id@),
{
    let n = id.unicode_len();
    if n > 0 && id.get_char(0) == 'n' {
        return true;
    }
    if n < 2 {
        return false;
    }
    let mut i: usize = 0;
    while i < n - 1
        invariant
            n == id@.len(),
            2 <= n,
            i <= n - 1,
            !(n > 0 && id@[0] == 'n'),
            forall|j: int| 0 <= j < i && j < n - 1 ==> !(#[trigger] id@[j] == '-' && id@[j + 1] == 'n'),
        decreases n - i,
    {
        if id.get_char(i) == '-' && id.get_char(i + 1) == 'n' {
            return true;
        }
        i = i + 1;
    }
    false
}


/// `doc` after a cursor sync with `result`: a cursor collapses the
/// selection; a selection moves the cursor to its head and is kept unless
/// its ends meet; an unknown result changes nothing.
pub open spec fn synced_doc<B>(doc: DocState<B>, result: CursorSyncResult) -> DocState<B> {
    match result {
        CursorSyncResult::Cursor(offset) => DocState {
            selection: None,
            ..with_cursor_offset(doc, offset)
        },
        CursorSyncResult::Selection { anchor, head } => DocState {
            selection: if anchor != head {
                Some(Selection { anchor, head })
            } else {
                None
            },
            ..with_cursor_offset(doc, head)
        },
        CursorSyncResult::Unknown => doc,
    }
}

/// Apply the cursor or selection read from the DOM to the document.
pub fn apply_cursor_sync<D: EditorDocument>(doc: &mut D, result: CursorSyncResult)
    ensures
        final(doc).doc() == synced_doc(old(doc).doc(), result),
{
    match result {
        CursorSyncResult::Cursor(offset) => {
            doc.set_cursor_offset(offset);
            doc.set_selection(None);
        },
        CursorSyncResult::Selection { anchor, head } => {
            doc.set_cursor_offset(head);
            if anchor != head {
                doc.set_selection(Some(Selection { anchor, head }));
            } else {
                doc.set_selection(None);
            }
        },
        CursorSyncResult::Unknown => {},
    }
}

/// Index of the first `-` in `s`, or its length where it has none.
pub open spec fn first_dash(s: Seq<char>) -> int
    decreases s.len(),
{
    if s.len() == 0 {
        0
    } else if s[0] == '-' {
        0
    } else {
        1 + first_dash(s.skip(1))
    }
}

/// The paragraph index a node ID of the form `p-{idx}-n{node}` names.
pub open spec fn para_index_in_node_id(id: Seq<char>) -> Option<nat> {
    if seq!['p', '-'].is_prefix_of(id) {
        let rest = id.skip(2);
        usize_from_str(rest.take(first_dash(rest)))
    } else {
        None
    }
}

proof fn lemma_first_dash(s: Seq<char>, i: int)
    requires
        0 <= i <= s.len(),
        forall|j: int| 0 <= j < i ==> s[j] != '-',
        i == s.len() || s[i] == '-',
    ensures
        first_dash(s) == i,
    decreases s.len(),
{
    if s.len() > 0 && s[0] != '-' {
        lemma_first_dash(s.skip(1), i - 1);
    }
}

/// Extract the paragraph index from a node ID of the form
/// `p-{idx}-n{node}`, so a fallback stays in the right paragraph.
pub fn para_index_from_node_id(node_id: &str) -> (r: Option<usize>)
    ensures
        match para_index_in_node_id(node_id@) {
            Some(n) => r == Some(n as usize),
            None => r is None,
        },
{
    let prefix = "p-";
    proof {
        reveal_strlit("p-");
        assert(prefix@ =~= seq!['p', '-']);
    }
    match str_strip_prefix(node_id, prefix) {
        Some(rest) => {
            let n = rest.unicode_len();
            let mut i: usize = 0;
            while i < n && rest.get_char(i) != '-'
                invariant
                    i <= n == rest@.len(),
                    forall|j: int| 0 <= j < i ==> rest@[j] != '-',
                decreases n - i,
            {
                i = i + 1;
            }
            proof {
                lemma_first_dash(rest@, i as int);
            }
            let first = rest.substring_char(0, i);
            proof {
                assert(first@ =~= rest@.take(i as int));
            }
            parse_usize(first)
        },
        None => None,
    }
}

/// Lower-case hex digit for `d < 16`.
pub open spec fn hex_digit_char(d: nat) -> char {
    seq!['0', '1', '2', '3', '4', '5', '6', '7', '8', '9', 'a', 'b', 'c', 'd', 'e', 'f'][d as int]
}

/// `n` in lower-case hex without leading zeros, as `{:x}` writes it.
pub open spec fn lower_hex(n: nat) -> Seq<char>
    decreases n,
{
    if n < 16 {
        seq![hex_digit_char(n)]
    } else {
        lower_hex(n / 16).push(hex_digit_char(n % 16))
    }
}

fn hex_char(d: u64) -> (c: char)
    requires
        d < 16,
    ensures
        c == hex_digit_char(d as nat),
{
    let digits = ['0', '1', '2', '3', '4', '5', '6', '7', '8', '9', 'a', 'b', 'c', 'd', 'e', 'f'];
    proof {
        assert(digits@ =~= seq![
            '0', '1', '2', '3', '4', '5', '6', '7', '8', '9', 'a', 'b', 'c', 'd', 'e', 'f'
        ]);
    }
    digits[d as usize]
}

/// The `data-hash` text of a paragraph: its source hash in lower-case hex.
pub fn hash_hex(hash: u64) -> (r: String)
    ensures
        r@ == lower_hex(hash as nat),
    decreases hash,
{
    let c = hex_char(hash % 16);
    if hash < 16 {
        let mut s = String::new();
        string_push(&mut s, c);
        proof {
            assert(s@ =~= seq![c]);
        }
        s
    } else {
        let mut s = hash_hex(hash / 16);
        string_push(&mut s, c);
        s
    }
}

/// What re-rendering does to a paragraph element already in the DOM.
#[derive(Debug, Clone, Copy, PartialEq, Eq, Structural)]
pub enum ParagraphDomUpdate {
    /// Same hash and not forced: the element is not touched.
    Unchanged,
    /// The browser already shows the edit: only the stored hash is refreshed.
    HashOnly,
    /// The element's HTML is replaced.
    Replace,
}

/// The update of an existing paragraph element.
///
/// An element is updated when forced or when its stored hash differs. The
/// cursor's paragraph keeps its HTML, for fast typing, when updates are not
/// forced in any way, its syntax spans are unchanged and the text the DOM
/// shows has the expected length.
pub fn existing_paragraph_update(
    force: bool,
    hash_changed: bool,
    is_cursor_para: bool,
    force_innerhtml_update: bool,
    syntax_unchanged: bool,
    dom_len_matches: bool,
) -> (r: ParagraphDomUpdate)
    ensures
        r == if !(force || hash_changed) {
            ParagraphDomUpdate::Unchanged
        } else if !force_innerhtml_update && is_cursor_para && !force && syntax_unchanged
            && dom_len_matches {
            ParagraphDomUpdate::HashOnly
        } else {
            ParagraphDomUpdate::Replace
        },
{
    let needs_update = force || hash_changed;
    if !needs_update {
        return ParagraphDomUpdate::Unchanged;
    }
    let should_skip_cursor_update = !force_innerhtml_update && is_cursor_para && !force
        && syntax_unchanged && dom_len_matches;
    if should_skip_cursor_update {
        ParagraphDomUpdate::HashOnly
    } else {
        ParagraphDomUpdate::Replace
    }
}


/// A mapping of node `id` whose UTF-16 span holds offset `u`, ends included.
pub open spec fn mapping_holds(m: OffsetMapping, id: Seq<char>, u: nat) -> bool {
    &&& m.node_id@ == id
    &&& m.char_offset_in_node <= u
    &&& u <= m.char_offset_in_node + m.utf16_len
}

/// Index of the first mapping holding `u` for node `id`.
pub open spec fn first_mapping_holding(maps: Seq<OffsetMapping>, id: Seq<char>, u: nat) -> Option<
    int,
>
    decreases maps.len(),
{
    if maps.len() == 0 {
        None
    } else {
        match first_mapping_holding(maps.drop_last(), id, u) {
            Some(k) => Some(k),
            None => if mapping_holds(maps.last(), id, u) {
                Some(maps.len() - 1)
            } else {
                None
            },
        }
    }
}

/// The first paragraph, and mapping within it, holding `u` for node `id`.
pub open spec fn first_node_hit(ps: Seq<ParagraphRender>, id: Seq<char>, u: nat) -> Option<
    (int, int),
>
    decreases ps.len(),
{
    if ps.len() == 0 {
        None
    } else {
        match first_node_hit(ps.drop_last(), id, u) {
            Some(x) => Some(x),
            None => match first_mapping_holding(ps.last().offset_map@, id, u) {
                Some(k) => Some((ps.len() - 1, k)),
                None => None,
            },
        }
    }
}

/// The mapping of node `id` reaching furthest so far, after seeing mapping
/// `m` at paragraph `p`, index `k`: its UTF-16 end and where it is. A later
/// mapping takes over only when it reaches strictly further.
pub open spec fn best_step(b: Option<(nat, int, int)>, m: OffsetMapping, id: Seq<char>, p: int, k: int) -> Option<
    (nat, int, int),
> {
    let end = (m.char_offset_in_node + m.utf16_len) as nat;
    if m.node_id@ == id && match b {
        Some(t) => end > t.0,
        None => true,
    } {
        Some((end, p, k))
    } else {
        b
    }
}

/// `best_step` over the mappings of paragraph `p`, from `b`.
pub open spec fn best_in(b: Option<(nat, int, int)>, maps: Seq<OffsetMapping>, id: Seq<char>, p: int) -> Option<
    (nat, int, int),
>
    decreases maps.len(),
{
    if maps.len() == 0 {
        b
    } else {
        best_step(best_in(b, maps.drop_last(), id, p), maps.last(), id, p, maps.len() - 1)
    }
}

/// The mapping of node `id` reaching furthest over all paragraphs, the
/// first such one.
pub open spec fn node_best(ps: Seq<ParagraphRender>, id: Seq<char>) -> Option<(nat, int, int)>
    decreases ps.len(),
{
    if ps.len() == 0 {
        None
    } else {
        best_in(node_best(ps.drop_last(), id), ps.last().offset_map@, id, ps.len() - 1)
    }
}

/// Where a UTF-16 offset inside a rendered node falls in the text.
#[derive(Debug, Clone, Copy, PartialEq, Eq, Structural)]
pub enum NodeOffset {
    /// Inside a mapping of paragraph `para`, at `char_offset`.
    InMapping { para: usize, char_offset: usize },
    /// Past the end of everything mapped for the node: the end of its
    /// furthest-reaching mapping.
    PastEnd { char_offset: usize },
    /// No mapping of the node places the offset.
    Unmatched,
}

/// Where UTF-16 offset `u` inside node `id` falls: the first mapping of the
/// node holding it gives the char offset; past the furthest end, that
/// mapping's end; otherwise nothing.
pub open spec fn node_offset(ps: Seq<ParagraphRender>, id: Seq<char>, u: nat) -> NodeOffset {
    match first_node_hit(ps, id, u) {
        Some((p, k)) => {
            let m = ps[p].offset_map@[k];
            NodeOffset::InMapping {
                para: p as usize,
                char_offset: (m.char_range.start + (u - m.char_offset_in_node)) as usize,
            }
        },
        None => match node_best(ps, id) {
            Some((end, p, k)) => if u > end {
                NodeOffset::PastEnd { char_offset: ps[p].offset_map@[k].char_range.end }
            } else {
                NodeOffset::Unmatched
            },
            None => NodeOffset::Unmatched,
        },
    }
}

/// Offsets of every mapping fit a `usize`.
pub open spec fn mappings_fit(ps: Seq<ParagraphRender>) -> bool {
    forall|p: int, k: int|
        0 <= p < ps.len() && 0 <= k < ps[p].offset_map@.len() ==> {
            let m = #[trigger] ps[p].offset_map@[k];
            &&& m.char_offset_in_node + m.utf16_len <= usize::MAX
            &&& m.char_range.start + m.utf16_len <= usize::MAX
        }
}

spec fn best_view(b: Option<(usize, usize, usize)>) -> Option<(nat, int, int)> {
    match b {
        Some((e, p, k)) => Some((e as nat, p as int, k as int)),
        None => None,
    }
}

spec fn best_ok(ps: Seq<ParagraphRender>, b: Option<(usize, usize, usize)>) -> bool {
    b matches Some((e, p, k)) ==> p < ps.len() && k < ps[p as int].offset_map@.len()
}

proof fn lemma_first_mapping_prefix(maps: Seq<OffsetMapping>, k: int, id: Seq<char>, u: nat)
    requires
        0 <= k <= maps.len(),
        first_mapping_holding(maps.take(k), id, u) is Some,
    ensures
        first_mapping_holding(maps, id, u) == first_mapping_holding(maps.take(k), id, u),
    decreases maps.len(),
{
    if k < maps.len() {
        assert(maps.drop_last().take(k) =~= maps.take(k));
        lemma_first_mapping_prefix(maps.drop_last(), k, id, u);
    } else {
        assert(maps.take(k) =~= maps);
    }
}

proof fn lemma_first_node_hit_prefix(ps: Seq<ParagraphRender>, k: int, id: Seq<char>, u: nat)
    requires
        0 <= k <= ps.len(),
        first_node_hit(ps.take(k), id, u) is Some,
    ensures
        first_node_hit(ps, id, u) == first_node_hit(ps.take(k), id, u),
    decreases ps.len(),
{
    if k < ps.len() {
        assert(ps.drop_last().take(k) =~= ps.take(k));
        lemma_first_node_hit_prefix(ps.drop_last(), k, id, u);
    } else {
        assert(ps.take(k) =~= ps);
    }
}

/// Look up a UTF-16 offset inside the rendered node `node_id` in the
/// paragraphs' offset maps, as `node_offset` says. Whether the position
/// found is a valid cursor position is for the caller to check.
pub fn node_offset_lookup(paragraphs: &[ParagraphRender], node_id: &str, utf16_offset: usize) -> (r:
    NodeOffset)
    requires
        mappings_fit(paragraphs@),
    ensures
        r == node_offset(paragraphs@, node_id@, utf16_offset as nat),
{
    let ghost ps = paragraphs@;
    let ghost u = utf16_offset as nat;
    let mut best: Option<(usize, usize, usize)> = None;
    let n = paragraphs.len();
    let mut i: usize = 0;
    while i < n
        invariant
            i <= n == ps.len(),
            ps == paragraphs@,
            u == utf16_offset,
            mappings_fit(ps),
            first_node_hit(ps.take(i as int), node_id@, u) is None,
            best_view(best) == node_best(ps.take(i as int), node_id@),
            best_ok(ps, best),
        decreases n - i,
    {
        let maps = &paragraphs[i].offset_map;
        let ghost b0 = best_view(best);
        let mut k: usize = 0;
        while k < maps.len()
            invariant
                i < n == ps.len(),
                ps == paragraphs@,
                u == utf16_offset,
                mappings_fit(ps),
                *maps == ps[i as int].offset_map,
                k <= maps@.len(),
                first_node_hit(ps.take(i as int), node_id@, u) is None,
                first_mapping_holding(maps@.take(k as int), node_id@, u) is None,
                best_view(best) == best_in(b0, maps@.take(k as int), node_id@, i as int),
                best_ok(ps, best),
            decreases maps@.len() - k,
        {
            let m = &maps[k];
            proof {
                assert(maps@.take(k + 1).drop_last() =~= maps@.take(k as int));
                assert(maps@.take(k + 1).last() == maps@[k as int]);
                assert(ps[i as int].offset_map@[k as int] == maps@[k as int]);
            }
            if str_eq(m.node_id.as_str(), node_id) {
                let start = m.char_offset_in_node;
                let end = start + m.utf16_len;
                let further = match best {
                    Some((e, _, _)) => end > e,
                    None => true,
                };
                if further {
                    best = Some((end, i, k));
                }
                if utf16_offset >= start && utf16_offset <= end {
                    proof {
                        lemma_first_mapping_prefix(maps@, k + 1, node_id@, u);
                        assert(ps.take(i + 1).drop_last() =~= ps.take(i as int));
                        assert(ps.take(i + 1).last() == ps[i as int]);
                        lemma_first_node_hit_prefix(ps, i + 1, node_id@, u);
                    }
                    return NodeOffset::InMapping {
                        para: i,
                        char_offset: m.char_range.start + (utf16_offset - start),
                    };
                }
            }
            k = k + 1;
        }
        proof {
            assert(maps@.take(k as int) =~= maps@);
            assert(ps.take(i + 1).drop_last() =~= ps.take(i as int));
            assert(ps.take(i + 1).last() == ps[i as int]);
        }
        i = i + 1;
    }
    proof {
        assert(ps.take(n as int) =~= ps);
    }
    match best {
        Some((end, p, k)) => {
            if utf16_offset > end {
                NodeOffset::PastEnd { char_offset: paragraphs[p].offset_map[k].char_range.end }
            } else {
                NodeOffset::Unmatched
            }
        },
        None => NodeOffset::Unmatched,
    }
}


/// The text offset of a selection point that sits directly on the editor
/// element (as select-all leaves it): child offset 0 is the start of the
/// text, an offset at or past the last child is the end of the last
/// paragraph; any other child offset gives no text offset.
pub fn editor_container_offset(offset: usize, child_count: usize, paragraphs: &[ParagraphRender]) -> (r:
    Option<usize>)
    ensures
        r == if offset == 0 {
            Some(0usize)
        } else if offset >= child_count {
            if paragraphs@.len() > 0 {
                Some(paragraphs@.last().char_range.end)
            } else {
                None
            }
        } else {
            None
        },
{
    if offset == 0 {
        Some(0)
    } else if offset >= child_count {
        if paragraphs.len() > 0 {
            Some(paragraphs[paragraphs.len() - 1].char_range.end)
        } else {
            None
        }
    } else {
        None
    }
}

/// UTF-16 offset, within a node, of the point before child `child_index`:
/// the text of the children before it, the children counting with these
/// UTF-16 text lengths.
pub fn utf16_before_child(child_text_lens: &[usize], child_index: usize) -> (r: usize)
    requires
        lens_before(child_text_lens@, child_text_lens@.len() as int) <= usize::MAX,
    ensures
        r == lens_before(
            child_text_lens@,
            if child_index < child_text_lens@.len() {
                child_index as int
            } else {
                child_text_lens@.len() as int
            },
        ),
{
    let n = if child_index < child_text_lens.len() {
        child_index
    } else {
        child_text_lens.len()
    };
    let mut counted: usize = 0;
    let mut i: usize = 0;
    while i < n
        invariant
            i <= n <= child_text_lens@.len(),
            counted == lens_before(child_text_lens@, i as int),
            lens_before(child_text_lens@, child_text_lens@.len() as int) <= usize::MAX,
        decreases n - i,
    {
        proof {
            crate::browser::cursor::lemma_lens_before_mono(
                child_text_lens@,
                i + 1,
                child_text_lens@.len() as int,
            );
        }
        counted = counted + child_text_lens[i];
        i = i + 1;
    }
    counted
}

} // verus!
