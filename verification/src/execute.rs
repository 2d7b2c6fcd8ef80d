//! Action execution for editor documents.
//!
//! This module provides the `execute_action` function that applies `EditorAction`
//! operations to any type implementing `EditorDocument`. The logic is generic
//! and platform-agnostic.
use crate::actions::{EditorAction, Range};
use crate::document::{
    doc_block_zone, doc_inv, doc_text, lemma_line_start_before, line_start_before, DocState,
    EditorDocument,
};
use crate::strings::{
    decimal, lemma_decimal_len, lemma_utf8_len_bounds, lemma_utf8_len_subrange, spec_is_whitespace,
    char_is_whitespace, string_push, string_push_str, usize_to_string, utf8_len,
};
use crate::text::{spec_delete, spec_insert, BufferInvariant, TextBuffer};
use crate::text_helpers::{
    count_leading_zero_width, ctx_indent, detect_list_context, find_line_end, find_line_start,
    find_word_boundary_backward, find_word_boundary_forward, is_list_item_empty, is_zero_width,
    lemma_line_end_from, lemma_zero_width_run_bound, line_end_from, list_context_at, list_item_empty_at, word_boundary_backward,
    word_boundary_forward, zero_width_run_before, ListContext, SpecListContext,
};
use crate::types::{CursorState, EditInfo, Selection};
use crate::undo::UndoManager;
use vstd::prelude::*;

verus! {

// === What an action does, as specifications see it ===

/// One edit of the text: `inserted` put in place of `[start, end)` of `before`.
pub struct SpecEdit {
    pub before: Seq<char>,
    pub start: int,
    pub end: int,
    pub inserted: Seq<char>,
}

/// The edit info that an edit leaves, but for its timestamp.
pub open spec fn edit_info_matches(e: EditInfo, x: SpecEdit) -> bool {
    &&& e.edit_char_pos == x.start
    &&& e.deleted_len == x.end - x.start
    &&& e.inserted_len == x.inserted.len()
    &&& e.contains_newline == (x.inserted.contains('\n') || x.before.subrange(x.start, x.end).contains(
        '\n',
    ))
    &&& e.in_block_syntax_zone == doc_block_zone(x.before, x.start)
    &&& e.doc_len_after == x.before.len() - (x.end - x.start) + x.inserted.len()
}

/// What an action leaves: whether it was handled, the text, the cursor offset,
/// the selection, and the last edit made (`None`: no edit, the last edit info
/// stays as it was).
pub struct Outcome {
    pub handled: bool,
    pub text: Seq<char>,
    pub cursor: int,
    pub selection: Option<Selection>,
    pub last: Option<SpecEdit>,
}

/// Nothing changes and the action is not handled.
pub open spec fn untouched(s: Seq<char>, cursor: int, sel: Option<Selection>) -> Outcome {
    Outcome { handled: false, text: s, cursor, selection: sel, last: None }
}

/// The text stays, the selection is cleared.
pub open spec fn cleared(s: Seq<char>, cursor: int) -> Outcome {
    Outcome { handled: true, text: s, cursor, selection: None, last: None }
}

/// `[start, end)` is deleted, the cursor put at `start`, the selection left as `sel`.
pub open spec fn deleted(s: Seq<char>, start: int, end: int, sel: Option<Selection>) -> Outcome {
    Outcome {
        handled: true,
        text: spec_delete(s, start, end),
        cursor: start,
        selection: sel,
        last: Some(SpecEdit { before: s, start, end, inserted: Seq::empty() }),
    }
}

/// `t` put in place of `[start, end)`, the cursor after it, the selection cleared.
pub open spec fn replaced(s: Seq<char>, start: int, end: int, t: Seq<char>, cursor: int) -> Outcome {
    Outcome {
        handled: true,
        text: s.take(start) + t + s.skip(end),
        cursor,
        selection: None,
        last: Some(SpecEdit { before: s, start, end, inserted: t }),
    }
}

/// The text the selection range `range` leaves once deleted.
pub open spec fn after_range_deleted(s: Seq<char>, range: Range) -> Seq<char> {
    let r = range.normalize();
    if r.is_caret() {
        s
    } else {
        spec_delete(s, r.start as int, r.end as int)
    }
}

/// Typing `t` over `range`: zero-width chars just before the range go too.
pub open spec fn insert_outcome(s: Seq<char>, t: Seq<char>, range: Range) -> Outcome {
    let r = range.normalize();
    let ds = r.start - zero_width_run_before(s, r.start as int);
    replaced(s, ds, r.end as int, t, ds + t.len())
}

/// The line that exits a list: a paragraph break and an empty, zero-width-marked line.
pub open spec fn list_exit_text() -> Seq<char> {
    seq!['\n', '\n', '\u{200C}', '\n']
}

/// The text that starts the next item of a list.
pub open spec fn continuation(ctx: SpecListContext) -> Seq<char> {
    match ctx {
        SpecListContext::Unordered { indent, marker } => seq!['\n'] + indent + seq![marker, ' '],
        SpecListContext::Ordered { indent, number } => seq!['\n'] + indent + decimal(number + 1)
            + seq!['.', ' '],
    }
}

/// A break at `o` of `s`: inside a list item, an empty item leaves the list and
/// another continues it; elsewhere `plain` is inserted.
pub open spec fn list_break_outcome(s: Seq<char>, o: int, plain: Seq<char>) -> Outcome {
    match list_context_at(s, o) {
        Some(ctx) => if list_item_empty_at(s, o, ctx) {
            let ls = line_start_before(s, o);
            let le = line_end_from(s, o);
            let de = if le + 1 <= s.len() {
                le + 1
            } else {
                s.len() as int
            };
            replaced(s, ls, de, list_exit_text(), ls + 2)
        } else {
            let c = continuation(ctx);
            replaced(s, o, o, c, o + c.len())
        },
        None => replaced(s, o, o, plain, o + 2),
    }
}

/// A second Enter right after a soft break: a newline and a ZWNJ before `o`.
pub open spec fn after_soft_break(s: Seq<char>, o: int) -> bool {
    o >= 2 && s[o - 1] == '\u{200C}' && s[o - 2] == '\n'
}

/// Enter: a soft break, or a list continuation or exit.
pub open spec fn line_break_outcome(s: Seq<char>, range: Range) -> Outcome {
    let o = range.normalize().start as int;
    let s1 = after_range_deleted(s, range);
    if after_soft_break(s1, o) {
        replaced(s1, o - 1, o, seq!['\n'], o)
    } else {
        list_break_outcome(s1, o, seq!['\n', '\u{200C}'])
    }
}

/// Shift+Enter: a paragraph break, or a list continuation or exit.
pub open spec fn paragraph_outcome(s: Seq<char>, range: Range) -> Outcome {
    let o = range.normalize().start as int;
    list_break_outcome(after_range_deleted(s, range), o, seq!['\n', '\n'])
}

/// Backspace.
pub open spec fn delete_backward_outcome(
    s: Seq<char>,
    cursor: int,
    sel: Option<Selection>,
    range: Range,
) -> Outcome {
    let r = range.normalize();
    let c = r.start as int;
    if !r.is_caret() {
        deleted(s, c, r.end as int, sel)
    } else if c == 0 {
        untouched(s, cursor, sel)
    } else if s[c - 1] == '\n' {
        let np = c - 1;
        let ds0 = if np > 0 && s[np - 1] == '\n' {
            np - 1
        } else {
            np
        };
        let de = if c < s.len() && is_zero_width(s[c]) {
            c + 1
        } else {
            c
        };
        deleted(s, ds0 - zero_width_run_before(s, ds0), de, None)
    } else {
        deleted(s, c - 1, c, None)
    }
}

/// Delete.
pub open spec fn delete_forward_outcome(
    s: Seq<char>,
    cursor: int,
    sel: Option<Selection>,
    range: Range,
) -> Outcome {
    let r = range.normalize();
    if !r.is_caret() {
        deleted(s, r.start as int, r.end as int, sel)
    } else if r.start >= s.len() {
        untouched(s, cursor, sel)
    } else {
        deleted(s, r.start as int, r.start + 1, None)
    }
}

/// Ctrl/Alt+Backspace.
pub open spec fn delete_word_backward_outcome(
    s: Seq<char>,
    cursor: int,
    sel: Option<Selection>,
    range: Range,
) -> Outcome {
    let r = range.normalize();
    let c = r.start as int;
    let ws = word_boundary_backward(s, c);
    if !r.is_caret() {
        deleted(s, c, r.end as int, sel)
    } else if ws < c {
        deleted(s, ws, c, None)
    } else {
        cleared(s, cursor)
    }
}

/// Ctrl/Alt+Delete.
pub open spec fn delete_word_forward_outcome(
    s: Seq<char>,
    cursor: int,
    sel: Option<Selection>,
    range: Range,
) -> Outcome {
    let r = range.normalize();
    let c = r.start as int;
    let we = word_boundary_forward(s, c);
    if !r.is_caret() {
        deleted(s, c, r.end as int, sel)
    } else if we > c {
        deleted(s, c, we, None)
    } else {
        cleared(s, cursor)
    }
}

/// Deleting back to the start of the line.
pub open spec fn delete_to_line_start_outcome(s: Seq<char>, cursor: int, range: Range) -> Outcome {
    let c = range.normalize().start as int;
    let ls = line_start_before(s, c);
    if ls < c {
        deleted(s, ls, c, None)
    } else {
        cleared(s, cursor)
    }
}

/// Deleting on to the end of the line.
pub open spec fn delete_to_line_end_outcome(s: Seq<char>, cursor: int, range: Range) -> Outcome {
    let r = range.normalize();
    let c = if r.is_caret() {
        r.start as int
    } else {
        r.end as int
    };
    let le = line_end_from(s, c);
    if c < le {
        deleted(s, c, le, None)
    } else {
        cleared(s, cursor)
    }
}

/// Start of the whitespace-delimited word at `i`: just after the last
/// whitespace before it, or 0 (also when `i` lies past the end of `s`).
pub open spec fn space_back(s: Seq<char>, i: int) -> int
    decreases i,
{
    if i <= 0 || i - 1 >= s.len() {
        0
    } else if spec_is_whitespace(s[i - 1]) {
        i
    } else {
        space_back(s, i - 1)
    }
}

/// End of the whitespace-delimited word at `i`: the first whitespace at or
/// after it, or the end of `s`.
pub open spec fn space_fwd(s: Seq<char>, i: int) -> int
    decreases s.len() - i,
{
    if i >= s.len() {
        s.len() as int
    } else if spec_is_whitespace(s[i]) {
        i
    } else {
        space_fwd(s, i + 1)
    }
}

/// The span a formatting action wraps: the selection, or the word at the cursor.
pub open spec fn format_span(s: Seq<char>, cursor: int, sel: Option<Selection>) -> (int, int) {
    match sel {
        Some(x) => (x.start() as int, x.end() as int),
        None => (space_back(s, cursor), space_fwd(s, cursor)),
    }
}

/// Wrapping the span in `open` and `close`, the cursor put `shift` past the span's end.
pub open spec fn wrap_outcome(
    s: Seq<char>,
    cursor: int,
    sel: Option<Selection>,
    open: Seq<char>,
    close: Seq<char>,
    shift: int,
) -> Outcome {
    let (start, end) = format_span(s, cursor, sel);
    let s1 = spec_insert(s, end, close);
    Outcome {
        handled: true,
        text: spec_insert(s1, start, open),
        cursor: end + shift,
        selection: None,
        last: Some(SpecEdit { before: s1, start, end: start, inserted: open }),
    }
}

/// `offset`, but no further than `len`.
pub open spec fn clamp(offset: int, len: int) -> int {
    if offset <= len {
        offset
    } else {
        len
    }
}

/// What an action other than undo and redo leaves, from the text, the cursor
/// offset and the selection it meets.
pub open spec fn outcome(action: EditorAction, s: Seq<char>, cursor: int, sel: Option<Selection>) -> Outcome {
    match action {
        EditorAction::Insert { text, range } => insert_outcome(s, text@, range),
        EditorAction::InsertLineBreak { range } => line_break_outcome(s, range),
        EditorAction::InsertParagraph { range } => paragraph_outcome(s, range),
        EditorAction::DeleteBackward { range } => delete_backward_outcome(s, cursor, sel, range),
        EditorAction::DeleteForward { range } => delete_forward_outcome(s, cursor, sel, range),
        EditorAction::DeleteWordBackward { range } => delete_word_backward_outcome(
            s,
            cursor,
            sel,
            range,
        ),
        EditorAction::DeleteWordForward { range } => delete_word_forward_outcome(
            s,
            cursor,
            sel,
            range,
        ),
        EditorAction::DeleteToLineStart { range } => delete_to_line_start_outcome(s, cursor, range),
        EditorAction::DeleteToLineEnd { range } => delete_to_line_end_outcome(s, cursor, range),
        EditorAction::DeleteSoftLineBackward { range } => delete_to_line_start_outcome(
            s,
            cursor,
            range,
        ),
        EditorAction::DeleteSoftLineForward { range } => delete_to_line_end_outcome(s, cursor, range),
        EditorAction::ToggleBold => wrap_outcome(s, cursor, sel, seq!['*', '*'], seq!['*', '*'], 4),
        EditorAction::ToggleItalic => wrap_outcome(s, cursor, sel, seq!['*'], seq!['*'], 2),
        EditorAction::ToggleCode => wrap_outcome(s, cursor, sel, seq!['`'], seq!['`'], 2),
        EditorAction::ToggleStrikethrough => wrap_outcome(
            s,
            cursor,
            sel,
            seq!['~', '~'],
            seq!['~', '~'],
            4,
        ),
        EditorAction::InsertLink => wrap_outcome(
            s,
            cursor,
            sel,
            seq!['['],
            seq![']', '(', 'u', 'r', 'l', ')'],
            8,
        ),
        EditorAction::SelectAll => Outcome {
            handled: true,
            text: s,
            cursor: s.len() as int,
            selection: Some(Selection { anchor: 0, head: s.len() as usize }),
            last: None,
        },
        EditorAction::MoveCursor { offset } => cleared(s, clamp(offset as int, s.len() as int)),
        EditorAction::ExtendSelection { offset } => {
            let o = clamp(offset as int, s.len() as int);
            let anchor = match sel {
                Some(x) => x.anchor,
                None => cursor as usize,
            };
            Outcome {
                handled: true,
                text: s,
                cursor: o,
                selection: Some(Selection { anchor, head: o as usize }),
                last: None,
            }
        },
        _ => untouched(s, cursor, sel),
    }
}

/// `b` is what `a` becomes under outcome `o`, with `r` returned.
pub open spec fn outcome_holds<B: TextBuffer>(a: DocState<B>, b: DocState<B>, r: bool, o: Outcome) -> bool {
    &&& r == o.handled
    &&& b.buffer.inv()
    &&& b.buffer.text() == o.text
    &&& b.cursor == (CursorState { offset: o.cursor as usize, ..a.cursor })
    &&& b.selection == o.selection
    &&& match o.last {
        None => b.last_edit == a.last_edit,
        Some(x) => b.last_edit matches Some(e) && edit_info_matches(e, x),
    }
    &&& b.composition == a.composition
    &&& b.composition_ended_at == a.composition_ended_at
    &&& b.pending_snap == a.pending_snap
}

/// `b` is what undo (or redo) makes of `a`, with `r` returned: when there is
/// nothing to undo nothing changes; else the buffer steps back, the cursor is
/// kept within the text and the selection cleared.
pub open spec fn history_holds<B: TextBuffer + UndoManager>(
    a: DocState<B>,
    b: DocState<B>,
    r: bool,
    redo: bool,
) -> bool {
    let can = if redo {
        a.buffer.spec_can_redo()
    } else {
        a.buffer.spec_can_undo()
    };
    &&& r == can
    &&& b.buffer.inv()
    &&& !can ==> b == a
    &&& can ==> {
        &&& b.cursor == (CursorState {
            offset: clamp(a.cursor.offset as int, b.buffer.text().len() as int) as usize,
            ..a.cursor
        })
        &&& b.selection is None
        &&& b.last_edit == a.last_edit
        &&& b.composition == a.composition
        &&& b.composition_ended_at == a.composition_ended_at
        &&& b.pending_snap == a.pending_snap
    }
}


/// The ordered list item at `o` would be continued past `usize::MAX`.
pub open spec fn numbers_past_max(s: Seq<char>, o: int) -> bool {
    match list_context_at(s, o) {
        Some(ctx) => !list_item_empty_at(s, o, ctx) && (ctx matches SpecListContext::Ordered {
            number,
            ..
        } && number == usize::MAX),
        None => false,
    }
}

/// The inputs on which an action works without fault: the ranges it edits lie
/// within the text, the text leaves room for what is added, and a list item
/// continued is not numbered `usize::MAX`.
pub open spec fn action_ok(s: Seq<char>, sel: Option<Selection>, action: EditorAction) -> bool {
    &&& 2 * utf8_len(s) + 64 <= usize::MAX
    &&& match action {
        EditorAction::Insert { text, range } => range.normalize().end <= s.len() && s.len()
            + text@.len() <= usize::MAX,
        EditorAction::InsertLineBreak { range } => {
            let o = range.normalize().start as int;
            let s1 = after_range_deleted(s, range);
            range.normalize().end <= s.len() && !(!after_soft_break(s1, o) && numbers_past_max(
                s1,
                o,
            ))
        },
        EditorAction::InsertParagraph { range } => range.normalize().end <= s.len()
            && !numbers_past_max(after_range_deleted(s, range), range.normalize().start as int),
        EditorAction::DeleteBackward { range } => range.normalize().end <= s.len(),
        EditorAction::DeleteForward { range } => !range.normalize().is_caret()
            ==> range.normalize().end <= s.len(),
        EditorAction::DeleteWordBackward { range } => !range.normalize().is_caret()
            ==> range.normalize().end <= s.len(),
        EditorAction::DeleteWordForward { range } => !range.normalize().is_caret()
            ==> range.normalize().end <= s.len(),
        EditorAction::DeleteToLineStart { range } => range.normalize().start <= s.len(),
        EditorAction::DeleteSoftLineBackward { range } => range.normalize().start <= s.len(),
        EditorAction::ToggleBold => sel matches Some(x) ==> x.end() <= s.len(),
        EditorAction::ToggleItalic => sel matches Some(x) ==> x.end() <= s.len(),
        EditorAction::ToggleCode => sel matches Some(x) ==> x.end() <= s.len(),
        EditorAction::ToggleStrikethrough => sel matches Some(x) ==> x.end() <= s.len(),
        EditorAction::InsertLink => sel matches Some(x) ==> x.end() <= s.len(),
        _ => true,
    }
}

proof fn lemma_nothing_in_empty(s: Seq<char>, i: int)
    requires
        0 <= i <= s.len(),
    ensures
        !s.subrange(i, i).contains('\n'),
{
    assert(s.subrange(i, i).len() == 0);
}


proof fn lemma_space_bounds(s: Seq<char>, i: int)
    requires
        0 <= i,
    ensures
        0 <= space_back(s, i) <= i,
        space_back(s, i) <= s.len(),
        i <= s.len() ==> i <= space_fwd(s, i),
        space_fwd(s, i) <= s.len(),
    decreases i,
{
    if i > 0 && i - 1 < s.len() && !spec_is_whitespace(s[i - 1]) {
        lemma_space_bounds(s, i - 1);
    }
    lemma_space_fwd_bounds(s, i);
}

proof fn lemma_space_fwd_bounds(s: Seq<char>, i: int)
    requires
        0 <= i,
    ensures
        i <= s.len() ==> i <= space_fwd(s, i),
        space_fwd(s, i) <= s.len(),
    decreases s.len() - i,
{
    if i < s.len() && !spec_is_whitespace(s[i]) {
        lemma_space_fwd_bounds(s, i + 1);
    }
}

/// The indentation of the list item at `o` is a piece of `s`.
proof fn lemma_ctx_indent_fits(s: Seq<char>, o: int)
    requires
        0 <= o <= s.len(),
        list_context_at(s, o) is Some,
    ensures
        utf8_len(ctx_indent(list_context_at(s, o).unwrap())) <= utf8_len(s),
        ctx_indent(list_context_at(s, o).unwrap()).len() <= s.len(),
{
    let ls = line_start_before(s, o);
    let le = line_end_from(s, o);
    lemma_line_start_before(s, o);
    lemma_line_end_from(s, o);
    let line = s.subrange(ls, le);
    let k = crate::text_helpers::indent_end(line, 0);
    crate::text_helpers::lemma_indent_end(line, 0);
    lemma_utf8_len_subrange(s, ls, le);
    lemma_utf8_len_subrange(line, 0, k);
    assert(line.take(k) =~= line.subrange(0, k));
    lemma_utf8_len_bounds(s);
    lemma_utf8_len_bounds(line.take(k));
}

/// Generate list continuation text.
fn list_continuation(ctx: &ListContext) -> (r: String)
    requires
        ctx@ matches SpecListContext::Ordered { number, .. } ==> number < usize::MAX,
    ensures
        r@ == continuation(ctx@),
{
    let mut out = String::new();
    string_push(&mut out, '\n');
    match ctx {
        ListContext::Unordered { indent, marker } => {
            string_push_str(&mut out, indent.as_str());
            string_push(&mut out, *marker);
            string_push(&mut out, ' ');
            proof {
                assert(out@ =~= continuation(ctx@));
            }
        },
        ListContext::Ordered { indent, number } => {
            string_push_str(&mut out, indent.as_str());
            let digits = usize_to_string(*number + 1);
            string_push_str(&mut out, digits.as_str());
            string_push(&mut out, '.');
            string_push(&mut out, ' ');
            proof {
                assert(out@ =~= continuation(ctx@));
            }
        },
    }
    out
}

/// Find word boundaries around cursor position.
fn find_word_boundaries<D: EditorDocument>(doc: &D, offset: usize) -> (r: (usize, usize))
    ensures
        r.0 == space_back(doc_text(*doc), offset as int),
        r.1 == space_fwd(doc_text(*doc), offset as int),
{
    let ghost s = doc_text(*doc);
    let len = doc.len_chars();
    // Find start by scanning backwards.
    let mut start: usize = 0;
    let mut i = offset;
    while i > 0
        invariant_except_break
            start == 0,
        invariant
            i <= offset,
            s == doc_text(*doc),
            space_back(s, i as int) == space_back(s, offset as int),
        ensures
            start == space_back(s, offset as int),
        decreases i,
    {
        match doc.char_at(i - 1) {
            Some(c) => {
                if char_is_whitespace(c) {
                    start = i;
                    break ;
                }
                i -= 1;
            },
            None => {
                break ;
            },
        }
    }
    // Find end by scanning forwards.
    let mut end = len;
    let mut j = offset;
    while j < len
        invariant_except_break
            end == len,
        invariant
            s == doc_text(*doc),
            len == s.len(),
            space_fwd(s, j as int) == space_fwd(s, offset as int),
        ensures
            end == space_fwd(s, offset as int),
        decreases len - j,
    {
        match doc.char_at(j) {
            Some(c) => {
                if char_is_whitespace(c) {
                    end = j;
                    break ;
                }
                j += 1;
            },
            None => {
                break ;
            },
        }
    }
    (start, end)
}

fn execute_insert<D: EditorDocument>(doc: &mut D, text: &str, range: Range) -> (r: bool)
    requires
        doc_inv(*old(doc)),
        range.normalize().end <= doc_text(*old(doc)).len(),
        doc_text(*old(doc)).len() + text@.len() <= usize::MAX,
    ensures
        outcome_holds(
            old(doc).doc(),
            final(doc).doc(),
            r,
            insert_outcome(doc_text(*old(doc)), text@, range),
        ),
{
    let range = range.normalize();
    // Clean up any preceding zero-width chars.
    let zw_count = count_leading_zero_width(doc, range.start);
    proof {
        lemma_zero_width_run_bound(doc_text(*doc), range.start as int);
    }
    let delete_start = range.start - zw_count;
    if range.is_caret() {
        if zw_count > 0 {
            doc.replace(std::ops::Range { start: delete_start, end: range.start }, text);
        } else {
            doc.insert(range.start, text);
        }
    } else {
        // Replace selection, with the zero-width chars before it.
        doc.replace(std::ops::Range { start: delete_start, end: range.end }, text);
    }
    doc.set_selection(None);
    true
}

/// A break at `offset`: in a list item, continue the list or leave it when
/// the item is empty; elsewhere insert `plain`.
fn insert_break<D: EditorDocument>(doc: &mut D, offset: usize, plain: &str)
    requires
        doc_inv(*old(doc)),
        offset <= doc_text(*old(doc)).len(),
        2 * utf8_len(doc_text(*old(doc))) + 64 <= usize::MAX,
        !numbers_past_max(doc_text(*old(doc)), offset as int),
        plain@.len() == 2,
    ensures
        outcome_holds(
            old(doc).doc(),
            final(doc).doc(),
            true,
            Outcome {
                selection: old(doc).doc().selection,
                ..list_break_outcome(doc_text(*old(doc)), offset as int, plain@)
            },
        ),
{
    let ghost s = doc_text(*doc);
    proof {
        lemma_utf8_len_bounds(s);
    }
    match detect_list_context(doc, offset) {
        Some(ctx) => {
            proof {
                lemma_ctx_indent_fits(s, offset as int);
            }
            if is_list_item_empty(doc, offset, &ctx) {
                // Empty item - exit list.
                let line_start = find_line_start(doc, offset);
                let line_end = find_line_end(doc, offset);
                proof {
                    lemma_line_start_before(s, offset as int);
                    lemma_line_end_from(s, offset as int);
                    reveal_strlit("\n\n\u{200C}\n");
                }
                let len = doc.len_chars();
                let delete_end = if line_end + 1 <= len {
                    line_end + 1
                } else {
                    len
                };
                doc.replace(std::ops::Range { start: line_start, end: delete_end }, "\n\n\u{200C}\n");
                doc.set_cursor_offset(line_start + 2);
                assert("\n\n\u{200C}\n"@ =~= list_exit_text());
            } else {
                // Continue list.
                let continuation = list_continuation(&ctx);
                proof {
                    if let SpecListContext::Ordered { number, .. } = ctx@ {
                        lemma_decimal_len((number + 1) as usize);
                    }
                }
                let len = continuation.as_str().unicode_len();
                doc.insert(offset, continuation.as_str());
                doc.set_cursor_offset(offset + len);
                proof {
                    lemma_nothing_in_empty(s, offset as int);
                }
            }
        },
        None => {
            // Plain break.
            doc.insert(offset, plain);
            doc.set_cursor_offset(offset + 2);
            proof {
                lemma_nothing_in_empty(s, offset as int);
            }
        },
    }
}


fn execute_insert_line_break<D: EditorDocument>(doc: &mut D, range: Range) -> (r: bool)
    requires
        doc_inv(*old(doc)),
        action_ok(doc_text(*old(doc)), old(doc).doc().selection, EditorAction::InsertLineBreak { range }),
    ensures
        outcome_holds(
            old(doc).doc(),
            final(doc).doc(),
            r,
            line_break_outcome(doc_text(*old(doc)), range),
        ),
{
    let ghost s = doc_text(*doc);
    let range = range.normalize();
    let offset = range.start;
    // Delete selection if any.
    if !range.is_caret() {
        doc.delete(std::ops::Range { start: offset, end: range.end });
    }
    proof {
        lemma_utf8_len_subrange(s, offset as int, range.end as int);
        lemma_utf8_len_bounds(s);
        assert(doc_text(*doc) =~= after_range_deleted(s, range));
    }
    // Check if we're right after a soft break (newline + zero-width char).
    let is_double_enter = if offset >= 2 {
        let prev_char = doc.char_at(offset - 1);
        let prev_prev_char = doc.char_at(offset - 2);
        match (prev_char, prev_prev_char) {
            (Some(a), Some(b)) => a == '\u{200C}' && b == '\n',
            _ => false,
        }
    } else {
        false
    };
    if !is_double_enter {
        proof {
            reveal_strlit("\n\u{200C}");
        }
        insert_break(doc, offset, "\n\u{200C}");
        assert("\n\u{200C}"@ =~= seq!['\n', '\u{200C}']);
    } else {
        // Replace zero-width char with newline.
        proof {
            reveal_strlit("\n");
        }
        doc.replace(std::ops::Range { start: offset - 1, end: offset }, "\n");
        assert("\n"@ =~= seq!['\n']);
    }
    doc.set_selection(None);
    true
}

fn execute_insert_paragraph<D: EditorDocument>(doc: &mut D, range: Range) -> (r: bool)
    requires
        doc_inv(*old(doc)),
        action_ok(doc_text(*old(doc)), old(doc).doc().selection, EditorAction::InsertParagraph { range }),
    ensures
        outcome_holds(
            old(doc).doc(),
            final(doc).doc(),
            r,
            paragraph_outcome(doc_text(*old(doc)), range),
        ),
{
    let ghost s = doc_text(*doc);
    let range = range.normalize();
    let cursor_offset = range.start;
    // Delete selection if any.
    if !range.is_caret() {
        doc.delete(std::ops::Range { start: cursor_offset, end: range.end });
    }
    proof {
        lemma_utf8_len_subrange(s, cursor_offset as int, range.end as int);
        assert(doc_text(*doc) =~= after_range_deleted(s, range));
        reveal_strlit("\n\n");
    }
    insert_break(doc, cursor_offset, "\n\n");
    assert("\n\n"@ =~= seq!['\n', '\n']);
    doc.set_selection(None);
    true
}

fn execute_delete_backward<D: EditorDocument>(doc: &mut D, range: Range) -> (r: bool)
    requires
        doc_inv(*old(doc)),
        range.normalize().end <= doc_text(*old(doc)).len(),
    ensures
        outcome_holds(
            old(doc).doc(),
            final(doc).doc(),
            r,
            delete_backward_outcome(
                doc_text(*old(doc)),
                old(doc).doc().cursor.offset as int,
                old(doc).doc().selection,
                range,
            ),
        ),
{
    let ghost s = doc_text(*doc);
    let range = range.normalize();
    if !range.is_caret() {
        // Delete selection.
        doc.delete(std::ops::Range { start: range.start, end: range.end });
        return true;
    }
    if range.start == 0 {
        return false;
    }
    let cursor_offset = range.start;
    proof {
        doc.doc().buffer.lemma_inv_text_fits();
        lemma_utf8_len_bounds(s);
    }
    let prev_char = doc.char_at(cursor_offset - 1);
    let prev_is_newline = match prev_char {
        Some(c) => c == '\n',
        None => false,
    };
    if prev_is_newline {
        // Deleting a newline - handle paragraph merging.
        let newline_pos = cursor_offset - 1;
        let mut delete_start = newline_pos;
        let mut delete_end = cursor_offset;
        // Check for empty paragraph (double newline).
        if newline_pos > 0 {
            if let Some('\n') = doc.char_at(newline_pos - 1) {
                delete_start = newline_pos - 1;
            }
        }
        // Check for trailing zero-width char.
        if let Some(ch) = doc.char_at(delete_end) {
            if ch == '\u{200C}' || ch == '\u{200B}' {
                delete_end += 1;
            }
        }
        // Scan backwards through zero-width chars.
        let zw = count_leading_zero_width(doc, delete_start);
        proof {
            lemma_zero_width_run_bound(s, delete_start as int);
        }
        delete_start = delete_start - zw;
        doc.delete(std::ops::Range { start: delete_start, end: delete_end });
    } else {
        // Normal single char delete.
        doc.delete(std::ops::Range { start: cursor_offset - 1, end: cursor_offset });
    }
    doc.set_selection(None);
    true
}

fn execute_delete_forward<D: EditorDocument>(doc: &mut D, range: Range) -> (r: bool)
    requires
        doc_inv(*old(doc)),
        !range.normalize().is_caret() ==> range.normalize().end <= doc_text(*old(doc)).len(),
    ensures
        outcome_holds(
            old(doc).doc(),
            final(doc).doc(),
            r,
            delete_forward_outcome(
                doc_text(*old(doc)),
                old(doc).doc().cursor.offset as int,
                old(doc).doc().selection,
                range,
            ),
        ),
{
    let range = range.normalize();
    if !range.is_caret() {
        doc.delete(std::ops::Range { start: range.start, end: range.end });
        return true;
    }
    if range.start >= doc.len_chars() {
        return false;
    }
    doc.delete(std::ops::Range { start: range.start, end: range.start + 1 });
    doc.set_selection(None);
    true
}

fn execute_delete_word_backward<D: EditorDocument>(doc: &mut D, range: Range) -> (r: bool)
    requires
        doc_inv(*old(doc)),
        !range.normalize().is_caret() ==> range.normalize().end <= doc_text(*old(doc)).len(),
    ensures
        outcome_holds(
            old(doc).doc(),
            final(doc).doc(),
            r,
            delete_word_backward_outcome(
                doc_text(*old(doc)),
                old(doc).doc().cursor.offset as int,
                old(doc).doc().selection,
                range,
            ),
        ),
{
    let range = range.normalize();
    if !range.is_caret() {
        doc.delete(std::ops::Range { start: range.start, end: range.end });
        return true;
    }
    let cursor = range.start;
    let word_start = find_word_boundary_backward(doc, cursor);
    proof {
        lemma_word_back_in_text(doc_text(*doc), cursor as int);
    }
    if word_start < cursor {
        doc.delete(std::ops::Range { start: word_start, end: cursor });
    }
    doc.set_selection(None);
    true
}

fn execute_delete_word_forward<D: EditorDocument>(doc: &mut D, range: Range) -> (r: bool)
    requires
        doc_inv(*old(doc)),
        !range.normalize().is_caret() ==> range.normalize().end <= doc_text(*old(doc)).len(),
    ensures
        outcome_holds(
            old(doc).doc(),
            final(doc).doc(),
            r,
            delete_word_forward_outcome(
                doc_text(*old(doc)),
                old(doc).doc().cursor.offset as int,
                old(doc).doc().selection,
                range,
            ),
        ),
{
    let range = range.normalize();
    if !range.is_caret() {
        doc.delete(std::ops::Range { start: range.start, end: range.end });
        return true;
    }
    let cursor = range.start;
    let word_end = find_word_boundary_forward(doc, cursor);
    proof {
        lemma_word_fwd_in_text(doc_text(*doc), cursor as int);
    }
    if word_end > cursor {
        doc.delete(std::ops::Range { start: cursor, end: word_end });
    }
    doc.set_selection(None);
    true
}

fn execute_delete_to_line_start<D: EditorDocument>(doc: &mut D, range: Range) -> (r: bool)
    requires
        doc_inv(*old(doc)),
        range.normalize().start <= doc_text(*old(doc)).len(),
    ensures
        outcome_holds(
            old(doc).doc(),
            final(doc).doc(),
            r,
            delete_to_line_start_outcome(
                doc_text(*old(doc)),
                old(doc).doc().cursor.offset as int,
                range,
            ),
        ),
{
    let range = range.normalize();
    let cursor = range.start;
    let line_start = find_line_start(doc, cursor);
    proof {
        lemma_line_start_before(doc_text(*doc), cursor as int);
    }
    if line_start < cursor {
        doc.delete(std::ops::Range { start: line_start, end: cursor });
    }
    doc.set_selection(None);
    true
}

fn execute_delete_to_line_end<D: EditorDocument>(doc: &mut D, range: Range) -> (r: bool)
    requires
        doc_inv(*old(doc)),
    ensures
        outcome_holds(
            old(doc).doc(),
            final(doc).doc(),
            r,
            delete_to_line_end_outcome(
                doc_text(*old(doc)),
                old(doc).doc().cursor.offset as int,
                range,
            ),
        ),
{
    let range = range.normalize();
    let cursor = if range.is_caret() {
        range.start
    } else {
        range.end
    };
    let line_end = find_line_end(doc, cursor);
    proof {
        lemma_line_end_from(doc_text(*doc), cursor as int);
    }
    if cursor < line_end {
        doc.delete(std::ops::Range { start: cursor, end: line_end });
    }
    doc.set_selection(None);
    true
}

/// Undo or redo, then keep the cursor within the text.
fn execute_history<D: EditorDocument>(doc: &mut D, redo: bool) -> (r: bool)
    requires
        doc_inv(*old(doc)),
    ensures
        history_holds(old(doc).doc(), final(doc).doc(), r, redo),
{
    let done = if redo {
        doc.redo()
    } else {
        doc.undo()
    };
    if done {
        let max = doc.len_chars();
        let cursor = doc.cursor();
        if cursor.offset > max {
            doc.set_cursor_offset(max);
        }
        doc.set_selection(None);
        true
    } else {
        false
    }
}

/// Wrap the selection, or the word at the cursor, in `open` and `close`, and
/// put the cursor `shift` past the end of what was wrapped.
fn execute_wrap<D: EditorDocument>(doc: &mut D, open: &str, close: &str, shift: usize) -> (r: bool)
    requires
        doc_inv(*old(doc)),
        old(doc).doc().selection matches Some(x) ==> x.end() <= doc_text(*old(doc)).len(),
        2 * utf8_len(doc_text(*old(doc))) + 64 <= usize::MAX,
        open@.len() + close@.len() <= 8,
        shift <= 8,
    ensures
        outcome_holds(
            old(doc).doc(),
            final(doc).doc(),
            r,
            wrap_outcome(
                doc_text(*old(doc)),
                old(doc).doc().cursor.offset as int,
                old(doc).doc().selection,
                open@,
                close@,
                shift as int,
            ),
        ),
{
    let ghost s = doc_text(*doc);
    proof {
        lemma_utf8_len_bounds(s);
    }
    let cursor_offset = doc.cursor_offset();
    let (start, end) = match doc.selection() {
        Some(sel) => (sel.start(), sel.end()),
        None => {
            let b = find_word_boundaries(doc, cursor_offset);
            proof {
                lemma_space_bounds(s, cursor_offset as int);
            }
            b
        },
    };
    // Insert end marker first so start position stays valid.
    doc.insert(end, close);
    let ghost s1 = doc_text(*doc);
    doc.insert(start, open);
    proof {
        lemma_nothing_in_empty(s1, start as int);
    }
    doc.set_cursor_offset(end + shift);
    doc.set_selection(None);
    true
}

fn execute_select_all<D: EditorDocument>(doc: &mut D) -> (r: bool)
    requires
        doc_inv(*old(doc)),
    ensures
        outcome_holds(
            old(doc).doc(),
            final(doc).doc(),
            r,
            outcome(
                EditorAction::SelectAll,
                doc_text(*old(doc)),
                old(doc).doc().cursor.offset as int,
                old(doc).doc().selection,
            ),
        ),
{
    let len = doc.len_chars();
    doc.set_selection(Some(Selection::new(0, len)));
    doc.set_cursor_offset(len);
    true
}

fn execute_move_cursor<D: EditorDocument>(doc: &mut D, offset: usize) -> (r: bool)
    requires
        doc_inv(*old(doc)),
    ensures
        outcome_holds(
            old(doc).doc(),
            final(doc).doc(),
            r,
            outcome(
                EditorAction::MoveCursor { offset },
                doc_text(*old(doc)),
                old(doc).doc().cursor.offset as int,
                old(doc).doc().selection,
            ),
        ),
{
    let len = doc.len_chars();
    let offset = if offset <= len {
        offset
    } else {
        len
    };
    doc.set_cursor_offset(offset);
    doc.set_selection(None);
    true
}

fn execute_extend_selection<D: EditorDocument>(doc: &mut D, offset: usize) -> (r: bool)
    requires
        doc_inv(*old(doc)),
    ensures
        outcome_holds(
            old(doc).doc(),
            final(doc).doc(),
            r,
            outcome(
                EditorAction::ExtendSelection { offset },
                doc_text(*old(doc)),
                old(doc).doc().cursor.offset as int,
                old(doc).doc().selection,
            ),
        ),
{
    let len = doc.len_chars();
    let offset = if offset <= len {
        offset
    } else {
        len
    };
    let anchor = match doc.selection() {
        Some(s) => s.anchor,
        None => doc.cursor_offset(),
    };
    doc.set_selection(Some(Selection::new(anchor, offset)));
    doc.set_cursor_offset(offset);
    true
}

proof fn lemma_word_back_in_text(s: Seq<char>, c: int)
    requires
        0 <= c,
    ensures
        0 <= word_boundary_backward(s, c) <= c,
        word_boundary_backward(s, c) < c ==> c <= s.len(),
{
    crate::text_helpers::lemma_skip_back_bounds(s, c);
    crate::text_helpers::lemma_skip_back_bounds(s, crate::text_helpers::skip_non_word_back(s, c));
}

proof fn lemma_word_fwd_in_text(s: Seq<char>, c: int)
    requires
        0 <= c,
    ensures
        word_boundary_forward(s, c) <= s.len(),
        c < word_boundary_forward(s, c) ==> c < s.len(),
{
    if c < s.len() {
        crate::text_helpers::lemma_skip_fwd_bounds(s, c);
        crate::text_helpers::lemma_skip_fwd_bounds(s, crate::text_helpers::skip_word_fwd(s, c));
    }
}


/// Execute an editor action on a document.
///
/// This is the central dispatch point for all editor operations.
/// Returns true if the action was handled and the document was modified.
pub fn execute_action<D: EditorDocument>(doc: &mut D, action: &EditorAction) -> (r: bool)
    requires
        doc_inv(*old(doc)),
        action_ok(doc_text(*old(doc)), old(doc).doc().selection, *action),
    ensures
        match *action {
            EditorAction::Undo => history_holds(old(doc).doc(), final(doc).doc(), r, false),
            EditorAction::Redo => history_holds(old(doc).doc(), final(doc).doc(), r, true),
            _ => outcome_holds(
                old(doc).doc(),
                final(doc).doc(),
                r,
                outcome(
                    *action,
                    doc_text(*old(doc)),
                    old(doc).doc().cursor.offset as int,
                    old(doc).doc().selection,
                ),
            ),
        },
{
    proof {
        reveal_strlit("**");
        reveal_strlit("*");
        reveal_strlit("`");
        reveal_strlit("~~");
        reveal_strlit("[");
        reveal_strlit("](url)");
    }
    match action {
        EditorAction::Insert { text, range } => execute_insert(doc, text.as_str(), *range),
        EditorAction::InsertLineBreak { range } => execute_insert_line_break(doc, *range),
        EditorAction::InsertParagraph { range } => execute_insert_paragraph(doc, *range),
        EditorAction::DeleteBackward { range } => execute_delete_backward(doc, *range),
        EditorAction::DeleteForward { range } => execute_delete_forward(doc, *range),
        EditorAction::DeleteWordBackward { range } => execute_delete_word_backward(doc, *range),
        EditorAction::DeleteWordForward { range } => execute_delete_word_forward(doc, *range),
        EditorAction::DeleteToLineStart { range } => execute_delete_to_line_start(doc, *range),
        EditorAction::DeleteToLineEnd { range } => execute_delete_to_line_end(doc, *range),
        // Soft lines are the lines of the text here.
        EditorAction::DeleteSoftLineBackward { range } => execute_delete_to_line_start(doc, *range),
        EditorAction::DeleteSoftLineForward { range } => execute_delete_to_line_end(doc, *range),
        EditorAction::Undo => execute_history(doc, false),
        EditorAction::Redo => execute_history(doc, true),
        EditorAction::ToggleBold => {
            let r = execute_wrap(doc, "**", "**", 4);
            assert("**"@ =~= seq!['*', '*']);
            r
        },
        EditorAction::ToggleItalic => {
            let r = execute_wrap(doc, "*", "*", 2);
            assert("*"@ =~= seq!['*']);
            r
        },
        EditorAction::ToggleCode => {
            let r = execute_wrap(doc, "`", "`", 2);
            assert("`"@ =~= seq!['`']);
            r
        },
        EditorAction::ToggleStrikethrough => {
            let r = execute_wrap(doc, "~~", "~~", 4);
            assert("~~"@ =~= seq!['~', '~']);
            r
        },
        EditorAction::InsertLink => {
            // Insert [selected text](url)
            let r = execute_wrap(doc, "[", "](url)", 8);
            assert("["@ =~= seq!['[']);
            assert("](url)"@ =~= seq![']', '(', 'u', 'r', 'l', ')']);
            r
        },
        EditorAction::Cut | EditorAction::Copy | EditorAction::CopyAsHtml => {
            // Clipboard operations are handled by platform layer.
            false
        },
        EditorAction::Paste { range: _ } => {
            // Paste is handled by platform layer with clipboard access.
            false
        },
        EditorAction::SelectAll => execute_select_all(doc),
        EditorAction::MoveCursor { offset } => execute_move_cursor(doc, *offset),
        EditorAction::ExtendSelection { offset } => execute_extend_selection(doc, *offset),
    }
}


/// Typing `t` over a selection replaces it: the text keeps what came before
/// the selection (less the zero-width characters just before it), then holds
/// `t`, then what came after the selection; the selected characters are
/// gone, so the length changes by `t.len()` less the characters removed, and
/// the cursor lands just after `t`.
pub proof fn law_insert_replaces_selection(s: Seq<char>, t: Seq<char>, range: Range)
    requires
        range.normalize().end <= s.len(),
    ensures
        ({
            let r = range.normalize();
            let ds = r.start - zero_width_run_before(s, r.start as int);
            let o = insert_outcome(s, t, range);
            &&& 0 <= ds <= r.start
            &&& o.text.len() == s.len() - (r.end - ds) + t.len()
            &&& o.text.subrange(0, ds) == s.subrange(0, ds)
            &&& o.text.subrange(ds, ds + t.len()) == t
            &&& o.text.subrange(ds + t.len(), o.text.len() as int) == s.subrange(r.end as int, s.len() as int)
            &&& o.cursor == ds + t.len()
        }),
{
    let r = range.normalize();
    crate::text_helpers::lemma_zero_width_run_bound(s, r.start as int);
    let ds = r.start - zero_width_run_before(s, r.start as int);
    let o = insert_outcome(s, t, range);
    assert(o.text =~= s.take(ds) + t + s.skip(r.end as int));
    assert(o.text.subrange(0, ds) =~= s.subrange(0, ds));
    assert(o.text.subrange(ds, ds + t.len()) =~= t);
    assert(o.text.subrange(ds + t.len(), o.text.len() as int) =~= s.subrange(r.end as int, s.len() as int));
}

} // verus!
