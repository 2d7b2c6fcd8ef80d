//! Text navigation and analysis helpers.
//!
//! These functions work with the `EditorDocument` trait to provide
//! common text operations like finding line boundaries and word boundaries.
use crate::document::{EditorDocument, doc_inv, doc_text, line_start_before};
use crate::strings::{
    all_ascii_digits, decimal, digits_value, lemma_decimal_len, lemma_utf8_len_bounds,
    lemma_utf8_len_concat, spec_is_alphanumeric, str_byte_len, str_to_chars, string_from_chars,
    usize_to_string, utf8_len, char_is_alphanumeric,
};
use crate::text::TextBuffer;
use vstd::prelude::*;

verus! {

/// End of the line holding position `i`: the first `'\n'` at or after it, or the end of `s`.
pub open spec fn line_end_from(s: Seq<char>, i: int) -> int
    decreases s.len() - i,
{
    if i >= s.len() {
        s.len() as int
    } else if s[i] == '\n' {
        i
    } else {
        line_end_from(s, i + 1)
    }
}

pub proof fn lemma_line_end_from(s: Seq<char>, i: int)
    requires
        0 <= i,
    ensures
        i <= s.len() ==> i <= line_end_from(s, i),
        line_end_from(s, i) <= s.len(),
        line_end_from(s, i) < s.len() ==> s[line_end_from(s, i)] == '\n',
        forall|k: int| i <= k < line_end_from(s, i) ==> #[trigger] s[k] != '\n',
    decreases s.len() - i,
{
    if i < s.len() && s[i] != '\n' {
        lemma_line_end_from(s, i + 1);
    }
}

/// Word chars: alphanumerics and `_`.
pub open spec fn is_word_char(c: char) -> bool {
    spec_is_alphanumeric(c) || c == '_'
}

/// Moving back from `i` over non-word chars, stopping at a word char or past the text's end.
pub open spec fn skip_non_word_back(s: Seq<char>, i: int) -> int
    decreases i,
{
    if i <= 0 {
        0
    } else if i - 1 >= s.len() || is_word_char(s[i - 1]) {
        i
    } else {
        skip_non_word_back(s, i - 1)
    }
}

/// Moving back from `i` over word chars.
pub open spec fn skip_word_back(s: Seq<char>, i: int) -> int
    decreases i,
{
    if i <= 0 {
        0
    } else if i - 1 < s.len() && is_word_char(s[i - 1]) {
        skip_word_back(s, i - 1)
    } else {
        i
    }
}

/// Moving forward from `i` over word chars.
pub open spec fn skip_word_fwd(s: Seq<char>, i: int) -> int
    decreases s.len() - i,
{
    if i >= s.len() {
        i
    } else if is_word_char(s[i]) {
        skip_word_fwd(s, i + 1)
    } else {
        i
    }
}

/// Moving forward from `i` over non-word chars.
pub open spec fn skip_non_word_fwd(s: Seq<char>, i: int) -> int
    decreases s.len() - i,
{
    if i >= s.len() {
        i
    } else if is_word_char(s[i]) {
        i
    } else {
        skip_non_word_fwd(s, i + 1)
    }
}

/// Start of the word before `cursor`, after skipping the non-word chars just before it.
pub open spec fn word_boundary_backward(s: Seq<char>, cursor: int) -> int {
    if cursor == 0 {
        0
    } else {
        skip_word_back(s, skip_non_word_back(s, cursor))
    }
}

/// End of the word at `cursor` and of the non-word chars after it.
pub open spec fn word_boundary_forward(s: Seq<char>, cursor: int) -> int {
    if cursor >= s.len() {
        s.len() as int
    } else {
        skip_non_word_fwd(s, skip_word_fwd(s, cursor))
    }
}

pub proof fn lemma_skip_back_bounds(s: Seq<char>, i: int)
    requires
        0 <= i,
    ensures
        0 <= skip_non_word_back(s, i) <= i,
        0 <= skip_word_back(s, i) <= i,
    decreases i,
{
    if i > 0 {
        lemma_skip_back_bounds(s, i - 1);
    }
}

pub proof fn lemma_skip_fwd_bounds(s: Seq<char>, i: int)
    requires
        0 <= i <= s.len(),
    ensures
        i <= skip_word_fwd(s, i) <= s.len(),
        i <= skip_non_word_fwd(s, i) <= s.len(),
    decreases s.len() - i,
{
    if i < s.len() {
        lemma_skip_fwd_bounds(s, i + 1);
    }
}

/// Find start of line containing offset.
pub fn find_line_start<D: EditorDocument>(doc: &D, offset: usize) -> (r: usize)
    ensures
        r == line_start_before(doc_text(*doc), offset as int),
{
    if offset == 0 {
        return 0;
    }
    let mut pos = offset;
    while pos > 0
        invariant
            pos <= offset,
            line_start_before(doc_text(*doc), pos as int) == line_start_before(
                doc_text(*doc),
                offset as int,
            ),
        decreases pos,
    {
        if let Some('\n') = doc.char_at(pos - 1) {
            return pos;
        }
        pos -= 1;
    }
    0
}

/// Find end of line containing offset (position of newline or end of doc).
pub fn find_line_end<D: EditorDocument>(doc: &D, offset: usize) -> (r: usize)
    ensures
        r == line_end_from(doc_text(*doc), offset as int),
{
    let len = doc.len_chars();
    if offset >= len {
        return len;
    }
    let mut pos = offset;
    while pos < len
        invariant
            offset <= pos <= len,
            len == doc_text(*doc).len(),
            line_end_from(doc_text(*doc), pos as int) == line_end_from(
                doc_text(*doc),
                offset as int,
            ),
        decreases len - pos,
    {
        if let Some('\n') = doc.char_at(pos) {
            return pos;
        }
        pos += 1;
    }
    len
}

/// Find word boundary backward from cursor.
pub fn find_word_boundary_backward<D: EditorDocument>(doc: &D, cursor: usize) -> (r: usize)
    ensures
        r == word_boundary_backward(doc_text(*doc), cursor as int),
{
    if cursor == 0 {
        return 0;
    }
    let ghost s = doc_text(*doc);
    let mut pos = cursor;
    // Skip any whitespace/punctuation immediately before cursor.
    while pos > 0
        invariant
            pos <= cursor,
            s == doc_text(*doc),
            skip_non_word_back(s, pos as int) == skip_non_word_back(s, cursor as int),
        ensures
            pos == skip_non_word_back(s, cursor as int),
        decreases pos,
    {
        match doc.char_at(pos - 1) {
            Some(c) => {
                if char_is_alphanumeric(c) || c == '_' {
                    break ;
                }
                pos -= 1;
            },
            None => {
                break ;
            },
        }
    }
    let ghost mid = pos as int;
    // Skip the word characters.
    while pos > 0
        invariant
            pos <= mid,
            s == doc_text(*doc),
            skip_word_back(s, pos as int) == skip_word_back(s, mid),
        ensures
            pos == skip_word_back(s, mid),
        decreases pos,
    {
        match doc.char_at(pos - 1) {
            Some(c) => {
                if char_is_alphanumeric(c) || c == '_' {
                    pos -= 1;
                } else {
                    break ;
                }
            },
            None => {
                break ;
            },
        }
    }
    pos
}

/// Find word boundary forward from cursor.
pub fn find_word_boundary_forward<D: EditorDocument>(doc: &D, cursor: usize) -> (r: usize)
    ensures
        r == word_boundary_forward(doc_text(*doc), cursor as int),
{
    let len = doc.len_chars();
    if cursor >= len {
        return len;
    }
    let ghost s = doc_text(*doc);
    let mut pos = cursor;
    // Skip word characters first.
    while pos < len
        invariant
            cursor <= pos <= len,
            len == s.len(),
            s == doc_text(*doc),
            skip_word_fwd(s, pos as int) == skip_word_fwd(s, cursor as int),
        ensures
            pos == skip_word_fwd(s, cursor as int),
        decreases len - pos,
    {
        match doc.char_at(pos) {
            Some(c) => {
                if char_is_alphanumeric(c) || c == '_' {
                    pos += 1;
                } else {
                    break ;
                }
            },
            None => {
                break ;
            },
        }
    }
    let ghost mid = pos as int;
    // Then skip whitespace/punctuation.
    while pos < len
        invariant
            mid <= pos <= len,
            len == s.len(),
            s == doc_text(*doc),
            skip_non_word_fwd(s, pos as int) == skip_non_word_fwd(s, mid),
        ensures
            pos == skip_non_word_fwd(s, mid),
        decreases len - pos,
    {
        match doc.char_at(pos) {
            Some(c) => {
                if char_is_alphanumeric(c) || c == '_' {
                    break ;
                }
                pos += 1;
            },
            None => {
                break ;
            },
        }
    }
    pos
}


/// Describes what kind of list item the cursor is in, if any.
#[derive(Debug)]
pub enum ListContext {
    /// Unordered list with the given marker char ('-' or '*') and indentation.
    Unordered { indent: String, marker: char },
    /// Ordered list with the current number and indentation.
    Ordered { indent: String, number: usize },
}

/// A list context, as specifications see it.
pub enum SpecListContext {
    Unordered { indent: Seq<char>, marker: char },
    Ordered { indent: Seq<char>, number: nat },
}

impl ListContext {
    pub open spec fn view(&self) -> SpecListContext {
        match self {
            ListContext::Unordered { indent, marker } => SpecListContext::Unordered {
                indent: indent@,
                marker: *marker,
            },
            ListContext::Ordered { indent, number } => SpecListContext::Ordered {
                indent: indent@,
                number: *number as nat,
            },
        }
    }
}

impl Clone for ListContext {
    fn clone(&self) -> (r: Self)
        ensures
            r@ == self@,
    {
        match self {
            ListContext::Unordered { indent, marker } => ListContext::Unordered {
                indent: indent.clone(),
                marker: *marker,
            },
            ListContext::Ordered { indent, number } => ListContext::Ordered {
                indent: indent.clone(),
                number: *number,
            },
        }
    }
}

/// Index just past the leading spaces and tabs of `line`, starting at `i`.
pub open spec fn indent_end(line: Seq<char>, i: int) -> int
    decreases line.len() - i,
{
    if 0 <= i < line.len() && (line[i] == ' ' || line[i] == '\t') {
        indent_end(line, i + 1)
    } else {
        i
    }
}

pub proof fn lemma_indent_end(line: Seq<char>, i: int)
    requires
        0 <= i <= line.len(),
    ensures
        i <= indent_end(line, i) <= line.len(),
    decreases line.len() - i,
{
    if i < line.len() && (line[i] == ' ' || line[i] == '\t') {
        lemma_indent_end(line, i + 1);
    }
}

/// First index `k >= i` where `". "` starts in `t`, or -1.
pub open spec fn find_dot_space(t: Seq<char>, i: int) -> int
    decreases t.len() - i,
{
    if i < 0 || i + 1 >= t.len() {
        -1
    } else if t[i] == '.' && t[i + 1] == ' ' {
        i
    } else {
        find_dot_space(t, i + 1)
    }
}

proof fn lemma_find_dot_space(t: Seq<char>, i: int)
    requires
        0 <= i,
    ensures
        find_dot_space(t, i) == -1 || (i <= find_dot_space(t, i) && find_dot_space(t, i) + 1
            < t.len()),
    decreases t.len() - i,
{
    if i + 1 < t.len() && !(t[i] == '.' && t[i + 1] == ' ') {
        lemma_find_dot_space(t, i + 1);
    }
}

/// The list item that a line starts, if any: after its indentation, `"- "` or
/// `"* "` starts an unordered item, and a run of ASCII digits that fits a
/// `usize` followed by the first `". "` of the line starts an ordered one.
pub open spec fn spec_list_context(line: Seq<char>) -> Option<SpecListContext> {
    let k = indent_end(line, 0);
    let indent = line.take(k);
    let t = line.skip(k);
    if t.len() >= 2 && t[0] == '-' && t[1] == ' ' {
        Some(SpecListContext::Unordered { indent, marker: '-' })
    } else if t.len() >= 2 && t[0] == '*' && t[1] == ' ' {
        Some(SpecListContext::Unordered { indent, marker: '*' })
    } else {
        let d = find_dot_space(t, 0);
        if d < 0 {
            None
        } else {
            let num = t.take(d);
            if num.len() > 0 && all_ascii_digits(num) && digits_value(num) <= usize::MAX {
                Some(SpecListContext::Ordered { indent, number: digits_value(num) })
            } else {
                None
            }
        }
    }
}

/// The list context at `cursor`: that of the line holding it, unless the line is empty.
pub open spec fn list_context_at(s: Seq<char>, cursor: int) -> Option<SpecListContext> {
    let ls = line_start_before(s, cursor);
    let le = line_end_from(s, cursor);
    if ls >= le {
        None
    } else {
        spec_list_context(s.subrange(ls, le))
    }
}

proof fn lemma_digits_value_prefix(s: Seq<char>, j: int)
    requires
        all_ascii_digits(s),
        0 <= j <= s.len(),
    ensures
        digits_value(s.take(j)) <= digits_value(s),
    decreases s.len(),
{
    if j < s.len() {
        assert(all_ascii_digits(s.drop_last())) by {
            assert forall|i: int| 0 <= i < s.drop_last().len() implies '0' <= #[trigger] s.drop_last()[i] <= '9' by {
                assert(s.drop_last()[i] == s[i]);
            }
        }
        lemma_digits_value_prefix(s.drop_last(), j);
        assert(s.drop_last().take(j) =~= s.take(j));
    } else {
        assert(s.take(j) =~= s);
    }
}

/// Parses a run of ASCII digits, or `None` when its value does not fit a `usize`.
fn parse_digits(v: &Vec<char>, start: usize, end: usize) -> (r: Option<usize>)
    requires
        start <= end <= v@.len(),
        all_ascii_digits(v@.subrange(start as int, end as int)),
    ensures
        r matches Some(n) ==> n == digits_value(v@.subrange(start as int, end as int)),
        r is None ==> digits_value(v@.subrange(start as int, end as int)) > usize::MAX,
{
    let ghost num = v@.subrange(start as int, end as int);
    let mut value: usize = 0;
    let mut i = start;
    while i < end
        invariant
            start <= i <= end <= v@.len(),
            num == v@.subrange(start as int, end as int),
            all_ascii_digits(num),
            value == digits_value(num.take(i - start)),
        decreases end - i,
    {
        let ghost pre = num.take(i - start);
        let ghost next = num.take(i - start + 1);
        assert(next.drop_last() =~= pre);
        assert(next.last() == v@[i as int]);
        assert('0' <= num[i - start] <= '9');
        let d = (v[i] as u32 - 48) as usize;
        let m = value.checked_mul(10);
        match m {
            Some(m) => {
                match m.checked_add(d) {
                    Some(nv) => {
                        value = nv;
                    },
                    None => {
                        proof {
                            lemma_digits_value_prefix(num, i - start + 1);
                        }
                        return None;
                    },
                }
            },
            None => {
                proof {
                    lemma_digits_value_prefix(num, i - start + 1);
                }
                return None;
            },
        }
        i = i + 1;
    }
    assert(num.take(end - start) =~= num);
    Some(value)
}

/// Detect if cursor is in a list item and return context for continuation.
pub fn detect_list_context<D: EditorDocument>(doc: &D, cursor_offset: usize) -> (r: Option<
    ListContext,
>)
    ensures
        match r {
            None => list_context_at(doc_text(*doc), cursor_offset as int) is None,
            Some(ctx) => list_context_at(doc_text(*doc), cursor_offset as int) == Some(ctx@),
        },
{
    let line_start = find_line_start(doc, cursor_offset);
    let line_end = find_line_end(doc, cursor_offset);
    proof {
        crate::document::lemma_line_start_before(doc_text(*doc), cursor_offset as int);
        lemma_line_end_from(doc_text(*doc), cursor_offset as int);
    }

    if line_start >= line_end {
        return None;
    }

    let line = match doc.slice(std::ops::Range { start: line_start, end: line_end }) {
        Some(l) => l,
        None => {
            return None;
        },
    };
    let v = str_to_chars(line.as_str());
    let ghost l = v@;

    // Parse indentation.
    let mut k: usize = 0;
    while k < v.len() && (v[k] == ' ' || v[k] == '\t')
        invariant
            k <= v@.len(),
            l == v@,
            indent_end(l, k as int) == indent_end(l, 0),
        decreases v@.len() - k,
    {
        k = k + 1;
    }
    let indent = string_from_chars(v.as_slice(), 0, k);
    let ghost t = l.skip(k as int);
    assert(indent@ =~= l.take(k as int));

    // Check for unordered list marker: "- " or "* ".
    if k < v.len() && k + 1 < v.len() && v[k] == '-' && v[k + 1] == ' ' {
        return Some(ListContext::Unordered { indent, marker: '-' });
    }
    if k < v.len() && k + 1 < v.len() && v[k] == '*' && v[k + 1] == ' ' {
        return Some(ListContext::Unordered { indent, marker: '*' });
    }
    // Check for ordered list marker: "1. ", "2. ", etc.
    let mut d = k;
    while d < v.len() && d + 1 < v.len() && !(v[d] == '.' && v[d + 1] == ' ')
        invariant
            k <= d <= v@.len(),
            l == v@,
            t == l.skip(k as int),
            find_dot_space(t, (d - k) as int) == find_dot_space(t, 0),
        decreases v@.len() - d,
    {
        d = d + 1;
    }
    proof {
        lemma_find_dot_space(t, 0);
    }
    if d >= v.len() || d + 1 >= v.len() {
        return None;
    }
    // `d` is where the first ". " starts.
    let mut j = k;
    while j < d && v[j] >= '0' && v[j] <= '9'
        invariant
            k <= j <= d < v@.len(),
            l == v@,
            forall|i: int| k <= i < j ==> '0' <= #[trigger] l[i] <= '9',
        decreases d - j,
    {
        j = j + 1;
    }
    let ghost num = t.take((d - k) as int);
    assert(num =~= l.subrange(k as int, d as int));
    if d == k || j < d {
        proof {
            if j < d {
                assert(num[j - k] == l[j as int]);
            }
        }
        return None;
    }
    assert(all_ascii_digits(num)) by {
        assert forall|i: int| 0 <= i < num.len() implies '0' <= #[trigger] num[i] <= '9' by {
            assert(num[i] == l[k + i]);
        }
    }
    match parse_digits(&v, k, d) {
        Some(number) => Some(ListContext::Ordered { indent, number }),
        None => None,
    }
}

/// The number of bytes of the marker of a list item with context `ctx`
/// (indentation, marker, and the space after it).
pub open spec fn marker_len(ctx: SpecListContext) -> nat {
    match ctx {
        SpecListContext::Unordered { indent, .. } => utf8_len(indent) + 2,
        SpecListContext::Ordered { indent, number } => utf8_len(indent) + decimal(number).len()
            + 2,
    }
}

/// The indentation of a list context.
pub open spec fn ctx_indent(ctx: SpecListContext) -> Seq<char> {
    match ctx {
        SpecListContext::Unordered { indent, .. } => indent,
        SpecListContext::Ordered { indent, .. } => indent,
    }
}

/// The line holding `cursor` is no longer, in UTF-8 bytes, than the marker of `ctx`.
pub open spec fn list_item_empty_at(s: Seq<char>, cursor: int, ctx: SpecListContext) -> bool {
    let ls = line_start_before(s, cursor);
    let le = line_end_from(s, cursor);
    ls <= le && utf8_len(s.subrange(ls, le)) <= marker_len(ctx)
}

/// Check if the current list item is empty (just the marker, no content).
pub fn is_list_item_empty<D: EditorDocument>(
    doc: &D,
    cursor_offset: usize,
    ctx: &ListContext,
) -> (r: bool)
    requires
        doc_inv(*doc),
        utf8_len(ctx_indent(ctx@)) + 22 <= usize::MAX,
    ensures
        r == list_item_empty_at(doc_text(*doc), cursor_offset as int, ctx@),
{
    let line_start = find_line_start(doc, cursor_offset);
    let line_end = find_line_end(doc, cursor_offset);
    proof {
        crate::document::lemma_line_start_before(doc_text(*doc), cursor_offset as int);
        lemma_line_end_from(doc_text(*doc), cursor_offset as int);
    }
    if line_start > line_end {
        return false;
    }
    let line = match doc.slice(std::ops::Range { start: line_start, end: line_end }) {
        Some(s) => s,
        None => {
            return false;
        },
    };
    proof {
        let s = doc_text(*doc);
        doc.doc().buffer.lemma_inv_text_fits();
        lemma_utf8_len_concat(s.take(line_start as int), s.subrange(line_start as int, line_end as int));
        lemma_utf8_len_concat(
            s.take(line_start as int) + s.subrange(line_start as int, line_end as int),
            s.skip(line_end as int),
        );
        assert(s.take(line_start as int) + s.subrange(line_start as int, line_end as int) + s.skip(
            line_end as int,
        ) =~= s);
    }

    // Calculate expected marker length.
    let marker_len = match ctx {
        ListContext::Unordered { indent, .. } => str_byte_len(indent.as_str()) + 2,
        ListContext::Ordered { indent, number } => {
            let digits = usize_to_string(*number);
            proof {
                lemma_decimal_len(*number);
                lemma_utf8_len_bounds(digits@);
            }
            str_byte_len(indent.as_str()) + digits.as_str().unicode_len() + 2
        },
    };
    str_byte_len(line.as_str()) <= marker_len
}

/// Zero-width chars used to give the cursor a place inside hidden syntax: ZWNJ and ZWSP.
pub open spec fn is_zero_width(c: char) -> bool {
    c == '\u{200C}' || c == '\u{200B}'
}

/// Number of zero-width chars just before position `i`.
pub open spec fn zero_width_run_before(s: Seq<char>, i: int) -> nat
    decreases i,
{
    if i <= 0 {
        0
    } else if i - 1 < s.len() && is_zero_width(s[i - 1]) {
        1 + zero_width_run_before(s, i - 1)
    } else {
        0
    }
}

/// A run of zero-width chars before `i` is no longer than `i`.
pub proof fn lemma_zero_width_run_bound(s: Seq<char>, i: int)
    requires
        0 <= i,
    ensures
        zero_width_run_before(s, i) <= i,
    decreases i,
{
    if i > 0 {
        lemma_zero_width_run_bound(s, i - 1);
    }
}

/// Count leading zero-width characters before offset.
pub fn count_leading_zero_width<D: EditorDocument>(doc: &D, offset: usize) -> (r: usize)
    ensures
        r == zero_width_run_before(doc_text(*doc), offset as int),
{
    let mut count: usize = 0;
    let mut pos = offset;
    while pos > 0
        invariant
            pos <= offset,
            count + pos == offset,
            count + zero_width_run_before(doc_text(*doc), pos as int) == zero_width_run_before(
                doc_text(*doc),
                offset as int,
            ),
        ensures
            count == zero_width_run_before(doc_text(*doc), offset as int),
        decreases pos,
    {
        match doc.char_at(pos - 1) {
            Some(c) => {
                if c == '\u{200C}' || c == '\u{200B}' {
                    count += 1;
                    pos -= 1;
                } else {
                    break ;
                }
            },
            None => {
                break ;
            },
        }
    }
    count
}

/// Check if character at offset is a zero-width character.
pub fn is_zero_width_char<D: EditorDocument>(doc: &D, offset: usize) -> (r: bool)
    ensures
        r == (offset < doc_text(*doc).len() && is_zero_width(doc_text(*doc)[offset as int])),
{
    match doc.char_at(offset) {
        Some(c) => c == '\u{200C}' || c == '\u{200B}',
        None => false,
    }
}

/// What `usize`'s `FromStr` makes of `s`: an optional `+`, then one or more
/// ASCII digits whose value fits a `usize`.
pub open spec fn usize_from_str(s: Seq<char>) -> Option<nat> {
    let digits = if s.len() > 0 && s[0] == '+' {
        s.skip(1)
    } else {
        s
    };
    if digits.len() > 0 && all_ascii_digits(digits) && digits_value(digits) <= usize::MAX {
        Some(digits_value(digits))
    } else {
        None
    }
}

/// Reads a `usize` as its `FromStr` does; `None` where `attr` is no such number.
pub fn parse_usize(attr: &str) -> (r: Option<usize>)
    ensures
        match usize_from_str(attr@) {
            Some(n) => r == Some(n as usize),
            None => r is None,
        },
{
    let v = str_to_chars(attr);
    let n = v.len();
    let start: usize = if n > 0 && v[0] == '+' {
        1
    } else {
        0
    };
    let ghost digits = if attr@.len() > 0 && attr@[0] == '+' {
        attr@.skip(1)
    } else {
        attr@
    };
    proof {
        assert(digits =~= v@.subrange(start as int, n as int));
    }
    if start == n {
        return None;
    }
    let mut i: usize = start;
    while i < n
        invariant
            start <= i <= n == v@.len(),
            digits =~= v@.subrange(start as int, n as int),
            digits == (if attr@.len() > 0 && attr@[0] == '+' {
                attr@.skip(1)
            } else {
                attr@
            }),
            forall|j: int| start <= j < i ==> '0' <= #[trigger] v@[j] <= '9',
        decreases n - i,
    {
        let c = v[i];
        if !('0' <= c && c <= '9') {
            proof {
                assert(digits[i - start] == c);
                assert(!all_ascii_digits(digits));
            }
            return None;
        }
        i = i + 1;
    }
    proof {
        assert forall|j: int| 0 <= j < digits.len() implies '0' <= #[trigger] digits[j] <= '9' by {
            assert(digits[j] == v@[start + j]);
        }
    }
    parse_digits(&v, start, n)
}

} // verus!
