//! Text buffer abstraction for editor storage.
//!
//! The `TextBuffer` trait provides a common interface for text storage,
//! allowing the editor to work with different backends. `EditorRope` is the
//! ropey-backed implementation used for local editing.
use crate::strings::{str_byte_len, 
    char_utf8_len, last_index_of, lemma_last_index_of, lemma_utf8_len_bounds,
    lemma_utf8_len_concat, lemma_utf8_len_take_mono, str_contains_char, str_rfind_char, utf8_len,
};
use crate::types::{instant_now, EditInfo, BLOCK_SYNTAX_ZONE};
use vstd::prelude::*;

verus! {

// ---------------------------------------------------------------------------
// Specifications shared by all buffers
// ---------------------------------------------------------------------------

/// `s` with `t` inserted at char offset `i`.
pub open spec fn spec_insert(s: Seq<char>, i: int, t: Seq<char>) -> Seq<char> {
    s.take(i) + t + s.skip(i)
}

/// `s` with the chars in `[start, end)` removed.
pub open spec fn spec_delete(s: Seq<char>, start: int, end: int) -> Seq<char> {
    s.take(start) + s.skip(end)
}

/// Deleting what was just inserted gives the text back.
pub proof fn law_delete_undoes_insert(s: Seq<char>, i: int, t: Seq<char>)
    requires
        0 <= i <= s.len(),
    ensures
        spec_delete(spec_insert(s, i, t), i, i + t.len()) == s,
{
    let u = spec_insert(s, i, t);
    assert(u.take(i) =~= s.take(i));
    assert(u.skip(i + t.len()) =~= s.skip(i));
    assert(s.take(i) + s.skip(i) =~= s);
}

/// Inserting again what was just deleted gives the text back.
pub proof fn law_insert_undoes_delete(s: Seq<char>, start: int, end: int)
    requires
        0 <= start <= end <= s.len(),
    ensures
        spec_insert(spec_delete(s, start, end), start, s.subrange(start, end)) == s,
{
    let d = spec_delete(s, start, end);
    assert(d.take(start) =~= s.take(start));
    assert(d.skip(start) =~= s.skip(end));
    assert(s.take(start) + s.subrange(start, end) + s.skip(end) =~= s);
}

/// Char index that byte index `b` of the UTF-8 encoding of `s` falls in:
/// the char the byte belongs to, or `s.len()` for the one-past-the-end byte.
pub open spec fn is_char_of_byte(s: Seq<char>, b: int, c: int) -> bool {
    &&& 0 <= c <= s.len()
    &&& utf8_len(s.take(c)) <= b
    &&& c < s.len() ==> b < utf8_len(s.take(c + 1))
    &&& c == s.len() ==> b == utf8_len(s)
}

/// Block-syntax zone test of the generic buffer: the offset is within the
/// first `BLOCK_SYNTAX_ZONE` chars of the document, or a newline occurs among
/// the `BLOCK_SYNTAX_ZONE + 1` chars before it close enough to the offset,
/// where that newline's position is taken as a byte index into the slice.
pub open spec fn default_block_zone(s: Seq<char>, offset: int) -> bool {
    if offset <= BLOCK_SYNTAX_ZONE {
        true
    } else if offset > s.len() {
        false
    } else {
        let search_start = offset - (BLOCK_SYNTAX_ZONE + 1);
        let window = s.subrange(search_start, offset);
        let k = last_index_of(window, '\n');
        if k < 0 {
            false
        } else {
            let newline_abs_pos = search_start + utf8_len(window.take(k));
            let dist = if offset >= newline_abs_pos + 1 {
                offset - (newline_abs_pos + 1)
            } else {
                0
            };
            dist <= BLOCK_SYNTAX_ZONE
        }
    }
}

/// Characters that end a line on their own (CR ends one unless an LF follows).
pub open spec fn is_single_line_break(c: char) -> bool {
    c == '\n' || c == '\u{b}' || c == '\u{c}' || c == '\u{85}' || c == '\u{2028}' || c
        == '\u{2029}'
}

/// Position `i` of `s` starts a line: the start of the text, or right after a
/// line break, a CR LF pair counting as one break.
pub open spec fn is_line_start(s: Seq<char>, i: int) -> bool {
    i == 0 || (0 < i <= s.len() && (is_single_line_break(s[i - 1]) || (s[i - 1] == '\r' && !(i
        < s.len() && s[i] == '\n'))))
}

/// Number of line breaks before position `i` (line starts in `(0, i]`).
pub open spec fn line_breaks_before(s: Seq<char>, i: int) -> nat
    decreases i,
{
    if i <= 0 {
        0
    } else {
        line_breaks_before(s, i - 1) + if is_line_start(s, i) {
            1nat
        } else {
            0nat
        }
    }
}

/// Start of the line that holds position `i`.
pub open spec fn line_start_of(s: Seq<char>, i: int) -> int
    decreases i,
{
    if i <= 0 {
        0
    } else if is_line_start(s, i) {
        i
    } else {
        line_start_of(s, i - 1)
    }
}

proof fn lemma_line_breaks_mono(s: Seq<char>, i: int, j: int)
    requires
        i <= j,
    ensures
        line_breaks_before(s, i) <= line_breaks_before(s, j),
        0 < j && i < j && is_line_start(s, j) ==> line_breaks_before(s, i) < line_breaks_before(
            s,
            j,
        ),
    decreases j - i,
{
    if i < j {
        lemma_line_breaks_mono(s, i, j - 1);
    }
}

proof fn lemma_line_start_of(s: Seq<char>, i: int)
    requires
        0 <= i,
    ensures
        0 <= line_start_of(s, i) <= i,
        is_line_start(s, line_start_of(s, i)),
        line_breaks_before(s, line_start_of(s, i)) == line_breaks_before(s, i),
    decreases i,
{
    if i > 0 && !is_line_start(s, i) {
        lemma_line_start_of(s, i - 1);
    }
}

/// A line start with as many breaks before it as `i` has is the start of `i`'s line.
proof fn lemma_line_start_unique(s: Seq<char>, i: int, r: int)
    requires
        0 <= i,
        0 <= r,
        is_line_start(s, r),
        line_breaks_before(s, r) == line_breaks_before(s, i),
    ensures
        r == line_start_of(s, i),
{
    lemma_line_start_of(s, i);
    let ls = line_start_of(s, i);
    if r > i {
        lemma_line_breaks_mono(s, i, r);
    }
    if r < ls {
        lemma_line_breaks_mono(s, r, ls);
    }
    if ls < r {
        lemma_line_breaks_mono(s, ls, r);
        lemma_line_breaks_mono(s, r, i);
    }
}

// ---------------------------------------------------------------------------
// The TextBuffer trait
// ---------------------------------------------------------------------------

/// Validity of a buffer's internal state, shared by the text and undo views of a buffer.
pub trait BufferInvariant {
    /// The buffer's internal state is consistent.
    spec fn inv(&self) -> bool;
}

/// The edit an insertion of `text` at `offset` into `old_text` records: where,
/// how much was inserted and nothing deleted, whether a newline came in, and
/// the length after.
pub open spec fn insert_recorded(old_text: Seq<char>, offset: int, text: Seq<char>, e: Option<EditInfo>) -> bool {
    &&& e is Some
    &&& e.unwrap().edit_char_pos == offset
    &&& e.unwrap().inserted_len == text.len()
    &&& e.unwrap().deleted_len == 0
    &&& e.unwrap().contains_newline == text.contains('\n')
    &&& e.unwrap().doc_len_after == old_text.len() + text.len()
}

/// The edit a deletion of `[start, end)` from `old_text` records: where, how
/// much was deleted and nothing inserted, whether a newline went, and the
/// length after.
pub open spec fn delete_recorded(old_text: Seq<char>, start: int, end: int, e: Option<EditInfo>) -> bool {
    &&& e is Some
    &&& e.unwrap().edit_char_pos == start
    &&& e.unwrap().inserted_len == 0
    &&& e.unwrap().deleted_len == end - start
    &&& e.unwrap().contains_newline == old_text.subrange(start, end).contains('\n')
    &&& e.unwrap().doc_len_after == old_text.len() - (end - start)
}

/// A text buffer that supports efficient editing and offset conversion.
///
/// All offsets are in Unicode scalar values (chars), not bytes or UTF-16.
pub trait TextBuffer: BufferInvariant + Sized {
    /// The text held by the buffer.
    spec fn text(&self) -> Seq<char>;

    /// The last edit recorded by the buffer.
    spec fn spec_last_edit(&self) -> Option<EditInfo>;

    /// A valid buffer's text fits in memory as UTF-8.
    proof fn lemma_inv_text_fits(&self)
        requires
            self.inv(),
        ensures
            utf8_len(self.text()) <= usize::MAX,
    ;

    /// Total length in bytes (UTF-8).
    fn len_bytes(&self) -> (r: usize)
        ensures
            r == utf8_len(self.text()),
    ;

    /// Total length in chars (Unicode scalar values).
    fn len_chars(&self) -> (r: usize)
        ensures
            r == self.text().len(),
    ;

    /// Check if empty.
    fn is_empty(&self) -> (r: bool)
        ensures
            r == (self.text().len() == 0),
    {
        self.len_chars() == 0
    }

    /// Insert text at char offset.
    fn insert(&mut self, char_offset: usize, text: &str)
        requires
            old(self).inv(),
            char_offset <= old(self).text().len(),
            old(self).text().len() + text@.len() <= usize::MAX,
        ensures
            final(self).inv(),
            final(self).text() == spec_insert(old(self).text(), char_offset as int, text@),
            insert_recorded(old(self).text(), char_offset as int, text@, final(self).spec_last_edit()),
    ;

    /// Append text at end.
    ///
    /// Default implementation calls insert at len_chars(). Override if
    /// the underlying buffer has a more efficient append operation.
    fn push(&mut self, text: &str)
        requires
            old(self).inv(),
            old(self).text().len() + text@.len() <= usize::MAX,
        ensures
            final(self).inv(),
            final(self).text() == old(self).text() + text@,
    {
        let n = self.len_chars();
        self.insert(n, text);
        proof {
            assert(spec_insert(old(self).text(), n as int, text@) =~= old(self).text() + text@);
        }
    }

    /// Delete char range.
    fn delete(&mut self, char_range: std::ops::Range<usize>)
        requires
            old(self).inv(),
            char_range.start <= char_range.end <= old(self).text().len(),
        ensures
            final(self).inv(),
            final(self).text() == spec_delete(
                old(self).text(),
                char_range.start as int,
                char_range.end as int,
            ),
            delete_recorded(
                old(self).text(),
                char_range.start as int,
                char_range.end as int,
                final(self).spec_last_edit(),
            ),
    ;

    /// Replace char range with text.
    fn replace(&mut self, char_range: std::ops::Range<usize>, text: &str)
        requires
            old(self).inv(),
            char_range.start <= char_range.end <= old(self).text().len(),
            old(self).text().len() + text@.len() <= usize::MAX,
        ensures
            final(self).inv(),
            final(self).text() == old(self).text().take(char_range.start as int) + text@ + old(
                self,
            ).text().skip(char_range.end as int),
    {
        let start = char_range.start;
        self.delete(char_range);
        self.insert(start, text);
        proof {
            let s = old(self).text();
            let e = char_range.end as int;
            let d = spec_delete(s, start as int, e);
            assert(d.take(start as int) =~= s.take(start as int));
            assert(d.skip(start as int) =~= s.skip(e));
        }
    }

    /// Get a slice of the text. Returns None if the range ends past the text.
    fn slice(&self, char_range: std::ops::Range<usize>) -> (r: Option<String>)
        requires
            char_range.start <= char_range.end,
        ensures
            r is Some <==> char_range.end <= self.text().len(),
            r matches Some(s) ==> s@ == self.text().subrange(
                char_range.start as int,
                char_range.end as int,
            ),
    ;

    /// Get character at offset. Returns None if out of bounds.
    fn char_at(&self, char_offset: usize) -> (r: Option<char>)
        ensures
            r == (if char_offset < self.text().len() {
                Some(self.text()[char_offset as int])
            } else {
                None::<char>
            }),
    ;

    /// Convert entire buffer to String.
    fn to_string(&self) -> (r: String)
        ensures
            r@ == self.text(),
    ;

    /// Convert char offset to byte offset.
    fn char_to_byte(&self, char_offset: usize) -> (r: usize)
        requires
            char_offset <= self.text().len(),
        ensures
            r == utf8_len(self.text().take(char_offset as int)),
    ;

    /// Convert byte offset to char offset.
    fn byte_to_char(&self, byte_offset: usize) -> (r: usize)
        requires
            byte_offset <= utf8_len(self.text()),
        ensures
            is_char_of_byte(self.text(), byte_offset as int, r as int),
    ;

    /// Get info about the last edit operation, if any.
    fn last_edit(&self) -> (r: Option<EditInfo>)
        ensures
            r == self.spec_last_edit(),
    ;

    /// Check if a char offset is in the block-syntax zone (first few chars of a line).
    fn is_in_block_syntax_zone(&self, offset: usize) -> (r: bool)
        requires
            self.inv(),
        default_ensures
            r == default_block_zone(self.text(), offset as int),
    {
        if offset <= BLOCK_SYNTAX_ZONE {
            return true;
        }
        // Get slice of the search range and look for newline.
        let search_start = offset - (BLOCK_SYNTAX_ZONE + 1);
        match self.slice(std::ops::Range { start: search_start, end: offset }) {
            Some(s) => {
                let ghost window = self.text().subrange(search_start as int, offset as int);
                proof {
                    self.lemma_inv_text_fits();
                    lemma_last_index_of(window, '\n');
                }
                match str_rfind_char(s.as_str(), '\n') {
                    Some(pos) => {
                        // Distance from character after newline to current offset
                        proof {
                            let k = last_index_of(window, '\n');
                            let t = self.text();
                            lemma_utf8_len_take_mono(window, k, window.len() as int);
                            assert(window.take(window.len() as int) =~= window);
                            lemma_utf8_len_concat(t.take(search_start as int), window);
                            assert(t.take(search_start as int) + window =~= t.take(offset as int));
                            lemma_utf8_len_bounds(t.take(search_start as int));
                            lemma_utf8_len_take_mono(t, offset as int, t.len() as int);
                            assert(t.take(t.len() as int) =~= t);
                        }
                        let newline_abs_pos = search_start + pos;
                        let dist = offset.saturating_sub(newline_abs_pos + 1);
                        dist <= BLOCK_SYNTAX_ZONE
                    },
                    None => false,
                }
            },
            None => false,
        }
    }
}

// ---------------------------------------------------------------------------
// The ropey-backed buffer
// ---------------------------------------------------------------------------

/// Ropes of `ropey`, held by `EditorRope`.
#[verifier::external_type_specification]
#[verifier::external_body]
pub struct ExRope(ropey::Rope);

/// The chars a rope holds.
pub uninterp spec fn rope_chars(r: ropey::Rope) -> Seq<char>;

/// `ropey::Rope::new`: an empty rope.
#[verifier::external_body]
fn rope_new() -> (r: ropey::Rope)
    ensures
        rope_chars(r) == Seq::<char>::empty(),
{
    ropey::Rope::new()
}

/// `ropey::Rope::from_str`: a rope that holds the chars of `s`.
#[verifier::external_body]
fn rope_from_str(s: &str) -> (r: ropey::Rope)
    ensures
        rope_chars(r) == s@,
{
    ropey::Rope::from_str(s)
}

/// `ropey::Rope::len_chars`: the number of chars.
#[verifier::external_body]
fn rope_len_chars(r: &ropey::Rope) -> (n: usize)
    ensures
        n == rope_chars(*r).len(),
{
    r.len_chars()
}

/// `ropey::Rope::len_bytes`: the number of bytes of the UTF-8 text.
#[verifier::external_body]
fn rope_len_bytes(r: &ropey::Rope) -> (n: usize)
    ensures
        n == utf8_len(rope_chars(*r)),
{
    r.len_bytes()
}

/// `ropey::Rope::insert`: inserts `text` at char index `char_idx`
/// (it panics past the end, which `requires` rules out).
#[verifier::external_body]
fn rope_insert(r: &mut ropey::Rope, char_idx: usize, text: &str)
    requires
        char_idx <= rope_chars(*old(r)).len(),
    ensures
        rope_chars(*final(r)) == spec_insert(rope_chars(*old(r)), char_idx as int, text@),
{
    r.insert(char_idx, text)
}

/// `ropey::Rope::remove`: removes the chars in `start..end`
/// (it panics on a reversed or out-of-bounds range, which `requires` rules out).
#[verifier::external_body]
fn rope_remove(r: &mut ropey::Rope, start: usize, end: usize)
    requires
        start <= end <= rope_chars(*old(r)).len(),
    ensures
        rope_chars(*final(r)) == spec_delete(rope_chars(*old(r)), start as int, end as int),
{
    r.remove(start..end)
}

/// `ropey::Rope::char`: the char at `char_idx` (it panics out of bounds).
#[verifier::external_body]
fn rope_char(r: &ropey::Rope, char_idx: usize) -> (c: char)
    requires
        char_idx < rope_chars(*r).len(),
    ensures
        c == rope_chars(*r)[char_idx as int],
{
    r.char(char_idx)
}

/// `ropey::Rope::slice`, turned into a `String`: the chars in `start..end`.
#[verifier::external_body]
fn rope_slice_string(r: &ropey::Rope, start: usize, end: usize) -> (s: String)
    requires
        start <= end <= rope_chars(*r).len(),
    ensures
        s@ == rope_chars(*r).subrange(start as int, end as int),
{
    r.slice(start..end).to_string()
}

/// The text of a rope as a `String` (its `Display` output).
#[verifier::external_body]
fn rope_to_string(r: &ropey::Rope) -> (s: String)
    ensures
        s@ == rope_chars(*r),
{
    r.to_string()
}

/// `ropey::Rope::char_to_byte`: the byte index where char `char_idx` starts.
#[verifier::external_body]
fn rope_char_to_byte(r: &ropey::Rope, char_idx: usize) -> (b: usize)
    requires
        char_idx <= rope_chars(*r).len(),
    ensures
        b == utf8_len(rope_chars(*r).take(char_idx as int)),
{
    r.char_to_byte(char_idx)
}

/// `ropey::Rope::byte_to_char`: the index of the char that byte `byte_idx` belongs to.
#[verifier::external_body]
fn rope_byte_to_char(r: &ropey::Rope, byte_idx: usize) -> (c: usize)
    requires
        byte_idx <= utf8_len(rope_chars(*r)),
    ensures
        is_char_of_byte(rope_chars(*r), byte_idx as int, c as int),
{
    r.byte_to_char(byte_idx)
}

/// `ropey::Rope::char_to_line`: the number of line breaks before char `char_idx`.
#[verifier::external_body]
fn rope_char_to_line(r: &ropey::Rope, char_idx: usize) -> (l: usize)
    requires
        char_idx <= rope_chars(*r).len(),
    ensures
        l == line_breaks_before(rope_chars(*r), char_idx as int),
{
    r.char_to_line(char_idx)
}

/// `ropey::Rope::line_to_char`: the char index where line `line_idx` starts
/// (one past the end for the line after the last one).
#[verifier::external_body]
fn rope_line_to_char(r: &ropey::Rope, line_idx: usize) -> (c: usize)
    requires
        line_idx <= line_breaks_before(rope_chars(*r), rope_chars(*r).len() as int) + 1,
    ensures
        line_idx <= line_breaks_before(rope_chars(*r), rope_chars(*r).len() as int) ==> {
            &&& c <= rope_chars(*r).len()
            &&& is_line_start(rope_chars(*r), c as int)
            &&& line_breaks_before(rope_chars(*r), c as int) == line_idx
        },
        line_idx == line_breaks_before(rope_chars(*r), rope_chars(*r).len() as int) + 1 ==> c
            == rope_chars(*r).len(),
{
    r.line_to_char(line_idx)
}

/// `Rope::clone`: a rope with the same chars.
#[verifier::external_body]
fn rope_clone(r: &ropey::Rope) -> (c: ropey::Rope)
    ensures
        rope_chars(c) == rope_chars(*r),
{
    r.clone()
}

/// Ropey-backed text buffer for local editing.
///
/// Provides O(log n) editing operations and offset conversions.
pub struct EditorRope {
    rope: ropey::Rope,
    last_edit: Option<EditInfo>,
}

/// Block-syntax zone test of `EditorRope`: the offset lies within
/// `BLOCK_SYNTAX_ZONE` chars of the start of its line.
pub open spec fn rope_block_zone(s: Seq<char>, offset: int) -> bool {
    offset <= s.len() && offset - line_start_of(s, offset) <= BLOCK_SYNTAX_ZONE
}

impl EditorRope {
    /// The edit info that an insertion of `text` at `offset` records.
    pub open spec fn insert_info(
        old_text: Seq<char>,
        offset: int,
        text: Seq<char>,
        e: EditInfo,
    ) -> bool {
        &&& e.edit_char_pos == offset
        &&& e.inserted_len == text.len()
        &&& e.deleted_len == 0
        &&& e.contains_newline == text.contains('\n')
        &&& e.in_block_syntax_zone == rope_block_zone(old_text, offset)
        &&& e.doc_len_after == old_text.len() + text.len()
    }

    /// The edit info that a deletion of `[start, end)` records.
    pub open spec fn delete_info(old_text: Seq<char>, start: int, end: int, e: EditInfo) -> bool {
        &&& e.edit_char_pos == start
        &&& e.inserted_len == 0
        &&& e.deleted_len == end - start
        &&& e.contains_newline == old_text.subrange(start, end).contains('\n')
        &&& e.in_block_syntax_zone == rope_block_zone(old_text, start)
        &&& e.doc_len_after == old_text.len() - (end - start)
    }

    /// Create a new empty rope.
    pub fn new() -> (r: Self)
        ensures
            r.inv(),
            r.text() == Seq::<char>::empty(),
            r.spec_last_edit() is None,
    {
        EditorRope { rope: rope_new(), last_edit: None }
    }

    /// Create from string.
    pub fn from_str(s: &str) -> (r: Self)
        ensures
            r.inv(),
            r.text() == s@,
            r.spec_last_edit() is None,
    {
        // A string's UTF-8 length is a `usize`.
        let _n = str_byte_len(s);
        EditorRope { rope: rope_from_str(s), last_edit: None }
    }

    /// Get a reference to the underlying rope (for advanced operations).
    pub fn rope(&self) -> (r: &ropey::Rope)
        ensures
            rope_chars(*r) == self.text(),
    {
        &self.rope
    }
}

impl Clone for EditorRope {
    fn clone(&self) -> (r: Self)
        ensures
            r.text() == self.text(),
            r.spec_last_edit() == self.spec_last_edit(),
            r.inv() == self.inv(),
    {
        EditorRope { rope: rope_clone(&self.rope), last_edit: self.last_edit }
    }
}

impl Default for EditorRope {
    fn default() -> (r: Self)
        ensures
            r.inv(),
            r.text() == Seq::<char>::empty(),
            r.spec_last_edit() is None,
    {
        EditorRope::new()
    }
}

impl BufferInvariant for EditorRope {
    closed spec fn inv(&self) -> bool {
        utf8_len(rope_chars(self.rope)) <= usize::MAX
    }
}

impl TextBuffer for EditorRope {
    closed spec fn text(&self) -> Seq<char> {
        rope_chars(self.rope)
    }

    closed spec fn spec_last_edit(&self) -> Option<EditInfo> {
        self.last_edit
    }

    proof fn lemma_inv_text_fits(&self) {
    }

    fn len_bytes(&self) -> (r: usize) {
        rope_len_bytes(&self.rope)
    }

    fn len_chars(&self) -> (r: usize) {
        rope_len_chars(&self.rope)
    }

    fn insert(&mut self, char_offset: usize, text: &str)
        ensures
            final(self).spec_last_edit() matches Some(e) && EditorRope::insert_info(
                old(self).text(),
                char_offset as int,
                text@,
                e,
            ),
    {
        let in_block_syntax_zone = self.is_in_block_syntax_zone(char_offset);
        let contains_newline = str_contains_char(text, '\n');

        rope_insert(&mut self.rope, char_offset, text);
        let doc_len_after = rope_len_chars(&self.rope);
        let _ = rope_len_bytes(&self.rope);

        self.last_edit = Some(
            EditInfo {
                edit_char_pos: char_offset,
                inserted_len: text.unicode_len(),
                deleted_len: 0,
                contains_newline,
                in_block_syntax_zone,
                doc_len_after,
                timestamp: instant_now(),
            },
        );
    }

    // Ropey's insert is O(log n) regardless of position, so push is the same.
    fn push(&mut self, text: &str) {
        let n = rope_len_chars(&self.rope);
        self.insert(n, text);
        proof {
            assert(spec_insert(old(self).text(), n as int, text@) =~= old(self).text() + text@);
        }
    }

    fn delete(&mut self, char_range: std::ops::Range<usize>)
        ensures
            final(self).spec_last_edit() matches Some(e) && EditorRope::delete_info(
                old(self).text(),
                char_range.start as int,
                char_range.end as int,
                e,
            ),
    {
        let in_block_syntax_zone = self.is_in_block_syntax_zone(char_range.start);
        let contains_newline = match self.slice(
            std::ops::Range { start: char_range.start, end: char_range.end },
        ) {
            Some(s) => str_contains_char(s.as_str(), '\n'),
            None => false,
        };
        let deleted_len = char_range.end - char_range.start;

        rope_remove(&mut self.rope, char_range.start, char_range.end);
        let doc_len_after = rope_len_chars(&self.rope);
        let _ = rope_len_bytes(&self.rope);

        self.last_edit = Some(
            EditInfo {
                edit_char_pos: char_range.start,
                inserted_len: 0,
                deleted_len,
                contains_newline,
                in_block_syntax_zone,
                doc_len_after,
                timestamp: instant_now(),
            },
        );
    }

    fn slice(&self, char_range: std::ops::Range<usize>) -> (r: Option<String>) {
        if char_range.end > rope_len_chars(&self.rope) {
            return None;
        }
        Some(rope_slice_string(&self.rope, char_range.start, char_range.end))
    }

    fn char_at(&self, char_offset: usize) -> (r: Option<char>) {
        if char_offset >= rope_len_chars(&self.rope) {
            return None;
        }
        Some(rope_char(&self.rope, char_offset))
    }

    fn to_string(&self) -> (r: String) {
        rope_to_string(&self.rope)
    }

    fn char_to_byte(&self, char_offset: usize) -> (r: usize) {
        rope_char_to_byte(&self.rope, char_offset)
    }

    fn byte_to_char(&self, byte_offset: usize) -> (r: usize) {
        rope_byte_to_char(&self.rope, byte_offset)
    }

    fn last_edit(&self) -> (r: Option<EditInfo>) {
        self.last_edit
    }

    fn is_in_block_syntax_zone(&self, offset: usize) -> (r: bool)
        ensures
            r == rope_block_zone(self.text(), offset as int),
    {
        if offset > rope_len_chars(&self.rope) {
            return false;
        }
        let line_num = rope_char_to_line(&self.rope, offset);
        proof {
            lemma_line_breaks_mono(self.text(), offset as int, self.text().len() as int);
        }
        let line_start = rope_line_to_char(&self.rope, line_num);
        proof {
            lemma_line_start_unique(self.text(), offset as int, line_start as int);
            lemma_line_start_of(self.text(), offset as int);
        }
        (offset - line_start) <= BLOCK_SYNTAX_ZONE
    }
}

} // verus!
