//! Core editor types: cursor, selection, composition, and edit tracking.
//!
//! These types are framework-agnostic and can be used with any text buffer implementation.
use vstd::prelude::*;
use vstd::std_specs::cmp::PartialEqSpecImpl;

verus! {

/// Wall-clock instants used to stamp edits, taken from `web_time`.
#[verifier::external_type_specification]
#[verifier::external_body]
pub struct ExInstant(web_time::Instant);

/// Reads the current instant through `web_time::Instant::now`.
///
/// Nothing is stated of the result: it depends on the clock. On the web,
/// `web_time` documents that it panics where the environment offers no
/// `Performance` object; that is a matter of the environment, not of any
/// input.
#[verifier::external_body]
pub(crate) fn instant_now() -> (r: web_time::Instant) {
    web_time::Instant::now()
}

/// Max distance from line start where block syntax can appear.
/// Covers: `######` (6), ```` ``` ```` (3), `> ` (2), `- ` (2), `999. ` (5)
pub const BLOCK_SYNTAX_ZONE: usize = 6;

/// Cursor affinity for vertical movement.
///
/// When navigating vertically, the cursor needs to know which side of a line
/// break it prefers. `Before` means stick to the end of the previous line,
/// `After` means stick to the start of the next line.
#[derive(Clone, Debug, Copy, PartialEq, Eq, Structural)]
pub enum Affinity {
    Before,
    After,
}

impl Default for Affinity {
    fn default() -> (r: Self)
        ensures
            r == Affinity::Before,
    {
        Affinity::Before
    }
}

/// Cursor state including position and affinity.
#[derive(Clone, Debug, Copy, PartialEq, Eq, Structural)]
pub struct CursorState {
    /// Character offset in text (NOT byte offset!)
    pub offset: usize,
    /// Prefer left/right when at boundary (for vertical cursor movement)
    pub affinity: Affinity,
}

impl Default for CursorState {
    fn default() -> (r: Self)
        ensures
            r.offset == 0,
            r.affinity == Affinity::Before,
    {
        CursorState { offset: 0, affinity: Affinity::Before }
    }
}

impl CursorState {
    /// Create a new cursor at the given offset.
    pub fn new(offset: usize) -> (r: Self)
        ensures
            r.offset == offset,
            r.affinity == Affinity::Before,
    {
        CursorState { offset, affinity: Affinity::Before }
    }

    /// Create a cursor with specific affinity.
    pub fn with_affinity(offset: usize, affinity: Affinity) -> (r: Self)
        ensures
            r.offset == offset,
            r.affinity == affinity,
    {
        CursorState { offset, affinity }
    }
}

/// Text selection with anchor and head positions.
///
/// The anchor is where the selection started, the head is where the cursor is now.
/// They may be in any order - use `start()` and `end()` for ordered bounds.
#[derive(Clone, Debug, Copy, PartialEq, Eq, Structural)]
pub struct Selection {
    /// Where selection started
    pub anchor: usize,
    /// Where cursor is now
    pub head: usize,
}

impl Selection {
    /// Create a new selection.
    pub fn new(anchor: usize, head: usize) -> (r: Self)
        ensures
            r.anchor == anchor,
            r.head == head,
    {
        Selection { anchor, head }
    }

    /// Create a collapsed selection (cursor position).
    pub fn collapsed(offset: usize) -> (r: Self)
        ensures
            r.anchor == offset,
            r.head == offset,
    {
        Selection { anchor: offset, head: offset }
    }

    /// Get the start (lower bound) of the selection.
    #[verifier::allow_in_spec]
    pub fn start(&self) -> usize
        returns
            (if self.anchor <= self.head { self.anchor } else { self.head }),
    {
        if self.anchor <= self.head {
            self.anchor
        } else {
            self.head
        }
    }

    /// Get the end (upper bound) of the selection.
    #[verifier::allow_in_spec]
    pub fn end(&self) -> usize
        returns
            (if self.anchor <= self.head { self.head } else { self.anchor }),
    {
        if self.anchor <= self.head {
            self.head
        } else {
            self.anchor
        }
    }

    /// Check if the selection is collapsed (empty, cursor only).
    #[verifier::allow_in_spec]
    pub fn is_collapsed(&self) -> bool
        returns
            self.anchor == self.head,
    {
        self.anchor == self.head
    }

    /// Check if an offset is within the selection.
    pub fn contains(&self, offset: usize) -> (r: bool)
        ensures
            r == (self.start() <= offset && offset < self.end()),
    {
        offset >= self.start() && offset < self.end()
    }

    /// Get the selection length.
    pub fn len(&self) -> (r: usize)
        ensures
            r == self.end() - self.start(),
    {
        self.end() - self.start()
    }

    /// Check if empty (same as is_collapsed).
    pub fn is_empty(&self) -> (r: bool)
        ensures
            r == (self.anchor == self.head),
    {
        self.is_collapsed()
    }

    /// Convert to a Range<usize> (ordered).
    pub fn to_range(&self) -> (r: std::ops::Range<usize>)
        ensures
            r.start == self.start(),
            r.end == self.end(),
    {
        std::ops::Range { start: self.start(), end: self.end() }
    }

    /// Check if the selection is backwards (head before anchor).
    pub fn is_backwards(&self) -> (r: bool)
        ensures
            r == (self.head < self.anchor),
    {
        self.head < self.anchor
    }
}

/// IME composition state (for international text input).
///
/// During IME composition, the user is building up a string of characters
/// that hasn't been committed yet. This tracks where that composition
/// started and what text is currently being composed.
#[derive(Debug)]
pub struct CompositionState {
    /// Character offset where composition started
    pub start_offset: usize,
    /// Current composition text (uncommitted)
    pub text: String,
}

impl Clone for CompositionState {
    fn clone(&self) -> (r: Self)
        ensures
            r.start_offset == self.start_offset,
            r.text@ == self.text@,
    {
        CompositionState { start_offset: self.start_offset, text: self.text.clone() }
    }
}

impl PartialEq for CompositionState {
    fn eq(&self, other: &Self) -> (r: bool) {
        self.start_offset == other.start_offset && self.text == other.text
    }
}

impl PartialEqSpecImpl for CompositionState {
    open spec fn obeys_eq_spec() -> bool {
        true
    }

    open spec fn eq_spec(&self, other: &Self) -> bool {
        self.start_offset == other.start_offset && self.text@ == other.text@
    }
}

impl CompositionState {
    /// Create a new composition state.
    pub fn new(start_offset: usize, text: String) -> (r: Self)
        ensures
            r.start_offset == start_offset,
            r.text@ == text@,
    {
        CompositionState { start_offset, text }
    }

    /// Get the end offset of the composition.
    pub fn end_offset(&self) -> (r: usize)
        requires
            self.start_offset + self.text@.len() <= usize::MAX,
        ensures
            r == self.start_offset + self.text@.len(),
    {
        self.start_offset + self.text.as_str().unicode_len()
    }

    /// Check if an offset is within the composition.
    pub fn contains(&self, offset: usize) -> (r: bool)
        requires
            self.start_offset + self.text@.len() <= usize::MAX,
        ensures
            r == (self.start_offset <= offset && offset < self.start_offset + self.text@.len()),
    {
        offset >= self.start_offset && offset < self.end_offset()
    }
}

/// Information about the most recent edit, used for incremental rendering optimization.
///
/// This tracks enough information to determine which paragraphs need re-rendering
/// after an edit, enabling efficient incremental updates instead of full re-renders.
#[derive(Clone, Copy, Debug)]
pub struct EditInfo {
    /// Character offset where the edit occurred
    pub edit_char_pos: usize,
    /// Number of characters inserted
    pub inserted_len: usize,
    /// Number of characters deleted
    pub deleted_len: usize,
    /// Whether the edit contains a newline (boundary-affecting)
    pub contains_newline: bool,
    /// Whether the edit is in the block-syntax zone of a line (first ~6 chars).
    /// Edits here could affect block-level syntax like headings, lists, code fences.
    pub in_block_syntax_zone: bool,
    /// Document length (in chars) after this edit was applied.
    /// Used to detect stale edit info - if current doc length doesn't match,
    /// the edit info is from a previous render cycle and shouldn't be used.
    pub doc_len_after: usize,
    /// When this edit occurred. Used for idle detection in collaborative sync.
    pub timestamp: web_time::Instant,
}

impl PartialEq for EditInfo {
    fn eq(&self, other: &Self) -> (r: bool) {
        // Compare all fields except timestamp (not meaningful for equality)
        self.edit_char_pos == other.edit_char_pos && self.inserted_len == other.inserted_len
            && self.deleted_len == other.deleted_len && self.contains_newline
            == other.contains_newline && self.in_block_syntax_zone == other.in_block_syntax_zone
            && self.doc_len_after == other.doc_len_after
    }
}

impl PartialEqSpecImpl for EditInfo {
    open spec fn obeys_eq_spec() -> bool {
        true
    }

    open spec fn eq_spec(&self, other: &Self) -> bool {
        &&& self.edit_char_pos == other.edit_char_pos
        &&& self.inserted_len == other.inserted_len
        &&& self.deleted_len == other.deleted_len
        &&& self.contains_newline == other.contains_newline
        &&& self.in_block_syntax_zone == other.in_block_syntax_zone
        &&& self.doc_len_after == other.doc_len_after
    }
}

impl EditInfo {
    /// Check if this edit info is stale (doc has changed since this edit).
    pub fn is_stale(&self, current_doc_len: usize) -> (r: bool)
        ensures
            r == (self.doc_len_after != current_doc_len),
    {
        self.doc_len_after != current_doc_len
    }

    /// Check if this edit might affect paragraph boundaries.
    pub fn affects_boundaries(&self) -> (r: bool)
        ensures
            r == (self.contains_newline || self.in_block_syntax_zone),
    {
        self.contains_newline || self.in_block_syntax_zone
    }

    /// Get the range that was affected by this edit.
    ///
    /// For insertions: the range of inserted text.
    /// For deletions: an empty range at the deletion point.
    /// For replacements: the range of inserted text.
    pub fn affected_range(&self) -> (r: std::ops::Range<usize>)
        requires
            self.edit_char_pos + self.inserted_len <= usize::MAX,
        ensures
            r.start == self.edit_char_pos,
            r.end == self.edit_char_pos + self.inserted_len,
    {
        std::ops::Range { start: self.edit_char_pos, end: self.edit_char_pos + self.inserted_len }
    }
}

/// An image attached to an entry being edited.
///
/// Holds, as plain values, what rendering reads of the image record: its
/// name, its alt text, and the record key of the `PublishedBlob` record that
/// carries it, where it has one.
#[derive(Debug)]
pub struct EditorImage {
    /// Image name, if the record gives one.
    pub name: Option<String>,
    /// Alt text of the image.
    pub alt: String,
    /// Record key of the `PublishedBlob` record holding the image; `None` for
    /// images already inside an entry record.
    pub published_blob_rkey: Option<String>,
}

} // verus!
