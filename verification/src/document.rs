//! Core editor document trait and implementations.
//!
//! Defines the `EditorDocument` trait for abstracting editor behavior,
//! allowing different storage strategies (plain fields vs Signals) while
//! sharing the core editing logic.
use crate::offset_map::SnapDirection;
use crate::strings::str_contains_char;
use crate::text::{BufferInvariant, TextBuffer, spec_delete, spec_insert};
use crate::types::{
    instant_now, CompositionState, CursorState, EditInfo, Selection, BLOCK_SYNTAX_ZONE,
};
use crate::undo::UndoManager;
use vstd::prelude::*;

verus! {

/// Everything an editor document holds, as specifications see it.
pub struct DocState<B> {
    pub buffer: B,
    pub cursor: CursorState,
    pub selection: Option<Selection>,
    pub last_edit: Option<EditInfo>,
    pub composition: Option<CompositionState>,
    pub composition_ended_at: Option<web_time::Instant>,
    pub pending_snap: Option<SnapDirection>,
}

/// Start of the line holding position `i`: just after the last `'\n'` before
/// it, or 0. Positions past the end of `s` see no newline there.
pub open spec fn line_start_before(s: Seq<char>, i: int) -> int
    decreases i,
{
    if i <= 0 {
        0
    } else if i - 1 < s.len() && s[i - 1] == '\n' {
        i
    } else {
        line_start_before(s, i - 1)
    }
}

pub proof fn lemma_line_start_before(s: Seq<char>, i: int)
    requires
        0 <= i,
    ensures
        0 <= line_start_before(s, i) <= i,
        line_start_before(s, i) > 0 ==> s[line_start_before(s, i) - 1] == '\n',
        forall|k: int|
            line_start_before(s, i) <= k < i && k < s.len() ==> #[trigger] s[k] != '\n',
    decreases i,
{
    if i > 0 && !(i - 1 < s.len() && s[i - 1] == '\n') {
        lemma_line_start_before(s, i - 1);
    }
}

/// Block-syntax zone test of documents: fewer than `BLOCK_SYNTAX_ZONE` chars
/// from the start of the line.
pub open spec fn doc_block_zone(s: Seq<char>, offset: int) -> bool {
    offset - line_start_before(s, offset) < BLOCK_SYNTAX_ZONE
}

/// Two optional compositions hold the same offset and text.
pub open spec fn same_composition(a: Option<CompositionState>, b: Option<CompositionState>) -> bool {
    match (a, b) {
        (None, None) => true,
        (Some(x), Some(y)) => x.start_offset == y.start_offset && x.text@ == y.text@,
        _ => false,
    }
}

/// `b` has the selection and IME state of `a`.
pub open spec fn same_marks<B>(a: DocState<B>, b: DocState<B>) -> bool {
    &&& b.selection == a.selection
    &&& b.composition == a.composition
    &&& b.composition_ended_at == a.composition_ended_at
    &&& b.pending_snap == a.pending_snap
}

/// `a` with its cursor moved to `offset`, keeping the affinity.
pub open spec fn with_cursor_offset<B>(a: DocState<B>, offset: usize) -> DocState<B> {
    DocState { cursor: CursorState { offset, ..a.cursor }, ..a }
}

/// The text of a document.
pub open spec fn doc_text<D: EditorDocument>(d: D) -> Seq<char> {
    d.doc().buffer.text()
}

/// The document's buffer is valid.
pub open spec fn doc_inv<D: EditorDocument>(d: D) -> bool {
    d.doc().buffer.inv()
}

/// Core trait for editor documents.
///
/// Defines the interface for any editor implementation. The trait is generic
/// over the buffer type, which must implement both `TextBuffer` (for text
/// operations) and `UndoManager` (for undo/redo).
pub trait EditorDocument: Sized {
    /// The buffer type used for text storage and undo.
    type Buffer: TextBuffer + UndoManager;

    /// The document's state.
    spec fn doc(&self) -> DocState<Self::Buffer>;

    // === Required: Buffer access ===
    /// Get a reference to the underlying buffer.
    fn buffer(&self) -> (r: &Self::Buffer)
        ensures
            *r == self.doc().buffer,
    ;

    /// Get a mutable reference to the underlying buffer.
    fn buffer_mut(&mut self) -> (r: &mut Self::Buffer)
        ensures
            *r == old(self).doc().buffer,
            final(self).doc() == (DocState { buffer: *final(r), ..old(self).doc() }),
    ;

    // === Required: Cursor/selection state ===
    /// Get the current cursor state.
    fn cursor(&self) -> (r: CursorState)
        ensures
            r == self.doc().cursor,
    ;

    /// Set the cursor state.
    fn set_cursor(&mut self, cursor: CursorState)
        ensures
            final(self).doc() == (DocState { cursor, ..old(self).doc() }),
    ;

    /// Get the current selection, if any.
    fn selection(&self) -> (r: Option<Selection>)
        ensures
            r == self.doc().selection,
    ;

    /// Set the selection.
    fn set_selection(&mut self, selection: Option<Selection>)
        ensures
            final(self).doc() == (DocState { selection, ..old(self).doc() }),
    ;

    // === Required: Edit tracking ===
    /// Get the last edit info, if any.
    fn last_edit(&self) -> (r: Option<EditInfo>)
        ensures
            r == self.doc().last_edit,
    ;

    /// Set the last edit info.
    fn set_last_edit(&mut self, edit: Option<EditInfo>)
        ensures
            final(self).doc() == (DocState { last_edit: edit, ..old(self).doc() }),
    ;

    // === Required: Composition (IME) state ===
    /// Get the current composition state.
    fn composition(&self) -> (r: Option<CompositionState>)
        ensures
            same_composition(r, self.doc().composition),
    ;

    /// Set the composition state.
    fn set_composition(&mut self, composition: Option<CompositionState>)
        ensures
            final(self).doc() == (DocState { composition, ..old(self).doc() }),
    ;

    /// Get the timestamp when composition last ended (Safari timing workaround).
    fn composition_ended_at(&self) -> (r: Option<web_time::Instant>)
        ensures
            r == self.doc().composition_ended_at,
    ;

    /// Record that composition ended now (Safari timing workaround).
    fn set_composition_ended_now(&mut self)
        ensures
            final(self).doc().composition_ended_at is Some,
            final(self).doc() == (DocState {
                composition_ended_at: final(self).doc().composition_ended_at,
                ..old(self).doc()
            }),
    ;

    // === Required: Cursor snap hint ===
    /// Get the pending snap direction hint.
    fn pending_snap(&self) -> (r: Option<SnapDirection>)
        ensures
            r == self.doc().pending_snap,
    ;

    /// Set the pending snap direction hint.
    fn set_pending_snap(&mut self, snap: Option<SnapDirection>)
        ensures
            final(self).doc() == (DocState { pending_snap: snap, ..old(self).doc() }),
    ;

    // === Provided: Convenience accessors ===
    /// Get the cursor offset.
    fn cursor_offset(&self) -> (r: usize)
        ensures
            r == self.doc().cursor.offset,
    {
        self.cursor().offset
    }

    /// Set just the cursor offset, preserving other cursor state.
    fn set_cursor_offset(&mut self, offset: usize)
        ensures
            final(self).doc() == with_cursor_offset(old(self).doc(), offset),
    {
        let mut cursor = self.cursor();
        cursor.offset = offset;
        self.set_cursor(cursor);
    }

    /// Get the full content as a String.
    fn content_string(&self) -> (r: String)
        ensures
            r@ == self.doc().buffer.text(),
    {
        self.buffer().to_string()
    }

    /// Get length in characters.
    fn len_chars(&self) -> (r: usize)
        ensures
            r == self.doc().buffer.text().len(),
    {
        self.buffer().len_chars()
    }

    /// Get length in bytes.
    fn len_bytes(&self) -> (r: usize)
        ensures
            r == crate::strings::utf8_len(self.doc().buffer.text()),
    {
        self.buffer().len_bytes()
    }

    /// Check if document is empty.
    fn is_empty(&self) -> (r: bool)
        ensures
            r == (self.doc().buffer.text().len() == 0),
    {
        self.buffer().len_chars() == 0
    }

    /// Get a slice of the content.
    fn slice(&self, range: std::ops::Range<usize>) -> (r: Option<String>)
        requires
            range.start <= range.end,
        ensures
            r is Some <==> range.end <= self.doc().buffer.text().len(),
            r matches Some(s) ==> s@ == self.doc().buffer.text().subrange(
                range.start as int,
                range.end as int,
            ),
    {
        self.buffer().slice(range)
    }

    /// Get character at offset.
    fn char_at(&self, offset: usize) -> (r: Option<char>)
        ensures
            r == (if offset < self.doc().buffer.text().len() {
                Some(self.doc().buffer.text()[offset as int])
            } else {
                None::<char>
            }),
    {
        self.buffer().char_at(offset)
    }

    /// Convert char offset to byte offset.
    fn char_to_byte(&self, char_offset: usize) -> (r: usize)
        requires
            char_offset <= self.doc().buffer.text().len(),
        ensures
            r == crate::strings::utf8_len(self.doc().buffer.text().take(char_offset as int)),
    {
        self.buffer().char_to_byte(char_offset)
    }

    /// Convert byte offset to char offset.
    fn byte_to_char(&self, byte_offset: usize) -> (r: usize)
        requires
            byte_offset <= crate::strings::utf8_len(self.doc().buffer.text()),
        ensures
            crate::text::is_char_of_byte(self.doc().buffer.text(), byte_offset as int, r as int),
    {
        self.buffer().byte_to_char(byte_offset)
    }

    /// Get selected text, if any.
    fn selected_text(&self) -> (r: Option<String>)
        ensures
            match self.doc().selection {
                None => r is None,
                Some(sel) => if sel.end() <= self.doc().buffer.text().len() {
                    r matches Some(s) && s@ == self.doc().buffer.text().subrange(
                        sel.start() as int,
                        sel.end() as int,
                    )
                } else {
                    r is None
                },
            },
    {
        match self.selection() {
            Some(sel) => self.buffer().slice(sel.to_range()),
            None => None,
        }
    }

    // === Provided: Text operations ===
    /// Insert text at char offset, returning edit info.
    fn insert(&mut self, offset: usize, text: &str) -> (r: EditInfo)
        requires
            old(self).doc().buffer.inv(),
            offset <= old(self).doc().buffer.text().len(),
            old(self).doc().buffer.text().len() + text@.len() <= usize::MAX,
        ensures
            final(self).doc().buffer.inv(),
            final(self).doc().buffer.text() == spec_insert(old(self).doc().buffer.text(), offset as int, text@),
            final(self).doc().cursor == (CursorState {
                offset: (offset + text@.len()) as usize,
                ..old(self).doc().cursor
            }),
            same_marks(old(self).doc(), final(self).doc()),
            final(self).doc().last_edit == Some(r),
            r.edit_char_pos == offset,
            r.inserted_len == text@.len(),
            r.deleted_len == 0,
            r.contains_newline == text@.contains('\n'),
            r.in_block_syntax_zone == doc_block_zone(old(self).doc().buffer.text(), offset as int),
            r.doc_len_after == final(self).doc().buffer.text().len(),
    {
        let contains_newline = str_contains_char(text, '\n');
        let in_block_syntax_zone = self.is_in_block_syntax_zone(offset);

        self.buffer_mut().insert(offset, text);

        let inserted_len = text.unicode_len();
        self.set_cursor_offset(offset + inserted_len);

        let doc_len_after = self.buffer().len_chars();
        let edit = EditInfo {
            edit_char_pos: offset,
            inserted_len,
            deleted_len: 0,
            contains_newline,
            in_block_syntax_zone,
            doc_len_after,
            timestamp: instant_now(),
        };

        self.set_last_edit(Some(edit));
        edit
    }

    /// Delete char range, returning edit info.
    fn delete(&mut self, range: std::ops::Range<usize>) -> (r: EditInfo)
        requires
            old(self).doc().buffer.inv(),
            range.start <= range.end <= old(self).doc().buffer.text().len(),
        ensures
            final(self).doc().buffer.inv(),
            final(self).doc().buffer.text() == spec_delete(
                old(self).doc().buffer.text(),
                range.start as int,
                range.end as int,
            ),
            final(self).doc().cursor == (CursorState {
                offset: range.start,
                ..old(self).doc().cursor
            }),
            same_marks(old(self).doc(), final(self).doc()),
            final(self).doc().last_edit == Some(r),
            r.edit_char_pos == range.start,
            r.inserted_len == 0,
            r.deleted_len == range.end - range.start,
            r.contains_newline == old(self).doc().buffer.text().subrange(
                range.start as int,
                range.end as int,
            ).contains('\n'),
            r.in_block_syntax_zone == doc_block_zone(old(self).doc().buffer.text(), range.start as int),
            r.doc_len_after == final(self).doc().buffer.text().len(),
    {
        let start = range.start;
        let end = range.end;
        let deleted_text = self.buffer().slice(std::ops::Range { start, end });
        let contains_newline = match deleted_text {
            Some(s) => str_contains_char(s.as_str(), '\n'),
            None => false,
        };
        let in_block_syntax_zone = self.is_in_block_syntax_zone(start);
        let deleted_len = end - start;

        self.buffer_mut().delete(range);
        self.set_cursor_offset(start);

        let doc_len_after = self.buffer().len_chars();
        let edit = EditInfo {
            edit_char_pos: start,
            inserted_len: 0,
            deleted_len,
            contains_newline,
            in_block_syntax_zone,
            doc_len_after,
            timestamp: instant_now(),
        };

        self.set_last_edit(Some(edit));
        edit
    }

    /// Replace char range with text, returning edit info.
    fn replace(&mut self, range: std::ops::Range<usize>, text: &str) -> (r: EditInfo)
        requires
            old(self).doc().buffer.inv(),
            range.start <= range.end <= old(self).doc().buffer.text().len(),
            old(self).doc().buffer.text().len() + text@.len() <= usize::MAX,
        ensures
            final(self).doc().buffer.inv(),
            final(self).doc().buffer.text() == old(self).doc().buffer.text().take(range.start as int) + text@
                + old(self).doc().buffer.text().skip(range.end as int),
            final(self).doc().cursor == (CursorState {
                offset: (range.start + text@.len()) as usize,
                ..old(self).doc().cursor
            }),
            same_marks(old(self).doc(), final(self).doc()),
            final(self).doc().last_edit == Some(r),
            r.edit_char_pos == range.start,
            r.inserted_len == text@.len(),
            r.deleted_len == range.end - range.start,
            r.contains_newline == (text@.contains('\n') || old(self).doc().buffer.text().subrange(
                range.start as int,
                range.end as int,
            ).contains('\n')),
            r.in_block_syntax_zone == doc_block_zone(old(self).doc().buffer.text(), range.start as int),
            r.doc_len_after == final(self).doc().buffer.text().len(),
    {
        let start = range.start;
        let end = range.end;
        let deleted_text = self.buffer().slice(std::ops::Range { start, end });
        let deleted_contains_newline = match deleted_text {
            Some(s) => str_contains_char(s.as_str(), '\n'),
            None => false,
        };
        let contains_newline = str_contains_char(text, '\n') || deleted_contains_newline;
        let in_block_syntax_zone = self.is_in_block_syntax_zone(start);
        let deleted_len = end - start;

        self.buffer_mut().delete(range);
        self.buffer_mut().insert(start, text);
        proof {
            let s = old(self).doc().buffer.text();
            let d = spec_delete(s, start as int, end as int);
            assert(d.take(start as int) =~= s.take(start as int));
            assert(d.skip(start as int) =~= s.skip(end as int));
        }

        let inserted_len = text.unicode_len();
        self.set_cursor_offset(start + inserted_len);

        let doc_len_after = self.buffer().len_chars();
        let edit = EditInfo {
            edit_char_pos: start,
            inserted_len,
            deleted_len,
            contains_newline,
            in_block_syntax_zone,
            doc_len_after,
            timestamp: instant_now(),
        };

        self.set_last_edit(Some(edit));
        edit
    }

    /// Append text at end of document.
    ///
    /// This is a fast path for appending - delegates to buffer's push()
    /// which may have an optimized implementation.
    fn push(&mut self, text: &str) -> (r: EditInfo)
        requires
            old(self).doc().buffer.inv(),
            old(self).doc().buffer.text().len() + text@.len() <= usize::MAX,
        ensures
            final(self).doc().buffer.inv(),
            final(self).doc().buffer.text() == old(self).doc().buffer.text() + text@,
            final(self).doc().cursor == (CursorState {
                offset: (old(self).doc().buffer.text().len() + text@.len()) as usize,
                ..old(self).doc().cursor
            }),
            same_marks(old(self).doc(), final(self).doc()),
            final(self).doc().last_edit == Some(r),
            r.edit_char_pos == old(self).doc().buffer.text().len(),
            r.inserted_len == text@.len(),
            r.deleted_len == 0,
            r.contains_newline == text@.contains('\n'),
            r.in_block_syntax_zone == doc_block_zone(
                old(self).doc().buffer.text(),
                old(self).doc().buffer.text().len() as int,
            ),
            r.doc_len_after == final(self).doc().buffer.text().len(),
    {
        let offset = self.buffer().len_chars();
        let contains_newline = str_contains_char(text, '\n');
        let in_block_syntax_zone = self.is_in_block_syntax_zone(offset);

        self.buffer_mut().push(text);

        let inserted_len = text.unicode_len();
        self.set_cursor_offset(offset + inserted_len);

        let doc_len_after = self.buffer().len_chars();
        let edit = EditInfo {
            edit_char_pos: offset,
            inserted_len,
            deleted_len: 0,
            contains_newline,
            in_block_syntax_zone,
            doc_len_after,
            timestamp: instant_now(),
        };

        self.set_last_edit(Some(edit));
        edit
    }

    /// Delete the current selection, if any.
    fn delete_selection(&mut self) -> (r: Option<EditInfo>)
        requires
            old(self).doc().buffer.inv(),
            old(self).doc().selection matches Some(sel) ==> sel.end() <= old(self).doc().buffer.text().len(),
        ensures
            final(self).doc().buffer.inv(),
            final(self).doc().selection is None,
            match old(self).doc().selection {
                None => r is None && final(self).doc() == old(self).doc(),
                Some(sel) => if sel.is_collapsed() {
                    r is None && final(self).doc() == (DocState {
                        selection: None,
                        ..old(self).doc()
                    })
                } else {
                    &&& r is Some
                    &&& final(self).doc().last_edit == r
                    &&& r.unwrap().edit_char_pos == sel.start()
                    &&& r.unwrap().deleted_len == sel.end() - sel.start()
                    &&& r.unwrap().inserted_len == 0
                    &&& final(self).doc().buffer.text() == spec_delete(
                        old(self).doc().buffer.text(),
                        sel.start() as int,
                        sel.end() as int,
                    )
                    &&& final(self).doc().cursor == (CursorState {
                        offset: sel.start(),
                        ..old(self).doc().cursor
                    })
                },
            },
    {
        let sel = match self.selection() {
            Some(sel) => sel,
            None => {
                return None;
            },
        };
        self.set_selection(None);
        if sel.is_collapsed() {
            return None;
        }
        Some(self.delete(sel.to_range()))
    }

    // === Provided: Undo/Redo ===
    /// Undo the last change.
    fn undo(&mut self) -> (r: bool)
        requires
            old(self).doc().buffer.inv(),
        ensures
            final(self).doc().buffer.inv(),
            r == old(self).doc().buffer.spec_can_undo(),
            final(self).doc() == (DocState { buffer: final(self).doc().buffer, ..old(self).doc() }),
            !r ==> final(self).doc() == old(self).doc(),
    {
        self.buffer_mut().undo()
    }

    /// Redo the last undone change.
    fn redo(&mut self) -> (r: bool)
        requires
            old(self).doc().buffer.inv(),
        ensures
            final(self).doc().buffer.inv(),
            r == old(self).doc().buffer.spec_can_redo(),
            final(self).doc() == (DocState { buffer: final(self).doc().buffer, ..old(self).doc() }),
            !r ==> final(self).doc() == old(self).doc(),
    {
        self.buffer_mut().redo()
    }

    /// Check if undo is available.
    fn can_undo(&self) -> (r: bool)
        ensures
            r == self.doc().buffer.spec_can_undo(),
    {
        self.buffer().can_undo()
    }

    /// Check if redo is available.
    fn can_redo(&self) -> (r: bool)
        ensures
            r == self.doc().buffer.spec_can_redo(),
    {
        self.buffer().can_redo()
    }

    /// Clear all undo/redo history.
    fn clear_history(&mut self)
        requires
            old(self).doc().buffer.inv(),
        ensures
            final(self).doc().buffer.inv(),
            !final(self).doc().buffer.spec_can_undo(),
            !final(self).doc().buffer.spec_can_redo(),
            final(self).doc() == (DocState { buffer: final(self).doc().buffer, ..old(self).doc() }),
    {
        self.buffer_mut().clear_history();
    }

    // === Provided: Helpers ===
    /// Check if offset is in the block-syntax zone (first ~6 chars of line).
    fn is_in_block_syntax_zone(&self, offset: usize) -> (r: bool)
        ensures
            r == doc_block_zone(self.doc().buffer.text(), offset as int),
    {
        let mut line_start = offset;
        while line_start > 0
            invariant
                line_start <= offset,
                line_start_before(self.doc().buffer.text(), line_start as int) == line_start_before(
                    self.doc().buffer.text(),
                    offset as int,
                ),
            ensures
                line_start == line_start_before(self.doc().buffer.text(), offset as int),
            decreases line_start,
        {
            if let Some('\n') = self.buffer().char_at(line_start - 1) {
                break;
            }
            line_start -= 1;
        }
        offset - line_start < BLOCK_SYNTAX_ZONE
    }
}

/// Simple field-based implementation of EditorDocument.
///
/// Stores cursor, selection, and edit state as plain fields.
/// Use this for non-reactive contexts or as a base for testing.
pub struct PlainEditor<T: TextBuffer + UndoManager> {
    buffer: T,
    cursor: CursorState,
    selection: Option<Selection>,
    last_edit: Option<EditInfo>,
    composition: Option<CompositionState>,
    composition_ended_at: Option<web_time::Instant>,
    pending_snap: Option<SnapDirection>,
}

impl<T: TextBuffer + UndoManager> PlainEditor<T> {
    /// Create a new editor with the given buffer.
    pub fn new(buffer: T) -> (r: Self)
        ensures
            r.doc() == (DocState {
                buffer,
                cursor: CursorState { offset: 0, affinity: crate::types::Affinity::Before },
                selection: None,
                last_edit: None,
                composition: None,
                composition_ended_at: None,
                pending_snap: None,
            }),
    {
        PlainEditor {
            buffer,
            cursor: CursorState::default(),
            selection: None,
            last_edit: None,
            composition: None,
            composition_ended_at: None,
            pending_snap: None,
        }
    }

    /// Get direct access to the inner buffer (bypasses trait).
    pub fn inner(&self) -> (r: &T)
        ensures
            *r == self.doc().buffer,
    {
        &self.buffer
    }

    /// Get direct mutable access to the inner buffer (bypasses trait).
    pub fn inner_mut(&mut self) -> (r: &mut T)
        ensures
            *r == old(self).doc().buffer,
            final(self).doc() == (DocState { buffer: *final(r), ..old(self).doc() }),
    {
        &mut self.buffer
    }
}

impl<T: TextBuffer + UndoManager + Default> Default for PlainEditor<T> {
    fn default() -> (r: Self)
        ensures
            r.doc().selection is None,
            r.doc().last_edit is None,
            r.doc().cursor.offset == 0,
    {
        Self::new(T::default())
    }
}

impl<T: TextBuffer + UndoManager> EditorDocument for PlainEditor<T> {
    type Buffer = T;

    closed spec fn doc(&self) -> DocState<T> {
        DocState {
            buffer: self.buffer,
            cursor: self.cursor,
            selection: self.selection,
            last_edit: self.last_edit,
            composition: self.composition,
            composition_ended_at: self.composition_ended_at,
            pending_snap: self.pending_snap,
        }
    }

    fn buffer(&self) -> (r: &T) {
        &self.buffer
    }

    fn buffer_mut(&mut self) -> (r: &mut T) {
        &mut self.buffer
    }

    fn cursor(&self) -> (r: CursorState) {
        self.cursor
    }

    fn set_cursor(&mut self, cursor: CursorState) {
        self.cursor = cursor;
    }

    fn selection(&self) -> (r: Option<Selection>) {
        self.selection
    }

    fn set_selection(&mut self, selection: Option<Selection>) {
        self.selection = selection;
    }

    fn last_edit(&self) -> (r: Option<EditInfo>) {
        self.last_edit
    }

    fn set_last_edit(&mut self, edit: Option<EditInfo>) {
        self.last_edit = edit;
    }

    fn composition(&self) -> (r: Option<CompositionState>) {
        match &self.composition {
            Some(c) => Some(c.clone()),
            None => None,
        }
    }

    fn set_composition(&mut self, composition: Option<CompositionState>) {
        self.composition = composition;
    }

    fn composition_ended_at(&self) -> (r: Option<web_time::Instant>) {
        self.composition_ended_at
    }

    fn set_composition_ended_now(&mut self) {
        self.composition_ended_at = Some(instant_now());
    }

    fn pending_snap(&self) -> (r: Option<SnapDirection>) {
        self.pending_snap
    }

    fn set_pending_snap(&mut self, snap: Option<SnapDirection>) {
        self.pending_snap = snap;
    }
}

} // verus!
