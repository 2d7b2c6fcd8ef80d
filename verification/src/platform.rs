//! Platform abstraction traits for editor operations.
//!
//! These traits define the interface between the editor logic and platform-specific
//! implementations (browser DOM, native UI, etc.). This enables the same editor
//! logic to work across different platforms.
use crate::document::{doc_inv, doc_text, with_cursor_offset, DocState, EditorDocument};
use crate::execute::{edit_info_matches, SpecEdit};
use crate::offset_map::SnapDirection;
use crate::paragraph::ParagraphRender;
use crate::strings::{str_to_chars, string_push};
use crate::text::{spec_delete, spec_insert, BufferInvariant, TextBuffer};
use crate::text_helpers::is_zero_width;
use crate::types::{CursorState, Selection};
use vstd::prelude::*;
use vstd::std_specs::convert::FromSpecImpl;

verus! {

/// Error type for platform operations.
#[derive(Debug)]
pub struct PlatformError(pub String);

impl Clone for PlatformError {
    fn clone(&self) -> (r: Self)
        ensures
            r == *self,
    {
        PlatformError(self.0.clone())
    }
}

impl PlatformError {
    /// The error's message.
    pub fn message(&self) -> (r: String)
        ensures
            r@ == self.0@,
    {
        self.0.clone()
    }
}

impl From<String> for PlatformError {
    fn from(s: String) -> (r: Self) {
        PlatformError(s)
    }
}

impl FromSpecImpl<String> for PlatformError {
    open spec fn obeys_from_spec() -> bool {
        true
    }

    open spec fn from_spec(v: String) -> PlatformError {
        PlatformError(v)
    }
}

/// Platform-specific cursor state synchronization.
///
/// Handles reading the current cursor/selection state from the platform UI
/// back into the editor model.
pub trait CursorSync {
    /// Sync cursor state from the platform UI into the provided callbacks.
    ///
    /// The implementation reads the current selection from the UI and calls
    /// the appropriate callback with the character offset(s).
    ///
    /// - For a collapsed cursor: calls `on_cursor(offset)`
    /// - For a selection: calls `on_selection(anchor, head)`
    fn sync_cursor_from_platform<F: FnOnce(usize), G: FnOnce(usize, usize)>(
        &self,
        paragraphs: &[ParagraphRender],
        direction_hint: Option<SnapDirection>,
        on_cursor: F,
        on_selection: G,
    );
}

/// Platform-specific clipboard operations.
///
/// Implementations handle the low-level clipboard access (sync and async paths
/// as appropriate for the platform). Document-level operations (selection
/// extraction, cursor updates) are handled by the `clipboard_*` functions
/// in this module.
pub trait ClipboardPlatform {
    /// Write plain text to clipboard.
    fn write_text(&self, text: &str);

    /// Write markdown rendered as HTML to clipboard.
    ///
    /// The `plain_text` is the original markdown, `html` is the rendered output.
    fn write_html(&self, html: &str, plain_text: &str);

    /// Read text from clipboard. Returns None if no text is available.
    fn read_text(&self) -> Option<String>;
}

/// `s` without its zero-width chars.
pub open spec fn without_zero_width(s: Seq<char>) -> Seq<char>
    decreases s.len(),
{
    if s.len() == 0 {
        s
    } else if is_zero_width(s.last()) {
        without_zero_width(s.drop_last())
    } else {
        without_zero_width(s.drop_last()).push(s.last())
    }
}

/// No zero-width character is left once they are stripped, so stripping
/// twice is stripping once.
pub proof fn law_strip_zero_width_idempotent(s: Seq<char>)
    ensures
        forall|i: int|
            0 <= i < without_zero_width(s).len() ==> !is_zero_width(#[trigger] without_zero_width(s)[i]),
        without_zero_width(without_zero_width(s)) == without_zero_width(s),
    decreases s.len(),
{
    if s.len() > 0 {
        law_strip_zero_width_idempotent(s.drop_last());
        let t = without_zero_width(s.drop_last());
        if !is_zero_width(s.last()) {
            let u = t.push(s.last());
            assert(u.drop_last() =~= t);
            assert(u.last() == s.last());
        }
    }
}

/// Strip zero-width characters used for formatting gaps.
///
/// The editor uses ZWNJ (U+200C) and ZWSP (U+200B) to create cursor positions
/// within invisible formatting syntax. These should be stripped when copying
/// text to the clipboard.
pub fn strip_zero_width(text: &str) -> (r: String)
    ensures
        r@ == without_zero_width(text@),
{
    let chars = str_to_chars(text);
    let mut out = String::new();
    let mut i: usize = 0;
    while i < chars.len()
        invariant
            i <= chars@.len(),
            chars@ == text@,
            out@ == without_zero_width(text@.take(i as int)),
        decreases chars@.len() - i,
    {
        let c = chars[i];
        proof {
            assert(text@.take(i + 1).drop_last() =~= text@.take(i as int));
        }
        if c != '\u{200C}' && c != '\u{200B}' {
            string_push(&mut out, c);
        }
        i = i + 1;
    }
    proof {
        assert(text@.take(i as int) =~= text@);
    }
    out
}

/// What a copy puts on the clipboard: the selected text without its
/// zero-width chars, when a non-empty selection lies within the text.
pub open spec fn clipboard_text_of(s: Seq<char>, sel: Option<Selection>) -> Option<Seq<char>> {
    match sel {
        None => None,
        Some(x) => if x.start() == x.end() || x.end() > s.len() {
            None
        } else {
            Some(without_zero_width(s.subrange(x.start() as int, x.end() as int)))
        },
    }
}

/// The text a copy or cut of the current selection puts on the clipboard.
pub fn selection_clipboard_text<D: EditorDocument>(doc: &D) -> (r: Option<String>)
    ensures
        match clipboard_text_of(doc_text(*doc), doc.doc().selection) {
            None => r is None,
            Some(t) => r matches Some(x) && x@ == t,
        },
{
    let sel = match doc.selection() {
        Some(sel) => sel,
        None => {
            return None;
        },
    };
    let (start, end) = (sel.start(), sel.end());
    if start == end {
        return None;
    }
    let text = match doc.slice(std::ops::Range { start, end }) {
        Some(t) => t,
        None => {
            return None;
        },
    };
    Some(strip_zero_width(text.as_str()))
}

/// Copy selected text from document to clipboard.
///
/// Returns true if text was copied, false if no selection.
pub fn clipboard_copy<D: EditorDocument, P: ClipboardPlatform>(doc: &D, platform: &P) -> (r: bool)
    ensures
        r == clipboard_text_of(doc_text(*doc), doc.doc().selection) is Some,
        r ==> exists|t: &str|
            t@ == clipboard_text_of(doc_text(*doc), doc.doc().selection).unwrap()
                && #[trigger] call_ensures(P::write_text, (platform, t), ()),
{
    match selection_clipboard_text(doc) {
        Some(clean_text) => {
            let t = clean_text.as_str();
            platform.write_text(t);
            assert(call_ensures(P::write_text, (platform, t), ()));
            true
        },
        None => false,
    }
}

/// Cut selected text from document to clipboard.
///
/// Copies the selection to clipboard, then deletes it from the document.
/// Returns true if text was cut, false if no selection.
pub fn clipboard_cut<D: EditorDocument, P: ClipboardPlatform>(doc: &mut D, platform: &P) -> (r: bool)
    requires
        doc_inv(*old(doc)),
    ensures
        doc_inv(*final(doc)),
        r == clipboard_text_of(doc_text(*old(doc)), old(doc).doc().selection) is Some,
        r ==> exists|t: &str|
            t@ == clipboard_text_of(doc_text(*old(doc)), old(doc).doc().selection).unwrap()
                && #[trigger] call_ensures(P::write_text, (platform, t), ()),
        !r ==> final(doc).doc() == old(doc).doc(),
        r ==> ({
            let sel = old(doc).doc().selection.unwrap();
            let s = doc_text(*old(doc));
            &&& doc_text(*final(doc)) == spec_delete(s, sel.start() as int, sel.end() as int)
            &&& final(doc).doc().cursor == (CursorState { offset: sel.start(), ..old(doc).doc().cursor })
            &&& final(doc).doc().selection is None
            &&& final(doc).doc().last_edit matches Some(e) && edit_info_matches(
                e,
                SpecEdit {
                    before: s,
                    start: sel.start() as int,
                    end: sel.end() as int,
                    inserted: Seq::empty(),
                },
            )
            &&& final(doc).doc().composition == old(doc).doc().composition
            &&& final(doc).doc().composition_ended_at == old(doc).doc().composition_ended_at
            &&& final(doc).doc().pending_snap == old(doc).doc().pending_snap
        }),
{
    let clean_text = match selection_clipboard_text(doc) {
        Some(t) => t,
        None => {
            return false;
        },
    };
    let t = clean_text.as_str();
    platform.write_text(t);
    assert(call_ensures(P::write_text, (platform, t), ()));
    let sel = match doc.selection() {
        Some(sel) => sel,
        None => {
            return false;
        },
    };
    // Delete selection.
    doc.delete(std::ops::Range { start: sel.start(), end: sel.end() });
    doc.set_selection(None);
    true
}

/// The state a paste of `text` leaves: the selection's text deleted when it is
/// not empty, then `text` inserted at the cursor.
pub open spec fn paste_ok<B: TextBuffer>(d: DocState<B>, text: Seq<char>) -> bool {
    let s = d.buffer.text();
    let (s1, cursor) = match d.selection {
        Some(x) => if x.start() != x.end() {
            (spec_delete(s, x.start() as int, x.end() as int), x.start())
        } else {
            (s, d.cursor.offset)
        },
        None => (s, d.cursor.offset),
    };
    &&& d.selection matches Some(x) ==> x.end() <= s.len()
    &&& cursor <= s1.len()
    &&& s1.len() + text.len() <= usize::MAX
}

/// `b` is `a` with `text` pasted: the selection's text, where it is not
/// empty, replaced by `text`, or `text` inserted at the cursor; the cursor
/// after the pasted text, no selection, the edit recorded.
pub open spec fn pasted<B: TextBuffer>(a: DocState<B>, b: DocState<B>, text: Seq<char>) -> bool {
    let s = a.buffer.text();
    let sel = a.selection;
    let collapsed = match sel {
        Some(x) => x.start() == x.end(),
        None => true,
    };
    let s1 = if collapsed {
        s
    } else {
        spec_delete(s, sel.unwrap().start() as int, sel.unwrap().end() as int)
    };
    let at = if collapsed {
        a.cursor.offset
    } else {
        sel.unwrap().start()
    };
    &&& b.buffer.text() == spec_insert(s1, at as int, text)
    &&& b.cursor == (CursorState { offset: (at + text.len()) as usize, ..a.cursor })
    &&& b.selection is None
    &&& b.last_edit matches Some(e) && edit_info_matches(
        e,
        SpecEdit { before: s1, start: at as int, end: at as int, inserted: text },
    )
    &&& b.composition == a.composition
    &&& b.composition_ended_at == a.composition_ended_at
    &&& b.pending_snap == a.pending_snap
}

/// Paste text into the document: replaces any selection with the text, or
/// inserts it at the cursor. Returns false, changing nothing, for empty text.
pub fn clipboard_paste_text<D: EditorDocument>(doc: &mut D, text: &str) -> (r: bool)
    requires
        doc_inv(*old(doc)),
        text@.len() > 0 ==> paste_ok(old(doc).doc(), text@),
    ensures
        doc_inv(*final(doc)),
        r == (text@.len() > 0),
        !r ==> final(doc).doc() == old(doc).doc(),
        r ==> pasted(old(doc).doc(), final(doc).doc(), text@),
{
    if text.unicode_len() == 0 {
        return false;
    }
    // Delete selection if present.
    if let Some(sel) = doc.selection() {
        let (start, end) = (sel.start(), sel.end());
        if start != end {
            doc.delete(std::ops::Range { start, end });
            doc.set_cursor_offset(start);
        }
    }
    doc.set_selection(None);
    // Insert at cursor.
    let cursor = doc.cursor_offset();
    doc.insert(cursor, text);
    proof {
        let s1 = doc_text(*doc);
        assert(s1.subrange(cursor as int, cursor as int).len() == 0);
    }
    true
}

/// Paste text from clipboard into document.
///
/// Replaces any selection with the pasted text, or inserts at cursor.
/// Returns true if text was pasted, false if clipboard was empty (or the
/// text would not fit in the document's index range). What the clipboard
/// holds is the platform's to say: the text its `read_text` gives is pasted
/// when it is not empty and fits.
pub fn clipboard_paste<D: EditorDocument, P: ClipboardPlatform>(doc: &mut D, platform: &P) -> (r: bool)
    requires
        doc_inv(*old(doc)),
        forall|t: Option<String>|
            #[trigger] call_ensures(P::read_text, (platform,), t) && (t matches Some(text)
                && text@.len() > 0) ==> paste_ok(old(doc).doc(), Seq::empty()),
    ensures
        doc_inv(*final(doc)),
        !r ==> final(doc).doc() == old(doc).doc(),
        exists|t: Option<String>|
            call_ensures(P::read_text, (platform,), t) && match t {
                Some(text) => if 0 < text@.len() <= usize::MAX - doc_text(*old(doc)).len() {
                    r && pasted(old(doc).doc(), final(doc).doc(), text@)
                } else {
                    !r
                },
                None => !r,
            },
{
    let text = match platform.read_text() {
        Some(t) => t,
        None => {
            return false;
        },
    };
    let len = doc.len_chars();
    if text.as_str().unicode_len() > usize::MAX - len {
        return false;
    }
    clipboard_paste_text(doc, text.as_str())
}

} // verus!
