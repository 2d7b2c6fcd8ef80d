//! Browser input handling for the editor: `beforeinput` and IME composition.
//!
//! The browser layer reads the event (its input type, data and target range)
//! and hands the plain values here; this module decides what the document does.
use crate::actions::{EditorAction, InputType, Range};
use crate::document::{doc_inv, doc_text, with_cursor_offset, DocState, EditorDocument};
use crate::execute::{
    action_ok, deleted, execute_action, history_holds, outcome, outcome_holds,
};
use crate::strings::{str_eq, str_to_chars};
use crate::text::{spec_insert, TextBuffer};
use crate::text_helpers::{count_leading_zero_width, lemma_zero_width_run_bound, zero_width_run_before};
use crate::types::{CompositionState, CursorState, Selection};
use crate::undo::UndoManager;
use vstd::prelude::*;

verus! {

/// The browser and OS the editor runs in, as far as input handling cares.
#[derive(Debug, Clone, Copy, PartialEq, Eq, Structural)]
pub struct Platform {
    /// Running on Android.
    pub android: bool,
    /// Running in Chrome (or a Chromium browser).
    pub chrome: bool,
}

/// The input type a W3C `inputType` name stands for, `None` for names the
/// editor does not know.
pub open spec fn known_input_type(s: Seq<char>) -> Option<InputType> {
    if s == "insertText"@ {
        Some(InputType::InsertText)
    } else if s == "insertCompositionText"@ {
        Some(InputType::InsertCompositionText)
    } else if s == "insertLineBreak"@ {
        Some(InputType::InsertLineBreak)
    } else if s == "insertParagraph"@ {
        Some(InputType::InsertParagraph)
    } else if s == "insertFromPaste"@ {
        Some(InputType::InsertFromPaste)
    } else if s == "insertFromDrop"@ {
        Some(InputType::InsertFromDrop)
    } else if s == "insertReplacementText"@ {
        Some(InputType::InsertReplacementText)
    } else if s == "insertFromYank"@ {
        Some(InputType::InsertFromYank)
    } else if s == "insertHorizontalRule"@ {
        Some(InputType::InsertHorizontalRule)
    } else if s == "insertOrderedList"@ {
        Some(InputType::InsertOrderedList)
    } else if s == "insertUnorderedList"@ {
        Some(InputType::InsertUnorderedList)
    } else if s == "insertLink"@ {
        Some(InputType::InsertLink)
    } else if s == "deleteContentBackward"@ {
        Some(InputType::DeleteContentBackward)
    } else if s == "deleteContentForward"@ {
        Some(InputType::DeleteContentForward)
    } else if s == "deleteWordBackward"@ {
        Some(InputType::DeleteWordBackward)
    } else if s == "deleteWordForward"@ {
        Some(InputType::DeleteWordForward)
    } else if s == "deleteSoftLineBackward"@ {
        Some(InputType::DeleteSoftLineBackward)
    } else if s == "deleteSoftLineForward"@ {
        Some(InputType::DeleteSoftLineForward)
    } else if s == "deleteHardLineBackward"@ {
        Some(InputType::DeleteHardLineBackward)
    } else if s == "deleteHardLineForward"@ {
        Some(InputType::DeleteHardLineForward)
    } else if s == "deleteByCut"@ {
        Some(InputType::DeleteByCut)
    } else if s == "deleteByDrag"@ {
        Some(InputType::DeleteByDrag)
    } else if s == "deleteContent"@ {
        Some(InputType::DeleteContent)
    } else if s == "deleteEntireSoftLine"@ {
        Some(InputType::DeleteSoftLineBackward)
    } else if s == "deleteEntireWordBackward"@ {
        Some(InputType::DeleteEntireWordBackward)
    } else if s == "deleteEntireWordForward"@ {
        Some(InputType::DeleteEntireWordForward)
    } else if s == "historyUndo"@ {
        Some(InputType::HistoryUndo)
    } else if s == "historyRedo"@ {
        Some(InputType::HistoryRedo)
    } else if s == "formatBold"@ {
        Some(InputType::FormatBold)
    } else if s == "formatItalic"@ {
        Some(InputType::FormatItalic)
    } else if s == "formatUnderline"@ {
        Some(InputType::FormatUnderline)
    } else if s == "formatStrikethrough"@ {
        Some(InputType::FormatStrikethrough)
    } else if s == "formatSuperscript"@ {
        Some(InputType::FormatSuperscript)
    } else if s == "formatSubscript"@ {
        Some(InputType::FormatSubscript)
    } else {
        None
    }
}

/// Parse a browser inputType string to an InputType enum.
///
/// This handles the W3C Input Events inputType values as returned by
/// `InputEvent.inputType` in browsers.
pub fn parse_browser_input_type(s: &str) -> (r: InputType)
    ensures
        match known_input_type(s@) {
            Some(t) => r == t,
            None => r matches InputType::Unknown(x) && x@ == s@,
        },
{
    if str_eq(s, "insertText") {
        InputType::InsertText
    } else if str_eq(s, "insertCompositionText") {
        InputType::InsertCompositionText
    } else if str_eq(s, "insertLineBreak") {
        InputType::InsertLineBreak
    } else if str_eq(s, "insertParagraph") {
        InputType::InsertParagraph
    } else if str_eq(s, "insertFromPaste") {
        InputType::InsertFromPaste
    } else if str_eq(s, "insertFromDrop") {
        InputType::InsertFromDrop
    } else if str_eq(s, "insertReplacementText") {
        InputType::InsertReplacementText
    } else if str_eq(s, "insertFromYank") {
        InputType::InsertFromYank
    } else if str_eq(s, "insertHorizontalRule") {
        InputType::InsertHorizontalRule
    } else if str_eq(s, "insertOrderedList") {
        InputType::InsertOrderedList
    } else if str_eq(s, "insertUnorderedList") {
        InputType::InsertUnorderedList
    } else if str_eq(s, "insertLink") {
        InputType::InsertLink
    } else if str_eq(s, "deleteContentBackward") {
        InputType::DeleteContentBackward
    } else if str_eq(s, "deleteContentForward") {
        InputType::DeleteContentForward
    } else if str_eq(s, "deleteWordBackward") {
        InputType::DeleteWordBackward
    } else if str_eq(s, "deleteWordForward") {
        InputType::DeleteWordForward
    } else if str_eq(s, "deleteSoftLineBackward") {
        InputType::DeleteSoftLineBackward
    } else if str_eq(s, "deleteSoftLineForward") {
        InputType::DeleteSoftLineForward
    } else if str_eq(s, "deleteHardLineBackward") {
        InputType::DeleteHardLineBackward
    } else if str_eq(s, "deleteHardLineForward") {
        InputType::DeleteHardLineForward
    } else if str_eq(s, "deleteByCut") {
        InputType::DeleteByCut
    } else if str_eq(s, "deleteByDrag") {
        InputType::DeleteByDrag
    } else if str_eq(s, "deleteContent") {
        InputType::DeleteContent
    } else if str_eq(s, "deleteEntireSoftLine") {
        InputType::DeleteSoftLineBackward
    } else if str_eq(s, "deleteEntireWordBackward") {
        InputType::DeleteEntireWordBackward
    } else if str_eq(s, "deleteEntireWordForward") {
        InputType::DeleteEntireWordForward
    } else if str_eq(s, "historyUndo") {
        InputType::HistoryUndo
    } else if str_eq(s, "historyRedo") {
        InputType::HistoryRedo
    } else if str_eq(s, "formatBold") {
        InputType::FormatBold
    } else if str_eq(s, "formatItalic") {
        InputType::FormatItalic
    } else if str_eq(s, "formatUnderline") {
        InputType::FormatUnderline
    } else if str_eq(s, "formatStrikethrough") {
        InputType::FormatStrikethrough
    } else if str_eq(s, "formatSuperscript") {
        InputType::FormatSuperscript
    } else if str_eq(s, "formatSubscript") {
        InputType::FormatSubscript
    } else {
        InputType::Unknown(s.to_owned())
    }
}


/// Result of handling a beforeinput event.
#[derive(Debug)]
pub enum BeforeInputResult {
    /// Event was handled, prevent default browser behavior.
    Handled,
    /// Event should be handled by browser (e.g., during composition).
    PassThrough,
    /// Event was handled but requires async follow-up (e.g., paste).
    HandledAsync,
    /// Android backspace workaround: defer and check if browser handled it.
    DeferredCheck {
        /// The action to execute if browser didn't handle it.
        fallback_action: EditorAction,
    },
}

impl Clone for BeforeInputResult {
    fn clone(&self) -> (r: Self)
        ensures
            r == *self,
    {
        match self {
            BeforeInputResult::Handled => BeforeInputResult::Handled,
            BeforeInputResult::PassThrough => BeforeInputResult::PassThrough,
            BeforeInputResult::HandledAsync => BeforeInputResult::HandledAsync,
            BeforeInputResult::DeferredCheck { fallback_action } => BeforeInputResult::DeferredCheck {
                fallback_action: fallback_action.clone(),
            },
        }
    }
}

/// Context for beforeinput handling.
pub struct BeforeInputContext<'a> {
    /// The input type.
    pub input_type: InputType,
    /// The data (text to insert, if any).
    pub data: Option<String>,
    /// Target range from getTargetRanges(), if available.
    /// This is the range the browser wants to modify.
    pub target_range: Option<Range>,
    /// Whether the event is part of an IME composition.
    pub is_composing: bool,
    /// Platform info for quirks handling.
    pub platform: &'a Platform,
    /// DOM update strategy: when set, every event is answered `Handled` and
    /// the DOM is re-rendered from the model via innerHTML; when clear, plain
    /// text insertions and single-char deletions are left to the browser
    /// while the model tracks them.
    pub force_innerhtml_update: bool,
}

/// Get the current range (cursor or selection) from an EditorDocument.
pub fn get_current_range<D: EditorDocument>(doc: &D) -> (r: Range)
    ensures
        r == match doc.doc().selection {
            Some(sel) => Range { start: sel.start(), end: sel.end() },
            None => Range { start: doc.doc().cursor.offset, end: doc.doc().cursor.offset },
        },
{
    match doc.selection() {
        Some(sel) => Range::new(sel.start(), sel.end()),
        None => Range::caret(doc.cursor_offset()),
    }
}

/// The char at `i` of `s`, if any.
pub open spec fn char_of(s: Seq<char>, i: int) -> Option<char> {
    if 0 <= i < s.len() {
        Some(s[i])
    } else {
        None
    }
}

/// Newlines and zero-width chars need semantic handling rather than simple
/// char deletion.
pub open spec fn special_for_delete(c: Option<char>) -> bool {
    match c {
        Some(x) => x == '\n' || x == '\u{200C}' || x == '\u{200B}',
        None => false,
    }
}

/// Check if a character requires special delete handling.
fn needs_special_delete_handling(ch: Option<char>) -> (r: bool)
    ensures
        r == special_for_delete(ch),
{
    match ch {
        Some(c) => c == '\n' || c == '\u{200C}' || c == '\u{200B}',
        None => false,
    }
}

/// What a beforeinput event does to the document.
pub enum InputEffect {
    /// The document is left alone.
    Nothing,
    /// The action is executed.
    Run(EditorAction),
    /// The chars in `[start, end)` are deleted, the browser updating the DOM.
    DeleteChars(int, int),
}

/// The range a beforeinput event works on.
pub open spec fn input_range(ctx: BeforeInputContext, current_range: Range) -> Range {
    match ctx.target_range {
        Some(r) => r,
        None => current_range,
    }
}

/// The event is left to the browser because an IME composition runs.
pub open spec fn left_to_composition(ctx: BeforeInputContext) -> bool {
    ctx.is_composing && !(ctx.input_type is HistoryUndo || ctx.input_type is HistoryRedo)
}

/// Backspace at a caret on Android Chrome is deferred, unless the DOM is
/// re-rendered from the model anyway.
pub open spec fn android_backspace(ctx: BeforeInputContext, range: Range) -> bool {
    ctx.platform.android && ctx.platform.chrome && range.is_caret() && !ctx.force_innerhtml_update
}

/// A backspace needs the full action handler.
pub open spec fn backspace_special(range: Range, s: Seq<char>) -> bool {
    !range.is_caret() || (range.start != 0 && special_for_delete(char_of(s, range.start - 1)))
}

/// A forward delete needs the full action handler.
pub open spec fn delete_forward_special(range: Range, s: Seq<char>) -> bool {
    !range.is_caret() || (range.start < s.len() && special_for_delete(char_of(s, range.start as int)))
}

/// What a beforeinput event does to the document with text `s`.
pub open spec fn input_effect(ctx: BeforeInputContext, current_range: Range, s: Seq<char>) -> InputEffect {
    let range = input_range(ctx, current_range);
    if left_to_composition(ctx) {
        InputEffect::Nothing
    } else {
        match ctx.input_type {
            InputType::InsertText => match ctx.data {
                Some(t) => InputEffect::Run(EditorAction::Insert { text: t, range }),
                None => InputEffect::Nothing,
            },
            InputType::InsertLineBreak => InputEffect::Run(EditorAction::InsertLineBreak { range }),
            InputType::InsertParagraph => InputEffect::Run(EditorAction::InsertParagraph { range }),
            InputType::InsertFromPaste => match ctx.data {
                Some(t) => InputEffect::Run(EditorAction::Insert { text: t, range }),
                None => InputEffect::Nothing,
            },
            InputType::InsertReplacementText => match ctx.data {
                Some(t) => InputEffect::Run(EditorAction::Insert { text: t, range }),
                None => InputEffect::Nothing,
            },
            InputType::DeleteContentBackward => if android_backspace(ctx, range) {
                InputEffect::Nothing
            } else if backspace_special(range, s) || ctx.force_innerhtml_update {
                InputEffect::Run(EditorAction::DeleteBackward { range })
            } else if range.start > 0 {
                InputEffect::DeleteChars(range.start - 1, range.start as int)
            } else {
                InputEffect::Nothing
            },
            InputType::DeleteContentForward => if delete_forward_special(range, s)
                || ctx.force_innerhtml_update {
                InputEffect::Run(EditorAction::DeleteForward { range })
            } else if range.start < s.len() {
                InputEffect::DeleteChars(range.start as int, range.start + 1)
            } else {
                InputEffect::Nothing
            },
            InputType::DeleteWordBackward => InputEffect::Run(
                EditorAction::DeleteWordBackward { range },
            ),
            InputType::DeleteEntireWordBackward => InputEffect::Run(
                EditorAction::DeleteWordBackward { range },
            ),
            InputType::DeleteWordForward => InputEffect::Run(EditorAction::DeleteWordForward { range }),
            InputType::DeleteEntireWordForward => InputEffect::Run(
                EditorAction::DeleteWordForward { range },
            ),
            InputType::DeleteSoftLineBackward => InputEffect::Run(
                EditorAction::DeleteSoftLineBackward { range },
            ),
            InputType::DeleteSoftLineForward => InputEffect::Run(
                EditorAction::DeleteSoftLineForward { range },
            ),
            InputType::DeleteHardLineBackward => InputEffect::Run(
                EditorAction::DeleteToLineStart { range },
            ),
            InputType::DeleteHardLineForward => InputEffect::Run(EditorAction::DeleteToLineEnd { range }),
            InputType::DeleteByCut => if !range.is_caret() {
                InputEffect::Run(EditorAction::DeleteBackward { range })
            } else {
                InputEffect::Nothing
            },
            InputType::DeleteByDrag => if !range.is_caret() {
                InputEffect::Run(EditorAction::DeleteBackward { range })
            } else {
                InputEffect::Nothing
            },
            InputType::DeleteContent => if !range.is_caret() {
                InputEffect::Run(EditorAction::DeleteBackward { range })
            } else {
                InputEffect::Nothing
            },
            InputType::HistoryUndo => InputEffect::Run(EditorAction::Undo),
            InputType::HistoryRedo => InputEffect::Run(EditorAction::Redo),
            InputType::FormatBold => InputEffect::Run(EditorAction::ToggleBold),
            InputType::FormatItalic => InputEffect::Run(EditorAction::ToggleItalic),
            InputType::FormatStrikethrough => InputEffect::Run(EditorAction::ToggleStrikethrough),
            _ => InputEffect::Nothing,
        }
    }
}

/// What handling a beforeinput event answers the browser: always `Handled`
/// when the DOM is re-rendered from the model after every event, else as
/// `dispatch_result` says.
pub open spec fn input_result(ctx: BeforeInputContext, current_range: Range, s: Seq<char>) -> BeforeInputResult {
    if ctx.force_innerhtml_update {
        BeforeInputResult::Handled
    } else {
        dispatch_result(ctx, current_range, s)
    }
}

/// What dispatching a beforeinput event answers, the browser updating the
/// DOM where it can.
pub open spec fn dispatch_result(ctx: BeforeInputContext, current_range: Range, s: Seq<char>) -> BeforeInputResult {
    let range = input_range(ctx, current_range);
    if left_to_composition(ctx) {
        BeforeInputResult::PassThrough
    } else {
        match ctx.input_type {
            InputType::InsertText => if ctx.data is Some && ctx.force_innerhtml_update {
                BeforeInputResult::Handled
            } else {
                BeforeInputResult::PassThrough
            },
            InputType::InsertFromPaste => if ctx.data is Some {
                BeforeInputResult::Handled
            } else {
                BeforeInputResult::PassThrough
            },
            InputType::InsertReplacementText => if ctx.data is Some {
                BeforeInputResult::Handled
            } else {
                BeforeInputResult::PassThrough
            },
            InputType::DeleteContentBackward => if android_backspace(ctx, range) {
                BeforeInputResult::DeferredCheck {
                    fallback_action: EditorAction::DeleteBackward { range },
                }
            } else if backspace_special(range, s) || ctx.force_innerhtml_update {
                BeforeInputResult::Handled
            } else {
                BeforeInputResult::PassThrough
            },
            InputType::DeleteContentForward => if delete_forward_special(range, s)
                || ctx.force_innerhtml_update {
                BeforeInputResult::Handled
            } else {
                BeforeInputResult::PassThrough
            },
            InputType::InsertLineBreak | InputType::InsertParagraph | InputType::DeleteWordBackward
            | InputType::DeleteEntireWordBackward | InputType::DeleteWordForward
            | InputType::DeleteEntireWordForward | InputType::DeleteSoftLineBackward
            | InputType::DeleteSoftLineForward | InputType::DeleteHardLineBackward
            | InputType::DeleteHardLineForward | InputType::DeleteByCut | InputType::DeleteByDrag
            | InputType::DeleteContent | InputType::HistoryUndo | InputType::HistoryRedo
            | InputType::FormatBold | InputType::FormatItalic
            | InputType::FormatStrikethrough => BeforeInputResult::Handled,
            _ => BeforeInputResult::PassThrough,
        }
    }
}

/// The inputs on which an effect works without fault.
pub open spec fn effect_ok<B: TextBuffer>(d: DocState<B>, e: InputEffect) -> bool {
    match e {
        InputEffect::Nothing => true,
        InputEffect::Run(a) => action_ok(d.buffer.text(), d.selection, a),
        InputEffect::DeleteChars(start, end) => 0 <= start <= end <= d.buffer.text().len(),
    }
}


/// `b` is what effect `e` makes of `a`.
pub open spec fn effect_holds<B: TextBuffer + UndoManager>(a: DocState<B>, b: DocState<B>, e: InputEffect) -> bool {
    match e {
        InputEffect::Nothing => b == a,
        InputEffect::Run(act) => match act {
            EditorAction::Undo => history_holds(a, b, a.buffer.spec_can_undo(), false),
            EditorAction::Redo => history_holds(a, b, a.buffer.spec_can_redo(), true),
            _ => {
                let o = outcome(act, a.buffer.text(), a.cursor.offset as int, a.selection);
                outcome_holds(a, b, o.handled, o)
            },
        },
        InputEffect::DeleteChars(start, end) => outcome_holds(
            a,
            b,
            true,
            deleted(a.buffer.text(), start, end, a.selection),
        ),
    }
}

/// Handle a beforeinput event, dispatching to the appropriate action.
///
/// This is the main entry point for beforeinput-based input handling.
/// The `current_range` parameter should be the current cursor/selection range
/// from the document when `ctx.target_range` is None.
///
/// Returns the handling result indicating whether default should be prevented.
///
/// # DOM Update Strategy
///
/// When `ctx.force_innerhtml_update` is set, this always returns `Handled`
/// and the caller should preventDefault. The DOM will be updated via innerHTML.
///
/// When it is clear, simple operations (plain text insert, single char delete)
/// return `PassThrough` to let the browser update the DOM while we track
/// changes in the model. Complex operations still return `Handled`.
pub fn handle_beforeinput<D: EditorDocument>(
    doc: &mut D,
    ctx: &BeforeInputContext<'_>,
    current_range: Range,
) -> (r: BeforeInputResult)
    requires
        doc_inv(*old(doc)),
        effect_ok(old(doc).doc(), input_effect(*ctx, current_range, doc_text(*old(doc)))),
    ensures
        r == input_result(*ctx, current_range, doc_text(*old(doc))),
        effect_holds(
            old(doc).doc(),
            final(doc).doc(),
            input_effect(*ctx, current_range, doc_text(*old(doc))),
        ),
{
    let r = dispatch_beforeinput(doc, ctx, current_range);
    if ctx.force_innerhtml_update {
        BeforeInputResult::Handled
    } else {
        r
    }
}

/// Apply a beforeinput event to the document and say whether the browser
/// may update the DOM itself.
fn dispatch_beforeinput<D: EditorDocument>(
    doc: &mut D,
    ctx: &BeforeInputContext<'_>,
    current_range: Range,
) -> (r: BeforeInputResult)
    requires
        doc_inv(*old(doc)),
        effect_ok(old(doc).doc(), input_effect(*ctx, current_range, doc_text(*old(doc)))),
    ensures
        r == dispatch_result(*ctx, current_range, doc_text(*old(doc))),
        effect_holds(
            old(doc).doc(),
            final(doc).doc(),
            input_effect(*ctx, current_range, doc_text(*old(doc))),
        ),
{
    // During composition, let the browser handle most things.
    if ctx.is_composing {
        match ctx.input_type {
            InputType::HistoryUndo | InputType::HistoryRedo => {
                // Handle undo/redo even during composition.
            },
            _ => {
                return BeforeInputResult::PassThrough;
            },
        }
    }
    // Use target range from event, or fall back to current range.
    let range = match ctx.target_range {
        Some(r) => r,
        None => current_range,
    };
    match &ctx.input_type {
        // === Insertion ===
        InputType::InsertText => {
            if let Some(text) = &ctx.data {
                let action = EditorAction::Insert { text: text.clone(), range };
                execute_action(doc, &action);
                // When the DOM is not forced to re-render, the browser handles
                // DOM updates for simple text insertions while we track the model.
                if ctx.force_innerhtml_update {
                    BeforeInputResult::Handled
                } else {
                    BeforeInputResult::PassThrough
                }
            } else {
                BeforeInputResult::PassThrough
            }
        },
        InputType::InsertLineBreak => {
            let action = EditorAction::InsertLineBreak { range };
            execute_action(doc, &action);
            BeforeInputResult::Handled
        },
        InputType::InsertParagraph => {
            let action = EditorAction::InsertParagraph { range };
            execute_action(doc, &action);
            BeforeInputResult::Handled
        },
        InputType::InsertFromPaste | InputType::InsertReplacementText => {
            if let Some(text) = &ctx.data {
                let action = EditorAction::Insert { text: text.clone(), range };
                execute_action(doc, &action);
                BeforeInputResult::Handled
            } else {
                BeforeInputResult::PassThrough
            }
        },
        InputType::InsertFromDrop => BeforeInputResult::PassThrough,
        InputType::InsertCompositionText => BeforeInputResult::PassThrough,
        // === Deletion ===
        InputType::DeleteContentBackward => {
            // Android Chrome workaround: backspace sometimes doesn't work properly.
            if ctx.platform.android && ctx.platform.chrome && range.is_caret()
                && !ctx.force_innerhtml_update {
                let action = EditorAction::DeleteBackward { range };
                return BeforeInputResult::DeferredCheck { fallback_action: action };
            }
            // Check if this delete requires special handling.
            let needs_special = if !range.is_caret() {
                // Selection delete - always handle for consistency.
                true
            } else if range.start == 0 {
                // At start - nothing to delete.
                false
            } else {
                // Check what char we're deleting.
                needs_special_delete_handling(doc.char_at(range.start - 1))
            };
            if needs_special || ctx.force_innerhtml_update {
                // Complex delete or forced mode - use full action handler.
                let action = EditorAction::DeleteBackward { range };
                execute_action(doc, &action);
                BeforeInputResult::Handled
            } else {
                // Simple single-char delete - track in model, let browser handle DOM.
                if range.start > 0 {
                    doc.delete(std::ops::Range { start: range.start - 1, end: range.start });
                }
                BeforeInputResult::PassThrough
            }
        },
        InputType::DeleteContentForward => {
            // Check if this delete requires special handling.
            let needs_special = if !range.is_caret() {
                true
            } else if range.start >= doc.len_chars() {
                false
            } else {
                needs_special_delete_handling(doc.char_at(range.start))
            };
            if needs_special || ctx.force_innerhtml_update {
                let action = EditorAction::DeleteForward { range };
                execute_action(doc, &action);
                BeforeInputResult::Handled
            } else {
                // Simple delete forward.
                if range.start < doc.len_chars() {
                    doc.delete(std::ops::Range { start: range.start, end: range.start + 1 });
                }
                BeforeInputResult::PassThrough
            }
        },
        InputType::DeleteWordBackward | InputType::DeleteEntireWordBackward => {
            let action = EditorAction::DeleteWordBackward { range };
            execute_action(doc, &action);
            BeforeInputResult::Handled
        },
        InputType::DeleteWordForward | InputType::DeleteEntireWordForward => {
            let action = EditorAction::DeleteWordForward { range };
            execute_action(doc, &action);
            BeforeInputResult::Handled
        },
        InputType::DeleteSoftLineBackward => {
            let action = EditorAction::DeleteSoftLineBackward { range };
            execute_action(doc, &action);
            BeforeInputResult::Handled
        },
        InputType::DeleteSoftLineForward => {
            let action = EditorAction::DeleteSoftLineForward { range };
            execute_action(doc, &action);
            BeforeInputResult::Handled
        },
        InputType::DeleteHardLineBackward => {
            let action = EditorAction::DeleteToLineStart { range };
            execute_action(doc, &action);
            BeforeInputResult::Handled
        },
        InputType::DeleteHardLineForward => {
            let action = EditorAction::DeleteToLineEnd { range };
            execute_action(doc, &action);
            BeforeInputResult::Handled
        },
        InputType::DeleteByCut | InputType::DeleteByDrag | InputType::DeleteContent => {
            if !range.is_caret() {
                let action = EditorAction::DeleteBackward { range };
                execute_action(doc, &action);
            }
            BeforeInputResult::Handled
        },
        // === History ===
        InputType::HistoryUndo => {
            execute_action(doc, &EditorAction::Undo);
            BeforeInputResult::Handled
        },
        InputType::HistoryRedo => {
            execute_action(doc, &EditorAction::Redo);
            BeforeInputResult::Handled
        },
        // === Formatting ===
        InputType::FormatBold => {
            execute_action(doc, &EditorAction::ToggleBold);
            BeforeInputResult::Handled
        },
        InputType::FormatItalic => {
            execute_action(doc, &EditorAction::ToggleItalic);
            BeforeInputResult::Handled
        },
        InputType::FormatStrikethrough => {
            execute_action(doc, &EditorAction::ToggleStrikethrough);
            BeforeInputResult::Handled
        },
        // === Not handled ===
        _ => BeforeInputResult::PassThrough,
    }
}


// === Composition (IME) event handlers ===

/// Handle composition start with the IME's `data`.
///
/// Clears any existing selection (composition replaces it) and sets up
/// composition state tracking at the cursor.
pub fn handle_compositionstart<D: EditorDocument>(doc: &mut D, data: String)
    requires
        doc_inv(*old(doc)),
        old(doc).doc().selection matches Some(sel) ==> sel.end() <= doc_text(*old(doc)).len(),
    ensures
        doc_inv(*final(doc)),
        final(doc).doc().selection is None,
        final(doc).doc().composition_ended_at == old(doc).doc().composition_ended_at,
        final(doc).doc().pending_snap == old(doc).doc().pending_snap,
        match old(doc).doc().selection {
            Some(sel) => {
                &&& doc_text(*final(doc)) == crate::text::spec_delete(
                    doc_text(*old(doc)),
                    sel.start() as int,
                    sel.end() as int,
                )
                &&& final(doc).doc().cursor == (CursorState {
                    offset: sel.start(),
                    ..old(doc).doc().cursor
                })
                &&& final(doc).doc().last_edit matches Some(e) && crate::execute::edit_info_matches(
                    e,
                    crate::execute::SpecEdit {
                        before: doc_text(*old(doc)),
                        start: sel.start() as int,
                        end: sel.end() as int,
                        inserted: Seq::empty(),
                    },
                )
            },
            None => {
                &&& final(doc).doc().buffer == old(doc).doc().buffer
                &&& final(doc).doc().cursor == old(doc).doc().cursor
                &&& final(doc).doc().last_edit == old(doc).doc().last_edit
            },
        },
        final(doc).doc().composition == Some(
            CompositionState { start_offset: final(doc).doc().cursor.offset, text: data },
        ),
{
    // Delete selection if present (composition replaces it).
    if let Some(sel) = doc.selection() {
        let (start, end) = (sel.start(), sel.end());
        doc.delete(std::ops::Range { start, end });
        doc.set_cursor_offset(start);
        doc.set_selection(None);
    }
    let cursor_offset = doc.cursor_offset();
    doc.set_composition(Some(CompositionState { start_offset: cursor_offset, text: data }));
}

/// Handle composition update with the IME's current `data`.
///
/// Updates the composition text as the user types or selects IME suggestions;
/// without a composition nothing changes.
pub fn handle_compositionupdate<D: EditorDocument>(doc: &mut D, data: String)
    ensures
        match old(doc).doc().composition {
            Some(c) => final(doc).doc() == (DocState {
                composition: Some(CompositionState { start_offset: c.start_offset, text: data }),
                ..old(doc).doc()
            }),
            None => final(doc).doc() == old(doc).doc(),
        },
{
    if let Some(comp) = doc.composition() {
        let updated = CompositionState { start_offset: comp.start_offset, text: data };
        doc.set_composition(Some(updated));
    }
}

/// Where a composition's text goes in when it ends: the zero-width chars just
/// before the composition start and the cursor are replaced by it, or, with
/// none there, it is inserted at the cursor.
pub open spec fn composition_end_text(s: Seq<char>, start: int, cursor: int, t: Seq<char>) -> Seq<char> {
    let ds = start - zero_width_run_before(s, start);
    if cursor - ds > 0 {
        s.take(ds) + t + s.skip(cursor)
    } else {
        spec_insert(s, cursor, t)
    }
}

/// The cursor after a composition ends.
pub open spec fn composition_end_cursor(s: Seq<char>, start: int, cursor: int, t: Seq<char>) -> int {
    let ds = start - zero_width_run_before(s, start);
    if cursor - ds > 0 {
        ds + t.len()
    } else {
        start + t.len()
    }
}

/// The inputs on which ending a composition works without fault: the cursor
/// lies within the text and no earlier than the zero-width chars before the
/// composition start, and the text leaves room for what is added.
pub open spec fn composition_end_ok<B: TextBuffer>(d: DocState<B>, t: Seq<char>) -> bool {
    match d.composition {
        Some(c) => t.len() > 0 ==> {
            let s = d.buffer.text();
            let ds = c.start_offset - zero_width_run_before(s, c.start_offset as int);
            &&& ds <= d.cursor.offset <= s.len()
            &&& s.len() + t.len() <= usize::MAX
            &&& c.start_offset + t.len() <= usize::MAX
        },
        None => true,
    }
}

/// Handle composition end with the IME's final text.
///
/// Finalizes the composition by inserting the final text into the document.
/// Also handles zero-width character cleanup that some IMEs leave behind.
pub fn handle_compositionend<D: EditorDocument>(doc: &mut D, final_text: String)
    requires
        doc_inv(*old(doc)),
        composition_end_ok(old(doc).doc(), final_text@),
    ensures
        doc_inv(*final(doc)),
        final(doc).doc().composition is None,
        final(doc).doc().composition_ended_at is Some,
        final(doc).doc().selection == old(doc).doc().selection,
        final(doc).doc().pending_snap == old(doc).doc().pending_snap,
        match old(doc).doc().composition {
            Some(c) => if final_text@.len() > 0 {
                let s = doc_text(*old(doc));
                let cur = old(doc).doc().cursor.offset as int;
                &&& doc_text(*final(doc)) == composition_end_text(
                    s,
                    c.start_offset as int,
                    cur,
                    final_text@,
                )
                &&& final(doc).doc().cursor == (CursorState {
                    offset: composition_end_cursor(s, c.start_offset as int, cur, final_text@) as usize,
                    ..old(doc).doc().cursor
                })
                &&& final(doc).doc().last_edit is Some
            } else {
                &&& final(doc).doc().buffer == old(doc).doc().buffer
                &&& final(doc).doc().cursor == old(doc).doc().cursor
                &&& final(doc).doc().last_edit == old(doc).doc().last_edit
            },
            None => {
                &&& final(doc).doc().buffer == old(doc).doc().buffer
                &&& final(doc).doc().cursor == old(doc).doc().cursor
                &&& final(doc).doc().last_edit == old(doc).doc().last_edit
            },
        },
{
    // Record when composition ended for Safari timing workaround.
    doc.set_composition_ended_now();
    let comp = doc.composition();
    doc.set_composition(None);
    if let Some(comp) = comp {
        let text_len = final_text.as_str().unicode_len();
        if text_len > 0 {
            let ghost s = doc_text(*doc);
            // Clean up zero-width characters that IMEs sometimes leave behind.
            let zw = count_leading_zero_width(doc, comp.start_offset);
            proof {
                lemma_zero_width_run_bound(s, comp.start_offset as int);
            }
            let delete_start = comp.start_offset - zw;
            let cursor_offset = doc.cursor_offset();
            let zw_count = cursor_offset - delete_start;
            if zw_count > 0 {
                // Splice: delete zero-width chars and insert new char in one op.
                doc.replace(
                    std::ops::Range { start: delete_start, end: delete_start + zw_count },
                    final_text.as_str(),
                );
                doc.set_cursor_offset(delete_start + text_len);
            } else if cursor_offset == doc.len_chars() {
                // Fast path: append at end.
                doc.push(final_text.as_str());
                doc.set_cursor_offset(comp.start_offset + text_len);
                proof {
                    assert(s + final_text@ =~= spec_insert(s, cursor_offset as int, final_text@));
                }
            } else {
                // Insert at cursor position.
                doc.insert(cursor_offset, final_text.as_str());
                doc.set_cursor_offset(comp.start_offset + text_len);
            }
        }
    }
}



// === Math click handling ===

/// Handle a click that might be on a math element.
///
/// `click_offset` is the character offset the clicked `.math-clickable`
/// element names in its `data-char-target` attribute (read with
/// `parse_usize`), where the click was on one. Then the cursor moves there,
/// the selection is cleared and the click counts as handled; otherwise
/// nothing changes and the caller handles the click normally. Updating
/// syntax visibility and the DOM cursor is left to the caller.
pub fn handle_math_click<D: EditorDocument>(doc: &mut D, click_offset: Option<usize>) -> (r: bool)
    ensures
        r == click_offset is Some,
        match click_offset {
            Some(offset) => final(doc).doc() == (DocState {
                selection: None,
                ..with_cursor_offset(old(doc).doc(), offset)
            }),
            None => final(doc).doc() == old(doc).doc(),
        },
{
    if let Some(offset) = click_offset {
        doc.set_cursor_offset(offset);
        doc.set_selection(None);
        true
    } else {
        false
    }
}

} // verus!
