//! Editor actions and input types.
//!
//! Platform-agnostic definitions for editor operations. The `EditorAction` enum
//! represents semantic editing operations, while `InputType` represents the
//! semantic intent from input events (browser beforeinput, native input methods, etc.).
use vstd::prelude::*;
use vstd::std_specs::convert::FromSpecImpl;
use crate::strings::{spec_to_lowercase, str_to_lowercase};

verus! {

/// A range in the document, measured in character offsets.
#[derive(Debug, Clone, Copy, PartialEq, Eq, Structural)]
pub struct Range {
    pub start: usize,
    pub end: usize,
}

impl Range {
    pub fn new(start: usize, end: usize) -> (r: Self)
        ensures
            r.start == start,
            r.end == end,
    {
        Range { start, end }
    }

    pub fn caret(offset: usize) -> (r: Self)
        ensures
            r.start == offset,
            r.end == offset,
    {
        Range { start: offset, end: offset }
    }

    #[verifier::allow_in_spec]
    pub fn is_caret(&self) -> bool
        returns
            self.start == self.end,
    {
        self.start == self.end
    }

    /// Length of the range, 0 when it is reversed.
    pub fn len(&self) -> (r: usize)
        ensures
            r == (if self.end >= self.start {
                (self.end - self.start) as usize
            } else {
                0
            }),
    {
        self.end.saturating_sub(self.start)
    }

    pub fn is_empty(&self) -> (r: bool)
        ensures
            r == (self.end <= self.start),
    {
        self.len() == 0
    }

    /// Normalize range so start <= end.
    #[verifier::allow_in_spec]
    pub fn normalize(self) -> Self
        returns
            (if self.start <= self.end {
                self
            } else {
                Range { start: self.end, end: self.start }
            }),
    {
        if self.start <= self.end {
            self
        } else {
            Range { start: self.end, end: self.start }
        }
    }
}

impl From<std::ops::Range<usize>> for Range {
    fn from(r: std::ops::Range<usize>) -> (out: Self) {
        Self::new(r.start, r.end)
    }
}

impl FromSpecImpl<std::ops::Range<usize>> for Range {
    open spec fn obeys_from_spec() -> bool {
        true
    }

    open spec fn from_spec(v: std::ops::Range<usize>) -> Range {
        Range { start: v.start, end: v.end }
    }
}

impl From<Range> for std::ops::Range<usize> {
    fn from(r: Range) -> (out: Self) {
        std::ops::Range { start: r.start, end: r.end }
    }
}

impl FromSpecImpl<Range> for std::ops::Range<usize> {
    open spec fn obeys_from_spec() -> bool {
        true
    }

    open spec fn from_spec(v: Range) -> std::ops::Range<usize> {
        std::ops::Range { start: v.start, end: v.end }
    }
}

/// Semantic input types from input events.
///
/// These represent the semantic intent of an input operation, abstracted from
/// the platform-specific event source. Browser `beforeinput` events, native
/// input methods, and programmatic input can all produce these types.
///
/// Based on the W3C Input Events specification, but usable across platforms.
#[derive(Debug, Clone, PartialEq, Eq)]
pub enum InputType {
    // === Insertion ===
    /// Insert typed text.
    InsertText,
    /// Insert text from IME composition.
    InsertCompositionText,
    /// Insert a line break (`<br>`, Shift+Enter).
    InsertLineBreak,
    /// Insert a paragraph break (Enter).
    InsertParagraph,
    /// Insert from paste operation.
    InsertFromPaste,
    /// Insert from drop operation.
    InsertFromDrop,
    /// Insert replacement text (e.g., spell check correction).
    InsertReplacementText,
    /// Insert from voice input or other source.
    InsertFromYank,
    /// Insert a horizontal rule.
    InsertHorizontalRule,
    /// Insert an ordered list.
    InsertOrderedList,
    /// Insert an unordered list.
    InsertUnorderedList,
    /// Insert a link.
    InsertLink,
    // === Deletion ===
    /// Delete content backward (Backspace).
    DeleteContentBackward,
    /// Delete content forward (Delete key).
    DeleteContentForward,
    /// Delete word backward (Ctrl/Alt+Backspace).
    DeleteWordBackward,
    /// Delete word forward (Ctrl/Alt+Delete).
    DeleteWordForward,
    /// Delete to soft line boundary backward.
    DeleteSoftLineBackward,
    /// Delete to soft line boundary forward.
    DeleteSoftLineForward,
    /// Delete to hard line boundary backward (Cmd+Backspace on Mac).
    DeleteHardLineBackward,
    /// Delete to hard line boundary forward (Cmd+Delete on Mac).
    DeleteHardLineForward,
    /// Delete by cut operation.
    DeleteByCut,
    /// Delete by drag operation.
    DeleteByDrag,
    /// Generic content deletion.
    DeleteContent,
    /// Delete entire word backward.
    DeleteEntireWordBackward,
    /// Delete entire word forward.
    DeleteEntireWordForward,
    // === History ===
    /// Undo.
    HistoryUndo,
    /// Redo.
    HistoryRedo,
    // === Formatting ===
    FormatBold,
    FormatItalic,
    FormatUnderline,
    FormatStrikethrough,
    FormatSuperscript,
    FormatSubscript,
    // === Unknown ===
    /// Unrecognized input type.
    Unknown(String),
}

impl InputType {
    /// The input type deletes content.
    pub open spec fn spec_is_deletion(&self) -> bool {
        match self {
            InputType::DeleteContentBackward | InputType::DeleteContentForward
            | InputType::DeleteWordBackward | InputType::DeleteWordForward
            | InputType::DeleteSoftLineBackward | InputType::DeleteSoftLineForward
            | InputType::DeleteHardLineBackward | InputType::DeleteHardLineForward
            | InputType::DeleteByCut | InputType::DeleteByDrag | InputType::DeleteContent
            | InputType::DeleteEntireWordBackward | InputType::DeleteEntireWordForward => true,
            _ => false,
        }
    }

    /// The input type inserts text.
    pub open spec fn spec_is_insertion(&self) -> bool {
        match self {
            InputType::InsertText | InputType::InsertCompositionText | InputType::InsertLineBreak
            | InputType::InsertParagraph | InputType::InsertFromPaste | InputType::InsertFromDrop
            | InputType::InsertReplacementText | InputType::InsertFromYank => true,
            _ => false,
        }
    }

    /// Whether this input type is a deletion operation.
    pub fn is_deletion(&self) -> (r: bool)
        ensures
            r == self.spec_is_deletion(),
    {
        match self {
            InputType::DeleteContentBackward | InputType::DeleteContentForward
            | InputType::DeleteWordBackward | InputType::DeleteWordForward
            | InputType::DeleteSoftLineBackward | InputType::DeleteSoftLineForward
            | InputType::DeleteHardLineBackward | InputType::DeleteHardLineForward
            | InputType::DeleteByCut | InputType::DeleteByDrag | InputType::DeleteContent
            | InputType::DeleteEntireWordBackward | InputType::DeleteEntireWordForward => true,
            _ => false,
        }
    }

    /// Whether this input type is an insertion operation.
    pub fn is_insertion(&self) -> (r: bool)
        ensures
            r == self.spec_is_insertion(),
    {
        match self {
            InputType::InsertText | InputType::InsertCompositionText | InputType::InsertLineBreak
            | InputType::InsertParagraph | InputType::InsertFromPaste | InputType::InsertFromDrop
            | InputType::InsertReplacementText | InputType::InsertFromYank => true,
            _ => false,
        }
    }
}

/// High-level formatting actions for markdown editing.
///
/// These represent user-initiated formatting operations that wrap or modify
/// text with markdown syntax.
#[derive(Debug, Clone, Copy, PartialEq, Eq, Structural)]
#[non_exhaustive]
pub enum FormatAction {
    Bold,
    Italic,
    Strikethrough,
    Code,
    Link,
    Image,
    /// Heading level 1-6.
    Heading(u8),
    BulletList,
    NumberedList,
    Quote,
}

/// All possible editor actions.
///
/// These represent semantic operations on the document, decoupled from
/// how they're triggered (keyboard, mouse, touch, voice, etc.).
#[derive(Debug, PartialEq)]
pub enum EditorAction {
    // === Text Insertion ===
    /// Insert text at the given range (replacing any selected content).
    Insert { text: String, range: Range },
    /// Insert a soft line break (Shift+Enter, `<br>` equivalent).
    InsertLineBreak { range: Range },
    /// Insert a paragraph break (Enter).
    InsertParagraph { range: Range },
    // === Deletion ===
    /// Delete content backward (Backspace).
    DeleteBackward { range: Range },
    /// Delete content forward (Delete key).
    DeleteForward { range: Range },
    /// Delete word backward (Ctrl/Alt+Backspace).
    DeleteWordBackward { range: Range },
    /// Delete word forward (Ctrl/Alt+Delete).
    DeleteWordForward { range: Range },
    /// Delete to start of line (Cmd+Backspace on Mac).
    DeleteToLineStart { range: Range },
    /// Delete to end of line (Cmd+Delete on Mac).
    DeleteToLineEnd { range: Range },
    /// Delete to start of soft line (visual line in wrapped text).
    DeleteSoftLineBackward { range: Range },
    /// Delete to end of soft line.
    DeleteSoftLineForward { range: Range },
    // === History ===
    /// Undo the last change.
    Undo,
    /// Redo the last undone change.
    Redo,
    // === Formatting ===
    /// Toggle bold on selection.
    ToggleBold,
    /// Toggle italic on selection.
    ToggleItalic,
    /// Toggle inline code on selection.
    ToggleCode,
    /// Toggle strikethrough on selection.
    ToggleStrikethrough,
    /// Insert/wrap with link.
    InsertLink,
    // === Clipboard ===
    /// Cut selection to clipboard.
    Cut,
    /// Copy selection to clipboard.
    Copy,
    /// Paste from clipboard at range.
    Paste { range: Range },
    /// Copy selection as rendered HTML.
    CopyAsHtml,
    // === Selection ===
    /// Select all content.
    SelectAll,
    // === Navigation ===
    /// Move cursor to position.
    MoveCursor { offset: usize },
    /// Extend selection to position.
    ExtendSelection { offset: usize },
}

impl EditorAction {
    /// `self` with its range replaced by `range`, for the actions that carry one.
    pub open spec fn spec_with_range(self, range: Range) -> Self {
        match self {
            EditorAction::Insert { text, .. } => EditorAction::Insert { text, range },
            EditorAction::InsertLineBreak { .. } => EditorAction::InsertLineBreak { range },
            EditorAction::InsertParagraph { .. } => EditorAction::InsertParagraph { range },
            EditorAction::DeleteBackward { .. } => EditorAction::DeleteBackward { range },
            EditorAction::DeleteForward { .. } => EditorAction::DeleteForward { range },
            EditorAction::DeleteWordBackward { .. } => EditorAction::DeleteWordBackward { range },
            EditorAction::DeleteWordForward { .. } => EditorAction::DeleteWordForward { range },
            EditorAction::DeleteToLineStart { .. } => EditorAction::DeleteToLineStart { range },
            EditorAction::DeleteToLineEnd { .. } => EditorAction::DeleteToLineEnd { range },
            EditorAction::DeleteSoftLineBackward { .. } => EditorAction::DeleteSoftLineBackward {
                range,
            },
            EditorAction::DeleteSoftLineForward { .. } => EditorAction::DeleteSoftLineForward {
                range,
            },
            EditorAction::Paste { .. } => EditorAction::Paste { range },
            other => other,
        }
    }

    /// Update the range in actions that use one.
    pub fn with_range(self, range: Range) -> (r: Self)
        ensures
            r == self.spec_with_range(range),
    {
        match self {
            EditorAction::Insert { text, .. } => EditorAction::Insert { text, range },
            EditorAction::InsertLineBreak { .. } => EditorAction::InsertLineBreak { range },
            EditorAction::InsertParagraph { .. } => EditorAction::InsertParagraph { range },
            EditorAction::DeleteBackward { .. } => EditorAction::DeleteBackward { range },
            EditorAction::DeleteForward { .. } => EditorAction::DeleteForward { range },
            EditorAction::DeleteWordBackward { .. } => EditorAction::DeleteWordBackward { range },
            EditorAction::DeleteWordForward { .. } => EditorAction::DeleteWordForward { range },
            EditorAction::DeleteToLineStart { .. } => EditorAction::DeleteToLineStart { range },
            EditorAction::DeleteToLineEnd { .. } => EditorAction::DeleteToLineEnd { range },
            EditorAction::DeleteSoftLineBackward { .. } => EditorAction::DeleteSoftLineBackward {
                range,
            },
            EditorAction::DeleteSoftLineForward { .. } => EditorAction::DeleteSoftLineForward {
                range,
            },
            EditorAction::Paste { .. } => EditorAction::Paste { range },
            other => other,
        }
    }
}

impl Clone for EditorAction {
    fn clone(&self) -> (r: Self)
        ensures
            r == *self,
    {
        match self {
            EditorAction::Insert { text, range } => EditorAction::Insert {
                text: text.clone(),
                range: *range,
            },
            EditorAction::InsertLineBreak { range } => EditorAction::InsertLineBreak { range: *range },
            EditorAction::InsertParagraph { range } => EditorAction::InsertParagraph { range: *range },
            EditorAction::DeleteBackward { range } => EditorAction::DeleteBackward { range: *range },
            EditorAction::DeleteForward { range } => EditorAction::DeleteForward { range: *range },
            EditorAction::DeleteWordBackward { range } => EditorAction::DeleteWordBackward {
                range: *range,
            },
            EditorAction::DeleteWordForward { range } => EditorAction::DeleteWordForward {
                range: *range,
            },
            EditorAction::DeleteToLineStart { range } => EditorAction::DeleteToLineStart {
                range: *range,
            },
            EditorAction::DeleteToLineEnd { range } => EditorAction::DeleteToLineEnd { range: *range },
            EditorAction::DeleteSoftLineBackward { range } => EditorAction::DeleteSoftLineBackward {
                range: *range,
            },
            EditorAction::DeleteSoftLineForward { range } => EditorAction::DeleteSoftLineForward {
                range: *range,
            },
            EditorAction::Undo => EditorAction::Undo,
            EditorAction::Redo => EditorAction::Redo,
            EditorAction::ToggleBold => EditorAction::ToggleBold,
            EditorAction::ToggleItalic => EditorAction::ToggleItalic,
            EditorAction::ToggleCode => EditorAction::ToggleCode,
            EditorAction::ToggleStrikethrough => EditorAction::ToggleStrikethrough,
            EditorAction::InsertLink => EditorAction::InsertLink,
            EditorAction::Cut => EditorAction::Cut,
            EditorAction::Copy => EditorAction::Copy,
            EditorAction::Paste { range } => EditorAction::Paste { range: *range },
            EditorAction::CopyAsHtml => EditorAction::CopyAsHtml,
            EditorAction::SelectAll => EditorAction::SelectAll,
            EditorAction::MoveCursor { offset } => EditorAction::MoveCursor { offset: *offset },
            EditorAction::ExtendSelection { offset } => EditorAction::ExtendSelection {
                offset: *offset,
            },
        }
    }
}

/// Key values for keyboard input.
///
/// Platform-agnostic key representation. Platform-specific code converts
/// from native key events to this enum.
#[derive(Debug)]
pub enum Key {
    /// A character key.
    Character(String),
    /// Unknown/unidentified key.
    Unidentified,
    // === Whitespace / editing ===
    Backspace,
    Delete,
    Enter,
    Tab,
    Escape,
    Space,
    Insert,
    Clear,
    // === Navigation ===
    ArrowLeft,
    ArrowRight,
    ArrowUp,
    ArrowDown,
    Home,
    End,
    PageUp,
    PageDown,
    // === Modifiers ===
    Alt,
    AltGraph,
    CapsLock,
    Control,
    Fn,
    FnLock,
    Meta,
    NumLock,
    ScrollLock,
    Shift,
    Symbol,
    SymbolLock,
    Hyper,
    Super,
    // === Function keys ===
    F1,
    F2,
    F3,
    F4,
    F5,
    F6,
    F7,
    F8,
    F9,
    F10,
    F11,
    F12,
    F13,
    F14,
    F15,
    F16,
    F17,
    F18,
    F19,
    F20,
    // === UI keys ===
    ContextMenu,
    PrintScreen,
    Pause,
    Help,
    // === Clipboard / editing commands ===
    Copy,
    Cut,
    Paste,
    Undo,
    Redo,
    Find,
    Select,
    // === Media keys ===
    MediaPlayPause,
    MediaStop,
    MediaTrackNext,
    MediaTrackPrevious,
    AudioVolumeDown,
    AudioVolumeUp,
    AudioVolumeMute,
    // === IME / composition ===
    Compose,
    Convert,
    NonConvert,
    Dead,
    // === CJK IME keys ===
    HangulMode,
    HanjaMode,
    JunjaMode,
    Eisu,
    Hankaku,
    Hiragana,
    HiraganaKatakana,
    KanaMode,
    KanjiMode,
    Katakana,
    Romaji,
    Zenkaku,
    ZenkakuHankaku,
}

/// Position of a key's variant in the declaration of `Key`.
pub open spec fn key_code(k: Key) -> nat {
    match k {
        Key::Character(_) => 0,
        Key::Unidentified => 1,
        Key::Backspace => 2,
        Key::Delete => 3,
        Key::Enter => 4,
        Key::Tab => 5,
        Key::Escape => 6,
        Key::Space => 7,
        Key::Insert => 8,
        Key::Clear => 9,
        Key::ArrowLeft => 10,
        Key::ArrowRight => 11,
        Key::ArrowUp => 12,
        Key::ArrowDown => 13,
        Key::Home => 14,
        Key::End => 15,
        Key::PageUp => 16,
        Key::PageDown => 17,
        Key::Alt => 18,
        Key::AltGraph => 19,
        Key::CapsLock => 20,
        Key::Control => 21,
        Key::Fn => 22,
        Key::FnLock => 23,
        Key::Meta => 24,
        Key::NumLock => 25,
        Key::ScrollLock => 26,
        Key::Shift => 27,
        Key::Symbol => 28,
        Key::SymbolLock => 29,
        Key::Hyper => 30,
        Key::Super => 31,
        Key::F1 => 32,
        Key::F2 => 33,
        Key::F3 => 34,
        Key::F4 => 35,
        Key::F5 => 36,
        Key::F6 => 37,
        Key::F7 => 38,
        Key::F8 => 39,
        Key::F9 => 40,
        Key::F10 => 41,
        Key::F11 => 42,
        Key::F12 => 43,
        Key::F13 => 44,
        Key::F14 => 45,
        Key::F15 => 46,
        Key::F16 => 47,
        Key::F17 => 48,
        Key::F18 => 49,
        Key::F19 => 50,
        Key::F20 => 51,
        Key::ContextMenu => 52,
        Key::PrintScreen => 53,
        Key::Pause => 54,
        Key::Help => 55,
        Key::Copy => 56,
        Key::Cut => 57,
        Key::Paste => 58,
        Key::Undo => 59,
        Key::Redo => 60,
        Key::Find => 61,
        Key::Select => 62,
        Key::MediaPlayPause => 63,
        Key::MediaStop => 64,
        Key::MediaTrackNext => 65,
        Key::MediaTrackPrevious => 66,
        Key::AudioVolumeDown => 67,
        Key::AudioVolumeUp => 68,
        Key::AudioVolumeMute => 69,
        Key::Compose => 70,
        Key::Convert => 71,
        Key::NonConvert => 72,
        Key::Dead => 73,
        Key::HangulMode => 74,
        Key::HanjaMode => 75,
        Key::JunjaMode => 76,
        Key::Eisu => 77,
        Key::Hankaku => 78,
        Key::Hiragana => 79,
        Key::HiraganaKatakana => 80,
        Key::KanaMode => 81,
        Key::KanjiMode => 82,
        Key::Katakana => 83,
        Key::Romaji => 84,
        Key::Zenkaku => 85,
        Key::ZenkakuHankaku => 86,
    }
}

/// Position of a key's variant in the declaration of `Key`.
fn key_code_of(k: &Key) -> (r: u8)
    ensures
        r == key_code(*k),
{
    match k {
        Key::Character(_) => 0,
        Key::Unidentified => 1,
        Key::Backspace => 2,
        Key::Delete => 3,
        Key::Enter => 4,
        Key::Tab => 5,
        Key::Escape => 6,
        Key::Space => 7,
        Key::Insert => 8,
        Key::Clear => 9,
        Key::ArrowLeft => 10,
        Key::ArrowRight => 11,
        Key::ArrowUp => 12,
        Key::ArrowDown => 13,
        Key::Home => 14,
        Key::End => 15,
        Key::PageUp => 16,
        Key::PageDown => 17,
        Key::Alt => 18,
        Key::AltGraph => 19,
        Key::CapsLock => 20,
        Key::Control => 21,
        Key::Fn => 22,
        Key::FnLock => 23,
        Key::Meta => 24,
        Key::NumLock => 25,
        Key::ScrollLock => 26,
        Key::Shift => 27,
        Key::Symbol => 28,
        Key::SymbolLock => 29,
        Key::Hyper => 30,
        Key::Super => 31,
        Key::F1 => 32,
        Key::F2 => 33,
        Key::F3 => 34,
        Key::F4 => 35,
        Key::F5 => 36,
        Key::F6 => 37,
        Key::F7 => 38,
        Key::F8 => 39,
        Key::F9 => 40,
        Key::F10 => 41,
        Key::F11 => 42,
        Key::F12 => 43,
        Key::F13 => 44,
        Key::F14 => 45,
        Key::F15 => 46,
        Key::F16 => 47,
        Key::F17 => 48,
        Key::F18 => 49,
        Key::F19 => 50,
        Key::F20 => 51,
        Key::ContextMenu => 52,
        Key::PrintScreen => 53,
        Key::Pause => 54,
        Key::Help => 55,
        Key::Copy => 56,
        Key::Cut => 57,
        Key::Paste => 58,
        Key::Undo => 59,
        Key::Redo => 60,
        Key::Find => 61,
        Key::Select => 62,
        Key::MediaPlayPause => 63,
        Key::MediaStop => 64,
        Key::MediaTrackNext => 65,
        Key::MediaTrackPrevious => 66,
        Key::AudioVolumeDown => 67,
        Key::AudioVolumeUp => 68,
        Key::AudioVolumeMute => 69,
        Key::Compose => 70,
        Key::Convert => 71,
        Key::NonConvert => 72,
        Key::Dead => 73,
        Key::HangulMode => 74,
        Key::HanjaMode => 75,
        Key::JunjaMode => 76,
        Key::Eisu => 77,
        Key::Hankaku => 78,
        Key::Hiragana => 79,
        Key::HiraganaKatakana => 80,
        Key::KanaMode => 81,
        Key::KanjiMode => 82,
        Key::Katakana => 83,
        Key::Romaji => 84,
        Key::Zenkaku => 85,
        Key::ZenkakuHankaku => 86,
    }
}

impl Clone for Key {
    fn clone(&self) -> (r: Self)
        ensures
            r == *self,
    {
        match self {
            Key::Character(s) => Key::Character(s.clone()),
            Key::Unidentified => Key::Unidentified,
            Key::Backspace => Key::Backspace,
            Key::Delete => Key::Delete,
            Key::Enter => Key::Enter,
            Key::Tab => Key::Tab,
            Key::Escape => Key::Escape,
            Key::Space => Key::Space,
            Key::Insert => Key::Insert,
            Key::Clear => Key::Clear,
            Key::ArrowLeft => Key::ArrowLeft,
            Key::ArrowRight => Key::ArrowRight,
            Key::ArrowUp => Key::ArrowUp,
            Key::ArrowDown => Key::ArrowDown,
            Key::Home => Key::Home,
            Key::End => Key::End,
            Key::PageUp => Key::PageUp,
            Key::PageDown => Key::PageDown,
            Key::Alt => Key::Alt,
            Key::AltGraph => Key::AltGraph,
            Key::CapsLock => Key::CapsLock,
            Key::Control => Key::Control,
            Key::Fn => Key::Fn,
            Key::FnLock => Key::FnLock,
            Key::Meta => Key::Meta,
            Key::NumLock => Key::NumLock,
            Key::ScrollLock => Key::ScrollLock,
            Key::Shift => Key::Shift,
            Key::Symbol => Key::Symbol,
            Key::SymbolLock => Key::SymbolLock,
            Key::Hyper => Key::Hyper,
            Key::Super => Key::Super,
            Key::F1 => Key::F1,
            Key::F2 => Key::F2,
            Key::F3 => Key::F3,
            Key::F4 => Key::F4,
            Key::F5 => Key::F5,
            Key::F6 => Key::F6,
            Key::F7 => Key::F7,
            Key::F8 => Key::F8,
            Key::F9 => Key::F9,
            Key::F10 => Key::F10,
            Key::F11 => Key::F11,
            Key::F12 => Key::F12,
            Key::F13 => Key::F13,
            Key::F14 => Key::F14,
            Key::F15 => Key::F15,
            Key::F16 => Key::F16,
            Key::F17 => Key::F17,
            Key::F18 => Key::F18,
            Key::F19 => Key::F19,
            Key::F20 => Key::F20,
            Key::ContextMenu => Key::ContextMenu,
            Key::PrintScreen => Key::PrintScreen,
            Key::Pause => Key::Pause,
            Key::Help => Key::Help,
            Key::Copy => Key::Copy,
            Key::Cut => Key::Cut,
            Key::Paste => Key::Paste,
            Key::Undo => Key::Undo,
            Key::Redo => Key::Redo,
            Key::Find => Key::Find,
            Key::Select => Key::Select,
            Key::MediaPlayPause => Key::MediaPlayPause,
            Key::MediaStop => Key::MediaStop,
            Key::MediaTrackNext => Key::MediaTrackNext,
            Key::MediaTrackPrevious => Key::MediaTrackPrevious,
            Key::AudioVolumeDown => Key::AudioVolumeDown,
            Key::AudioVolumeUp => Key::AudioVolumeUp,
            Key::AudioVolumeMute => Key::AudioVolumeMute,
            Key::Compose => Key::Compose,
            Key::Convert => Key::Convert,
            Key::NonConvert => Key::NonConvert,
            Key::Dead => Key::Dead,
            Key::HangulMode => Key::HangulMode,
            Key::HanjaMode => Key::HanjaMode,
            Key::JunjaMode => Key::JunjaMode,
            Key::Eisu => Key::Eisu,
            Key::Hankaku => Key::Hankaku,
            Key::Hiragana => Key::Hiragana,
            Key::HiraganaKatakana => Key::HiraganaKatakana,
            Key::KanaMode => Key::KanaMode,
            Key::KanjiMode => Key::KanjiMode,
            Key::Katakana => Key::Katakana,
            Key::Romaji => Key::Romaji,
            Key::Zenkaku => Key::Zenkaku,
            Key::ZenkakuHankaku => Key::ZenkakuHankaku,
        }
    }
}

/// Two keys are the same key: the same variant, and the same text for character keys.
pub open spec fn key_same(a: Key, b: Key) -> bool {
    &&& key_code(a) == key_code(b)
    &&& (a matches Key::Character(x) ==> (b matches Key::Character(y) && x@ == y@))
}

/// Arrow keys, Home, End, PageUp and PageDown.
pub open spec fn spec_is_navigation(k: Key) -> bool {
    match k {
        Key::ArrowLeft | Key::ArrowRight | Key::ArrowUp | Key::ArrowDown | Key::Home
        | Key::End | Key::PageUp | Key::PageDown => true,
        _ => false,
    }
}

/// Keys that only modify other keys.
pub open spec fn spec_is_modifier(k: Key) -> bool {
    match k {
        Key::Alt | Key::AltGraph | Key::CapsLock | Key::Control | Key::Fn | Key::FnLock
        | Key::Meta | Key::NumLock | Key::ScrollLock | Key::Shift | Key::Symbol
        | Key::SymbolLock | Key::Hyper | Key::Super => true,
        _ => false,
    }
}

impl Key {
    /// Create a character key.
    pub fn character(s: &str) -> (r: Self)
        ensures
            r matches Key::Character(t) && t@ == s@,
    {
        Key::Character(s.to_owned())
    }

    /// Check if this is a navigation key.
    pub fn is_navigation(&self) -> (r: bool)
        ensures
            r == spec_is_navigation(*self),
    {
        match self {
            Key::ArrowLeft | Key::ArrowRight | Key::ArrowUp | Key::ArrowDown | Key::Home
            | Key::End | Key::PageUp | Key::PageDown => true,
            _ => false,
        }
    }

    /// Check if this is a modifier key.
    pub fn is_modifier(&self) -> (r: bool)
        ensures
            r == spec_is_modifier(*self),
    {
        match self {
            Key::Alt | Key::AltGraph | Key::CapsLock | Key::Control | Key::Fn | Key::FnLock
            | Key::Meta | Key::NumLock | Key::ScrollLock | Key::Shift | Key::Symbol
            | Key::SymbolLock | Key::Hyper | Key::Super => true,
            _ => false,
        }
    }
}

/// Whether two keys are the same key.
pub fn keys_equal(a: &Key, b: &Key) -> (r: bool)
    ensures
        r == key_same(*a, *b),
{
    match (a, b) {
        (Key::Character(x), Key::Character(y)) => x.eq(y),
        _ => key_code_of(a) == key_code_of(b),
    }
}

/// Modifier key state for a key combination.
#[derive(Debug, Clone, Copy, PartialEq, Eq, Hash, Structural)]
pub struct Modifiers {
    pub ctrl: bool,
    pub alt: bool,
    pub shift: bool,
    pub meta: bool,
    pub hyper: bool,
    pub super_: bool,
}

/// Modifiers with exactly the given keys held.
pub open spec fn mods(ctrl: bool, alt: bool, shift: bool, meta: bool, hyper: bool, super_: bool) -> Modifiers {
    Modifiers { ctrl, alt, shift, meta, hyper, super_ }
}

impl Default for Modifiers {
    fn default() -> (r: Self)
        ensures
            r == mods(false, false, false, false, false, false),
    {
        Modifiers::none()
    }
}

impl Modifiers {
    /// No modifier held.
    pub fn none() -> (r: Self)
        ensures
            r == mods(false, false, false, false, false, false),
    {
        Modifiers { ctrl: false, alt: false, shift: false, meta: false, hyper: false, super_: false }
    }

    /// Ctrl alone.
    pub fn ctrl() -> (r: Self)
        ensures
            r == mods(true, false, false, false, false, false),
    {
        Modifiers { ctrl: true, alt: false, shift: false, meta: false, hyper: false, super_: false }
    }

    /// Alt alone.
    pub fn alt() -> (r: Self)
        ensures
            r == mods(false, true, false, false, false, false),
    {
        Modifiers { ctrl: false, alt: true, shift: false, meta: false, hyper: false, super_: false }
    }

    /// Shift alone.
    pub fn shift() -> (r: Self)
        ensures
            r == mods(false, false, true, false, false, false),
    {
        Modifiers { ctrl: false, alt: false, shift: true, meta: false, hyper: false, super_: false }
    }

    /// Meta (Cmd) alone.
    pub fn meta() -> (r: Self)
        ensures
            r == mods(false, false, false, true, false, false),
    {
        Modifiers { ctrl: false, alt: false, shift: false, meta: true, hyper: false, super_: false }
    }

    /// Hyper alone.
    pub fn hyper() -> (r: Self)
        ensures
            r == mods(false, false, false, false, true, false),
    {
        Modifiers { ctrl: false, alt: false, shift: false, meta: false, hyper: true, super_: false }
    }

    /// Super alone.
    pub fn super_key() -> (r: Self)
        ensures
            r == mods(false, false, false, false, false, true),
    {
        Modifiers { ctrl: false, alt: false, shift: false, meta: false, hyper: false, super_: true }
    }

    /// Ctrl and Shift.
    pub fn ctrl_shift() -> (r: Self)
        ensures
            r == mods(true, false, true, false, false, false),
    {
        Modifiers { ctrl: true, alt: false, shift: true, meta: false, hyper: false, super_: false }
    }

    /// Meta and Shift.
    pub fn meta_shift() -> (r: Self)
        ensures
            r == mods(false, false, true, true, false, false),
    {
        Modifiers { ctrl: false, alt: false, shift: true, meta: true, hyper: false, super_: false }
    }

    /// Get the primary modifier for the platform (Cmd on Mac, Ctrl elsewhere).
    pub fn primary(is_mac: bool) -> (r: Self)
        ensures
            r == (if is_mac {
                mods(false, false, false, true, false, false)
            } else {
                mods(true, false, false, false, false, false)
            }),
    {
        if is_mac {
            Self::meta()
        } else {
            Self::ctrl()
        }
    }

    /// Get the primary modifier + Shift for the platform.
    pub fn primary_shift(is_mac: bool) -> (r: Self)
        ensures
            r == (if is_mac {
                mods(false, false, true, true, false, false)
            } else {
                mods(true, false, true, false, false, false)
            }),
    {
        if is_mac {
            Self::meta_shift()
        } else {
            Self::ctrl_shift()
        }
    }
}

/// A key combination for triggering an action.
#[derive(Debug)]
pub struct KeyCombo {
    pub key: Key,
    pub modifiers: Modifiers,
}

impl Clone for KeyCombo {
    fn clone(&self) -> (r: Self)
        ensures
            r == *self,
    {
        KeyCombo { key: self.key.clone(), modifiers: self.modifiers }
    }
}

/// Two combos are the same key with the same modifiers.
pub open spec fn combo_same(a: KeyCombo, b: KeyCombo) -> bool {
    key_same(a.key, b.key) && a.modifiers == b.modifiers
}

impl KeyCombo {
    pub fn new(key: Key) -> (r: Self)
        ensures
            r.key == key,
            r.modifiers == mods(false, false, false, false, false, false),
    {
        KeyCombo { key, modifiers: Modifiers::none() }
    }

    pub fn with_modifiers(key: Key, modifiers: Modifiers) -> (r: Self)
        ensures
            r.key == key,
            r.modifiers == modifiers,
    {
        KeyCombo { key, modifiers }
    }

    pub fn ctrl(key: Key) -> (r: Self)
        ensures
            r.key == key,
            r.modifiers == mods(true, false, false, false, false, false),
    {
        KeyCombo { key, modifiers: Modifiers::ctrl() }
    }

    pub fn meta(key: Key) -> (r: Self)
        ensures
            r.key == key,
            r.modifiers == mods(false, false, false, true, false, false),
    {
        KeyCombo { key, modifiers: Modifiers::meta() }
    }

    pub fn shift(key: Key) -> (r: Self)
        ensures
            r.key == key,
            r.modifiers == mods(false, false, true, false, false, false),
    {
        KeyCombo { key, modifiers: Modifiers::shift() }
    }

    pub fn primary(key: Key, is_mac: bool) -> (r: Self)
        ensures
            r.key == key,
            r.modifiers == (if is_mac {
                mods(false, false, false, true, false, false)
            } else {
                mods(true, false, false, false, false, false)
            }),
    {
        KeyCombo { key, modifiers: Modifiers::primary(is_mac) }
    }

    pub fn primary_shift(key: Key, is_mac: bool) -> (r: Self)
        ensures
            r.key == key,
            r.modifiers == (if is_mac {
                mods(false, false, true, true, false, false)
            } else {
                mods(true, false, true, false, false, false)
            }),
    {
        KeyCombo { key, modifiers: Modifiers::primary_shift(is_mac) }
    }
}

/// Whether two key combinations are the same.
pub fn combos_equal(a: &KeyCombo, b: &KeyCombo) -> (r: bool)
    ensures
        r == combo_same(*a, *b),
{
    keys_equal(&a.key, &b.key) && a.modifiers == b.modifiers
}

/// Result of handling a keydown event.
#[derive(Debug, Clone, Copy, PartialEq, Eq, Structural)]
pub enum KeydownResult {
    /// Event was handled, prevent default.
    Handled,
    /// Event was not a keybinding, let platform handle it.
    NotHandled,
    /// Event should be passed through (navigation, etc.).
    PassThrough,
}


// === Keybinding configuration ===

/// The text of a character key, empty for every other key.
pub open spec fn key_text(k: Key) -> Seq<char> {
    match k {
        Key::Character(s) => s@,
        _ => Seq::empty(),
    }
}

/// What identifies a key combination: the key's variant, the text of a
/// character key, and the modifiers held.
pub open spec fn combo_id(c: KeyCombo) -> (nat, Seq<char>, Modifiers) {
    (key_code(c.key), key_text(c.key), c.modifiers)
}

/// Two combos are the same exactly when their identities are equal.
pub proof fn lemma_combo_same_id(a: KeyCombo, b: KeyCombo)
    ensures
        combo_same(a, b) <==> combo_id(a) == combo_id(b),
{
}

/// The bindings held by a sequence of pairs, a later pair overriding an earlier one.
pub open spec fn bindings_map(s: Seq<(KeyCombo, EditorAction)>) -> Map<
    (nat, Seq<char>, Modifiers),
    EditorAction,
>
    decreases s.len(),
{
    if s.len() == 0 {
        Map::empty()
    } else {
        bindings_map(s.drop_last()).insert(combo_id(s.last().0), s.last().1)
    }
}

/// No two pairs bind the same combination.
pub open spec fn ids_distinct(s: Seq<(KeyCombo, EditorAction)>) -> bool {
    forall|i: int, j: int|
        0 <= i < j < s.len() ==> combo_id(#[trigger] s[i].0) != combo_id(#[trigger] s[j].0)
}

/// Some pair of `s` binds `id`.
pub open spec fn has_id(s: Seq<(KeyCombo, EditorAction)>, id: (nat, Seq<char>, Modifiers)) -> bool {
    exists|i: int| 0 <= i < s.len() && combo_id(#[trigger] s[i].0) == id
}

/// `s` without the pairs that bind `id`, in order.
pub open spec fn without_id(s: Seq<(KeyCombo, EditorAction)>, id: (nat, Seq<char>, Modifiers)) -> Seq<
    (KeyCombo, EditorAction),
>
    decreases s.len(),
{
    if s.len() == 0 {
        s
    } else if combo_id(s.last().0) == id {
        without_id(s.drop_last(), id)
    } else {
        without_id(s.drop_last(), id).push(s.last())
    }
}

proof fn lemma_bindings_map_dom(s: Seq<(KeyCombo, EditorAction)>, id: (nat, Seq<char>, Modifiers))
    ensures
        bindings_map(s).dom().contains(id) <==> has_id(s, id),
    decreases s.len(),
{
    if s.len() > 0 {
        lemma_bindings_map_dom(s.drop_last(), id);
        if has_id(s, id) && combo_id(s.last().0) != id {
            let i = choose|i: int| 0 <= i < s.len() && combo_id(#[trigger] s[i].0) == id;
            assert(s.drop_last()[i] == s[i]);
        }
        if has_id(s.drop_last(), id) {
            let i = choose|i: int| 0 <= i < s.drop_last().len() && combo_id(#[trigger] s.drop_last()[i].0) == id;
            assert(s[i] == s.drop_last()[i]);
        }
    }
}

proof fn lemma_bindings_map_value(s: Seq<(KeyCombo, EditorAction)>, i: int)
    requires
        ids_distinct(s),
        0 <= i < s.len(),
    ensures
        bindings_map(s).dom().contains(combo_id(s[i].0)),
        bindings_map(s)[combo_id(s[i].0)] == s[i].1,
    decreases s.len(),
{
    if i < s.len() - 1 {
        let t = s.drop_last();
        assert(t[i] == s[i]);
        assert forall|a: int, b: int| 0 <= a < b < t.len() implies combo_id(#[trigger] t[a].0) != combo_id(#[trigger] t[b].0) by {
            assert(t[a] == s[a] && t[b] == s[b]);
        }
        lemma_bindings_map_value(t, i);
        assert(combo_id(s[i].0) != combo_id(s[s.len() - 1].0));
    }
}

proof fn lemma_without_id(s: Seq<(KeyCombo, EditorAction)>, id: (nat, Seq<char>, Modifiers))
    ensures
        bindings_map(without_id(s, id)) == bindings_map(s).remove(id),
        !has_id(without_id(s, id), id),
        forall|x: (nat, Seq<char>, Modifiers)| has_id(without_id(s, id), x) ==> has_id(s, x),
        ids_distinct(s) ==> ids_distinct(without_id(s, id)),
    decreases s.len(),
{
    if s.len() == 0 {
        assert(bindings_map(s).remove(id) =~= Map::empty());
    } else {
        let t = s.drop_last();
        let x = s.last();
        lemma_without_id(t, id);
        let r = without_id(s, id);
        let rt = without_id(t, id);
        assert forall|y: (nat, Seq<char>, Modifiers)| has_id(t, y) implies has_id(s, y) by {
            let i = choose|i: int| 0 <= i < t.len() && combo_id(#[trigger] t[i].0) == y;
            assert(s[i] == t[i]);
        }
        if ids_distinct(s) {
            assert forall|a: int, b: int| 0 <= a < b < t.len() implies combo_id(#[trigger] t[a].0) != combo_id(#[trigger] t[b].0) by {
                assert(t[a] == s[a] && t[b] == s[b]);
            }
        }
        if combo_id(x.0) == id {
            assert(bindings_map(s).remove(id) =~= bindings_map(t).remove(id));
        } else {
            assert(r.drop_last() =~= rt);
            assert(r.last() == x);
            assert(bindings_map(r) =~= bindings_map(s).remove(id));
            assert forall|y: (nat, Seq<char>, Modifiers)| has_id(r, y) implies has_id(s, y) by {
                let i = choose|i: int| 0 <= i < r.len() && combo_id(#[trigger] r[i].0) == y;
                if i < rt.len() {
                    assert(r[i] == rt[i]);
                    assert(has_id(rt, y));
                } else {
                    assert(s[s.len() - 1] == x);
                }
            }
            assert(!has_id(r, id)) by {
                if has_id(r, id) {
                    let i = choose|i: int| 0 <= i < r.len() && combo_id(#[trigger] r[i].0) == id;
                    if i < rt.len() {
                        assert(r[i] == rt[i]);
                    }
                }
            }
            if ids_distinct(s) {
                assert(!has_id(t, combo_id(x.0))) by {
                    if has_id(t, combo_id(x.0)) {
                        let i = choose|i: int| 0 <= i < t.len() && combo_id(#[trigger] t[i].0) == combo_id(x.0);
                        assert(s[i] == t[i]);
                        assert(combo_id(s[i].0) != combo_id(s[s.len() - 1].0));
                    }
                }
                assert forall|a: int, b: int| 0 <= a < b < r.len() implies combo_id(#[trigger] r[a].0) != combo_id(#[trigger] r[b].0) by {
                    assert(r[a] == rt[a]);
                    if b < rt.len() {
                        assert(r[b] == rt[b]);
                    } else {
                        assert(has_id(rt, combo_id(r[a].0)));
                    }
                }
            }
        }
    }
}

/// Keybinding configuration for the editor.
///
/// Maps key combinations to editor actions. Platform-specific defaults
/// can be created via `default_for_platform`.
pub struct KeybindingConfig {
    bindings: Vec<(KeyCombo, EditorAction)>,
}

impl View for KeybindingConfig {
    type V = Map<(nat, Seq<char>, Modifiers), EditorAction>;

    closed spec fn view(&self) -> Self::V {
        bindings_map(self.bindings@)
    }
}

impl KeybindingConfig {
    #[verifier::type_invariant]
    closed spec fn no_combo_twice(&self) -> bool {
        ids_distinct(self.bindings@)
    }

    /// Create an empty keybinding configuration.
    pub fn new() -> (r: Self)
        ensures
            r@ == Map::<(nat, Seq<char>, Modifiers), EditorAction>::empty(),
    {
        KeybindingConfig { bindings: Vec::new() }
    }

    fn position_of(&self, combo: &KeyCombo) -> (r: Option<usize>)
        ensures
            match r {
                Some(i) => i < self.bindings@.len() && combo_id(self.bindings@[i as int].0)
                    == combo_id(*combo),
                None => !has_id(self.bindings@, combo_id(*combo)),
            },
    {
        let mut i: usize = 0;
        while i < self.bindings.len()
            invariant
                i <= self.bindings@.len(),
                forall|j: int| 0 <= j < i ==> combo_id(#[trigger] self.bindings@[j].0) != combo_id(*combo),
            decreases self.bindings@.len() - i,
        {
            let found = combos_equal(&self.bindings[i].0, combo);
            proof {
                lemma_combo_same_id(self.bindings@[i as int].0, *combo);
            }
            if found {
                return Some(i);
            }
            i = i + 1;
        }
        None
    }

    /// Add or replace a keybinding.
    pub fn bind(&mut self, combo: KeyCombo, action: EditorAction)
        ensures
            final(self)@ == old(self)@.insert(combo_id(combo), action),
    {
        proof {
            use_type_invariant(&*self);
        }
        let ghost id = combo_id(combo);
        let mut kept: Vec<(KeyCombo, EditorAction)> = self.take_all_but(&combo);
        proof {
            lemma_without_id(old(self).bindings@, id);
        }
        kept.push((combo, action));
        proof {
            let s = kept@;
            assert(s.drop_last() =~= without_id(old(self).bindings@, id));
            assert forall|a: int, b: int| 0 <= a < b < s.len() implies combo_id(#[trigger] s[a].0) != combo_id(#[trigger] s[b].0) by {
                assert(s[a] == s.drop_last()[a]);
                if b < s.len() - 1 {
                    assert(s[b] == s.drop_last()[b]);
                } else {
                    if combo_id(s[a].0) == id {
                        assert(has_id(s.drop_last(), id));
                    }
                }
            }
        }
        self.bindings = kept;
        proof {
            assert(bindings_map(self.bindings@) =~= old(self)@.insert(id, action));
        }
    }

    /// The stored pairs that do not bind `combo`, in order.
    fn take_all_but(&self, combo: &KeyCombo) -> (r: Vec<(KeyCombo, EditorAction)>)
        ensures
            r@ == without_id(self.bindings@, combo_id(*combo)),
    {
        let ghost id = combo_id(*combo);
        let mut out: Vec<(KeyCombo, EditorAction)> = Vec::new();
        let mut i: usize = 0;
        while i < self.bindings.len()
            invariant
                i <= self.bindings@.len(),
                id == combo_id(*combo),
                out@ == without_id(self.bindings@.take(i as int), id),
            decreases self.bindings@.len() - i,
        {
            let same = combos_equal(&self.bindings[i].0, combo);
            proof {
                lemma_combo_same_id(self.bindings@[i as int].0, *combo);
                assert(self.bindings@.take(i + 1).drop_last() =~= self.bindings@.take(i as int));
            }
            if !same {
                let pair = (self.bindings[i].0.clone(), self.bindings[i].1.clone());
                assert(pair == self.bindings@[i as int]);
                out.push(pair);
            }
            proof {
                let t = self.bindings@.take(i + 1);
                assert(t.last() == self.bindings@[i as int]);
                assert(without_id(t, id) == if combo_id(t.last().0) == id {
                    without_id(t.drop_last(), id)
                } else {
                    without_id(t.drop_last(), id).push(t.last())
                });
            }
            i = i + 1;
        }
        proof {
            assert(self.bindings@.take(i as int) =~= self.bindings@);
        }
        out
    }

    /// Remove a keybinding.
    pub fn unbind(&mut self, combo: &KeyCombo)
        ensures
            final(self)@ == old(self)@.remove(combo_id(*combo)),
    {
        proof {
            use_type_invariant(&*self);
        }
        let kept = self.take_all_but(combo);
        proof {
            lemma_without_id(old(self).bindings@, combo_id(*combo));
        }
        self.bindings = kept;
    }

    /// Check if a key combo has a binding.
    pub fn has_binding(&self, combo: &KeyCombo) -> (r: bool)
        ensures
            r == self@.dom().contains(combo_id(*combo)),
    {
        let pos = self.position_of(combo);
        proof {
            lemma_bindings_map_dom(self.bindings@, combo_id(*combo));
        }
        pos.is_some()
    }

    /// The action bound to exactly `combo`, if any.
    fn get(&self, combo: &KeyCombo) -> (r: Option<EditorAction>)
        ensures
            r == (if self@.dom().contains(combo_id(*combo)) {
                Some(self@[combo_id(*combo)])
            } else {
                None
            }),
    {
        proof {
            use_type_invariant(self);
            lemma_bindings_map_dom(self.bindings@, combo_id(*combo));
        }
        match self.position_of(combo) {
            Some(i) => {
                proof {
                    lemma_bindings_map_value(self.bindings@, i as int);
                }
                Some(self.bindings[i].1.clone())
            },
            None => None,
        }
    }

    /// Look up an action for the given key combo.
    ///
    /// The range in the returned action is updated to the provided range.
    /// Character keys are normalized to lowercase for matching (browsers report
    /// uppercase when modifiers like Ctrl are held).
    pub fn lookup(&self, combo: &KeyCombo, range: Range) -> (r: Option<EditorAction>)
        ensures
            r == spec_lookup(self@, *combo, range),
    {
        if let Some(action) = self.get(combo) {
            return Some(action.with_range(range));
        }
        if let Key::Character(s) = &combo.key {
            let lower = str_to_lowercase(s.as_str());
            if !lower.eq(s) {
                let normalized = KeyCombo { key: Key::Character(lower), modifiers: combo.modifiers };
                if let Some(action) = self.get(&normalized) {
                    return Some(action.with_range(range));
                }
            }
        }
        None
    }

    /// All bindings, each combination once.
    pub fn iter(&self) -> (r: Vec<(KeyCombo, EditorAction)>)
        ensures
            bindings_map(r@) == self@,
            ids_distinct(r@),
    {
        proof {
            use_type_invariant(self);
        }
        let mut out: Vec<(KeyCombo, EditorAction)> = Vec::new();
        let mut i: usize = 0;
        while i < self.bindings.len()
            invariant
                i <= self.bindings@.len(),
                out@ == self.bindings@.take(i as int),
            decreases self.bindings@.len() - i,
        {
            let pair = (self.bindings[i].0.clone(), self.bindings[i].1.clone());
            out.push(pair);
            proof {
                assert(out@ =~= self.bindings@.take(i + 1));
            }
            i = i + 1;
        }
        proof {
            assert(self.bindings@.take(i as int) =~= self.bindings@);
        }
        out
    }
}

/// What `lookup` answers: the exact binding, else for a character key whose
/// lowercase form differs, the binding of the lowercase key with the same
/// modifiers; its range replaced by `range`.
pub open spec fn spec_lookup(
    m: Map<(nat, Seq<char>, Modifiers), EditorAction>,
    combo: KeyCombo,
    range: Range,
) -> Option<EditorAction> {
    let id = combo_id(combo);
    let lower = spec_to_lowercase(key_text(combo.key));
    let lower_id = (0nat, lower, combo.modifiers);
    if m.dom().contains(id) {
        Some(m[id].spec_with_range(range))
    } else if combo.key is Character && lower != key_text(combo.key) && m.dom().contains(lower_id) {
        Some(m[lower_id].spec_with_range(range))
    } else {
        None
    }
}

/// The bindings a fresh configuration has on the given platform.
pub open spec fn default_bindings(is_mac: bool) -> Map<(nat, Seq<char>, Modifiers), EditorAction> {
    let p = if is_mac {
        mods(false, false, false, true, false, false)
    } else {
        mods(true, false, false, false, false, false)
    };
    let none = mods(false, false, false, false, false, false);
    let caret = Range { start: 0, end: 0 };
    let base = Map::empty().insert((0nat, "b"@, p), EditorAction::ToggleBold).insert(
        (0nat, "i"@, p),
        EditorAction::ToggleItalic,
    ).insert((0nat, "e"@, p), EditorAction::CopyAsHtml).insert(
        (0nat, "z"@, p),
        EditorAction::Undo,
    );
    let with_redo = if is_mac {
        base.insert((0nat, "Z"@, mods(false, false, true, true, false, false)), EditorAction::Redo)
    } else {
        base.insert((0nat, "y"@, mods(true, false, false, false, false, false)), EditorAction::Redo).insert(
            (0nat, "Z"@, mods(true, false, true, false, false, false)),
            EditorAction::Redo,
        )
    };
    let with_lines = if is_mac {
        with_redo.insert(
            (key_code(Key::Backspace), Seq::empty(), mods(false, false, false, true, false, false)),
            EditorAction::DeleteToLineStart { range: caret },
        ).insert(
            (key_code(Key::Delete), Seq::empty(), mods(false, false, false, true, false, false)),
            EditorAction::DeleteToLineEnd { range: caret },
        )
    } else {
        with_redo
    };
    with_lines.insert(
        (key_code(Key::Enter), Seq::empty(), none),
        EditorAction::InsertLineBreak { range: caret },
    ).insert(
        (key_code(Key::Enter), Seq::empty(), mods(false, false, true, false, false, false)),
        EditorAction::InsertParagraph { range: caret },
    ).insert((key_code(Key::Undo), Seq::empty(), none), EditorAction::Undo).insert(
        (key_code(Key::Redo), Seq::empty(), none),
        EditorAction::Redo,
    ).insert((key_code(Key::Copy), Seq::empty(), none), EditorAction::Copy).insert(
        (key_code(Key::Cut), Seq::empty(), none),
        EditorAction::Cut,
    ).insert((key_code(Key::Paste), Seq::empty(), none), EditorAction::Paste { range: caret })
}

impl KeybindingConfig {
    /// Create default keybindings for the given platform.
    ///
    /// `is_mac` determines whether to use Cmd (true) or Ctrl (false) for shortcuts.
    pub fn default_for_platform(is_mac: bool) -> (r: Self)
        ensures
            r@ == default_bindings(is_mac),
    {
        let mut c = KeybindingConfig::new();
        // === Formatting ===
        c.bind(KeyCombo::primary(Key::character("b"), is_mac), EditorAction::ToggleBold);
        c.bind(KeyCombo::primary(Key::character("i"), is_mac), EditorAction::ToggleItalic);
        c.bind(KeyCombo::primary(Key::character("e"), is_mac), EditorAction::CopyAsHtml);
        // === History ===
        c.bind(KeyCombo::primary(Key::character("z"), is_mac), EditorAction::Undo);
        // Redo: Cmd+Shift+Z on Mac, Ctrl+Y or Ctrl+Shift+Z elsewhere
        if is_mac {
            c.bind(KeyCombo::primary_shift(Key::character("Z"), is_mac), EditorAction::Redo);
        } else {
            c.bind(KeyCombo::ctrl(Key::character("y")), EditorAction::Redo);
            c.bind(
                KeyCombo::with_modifiers(Key::character("Z"), Modifiers::ctrl_shift()),
                EditorAction::Redo,
            );
        }
        // === Line deletion ===
        if is_mac {
            c.bind(
                KeyCombo::meta(Key::Backspace),
                EditorAction::DeleteToLineStart { range: Range::caret(0) },
            );
            c.bind(
                KeyCombo::meta(Key::Delete),
                EditorAction::DeleteToLineEnd { range: Range::caret(0) },
            );
        }
        // === Enter behaviour ===
        // Enter = soft break (single newline)
        c.bind(KeyCombo::new(Key::Enter), EditorAction::InsertLineBreak { range: Range::caret(0) });
        // Shift+Enter = paragraph break (double newline)
        c.bind(KeyCombo::shift(Key::Enter), EditorAction::InsertParagraph { range: Range::caret(0) });
        // === Dedicated keys ===
        c.bind(KeyCombo::new(Key::Undo), EditorAction::Undo);
        c.bind(KeyCombo::new(Key::Redo), EditorAction::Redo);
        c.bind(KeyCombo::new(Key::Copy), EditorAction::Copy);
        c.bind(KeyCombo::new(Key::Cut), EditorAction::Cut);
        c.bind(KeyCombo::new(Key::Paste), EditorAction::Paste { range: Range::caret(0) });
        c
    }
}

impl Default for KeybindingConfig {
    fn default() -> (r: Self)
        ensures
            r@ == default_bindings(false),
    {
        Self::default_for_platform(false)
    }
}


/// A combination just bound is looked up as its action, placed at the
/// range of the lookup.
pub proof fn law_bound_combo_found(
    m: Map<(nat, Seq<char>, Modifiers), EditorAction>,
    combo: KeyCombo,
    action: EditorAction,
    range: Range,
)
    ensures
        spec_lookup(m.insert(combo_id(combo), action), combo, range) == Some(
            action.spec_with_range(range),
        ),
{
}

/// Once unbound, a combination of a key that is no character has no action.
pub proof fn law_unbound_combo_not_found(
    m: Map<(nat, Seq<char>, Modifiers), EditorAction>,
    combo: KeyCombo,
    range: Range,
)
    requires
        !(combo.key is Character),
    ensures
        spec_lookup(m.remove(combo_id(combo)), combo, range) is None,
{
}


/// Away from the Mac the default bindings redo on Ctrl+Y and on
/// Ctrl+Shift+Z, and undo on Ctrl+Z, whatever range the lookup is for; on
/// the Mac, Cmd+Shift+Z redoes and Cmd+Z undoes.
pub proof fn law_default_history_keys(combo: KeyCombo, range: Range)
    requires
        combo.key is Character,
    ensures
        key_text(combo.key) == seq!['y'] && combo.modifiers == mods(true, false, false, false, false, false)
            ==> spec_lookup(default_bindings(false), combo, range) == Some(EditorAction::Redo),
        key_text(combo.key) == seq!['Z'] && combo.modifiers == mods(true, false, true, false, false, false)
            ==> spec_lookup(default_bindings(false), combo, range) == Some(EditorAction::Redo),
        key_text(combo.key) == seq!['z'] && combo.modifiers == mods(true, false, false, false, false, false)
            ==> spec_lookup(default_bindings(false), combo, range) == Some(EditorAction::Undo),
        key_text(combo.key) == seq!['Z'] && combo.modifiers == mods(false, false, true, true, false, false)
            ==> spec_lookup(default_bindings(true), combo, range) == Some(EditorAction::Redo),
        key_text(combo.key) == seq!['z'] && combo.modifiers == mods(false, false, false, true, false, false)
            ==> spec_lookup(default_bindings(true), combo, range) == Some(EditorAction::Undo),
{
    reveal_strlit("b");
    reveal_strlit("i");
    reveal_strlit("e");
    reveal_strlit("z");
    reveal_strlit("y");
    reveal_strlit("Z");
    assert("y"@ =~= seq!['y']);
    assert("z"@ =~= seq!['z']);
    assert("Z"@ =~= seq!['Z']);
    assert("b"@ =~= seq!['b']);
    assert("i"@ =~= seq!['i']);
    assert("e"@ =~= seq!['e']);
    assert(combo_id(combo).0 == 0);
    assert(seq!['z'][0] != seq!['y'][0] && seq!['z'][0] != seq!['Z'][0]);
    assert(seq!['z'] != seq!['y'] && seq!['z'] != seq!['Z']);
    let ctrl = mods(true, false, false, false, false, false);
    let m = default_bindings(false);
    assert(m.dom().contains((0nat, seq!['z'], ctrl)) && m[(0nat, seq!['z'], ctrl)] == EditorAction::Undo);
}


/// The default bindings on either platform: the primary modifier (Cmd on the
/// Mac, Ctrl elsewhere) with B, I and E toggles bold, toggles italic and
/// copies as HTML; Enter breaks the line and Shift+Enter the paragraph, at the
/// range of the lookup.
pub proof fn law_default_format_and_enter_keys(is_mac: bool, combo: KeyCombo, range: Range)
    ensures
        ({
            let p = if is_mac {
                mods(false, false, false, true, false, false)
            } else {
                mods(true, false, false, false, false, false)
            };
            let m = default_bindings(is_mac);
            &&& combo.key is Character && key_text(combo.key) == seq!['b'] && combo.modifiers == p
                ==> spec_lookup(m, combo, range) == Some(EditorAction::ToggleBold)
            &&& combo.key is Character && key_text(combo.key) == seq!['i'] && combo.modifiers == p
                ==> spec_lookup(m, combo, range) == Some(EditorAction::ToggleItalic)
            &&& combo.key is Character && key_text(combo.key) == seq!['e'] && combo.modifiers == p
                ==> spec_lookup(m, combo, range) == Some(EditorAction::CopyAsHtml)
            &&& combo.key is Enter && combo.modifiers == mods(false, false, false, false, false, false)
                ==> spec_lookup(m, combo, range) == Some(EditorAction::InsertLineBreak { range })
            &&& combo.key is Enter && combo.modifiers == mods(false, false, true, false, false, false)
                ==> spec_lookup(m, combo, range) == Some(EditorAction::InsertParagraph { range })
        }),
{
    reveal_strlit("b");
    reveal_strlit("i");
    reveal_strlit("e");
    reveal_strlit("z");
    reveal_strlit("y");
    reveal_strlit("Z");
    assert("y"@ =~= seq!['y']);
    assert("z"@ =~= seq!['z']);
    assert("Z"@ =~= seq!['Z']);
    assert("b"@ =~= seq!['b']);
    assert("i"@ =~= seq!['i']);
    assert("e"@ =~= seq!['e']);
    assert(seq!['b'][0] != seq!['i'][0] && seq!['b'][0] != seq!['e'][0] && seq!['b'][0] != seq!['z'][0]);
    assert(seq!['i'][0] != seq!['e'][0] && seq!['i'][0] != seq!['z'][0] && seq!['e'][0] != seq!['z'][0]);
    assert(seq!['b'][0] != seq!['y'][0] && seq!['i'][0] != seq!['y'][0] && seq!['e'][0] != seq!['y'][0]);
    assert(seq!['b'][0] != seq!['Z'][0] && seq!['i'][0] != seq!['Z'][0] && seq!['e'][0] != seq!['Z'][0]);
}

} // verus!
