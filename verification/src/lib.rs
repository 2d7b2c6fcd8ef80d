//! Verified core of the weaver markdown editor: text buffers with undo,
//! editor documents, actions and their execution, rendering helpers, the
//! browser's input and cursor decisions, and the notebook-side utilities
//! (wikilink resolution, collaborators and presence, stored files).
pub mod actions;
pub mod agent;
pub mod browser;
pub mod collab;
pub mod constellation;
pub mod document;
pub mod execute;
pub mod filestore;
pub mod keyed;
pub mod lexicons;
pub mod oauth;
pub mod offset_map;
pub mod paragraph;
pub mod platform;
pub mod render;
pub mod render_cache;
pub mod resolve;
pub mod strings;
pub mod syntax;
pub mod telemetry;
pub mod text;
pub mod text_helpers;
pub mod transport;
pub mod types;
pub mod undo;
pub mod util;
pub mod writer;

pub use actions::{
    EditorAction, FormatAction, InputType, Key, KeyCombo, KeybindingConfig, KeydownResult,
    Modifiers, Range,
};
pub use document::{EditorDocument, PlainEditor};
pub use execute::execute_action;
pub use offset_map::{OffsetMapping, SnapDirection};
pub use paragraph::{hash_source, make_paragraph_id, ParagraphRender};
pub use platform::{ClipboardPlatform, CursorSync, PlatformError};
pub use render::{ImageResolver, WikilinkValidator};
pub use render_cache::{apply_delta, is_boundary_affecting, CachedParagraph, IncrementalRenderResult, RenderCache};
pub use resolve::{EntryIndex, ExtractedRef, RefCollector, ResolvedContent, ResolvedEntry};
pub use syntax::{classify_syntax, SyntaxSpanInfo, SyntaxType};
pub use text::{EditorRope, TextBuffer};
pub use text_helpers::{
    count_leading_zero_width, detect_list_context, find_line_end, find_line_start,
    find_word_boundary_backward, find_word_boundary_forward, is_list_item_empty,
    is_zero_width_char, ListContext,
};
pub use types::{
    Affinity, CompositionState, CursorState, EditInfo, EditorImage, Selection, BLOCK_SYNTAX_ZONE,
};
pub use undo::{UndoManager, UndoableBuffer};
pub use writer::{EditorImageResolver, SegmentedWriter};
