//! Paragraph-level rendering for incremental updates.
//!
//! Paragraphs are discovered during markdown rendering by tracking
//! Tag::Paragraph events. This allows updating only changed paragraphs in the DOM.
use crate::offset_map::OffsetMapping;
use crate::strings::{decimal, string_push_str, usize_to_string};
use crate::syntax::SyntaxSpanInfo;
use std::collections::hash_map::DefaultHasher;
use std::hash::{Hash, Hasher};
use vstd::prelude::*;

verus! {

/// A rendered paragraph with its source range and offset mappings.
#[derive(Debug)]
pub struct ParagraphRender {
    /// Stable content-based ID for DOM diffing (format: `p-{index}`)
    pub id: String,
    /// Source byte range in the text buffer
    pub byte_range: std::ops::Range<usize>,
    /// Source char range in the text buffer
    pub char_range: std::ops::Range<usize>,
    /// Rendered HTML content (without wrapper div)
    pub html: String,
    /// Offset mappings for this paragraph
    pub offset_map: Vec<OffsetMapping>,
    /// Syntax spans for conditional visibility
    pub syntax_spans: Vec<SyntaxSpanInfo>,
    /// Hash of source text for quick change detection
    pub source_hash: u64,
}

/// Number of positions in `[start, end)`, 0 when the range is reversed.
pub open spec fn range_len(start: usize, end: usize) -> usize {
    if start < end {
        (end - start) as usize
    } else {
        0
    }
}

impl ParagraphRender {
    /// Check if this paragraph contains a given byte offset.
    pub fn contains_byte(&self, offset: usize) -> (r: bool)
        ensures
            r == (self.byte_range.start <= offset < self.byte_range.end),
    {
        self.byte_range.start <= offset && offset < self.byte_range.end
    }

    /// Check if this paragraph contains a given char offset.
    pub fn contains_char(&self, offset: usize) -> (r: bool)
        ensures
            r == (self.char_range.start <= offset < self.char_range.end),
    {
        self.char_range.start <= offset && offset < self.char_range.end
    }

    /// Get the length in chars.
    pub fn char_len(&self) -> (r: usize)
        ensures
            r == range_len(self.char_range.start, self.char_range.end),
    {
        if self.char_range.start < self.char_range.end {
            self.char_range.end - self.char_range.start
        } else {
            0
        }
    }

    /// Get the length in bytes.
    pub fn byte_len(&self) -> (r: usize)
        ensures
            r == range_len(self.byte_range.start, self.byte_range.end),
    {
        if self.byte_range.start < self.byte_range.end {
            self.byte_range.end - self.byte_range.start
        } else {
            0
        }
    }
}

/// The hash that std's `DefaultHasher` gives a string's contents.
pub uninterp spec fn source_hash(text: Seq<char>) -> u64;

/// Simple hash function for source text comparison.
///
/// Used to quickly detect if paragraph content has changed. Hashes the text
/// with a fresh `std::collections::hash_map::DefaultHasher` (`str::hash`, then
/// `Hasher::finish`); the contract only names the result as a function of the
/// text, which is what a fixed, unseeded hasher gives.
#[verifier::external_body]
pub fn hash_source(text: &str) -> (r: u64)
    ensures
        r == source_hash(text@),
{
    let mut hasher = DefaultHasher::new();
    text.hash(&mut hasher);
    hasher.finish()
}

/// Generate a paragraph ID from monotonic counter.
///
/// IDs are stable across content changes - only position/cursor determines identity.
pub fn make_paragraph_id(index: usize) -> (r: String)
    ensures
        r@ == seq!['p', '-'] + decimal(index as nat),
{
    let mut id = String::new();
    crate::strings::string_push(&mut id, 'p');
    crate::strings::string_push(&mut id, '-');
    let digits = usize_to_string(index);
    string_push_str(&mut id, digits.as_str());
    proof {
        assert(id@ =~= seq!['p', '-'] + decimal(index as nat));
    }
    id
}

} // verus!
