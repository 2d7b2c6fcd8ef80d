//! Offset mapping records and cursor snapping hints shared by rendering and editing.
use vstd::prelude::*;

verus! {

/// Direction in which a cursor that lands on invisible syntax should move:
/// forward after insertions (toward new content), backward after deletions
/// (toward remaining content).
#[derive(Clone, Copy, Debug, PartialEq, Eq, Structural)]
pub enum SnapDirection {
    Backward,
    Forward,
}

/// Maps a source range to a position inside a rendered DOM text node.
#[derive(Debug)]
pub struct OffsetMapping {
    /// Source byte range.
    pub byte_range: std::ops::Range<usize>,
    /// Source char range.
    pub char_range: std::ops::Range<usize>,
    /// ID of the DOM node that holds the rendered text.
    pub node_id: String,
    /// UTF-16 offset of the mapped text within the node.
    pub char_offset_in_node: usize,
    /// Child element index within the node, when the mapping points between children.
    pub child_index: Option<usize>,
    /// UTF-16 length of the mapped text.
    pub utf16_len: usize,
}

impl Clone for OffsetMapping {
    fn clone(&self) -> (r: Self)
        ensures
            r == *self,
    {
        OffsetMapping {
            byte_range: std::ops::Range { start: self.byte_range.start, end: self.byte_range.end },
            char_range: std::ops::Range { start: self.char_range.start, end: self.char_range.end },
            node_id: self.node_id.clone(),
            char_offset_in_node: self.char_offset_in_node,
            child_index: self.child_index,
            utf16_len: self.utf16_len,
        }
    }
}

} // verus!
