//! Record data of the lexicons the editor reads.
use vstd::prelude::*;

verus! {

/// A viewer's relation to a list: the block record, and whether it is muted.
#[derive(Debug, Clone, PartialEq, Eq)]
pub struct ListViewerStateData {
    pub blocked: Option<String>,
    pub muted: Option<bool>,
}

/// Embed size as percentages of the available space.
#[derive(Debug, Clone, Copy, PartialEq, Eq, Structural)]
pub struct PercentSizeData {
    pub height: i64,
    pub width: i64,
}

/// Pixel-exact embed size. The dimensions are logical pixels, subject to
/// scaling, so 200px at X2 scale is 400px.
#[derive(Debug, Clone, Copy, PartialEq, Eq, Structural)]
pub struct PixelSizeData {
    pub height: i64,
    pub width: i64,
}

} // verus!
