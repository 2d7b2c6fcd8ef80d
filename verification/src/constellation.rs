//! Settings for backlink queries.
use vstd::prelude::*;

verus! {

/// Page size of a backlink query that names none.
pub const DEFAULT_CURSOR_LIMIT: u64 = 16;

/// The page size a backlink query uses when it names none.
pub fn get_default_cursor_limit() -> (r: u64)
    ensures
        r == DEFAULT_CURSOR_LIMIT,
{
    DEFAULT_CURSOR_LIMIT
}

} // verus!
