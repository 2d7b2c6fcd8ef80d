//! Syntax span tracking for conditional visibility.
//!
//! Tracks markdown syntax characters (like `**`, `#`, `>`) so they can be
//! shown/hidden based on cursor position (Obsidian-style editing).
use crate::strings::{char_is_whitespace, spec_is_whitespace, str_to_chars};
use vstd::prelude::*;

verus! {

/// Classification of markdown syntax characters.
#[derive(Debug, Clone, Copy, PartialEq, Eq, Structural)]
pub enum SyntaxType {
    /// Inline formatting: **, *, ~~, `, $, [, ], (, )
    Inline,
    /// Block formatting: #, >, -, *, 1., ```, ---
    Block,
}

/// Information about a syntax span for conditional visibility.
#[derive(Debug)]
pub struct SyntaxSpanInfo {
    /// Unique identifier for this syntax span (e.g., "s0", "s1")
    pub syn_id: String,
    /// Source char range this syntax covers (just this marker)
    pub char_range: std::ops::Range<usize>,
    /// Whether this is inline or block-level syntax
    pub syntax_type: SyntaxType,
    /// For paired inline syntax (**, *, etc), the full formatted region
    /// from opening marker through content to closing marker.
    /// When cursor is anywhere in this range, the syntax is visible.
    pub formatted_range: Option<std::ops::Range<usize>>,
}

impl Clone for SyntaxSpanInfo {
    fn clone(&self) -> (r: Self)
        ensures
            r == *self,
    {
        SyntaxSpanInfo {
            syn_id: self.syn_id.clone(),
            char_range: std::ops::Range { start: self.char_range.start, end: self.char_range.end },
            syntax_type: self.syntax_type,
            formatted_range: match &self.formatted_range {
                Some(fr) => Some(std::ops::Range { start: fr.start, end: fr.end }),
                None => None,
            },
        }
    }
}

/// A position moved by `delta`, the way an `isize` round trip moves it.
pub open spec fn shifted(p: usize, delta: isize) -> usize {
    ((p as isize) + delta) as usize
}

/// Moving position `p` by `delta` does not overflow an `isize`.
pub open spec fn shift_fits(p: usize, delta: isize) -> bool {
    isize::MIN <= (p as isize) + delta <= isize::MAX
}

impl SyntaxSpanInfo {
    /// Adjust all position fields by a character delta.
    ///
    /// This adjusts both `char_range` and `formatted_range` (if present) together,
    /// ensuring they stay in sync. Use this instead of manually adjusting fields
    /// to avoid forgetting one.
    pub fn adjust_positions(&mut self, char_delta: isize)
        requires
            shift_fits(old(self).char_range.start, char_delta),
            shift_fits(old(self).char_range.end, char_delta),
            old(self).formatted_range matches Some(fr) ==> shift_fits(fr.start, char_delta)
                && shift_fits(fr.end, char_delta),
        ensures
            final(self).syn_id == old(self).syn_id,
            final(self).syntax_type == old(self).syntax_type,
            final(self).char_range.start == shifted(old(self).char_range.start, char_delta),
            final(self).char_range.end == shifted(old(self).char_range.end, char_delta),
            match old(self).formatted_range {
                Some(fr) => final(self).formatted_range matches Some(nr) && nr.start == shifted(
                    fr.start,
                    char_delta,
                ) && nr.end == shifted(fr.end, char_delta),
                None => final(self).formatted_range is None,
            },
    {
        self.char_range.start = (self.char_range.start as isize + char_delta) as usize;
        self.char_range.end = (self.char_range.end as isize + char_delta) as usize;
        if let Some(fr) = &mut self.formatted_range {
            fr.start = (fr.start as isize + char_delta) as usize;
            fr.end = (fr.end as isize + char_delta) as usize;
        }
    }

    /// The range whose span makes this syntax visible.
    pub open spec fn visibility_range(&self) -> std::ops::Range<usize> {
        match self.formatted_range {
            Some(fr) => fr,
            None => self.char_range,
        }
    }

    /// Check if cursor is within the visibility range for this syntax.
    ///
    /// Returns true if the cursor should cause this syntax to be visible.
    /// Uses `formatted_range` if present (for paired syntax like **bold**),
    /// otherwise uses `char_range` (for standalone syntax like # heading).
    pub fn cursor_in_range(&self, cursor_pos: usize) -> (r: bool)
        ensures
            r == (self.visibility_range().start <= cursor_pos && cursor_pos
                <= self.visibility_range().end),
    {
        let range = match &self.formatted_range {
            Some(fr) => fr,
            None => &self.char_range,
        };
        cursor_pos >= range.start && cursor_pos <= range.end
    }
}

/// Number of whitespace chars at the start of `s`, from index `i` on.
pub open spec fn leading_ws_from(s: Seq<char>, i: int) -> int
    decreases s.len() - i,
{
    if i < s.len() && spec_is_whitespace(s[i]) {
        leading_ws_from(s, i + 1)
    } else {
        i
    }
}

/// `s` without its leading whitespace.
pub open spec fn spec_trim_start(s: Seq<char>) -> Seq<char> {
    s.skip(leading_ws_from(s, 0))
}

/// `t` starts with `c` followed by whitespace.
pub open spec fn starts_with_then_space(t: Seq<char>, c: char) -> bool {
    t.len() >= 2 && t[0] == c && spec_is_whitespace(t[1])
}

/// Block-level syntax: after leading whitespace, a heading or quote marker, a
/// code fence, a rule, a list bullet followed by whitespace, or a digit with a
/// `.` somewhere after it.
pub open spec fn is_block_syntax(text: Seq<char>) -> bool {
    let t = spec_trim_start(text);
    ||| t.len() >= 1 && t[0] == '#'
    ||| t.len() >= 1 && t[0] == '>'
    ||| t.len() >= 3 && t[0] == '`' && t[1] == '`' && t[2] == '`'
    ||| t.len() >= 3 && t[0] == '-' && t[1] == '-' && t[2] == '-'
    ||| starts_with_then_space(t, '-')
    ||| starts_with_then_space(t, '*')
    ||| t.len() >= 1 && '0' <= t[0] <= '9' && t.contains('.')
}

proof fn lemma_leading_ws_from(s: Seq<char>, i: int)
    requires
        0 <= i <= s.len(),
    ensures
        i <= leading_ws_from(s, i) <= s.len(),
    decreases s.len() - i,
{
    if i < s.len() && spec_is_whitespace(s[i]) {
        lemma_leading_ws_from(s, i + 1);
    }
}

/// Classify syntax text as inline or block level.
pub fn classify_syntax(text: &str) -> (r: SyntaxType)
    ensures
        r == (if is_block_syntax(text@) {
            SyntaxType::Block
        } else {
            SyntaxType::Inline
        }),
{
    let chars = str_to_chars(text);
    let n = chars.len();
    let mut k: usize = 0;
    while k < n && char_is_whitespace(chars[k])
        invariant
            chars@ == text@,
            n == chars@.len(),
            k <= n,
            leading_ws_from(text@, k as int) == leading_ws_from(text@, 0),
        decreases n - k,
    {
        k = k + 1;
    }
    let ghost t = spec_trim_start(text@);
    proof {
        assert(t =~= chars@.skip(k as int));
    }
    let rest = n - k;
    let heading = rest >= 1 && chars[k] == '#';
    let quote = rest >= 1 && chars[k] == '>';
    let fence = rest >= 3 && chars[k] == '`' && chars[k + 1] == '`' && chars[k + 2] == '`';
    let rule = rest >= 3 && chars[k] == '-' && chars[k + 1] == '-' && chars[k + 2] == '-';
    let dash = rest >= 2 && chars[k] == '-' && char_is_whitespace(chars[k + 1]);
    let star = rest >= 2 && chars[k] == '*' && char_is_whitespace(chars[k + 1]);
    let mut found = false;
    let mut j = k;
    while j < n
        invariant
            k <= j <= n,
            n == chars@.len(),
            found == exists|i: int| k <= i < j && chars@[i] == '.',
        decreases n - j,
    {
        if chars[j] == '.' {
            found = true;
        }
        j = j + 1;
    }
    proof {
        if found {
            let i = choose|i: int| k <= i < j && chars@[i] == '.';
            assert(t[i - k] == '.');
        }
        if t.contains('.') {
            let i = choose|i: int| 0 <= i < t.len() && t[i] == '.';
            assert(chars@[i + k] == '.');
        }
    }
    let numbered = rest >= 1 && '0' <= chars[k] && chars[k] <= '9' && found;
    if heading || quote || fence || rule || dash || star || numbered {
        SyntaxType::Block
    } else {
        SyntaxType::Inline
    }
}

} // verus!
