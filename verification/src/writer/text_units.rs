//! Byte offsets into a source text, UTF-16 lengths and HTML escaping of text.
use crate::strings::{
    char_is_whitespace, char_utf8_len, lemma_utf8_len_take_mono, spec_is_whitespace, string_push,
    str_to_chars, utf8_len,
};
use vstd::prelude::*;

verus! {

/// `b` is the byte offset at which the `i`th character of `s` starts (or the
/// end of `s`, for `i == s.len()`).
pub open spec fn starts_char(s: Seq<char>, i: int, b: int) -> bool {
    0 <= i <= s.len() && utf8_len(s.take(i)) == b
}

/// `b` falls on a character boundary of `s`.
pub open spec fn is_char_boundary(s: Seq<char>, b: int) -> bool {
    exists|i: int| starts_char(s, i, b)
}

/// The index of the character that starts at byte `b` of `s`.
pub open spec fn char_at_byte(s: Seq<char>, b: int) -> int {
    choose|i: int| starts_char(s, i, b)
}

/// The characters of `s` between byte offsets `start` and `end`.
pub open spec fn byte_slice(s: Seq<char>, start: int, end: int) -> Seq<char> {
    s.subrange(char_at_byte(s, start), char_at_byte(s, end))
}

/// The characters between two boundaries lie inside the text, in order.
pub proof fn lemma_byte_slice_len(s: Seq<char>, start: int, end: int)
    requires
        is_char_boundary(s, start),
        is_char_boundary(s, end),
        start <= end,
    ensures
        0 <= char_at_byte(s, start) <= char_at_byte(s, end) <= s.len(),
        starts_char(s, char_at_byte(s, start), start),
        starts_char(s, char_at_byte(s, end), end),
        byte_slice(s, start, end).len() <= s.len(),
{
    let a = char_at_byte(s, start);
    let z = char_at_byte(s, end);
    if z < a {
        lemma_utf8_len_take_mono(s, z, a);
    }
}

/// Number of UTF-16 code units that `c` takes.
pub open spec fn char_utf16_len(c: char) -> nat {
    if (c as u32) < 0x10000 {
        1
    } else {
        2
    }
}

/// Number of UTF-16 code units that `s` takes.
pub open spec fn utf16_len(s: Seq<char>) -> nat
    decreases s.len(),
{
    if s.len() == 0 {
        0
    } else {
        utf16_len(s.drop_last()) + char_utf16_len(s.last())
    }
}

/// A text takes at most two UTF-16 code units per character.
pub proof fn lemma_utf16_len_bound(s: Seq<char>)
    ensures
        utf16_len(s) <= 2 * s.len(),
    decreases s.len(),
{
    if s.len() > 0 {
        lemma_utf16_len_bound(s.drop_last());
    }
}

/// Only one character starts at a given byte.
pub proof fn lemma_starts_char_unique(s: Seq<char>, i: int, j: int, b: int)
    requires
        starts_char(s, i, b),
        starts_char(s, j, b),
    ensures
        i == j,
{
    if i < j {
        lemma_utf8_len_take_mono(s, i, j);
    } else if j < i {
        lemma_utf8_len_take_mono(s, j, i);
    }
}

/// The index of the character of `s` that starts at byte `b`.
pub fn char_index_at_byte(s: &[char], b: usize) -> (r: usize)
    requires
        is_char_boundary(s@, b as int),
    ensures
        r == char_at_byte(s@, b as int),
        starts_char(s@, r as int, b as int),
{
    let ghost k = char_at_byte(s@, b as int);
    let mut i: usize = 0;
    let mut pos: usize = 0;
    while pos < b
        invariant
            starts_char(s@, k, b as int),
            0 <= i <= s@.len(),
            pos == utf8_len(s@.take(i as int)),
            pos <= b,
            i <= k,
        decreases b - pos,
    {
        proof {
            if i == k {
                assert(false);
            }
            assert(s@.take(i + 1).drop_last() =~= s@.take(i as int));
            lemma_utf8_len_take_mono(s@, i + 1, k);
        }
        pos = pos + char_utf8_bytes(s[i]);
        i = i + 1;
    }
    proof {
        lemma_starts_char_unique(s@, i as int, k, b as int);
    }
    i
}

/// Number of bytes that the UTF-8 encoding of `c` takes.
fn char_utf8_bytes(c: char) -> (r: usize)
    ensures
        r == char_utf8_len(c),
{
    let n: u32 = c as u32;
    if n < 0x80 {
        1
    } else if n < 0x800 {
        2
    } else if n < 0x10000 {
        3
    } else {
        4
    }
}

/// Number of UTF-16 code units that the characters of `s` in `[start, end)` take.
pub fn utf16_len_of(s: &[char], start: usize, end: usize) -> (r: usize)
    requires
        start <= end <= s@.len(),
        2 * s@.len() <= usize::MAX,
    ensures
        r == utf16_len(s@.subrange(start as int, end as int)),
{
    let mut n: usize = 0;
    let mut i: usize = start;
    while i < end
        invariant
            start <= i <= end <= s@.len(),
            2 * s@.len() <= usize::MAX,
            n == utf16_len(s@.subrange(start as int, i as int)),
            n <= 2 * (i - start),
        decreases end - i,
    {
        assert(s@.subrange(start as int, i + 1).drop_last() =~= s@.subrange(start as int, i as int));
        if (s[i] as u32) < 0x10000 {
            n = n + 1;
        } else {
            n = n + 2;
        }
        i = i + 1;
    }
    n
}

/// Number of UTF-16 code units that the text between two byte offsets of
/// `source` takes.
pub fn utf16_len_between(source: &[char], start: usize, end: usize) -> (r: usize)
    requires
        is_char_boundary(source@, start as int),
        is_char_boundary(source@, end as int),
        start <= end,
        2 * source@.len() <= usize::MAX,
    ensures
        r == utf16_len(byte_slice(source@, start as int, end as int)),
{
    let a = char_index_at_byte(source, start);
    let z = char_index_at_byte(source, end);
    proof {
        if z < a {
            lemma_utf8_len_take_mono(source@, z as int, a as int);
        }
    }
    utf16_len_of(source, a, z)
}

/// How HTML body text shows `c`: `&`, `<` and `>` as entities, everything
/// else as itself.
pub open spec fn escape_body_char(c: char) -> Seq<char> {
    if c == '&' {
        seq!['&', 'a', 'm', 'p', ';']
    } else if c == '<' {
        seq!['&', 'l', 't', ';']
    } else if c == '>' {
        seq!['&', 'g', 't', ';']
    } else {
        seq![c]
    }
}

/// `s` escaped for HTML body text.
pub open spec fn escape_body(s: Seq<char>) -> Seq<char>
    decreases s.len(),
{
    if s.len() == 0 {
        Seq::empty()
    } else {
        escape_body(s.drop_last()) + escape_body_char(s.last())
    }
}

/// `s` escaped for HTML body text.
pub fn escape_html_body_text(s: &str) -> (r: String)
    ensures
        r@ == escape_body(s@),
{
    let chars = str_to_chars(s);
    let mut out = String::new();
    let mut i: usize = 0;
    while i < chars.len()
        invariant
            i <= chars@.len(),
            chars@ == s@,
            out@ == escape_body(s@.take(i as int)),
        decreases chars@.len() - i,
    {
        let c = chars[i];
        let ghost before = out@;
        if c == '&' {
            string_push(&mut out, '&');
            string_push(&mut out, 'a');
            string_push(&mut out, 'm');
            string_push(&mut out, 'p');
            string_push(&mut out, ';');
        } else if c == '<' {
            string_push(&mut out, '&');
            string_push(&mut out, 'l');
            string_push(&mut out, 't');
            string_push(&mut out, ';');
        } else if c == '>' {
            string_push(&mut out, '&');
            string_push(&mut out, 'g');
            string_push(&mut out, 't');
            string_push(&mut out, ';');
        } else {
            string_push(&mut out, c);
        }
        proof {
            assert(s@.take(i + 1).drop_last() =~= s@.take(i as int));
            assert(out@ =~= before + escape_body_char(c));
        }
        i = i + 1;
    }
    proof {
        assert(s@.take(i as int) =~= s@);
    }
    out
}


/// How HTML shows `c` in attribute-safe text: as in body text, and `"` as an
/// entity too.
pub open spec fn escape_attr_char(c: char) -> Seq<char> {
    if c == '"' {
        seq!['&', 'q', 'u', 'o', 't', ';']
    } else {
        escape_body_char(c)
    }
}

/// `s` escaped for HTML, quotes included.
pub open spec fn escape_attr(s: Seq<char>) -> Seq<char>
    decreases s.len(),
{
    if s.len() == 0 {
        Seq::empty()
    } else {
        escape_attr(s.drop_last()) + escape_attr_char(s.last())
    }
}

/// The characters `s[start..end]`, escaped for HTML, quotes included.
pub fn escape_html_chars(s: &[char], start: usize, end: usize) -> (r: String)
    requires
        start <= end <= s@.len(),
    ensures
        r@ == escape_attr(s@.subrange(start as int, end as int)),
{
    let mut out = String::new();
    let mut i: usize = start;
    while i < end
        invariant
            start <= i <= end <= s@.len(),
            out@ == escape_attr(s@.subrange(start as int, i as int)),
        decreases end - i,
    {
        let c = s[i];
        let ghost before = out@;
        if c == '"' {
            string_push(&mut out, '&');
            string_push(&mut out, 'q');
            string_push(&mut out, 'u');
            string_push(&mut out, 'o');
            string_push(&mut out, 't');
            string_push(&mut out, ';');
        } else if c == '&' {
            string_push(&mut out, '&');
            string_push(&mut out, 'a');
            string_push(&mut out, 'm');
            string_push(&mut out, 'p');
            string_push(&mut out, ';');
        } else if c == '<' {
            string_push(&mut out, '&');
            string_push(&mut out, 'l');
            string_push(&mut out, 't');
            string_push(&mut out, ';');
        } else if c == '>' {
            string_push(&mut out, '&');
            string_push(&mut out, 'g');
            string_push(&mut out, 't');
            string_push(&mut out, ';');
        } else {
            string_push(&mut out, c);
        }
        proof {
            assert(s@.subrange(start as int, i + 1).drop_last() =~= s@.subrange(start as int, i as int));
            assert(out@ =~= before + escape_attr_char(c));
        }
        i = i + 1;
    }
    out
}


/// `i..j` is what is left of `s` once its leading and trailing whitespace go;
/// all-whitespace text leaves the empty range at its end.
pub open spec fn trim_bounds(s: Seq<char>, i: int, j: int) -> bool {
    &&& 0 <= i <= j <= s.len()
    &&& forall|k: int| 0 <= k < i ==> spec_is_whitespace(#[trigger] s[k])
    &&& forall|k: int| j <= k < s.len() ==> spec_is_whitespace(#[trigger] s[k])
    &&& i < j ==> !spec_is_whitespace(s[i]) && !spec_is_whitespace(s[j - 1])
    &&& i == j ==> j == s.len()
}

/// `s` without leading and trailing whitespace, as `str::trim` gives it.
pub open spec fn trimmed(s: Seq<char>) -> Seq<char> {
    let (i, j) = choose|i: int, j: int| trim_bounds(s, i, j);
    s.subrange(i, j)
}

proof fn lemma_trim_bounds_unique(s: Seq<char>, i: int, j: int, i2: int, j2: int)
    requires
        trim_bounds(s, i, j),
        trim_bounds(s, i2, j2),
    ensures
        i == i2 && j == j2,
{
    if i < j {
        assert(!spec_is_whitespace(s[i]));
        if i2 == j2 {
            assert(spec_is_whitespace(s[i]));
        }
        assert(!spec_is_whitespace(s[i2]));
        if i < i2 {
            assert(spec_is_whitespace(s[i]));
        }
        if i2 < i {
            assert(spec_is_whitespace(s[i2]));
        }
        assert(!spec_is_whitespace(s[j2 - 1]));
        if j < j2 {
            assert(spec_is_whitespace(s[j2 - 1]));
        }
        if j2 < j {
            assert(spec_is_whitespace(s[j - 1]));
        }
    } else if i2 < j2 {
        assert(!spec_is_whitespace(s[i2]));
        assert(spec_is_whitespace(s[i2]));
    }
}

/// The bounds, within `[a, b)`, of the characters `s[a..b]` without leading
/// and trailing whitespace.
pub fn trim_range(s: &[char], a: usize, b: usize) -> (r: (usize, usize))
    requires
        a <= b <= s@.len(),
    ensures
        a <= r.0 <= r.1 <= b,
        trimmed(s@.subrange(a as int, b as int)) == s@.subrange(r.0 as int, r.1 as int),
{
    let ghost t = s@.subrange(a as int, b as int);
    let mut i: usize = a;
    while i < b && char_is_whitespace(s[i])
        invariant
            a <= i <= b <= s@.len(),
            t == s@.subrange(a as int, b as int),
            forall|k: int| a <= k < i ==> spec_is_whitespace(#[trigger] s@[k]),
        decreases b - i,
    {
        i = i + 1;
    }
    let mut j: usize = b;
    while j > i && char_is_whitespace(s[j - 1])
        invariant
            a <= i <= j <= b <= s@.len(),
            t == s@.subrange(a as int, b as int),
            forall|k: int| j <= k < b ==> spec_is_whitespace(#[trigger] s@[k]),
        decreases j - i,
    {
        j = j - 1;
    }
    proof {
        assert forall|k: int| 0 <= k < i - a implies spec_is_whitespace(#[trigger] t[k]) by {
            assert(t[k] == s@[a + k]);
        }
        assert forall|k: int| j - a <= k < t.len() implies spec_is_whitespace(#[trigger] t[k]) by {
            assert(t[k] == s@[a + k]);
        }
        if i < j {
            assert(t[i - a] == s@[i as int]);
            assert(t[j - a - 1] == s@[j - 1]);
        }
        assert(trim_bounds(t, i - a, j - a));
        let (i2, j2) = choose|i2: int, j2: int| trim_bounds(t, i2, j2);
        lemma_trim_bounds_unique(t, i - a, j - a, i2, j2);
        assert(t.subrange(i - a, j - a) =~= s@.subrange(i as int, j as int));
    }
    (i, j)
}


/// Kinds of character that list markers are read by.
#[derive(Debug, Clone, Copy, PartialEq, Eq, Structural)]
pub enum CharClass {
    /// Anything but whitespace.
    NotWhitespace,
    /// Anything but `-` and `*`.
    NotBullet,
    /// A full stop.
    Dot,
}

pub open spec fn in_class(c: char, cls: CharClass) -> bool {
    match cls {
        CharClass::NotWhitespace => !spec_is_whitespace(c),
        CharClass::NotBullet => c != '-' && c != '*',
        CharClass::Dot => c == '.',
    }
}

/// The index of the first character of `s` in `cls`, or `s.len()`.
pub open spec fn first_in_class(s: Seq<char>, cls: CharClass) -> int
    decreases s.len(),
{
    if s.len() == 0 {
        0
    } else if first_in_class(s.drop_last(), cls) < s.len() - 1 {
        first_in_class(s.drop_last(), cls)
    } else if in_class(s.last(), cls) {
        s.len() - 1
    } else {
        s.len() as int
    }
}

proof fn lemma_first_in_class_prefix(s: Seq<char>, n: int, cls: CharClass)
    requires
        0 <= n <= s.len(),
        first_in_class(s.take(n), cls) < n,
    ensures
        first_in_class(s, cls) == first_in_class(s.take(n), cls),
    decreases s.len() - n,
{
    if n < s.len() {
        assert(s.take(n + 1).drop_last() =~= s.take(n));
        lemma_first_in_class_prefix(s, n + 1, cls);
    } else {
        assert(s.take(n) =~= s);
    }
}

fn char_in_class(c: char, cls: CharClass) -> (r: bool)
    ensures
        r == in_class(c, cls),
{
    match cls {
        CharClass::NotWhitespace => !char_is_whitespace(c),
        CharClass::NotBullet => c != '-' && c != '*',
        CharClass::Dot => c == '.',
    }
}

/// The index, counted from `a`, of the first character of `s[a..b]` in `cls`,
/// or `b - a`.
pub fn find_in_class(s: &[char], a: usize, b: usize, cls: CharClass) -> (r: usize)
    requires
        a <= b <= s@.len(),
    ensures
        r == first_in_class(s@.subrange(a as int, b as int), cls),
        r <= b - a,
{
    let ghost t = s@.subrange(a as int, b as int);
    let mut k: usize = 0;
    while k < b - a
        invariant
            a <= b <= s@.len(),
            t == s@.subrange(a as int, b as int),
            k <= b - a,
            first_in_class(t.take(k as int), cls) == k,
        decreases b - a - k,
    {
        proof {
            assert(t.take(k + 1).drop_last() =~= t.take(k as int));
            assert(t.take(k + 1).last() == s@[a + k]);
        }
        if char_in_class(s[a + k], cls) {
            proof {
                lemma_first_in_class_prefix(t, k + 1, cls);
            }
            return k;
        }
        k = k + 1;
    }
    proof {
        assert(t.take(k as int) =~= t);
    }
    k
}

/// Number of bytes that the UTF-8 encoding of `s[a..b]` takes.
pub fn utf8_len_of(s: &[char], a: usize, b: usize) -> (r: usize)
    requires
        a <= b <= s@.len(),
        4 * s@.len() <= usize::MAX,
    ensures
        r == utf8_len(s@.subrange(a as int, b as int)),
{
    let mut n: usize = 0;
    let mut i: usize = a;
    while i < b
        invariant
            a <= i <= b <= s@.len(),
            4 * s@.len() <= usize::MAX,
            n == utf8_len(s@.subrange(a as int, i as int)),
            n <= 4 * (i - a),
        decreases b - i,
    {
        assert(s@.subrange(a as int, i + 1).drop_last() =~= s@.subrange(a as int, i as int));
        n = n + char_utf8_bytes(s[i]);
        i = i + 1;
    }
    n
}

/// Number of bytes that the UTF-8 encoding of `s[a..b]` takes, when it is
/// known to take at most `bound`.
pub fn utf8_len_upto(s: &[char], a: usize, b: usize, bound: usize) -> (r: usize)
    requires
        a <= b <= s@.len(),
        utf8_len(s@.subrange(a as int, b as int)) <= bound,
    ensures
        r == utf8_len(s@.subrange(a as int, b as int)),
{
    let mut n: usize = 0;
    let mut i: usize = a;
    while i < b
        invariant
            a <= i <= b <= s@.len(),
            utf8_len(s@.subrange(a as int, b as int)) <= bound,
            n == utf8_len(s@.subrange(a as int, i as int)),
        decreases b - i,
    {
        proof {
            let t = s@.subrange(a as int, b as int);
            assert(s@.subrange(a as int, i + 1).drop_last() =~= s@.subrange(a as int, i as int));
            assert(t.take(i + 1 - a) =~= s@.subrange(a as int, i + 1));
            crate::strings::lemma_utf8_len_take_mono(t, i + 1 - a, t.len() as int);
            assert(t.take(t.len() as int) =~= t);
        }
        n = n + char_utf8_bytes(s[i]);
        i = i + 1;
    }
    n
}

} // verus!
