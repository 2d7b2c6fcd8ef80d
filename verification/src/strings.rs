//! Verified helpers on strings and characters.
use vstd::prelude::*;

verus! {

/// Number of bytes that the UTF-8 encoding of `c` takes.
pub open spec fn char_utf8_len(c: char) -> nat {
    if (c as u32) < 0x80 {
        1
    } else if (c as u32) < 0x800 {
        2
    } else if (c as u32) < 0x10000 {
        3
    } else {
        4
    }
}

/// Number of bytes that the UTF-8 encoding of `s` takes.
pub open spec fn utf8_len(s: Seq<char>) -> nat
    decreases s.len(),
{
    if s.len() == 0 {
        0
    } else {
        utf8_len(s.drop_last()) + char_utf8_len(s.last())
    }
}

/// The UTF-8 length of a concatenation is the sum of the lengths.
pub proof fn lemma_utf8_len_concat(a: Seq<char>, b: Seq<char>)
    ensures
        utf8_len(a + b) == utf8_len(a) + utf8_len(b),
    decreases b.len(),
{
    if b.len() == 0 {
        assert(a + b =~= a);
    } else {
        lemma_utf8_len_concat(a, b.drop_last());
        assert((a + b).drop_last() =~= a + b.drop_last());
    }
}

/// Every character takes at least one byte and at most four.
pub proof fn lemma_utf8_len_bounds(s: Seq<char>)
    ensures
        s.len() <= utf8_len(s) <= 4 * s.len(),
    decreases s.len(),
{
    if s.len() > 0 {
        lemma_utf8_len_bounds(s.drop_last());
    }
}

/// UTF-8 length grows with the prefix taken.
pub proof fn lemma_utf8_len_take_mono(s: Seq<char>, i: int, j: int)
    requires
        0 <= i <= j <= s.len(),
    ensures
        utf8_len(s.take(i)) + (j - i) <= utf8_len(s.take(j)),
{
    lemma_utf8_len_concat(s.take(i), s.subrange(i, j));
    assert(s.take(i) + s.subrange(i, j) =~= s.take(j));
    lemma_utf8_len_bounds(s.subrange(i, j));
}

/// Index of the last occurrence of `c` in `s`, or -1 when there is none.
pub open spec fn last_index_of(s: Seq<char>, c: char) -> int
    decreases s.len(),
{
    if s.len() == 0 {
        -1
    } else if s.last() == c {
        s.len() - 1
    } else {
        last_index_of(s.drop_last(), c)
    }
}

pub proof fn lemma_last_index_of(s: Seq<char>, c: char)
    ensures
        -1 <= last_index_of(s, c) < s.len(),
        last_index_of(s, c) >= 0 ==> s[last_index_of(s, c)] == c,
        forall|k: int| last_index_of(s, c) < k < s.len() ==> s[k] != c,
        (last_index_of(s, c) == -1) == !s.contains(c),
    decreases s.len(),
{
    if s.len() > 0 {
        lemma_last_index_of(s.drop_last(), c);
        if s.last() != c {
            assert forall|k: int| last_index_of(s, c) < k < s.len() implies s[k] != c by {
                if k < s.len() - 1 {
                    assert(s[k] == s.drop_last()[k]);
                }
            }
            if s.drop_last().contains(c) {
                let k = choose|k: int| 0 <= k < s.drop_last().len() && s.drop_last()[k] == c;
                assert(s[k] == c);
            }
            if s.contains(c) {
                let k = choose|k: int| 0 <= k < s.len() && s[k] == c;
                assert(s.drop_last()[k] == c);
            }
        } else {
            assert(s[s.len() - 1] == c);
        }
    }
}

/// Appends a character to a string through `String::push`.
#[verifier::external_body]
pub(crate) fn string_push(s: &mut String, c: char)
    ensures
        final(s)@ == old(s)@.push(c),
{
    s.push(c);
}

/// Appends the characters of `t` to `s`.
pub fn string_push_str(s: &mut String, t: &str)
    ensures
        final(s)@ == old(s)@ + t@,
{
    let chars = str_to_chars(t);
    let mut i: usize = 0;
    while i < chars.len()
        invariant
            i <= chars@.len(),
            chars@ == t@,
            s@ == old(s)@ + t@.take(i as int),
        decreases chars@.len() - i,
    {
        string_push(s, chars[i]);
        proof {
            assert(t@.take(i + 1) =~= t@.take(i as int).push(t@[i as int]));
        }
        i = i + 1;
    }
    proof {
        assert(t@.take(i as int) =~= t@);
    }
}

/// A piece of a text takes no more UTF-8 bytes than the whole.
pub proof fn lemma_utf8_len_subrange(s: Seq<char>, a: int, b: int)
    requires
        0 <= a <= b <= s.len(),
    ensures
        utf8_len(s.subrange(a, b)) <= utf8_len(s),
        utf8_len(s.take(a) + s.skip(b)) <= utf8_len(s),
{
    lemma_utf8_len_concat(s.take(a), s.subrange(a, b));
    lemma_utf8_len_concat(s.take(a) + s.subrange(a, b), s.skip(b));
    lemma_utf8_len_concat(s.take(a), s.skip(b));
    assert(s.take(a) + s.subrange(a, b) + s.skip(b) =~= s);
}

/// Collects the characters of a string slice.
pub fn str_to_chars(s: &str) -> (v: Vec<char>)
    ensures
        v@ == s@,
{
    let mut v: Vec<char> = Vec::new();
    for c in it: s.chars()
        invariant
            v@ == it.seq().take(it.index() as int),
    {
        v.push(c);
    }
    v
}

/// Builds a string out of the characters of `v` in `[start, end)`.
pub fn string_from_chars(v: &[char], start: usize, end: usize) -> (s: String)
    requires
        start <= end <= v@.len(),
    ensures
        s@ == v@.subrange(start as int, end as int),
{
    let mut s = String::new();
    let mut i: usize = start;
    while i < end
        invariant
            start <= i <= end <= v@.len(),
            s@ == v@.subrange(start as int, i as int),
        decreases end - i,
    {
        string_push(&mut s, v[i]);
        assert(v@.subrange(start as int, i + 1) =~= v@.subrange(start as int, i as int).push(
            v@[i as int],
        ));
        i = i + 1;
    }
    s
}

/// Whether two strings hold the same text.
pub fn str_eq(a: &str, b: &str) -> (r: bool)
    ensures
        r == (a@ == b@),
{
    let n = a.unicode_len();
    if n != b.unicode_len() {
        return false;
    }
    let mut i: usize = 0;
    while i < n
        invariant
            i <= n == a@.len() == b@.len(),
            forall|j: int| 0 <= j < i ==> a@[j] == b@[j],
        decreases n - i,
    {
        if a.get_char(i) != b.get_char(i) {
            return false;
        }
        i = i + 1;
    }
    proof {
        assert(a@ =~= b@);
    }
    true
}

/// `s` with the prefix `p` taken off, where `s` begins with `p`.
pub fn str_strip_prefix<'a>(s: &'a str, p: &str) -> (r: Option<&'a str>)
    ensures
        match r {
            Some(t) => p@.is_prefix_of(s@) && t@ == s@.skip(p@.len() as int),
            None => !p@.is_prefix_of(s@),
        },
{
    let n = s.unicode_len();
    let m = p.unicode_len();
    if m > n {
        return None;
    }
    let mut i: usize = 0;
    while i < m
        invariant
            i <= m <= n,
            n == s@.len(),
            m == p@.len(),
            forall|k: int| 0 <= k < i ==> s@[k] == p@[k],
        decreases m - i,
    {
        if s.get_char(i) != p.get_char(i) {
            proof {
                if p@.is_prefix_of(s@) {
                    assert(s@.subrange(0, m as int)[i as int] == s@[i as int]);
                }
            }
            return None;
        }
        i = i + 1;
    }
    let t = s.substring_char(m, n);
    proof {
        assert(p@ =~= s@.subrange(0, m as int));
        assert(t@ =~= s@.skip(m as int));
    }
    Some(t)
}

/// Whether `s` holds the character `c`.
pub fn str_contains_char(s: &str, c: char) -> (r: bool)
    ensures
        r == s@.contains(c),
{
    let v = str_to_chars(s);
    let mut i: usize = 0;
    while i < v.len()
        invariant
            i <= v@.len(),
            v@ == s@,
            forall|k: int| 0 <= k < i ==> v@[k] != c,
        decreases v@.len() - i,
    {
        if v[i] == c {
            return true;
        }
        i = i + 1;
    }
    assert(!s@.contains(c)) by {
        if s@.contains(c) {
            let k = choose|k: int| 0 <= k < s@.len() && s@[k] == c;
            assert(v@[k] == c);
        }
    }
    false
}

/// Number of bytes of the UTF-8 encoding of `c`.
pub fn char_len_utf8(c: char) -> (r: usize)
    ensures
        r == char_utf8_len(c),
{
    let code = c as u32;
    if code < 0x80 {
        1
    } else if code < 0x800 {
        2
    } else if code < 0x10000 {
        3
    } else {
        4
    }
}

/// Byte index of the last occurrence of `c` in `s`, as `str::rfind` gives it.
pub fn str_rfind_char(s: &str, c: char) -> (r: Option<usize>)
    requires
        4 * s@.len() <= usize::MAX,
    ensures
        r == (if last_index_of(s@, c) >= 0 {
            Some(utf8_len(s@.take(last_index_of(s@, c))) as usize)
        } else {
            None::<usize>
        }),
{
    let v = str_to_chars(s);
    let mut i: usize = 0;
    let mut bytes: usize = 0;
    let mut found: Option<usize> = None;
    proof {
        lemma_last_index_of(s@, c);
    }
    while i < v.len()
        invariant
            i <= v@.len(),
            v@ == s@,
            4 * s@.len() <= usize::MAX,
            bytes == utf8_len(v@.take(i as int)),
            found == (if last_index_of(v@.take(i as int), c) >= 0 {
                Some(utf8_len(v@.take(last_index_of(v@.take(i as int), c))) as usize)
            } else {
                None::<usize>
            }),
        decreases v@.len() - i,
    {
        let ghost prefix = v@.take(i as int);
        let ghost next = v@.take(i + 1);
        assert(next.drop_last() =~= prefix);
        assert(next.last() == v@[i as int]);
        proof {
            lemma_utf8_len_bounds(next);
            lemma_last_index_of(prefix, c);
        }
        if v[i] == c {
            found = Some(bytes);
            assert(last_index_of(next, c) == i);
            assert(v@.take(i as int) =~= prefix);
        } else {
            assert(last_index_of(next, c) == last_index_of(prefix, c));
            proof {
                if last_index_of(prefix, c) >= 0 {
                    assert(v@.take(last_index_of(prefix, c)) =~= prefix.take(
                        last_index_of(prefix, c),
                    ));
                }
            }
        }
        bytes = bytes + char_len_utf8(v[i]);
        i = i + 1;
    }
    assert(v@.take(v@.len() as int) =~= v@);
    found
}


/// Result of `char::is_alphanumeric` (Unicode Alphabetic or Numeric).
pub uninterp spec fn spec_is_alphanumeric(c: char) -> bool;

/// `char::is_alphanumeric`: a character that is alphabetic or numeric; among
/// ASCII characters, exactly the digits and the letters.
#[verifier::external_body]
pub(crate) fn char_is_alphanumeric(c: char) -> (r: bool)
    ensures
        r == spec_is_alphanumeric(c),
        (c as u32) < 0x80 ==> (r <==> (('0' <= c && c <= '9') || ('a' <= c && c <= 'z') || ('A' <= c
            && c <= 'Z'))),
{
    c.is_alphanumeric()
}

/// Whether `c` has the Unicode White_Space property: tab through carriage
/// return, space, next line, no-break space, ogham space mark, the spaces from
/// en quad to hair space, the line and paragraph separators, narrow no-break
/// space, medium mathematical space and ideographic space.
pub open spec fn spec_is_whitespace(c: char) -> bool {
    let n = c as u32;
    ||| 0x9 <= n <= 0xD
    ||| n == 0x20
    ||| n == 0x85
    ||| n == 0xA0
    ||| n == 0x1680
    ||| 0x2000 <= n <= 0x200A
    ||| n == 0x2028
    ||| n == 0x2029
    ||| n == 0x202F
    ||| n == 0x205F
    ||| n == 0x3000
}

/// Whether `c` has the White_Space property, as `char::is_whitespace` tests it.
pub(crate) fn char_is_whitespace(c: char) -> (r: bool)
    ensures
        r == spec_is_whitespace(c),
{
    let n = c as u32;
    (0x9 <= n && n <= 0xD) || n == 0x20 || n == 0x85 || n == 0xA0 || n == 0x1680 || (0x2000 <= n && n
        <= 0x200A) || n == 0x2028 || n == 0x2029 || n == 0x202F || n == 0x205F || n == 0x3000
}

/// Result of `str::to_lowercase` (Unicode lowercase mapping of each char).
pub uninterp spec fn spec_to_lowercase(s: Seq<char>) -> Seq<char>;

/// The lowercase of an ASCII character: `A` to `Z` become `a` to `z`.
pub open spec fn ascii_lower(c: char) -> char {
    if 'A' <= c && c <= 'Z' {
        ((c as u32) + 32) as char
    } else {
        c
    }
}

/// `str::to_lowercase`: the Unicode lowercase of each character; on an ASCII
/// text, `A` to `Z` become `a` to `z` and the rest stays.
#[verifier::external_body]
pub(crate) fn str_to_lowercase(s: &str) -> (r: String)
    ensures
        r@ == spec_to_lowercase(s@),
        (forall|i: int| 0 <= i < s@.len() ==> (#[trigger] s@[i] as u32) < 0x80) ==> r@
            == s@.map_values(|c: char| ascii_lower(c)),
{
    s.to_lowercase()
}

/// Decimal digit char for `d < 10`.
pub open spec fn digit_char(d: nat) -> char {
    ((d + 48) as u32) as char
}

/// The decimal representation of `n`, as `usize::to_string` writes it.
pub open spec fn decimal(n: nat) -> Seq<char>
    decreases n,
{
    if n < 10 {
        seq![digit_char(n)]
    } else {
        decimal(n / 10).push(digit_char(n % 10))
    }
}

/// Value of a string of ASCII digits.
pub open spec fn digits_value(s: Seq<char>) -> nat
    decreases s.len(),
{
    if s.len() == 0 {
        0
    } else {
        digits_value(s.drop_last()) * 10 + ((s.last() as u32) - 48) as nat
    }
}

/// All chars of `s` are ASCII digits.
pub open spec fn all_ascii_digits(s: Seq<char>) -> bool {
    forall|i: int| 0 <= i < s.len() ==> '0' <= #[trigger] s[i] <= '9'
}

/// The decimal representation of `n`.
pub fn usize_to_string(n: usize) -> (r: String)
    ensures
        r@ == decimal(n as nat),
    decreases n,
{
    let d = n % 10;
    let c = char_from_digit(d);
    if n < 10 {
        let mut s = String::new();
        string_push(&mut s, c);
        assert(s@ =~= seq![c]);
        s
    } else {
        let mut s = usize_to_string(n / 10);
        string_push(&mut s, c);
        s
    }
}

/// The decimal representation of `n`.
pub fn u64_to_string(n: u64) -> (r: String)
    ensures
        r@ == decimal(n as nat),
    decreases n,
{
    let d = (n % 10) as usize;
    let c = char_from_digit(d);
    if n < 10 {
        let mut s = String::new();
        string_push(&mut s, c);
        assert(s@ =~= seq![c]);
        s
    } else {
        let mut s = u64_to_string(n / 10);
        string_push(&mut s, c);
        s
    }
}

fn char_from_digit(d: usize) -> (c: char)
    requires
        d < 10,
    ensures
        c == digit_char(d as nat),
{
    if d == 0 {
        '0'
    } else if d == 1 {
        '1'
    } else if d == 2 {
        '2'
    } else if d == 3 {
        '3'
    } else if d == 4 {
        '4'
    } else if d == 5 {
        '5'
    } else if d == 6 {
        '6'
    } else if d == 7 {
        '7'
    } else if d == 8 {
        '8'
    } else {
        '9'
    }
}

spec fn pow10(k: nat) -> nat
    decreases k,
{
    if k == 0 {
        1
    } else {
        10 * pow10((k - 1) as nat)
    }
}

proof fn lemma_decimal_len_pow(n: nat, k: nat)
    requires
        k >= 1,
        n < pow10(k),
    ensures
        1 <= decimal(n).len() <= k,
    decreases n,
{
    if n >= 10 {
        reveal_with_fuel(pow10, 2);
        assert(k >= 2);
        let p = pow10((k - 1) as nat);
        assert(pow10(k) == 10 * p);
        assert(n / 10 < p) by (nonlinear_arith)
            requires
                n < 10 * p,
        ;
        lemma_decimal_len_pow(n / 10, (k - 1) as nat);
    }
}

/// A `usize` has at most twenty decimal digits.
pub proof fn lemma_decimal_len(n: usize)
    ensures
        1 <= decimal(n as nat).len() <= 20,
{
    reveal_with_fuel(pow10, 21);
    assert(pow10(20) == 100000000000000000000nat);
    lemma_decimal_len_pow(n as nat, 20);
}

/// `str::len`: the number of bytes of the UTF-8 encoding of `s`, as std
/// documents it.
#[verifier::external_body]
pub(crate) fn str_byte_len(s: &str) -> (r: usize)
    ensures
        r == utf8_len(s@),
{
    s.len()
}

} // verus!
