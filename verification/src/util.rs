//! Notebook titles, paths and AT Protocol URLs.
use crate::strings::{spec_to_lowercase, str_eq, str_strip_prefix, str_to_lowercase, string_push, string_push_str};
use vstd::prelude::*;

verus! {

/// `s` with every space made an underscore.
pub open spec fn spaces_to_underscores(s: Seq<char>) -> Seq<char> {
    Seq::new(s.len(), |i: int| if s[i] == ' ' { '_' } else { s[i] })
}

/// Path slug of a title: spaces become underscores, then the text is lowercased.
pub fn normalize_title_path(title: &str) -> (r: String)
    ensures
        r@ == spec_to_lowercase(spaces_to_underscores(title@)),
{
    let n = title.unicode_len();
    let mut replaced = String::new();
    let mut i: usize = 0;
    while i < n
        invariant
            i <= n == title@.len(),
            replaced@ == spaces_to_underscores(title@).take(i as int),
        decreases n - i,
    {
        let c = title.get_char(i);
        if c == ' ' {
            string_push(&mut replaced, '_');
        } else {
            string_push(&mut replaced, c);
        }
        proof {
            assert(replaced@ =~= spaces_to_underscores(title@).take(i + 1));
        }
        i = i + 1;
    }
    proof {
        assert(replaced@ =~= spaces_to_underscores(title@));
    }
    str_to_lowercase(replaced.as_str())
}

/// Punctuation that URL parsers commonly eat: period, comma, semicolon,
/// colon, exclamation and question mark.
pub open spec fn is_trailing_punctuation(c: char) -> bool {
    c == '.' || c == ',' || c == ';' || c == ':' || c == '!' || c == '?'
}

/// `s` without the run of trailing punctuation at its end.
pub open spec fn without_trailing_punctuation(s: Seq<char>) -> Seq<char>
    decreases s.len(),
{
    if s.len() > 0 && is_trailing_punctuation(s.last()) {
        without_trailing_punctuation(s.drop_last())
    } else {
        s
    }
}

fn punctuation_char(c: char) -> (r: bool)
    ensures
        r == is_trailing_punctuation(c),
{
    c == '.' || c == ',' || c == ';' || c == ':' || c == '!' || c == '?'
}

/// Strip trailing punctuation that URL parsers commonly eat
/// (period, comma, semicolon, colon, exclamation, question mark)
pub fn strip_trailing_punctuation(s: &str) -> (r: &str)
    ensures
        r@ == without_trailing_punctuation(s@),
{
    let n = s.unicode_len();
    let mut k: usize = n;
    proof {
        assert(s@.take(n as int) =~= s@);
    }
    while k > 0 && punctuation_char(s.get_char(k - 1))
        invariant
            k <= n == s@.len(),
            without_trailing_punctuation(s@.take(k as int)) == without_trailing_punctuation(s@),
        decreases k,
    {
        proof {
            assert(s@.take(k as int).drop_last() =~= s@.take(k - 1));
        }
        k = k - 1;
    }
    let r = s.substring_char(0, k);
    proof {
        assert(r@ =~= s@.take(k as int));
    }
    r
}

/// Whether a title matches a search term: exactly, or once trailing
/// punctuation is stripped from the search term or from the title.
pub open spec fn title_matches_spec(value: Seq<char>, search: Seq<char>) -> bool {
    ||| value == search
    ||| value == without_trailing_punctuation(search)
    ||| without_trailing_punctuation(value) == search
}

/// Check if a search term matches a value, with fallback to stripped punctuation
pub fn title_matches(value: &str, search: &str) -> (r: bool)
    ensures
        r == title_matches_spec(value@, search@),
{
    // Exact match first
    if str_eq(value, search) {
        return true;
    }
    // Try with trailing punctuation stripped from search term
    let stripped_search = strip_trailing_punctuation(search);
    if !str_eq(stripped_search, search) && str_eq(value, stripped_search) {
        return true;
    }
    // Try with trailing punctuation stripped from value (for titles ending in punctuation)
    let stripped_value = strip_trailing_punctuation(value);
    if !str_eq(stripped_value, value) && str_eq(stripped_value, search) {
        return true;
    }
    false
}

/// Stripping trailing punctuation twice strips nothing more.
pub proof fn law_strip_idempotent(s: Seq<char>)
    ensures
        without_trailing_punctuation(without_trailing_punctuation(s))
            == without_trailing_punctuation(s),
    decreases s.len(),
{
    if s.len() > 0 && is_trailing_punctuation(s.last()) {
        law_strip_idempotent(s.drop_last());
    }
}

/// Title matching does not depend on which side is the title and which the
/// search term, and every title matches itself.
pub proof fn law_title_matches_symmetric(a: Seq<char>, b: Seq<char>)
    ensures
        title_matches_spec(a, b) == title_matches_spec(b, a),
        title_matches_spec(a, a),
{
}

/// Whether an entry is the one a title search asks for: its path or its
/// title matches the search.
pub fn entry_matches_title(path: &str, title: &str, search: &str) -> (r: bool)
    ensures
        r == (title_matches_spec(path@, search@) || title_matches_spec(title@, search@)),
{
    let path_matches = title_matches(path, search);
    let title_field_matches = title_matches(title, search);
    path_matches || title_field_matches
}

/// The name under which a notebook matches a title search: its path if that
/// matches, else its title if that matches.
pub fn notebook_match<'a>(path: Option<&'a str>, title: Option<&'a str>, search: &str) -> (r: Option<
    &'a str,
>)
    ensures
        r == (if path matches Some(p) && title_matches_spec(p@, search@) {
            path
        } else if title matches Some(t) && title_matches_spec(t@, search@) {
            title
        } else {
            None
        }),
{
    if let Some(p) = path {
        if title_matches(p, search) {
            return path;
        }
    }
    if let Some(t) = title {
        if title_matches(t, search) {
            return title;
        }
    }
    None
}

/// The positions before and after entry `index` of a notebook with `len`
/// entries, where there are such entries.
pub fn neighbours(index: usize, len: usize) -> (r: (Option<usize>, Option<usize>))
    requires
        index < len,
    ensures
        r.0 == (if index > 0 {
            Some((index - 1) as usize)
        } else {
            None
        }),
        r.1 == (if index < len - 1 {
            Some((index + 1) as usize)
        } else {
            None
        }),
{
    let prev = if index > 0 {
        Some(index - 1)
    } else {
        None
    };
    let next = if index < len - 1 {
        Some(index + 1)
    } else {
        None
    };
    (prev, next)
}

/// Utility: Generate CDN URL for avatar blob
pub fn avatar_cdn_url(did: &str, cid: &str) -> (r: String)
    ensures
        r@ == "https://cdn.bsky.app/img/avatar/plain/"@ + did@ + "/"@ + cid@,
{
    let mut s = String::new();
    string_push_str(&mut s, "https://cdn.bsky.app/img/avatar/plain/");
    string_push_str(&mut s, did);
    string_push_str(&mut s, "/");
    string_push_str(&mut s, cid);
    s
}

/// Utility: Generate PDS URL for blob retrieval
pub fn blob_url(did: &str, pds: &str, cid: &str) -> (r: String)
    ensures
        r@ == "https://"@ + pds@ + "/xrpc/com.atproto.repo.getBlob?did="@ + did@ + "&cid="@
            + cid@,
{
    let mut s = String::new();
    string_push_str(&mut s, "https://");
    string_push_str(&mut s, pds);
    string_push_str(&mut s, "/xrpc/com.atproto.repo.getBlob?did=");
    string_push_str(&mut s, did);
    string_push_str(&mut s, "&cid=");
    string_push_str(&mut s, cid);
    s
}

/// The text `at://`.
pub open spec fn at_scheme() -> Seq<char> {
    seq!['a', 't', ':', '/', '/']
}

/// Convert an ATURI to a HTTP URL.
///
/// A link that is not an `at://` URI is handed back as it is. An `at://` URI
/// is split into at most two parts at its first `/` (identifier and the
/// rest), so the third part that would be the record key is never there and
/// no URL is built: every `at://` URI gives `None`. The appview is never read.
pub fn aturi_to_http<'s>(aturi: &'s str, appview: &'s str) -> (r: Option<&'s str>)
    ensures
        r == (if at_scheme().is_prefix_of(aturi@) {
            None
        } else {
            Some(aturi)
        }),
{
    let scheme = "at://";
    proof {
        reveal_strlit("at://");
        assert(scheme@ =~= at_scheme());
    }
    match str_strip_prefix(aturi, scheme) {
        Some(_rest) => None,
        None => Some(aturi),
    }
}

} // verus!
