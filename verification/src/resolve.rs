//! Wikilink and embed resolution types for rendering without network calls
//!
//! This module provides pre-resolution infrastructure so that markdown rendering
//! can happen synchronously without network calls in the hot path.
use crate::keyed::{assoc_insert, assoc_map, assoc_position, keys_distinct, lemma_assoc_dom, lemma_assoc_len, lemma_assoc_value};
use crate::strings::{spec_to_lowercase, str_to_chars, str_to_lowercase};
use vstd::prelude::*;
use vstd::string::StrSliceExecFns;

verus! {

// === Wikilink targets ===

/// A wikilink split at its first `'#'` into target and fragment.
pub open spec fn split_wikilink(s: Seq<char>) -> (Seq<char>, Option<Seq<char>>) {
    if s.contains('#') {
        let k = first_hash(s);
        (s.take(k), Some(s.skip(k + 1)))
    } else {
        (s, None)
    }
}

/// Index of the first `'#'` of `s`, which holds one.
pub open spec fn first_hash(s: Seq<char>) -> int {
    choose|k: int| 0 <= k < s.len() && s[k] == '#' && !s.take(k).contains('#')
}

/// Finds the first `'#'` of `s`.
fn find_hash(s: &str) -> (r: Option<usize>)
    ensures
        match r {
            Some(k) => {
                &&& k < s@.len()
                &&& s@[k as int] == '#'
                &&& s@.contains('#')
                &&& k == first_hash(s@)
            },
            None => !s@.contains('#'),
        },
{
    let chars = str_to_chars(s);
    let mut i: usize = 0;
    while i < chars.len()
        invariant
            i <= chars@.len(),
            chars@ == s@,
            !s@.take(i as int).contains('#'),
        decreases chars@.len() - i,
    {
        if chars[i] == '#' {
            proof {
                let k = i as int;
                assert(0 <= k < s@.len() && s@[k] == '#' && !s@.take(k).contains('#'));
                lemma_first_hash_unique(s@, k);
            }
            return Some(i);
        }
        proof {
            assert(s@.take(i + 1) =~= s@.take(i as int).push(chars@[i as int]));
            let t = s@.take(i + 1);
            let t0 = s@.take(i as int);
            assert(!t.contains('#')) by {
                if t.contains('#') {
                    let j = choose|j: int| 0 <= j < t.len() && #[trigger] t[j] == '#';
                    if j < t0.len() {
                        assert(t0[j] == '#');
                    }
                }
            }
        }
        i = i + 1;
    }
    proof {
        assert(s@.take(i as int) =~= s@);
    }
    None
}

proof fn lemma_first_hash_unique(s: Seq<char>, k: int)
    requires
        0 <= k < s.len(),
        s[k] == '#',
        !s.take(k).contains('#'),
    ensures
        first_hash(s) == k,
{
    let m = first_hash(s);
    assert(0 <= m < s.len() && s[m] == '#' && !s.take(m).contains('#'));
    if m < k {
        assert(s.take(k)[m] == '#');
    }
    if k < m {
        assert(s.take(m)[k] == '#');
    }
}

/// Parse a wikilink into (target, fragment): split at the first `'#'`.
pub fn parse_wikilink(wikilink: &str) -> (r: (&str, Option<&str>))
    ensures
        r.0@ == split_wikilink(wikilink@).0,
        match split_wikilink(wikilink@).1 {
            Some(f) => r.1 matches Some(x) && x@ == f,
            None => r.1 is None,
        },
{
    match find_hash(wikilink) {
        Some(k) => {
            let n = wikilink.unicode_len();
            let target = wikilink.substring_char(0, k);
            let fragment = wikilink.substring_char(k + 1, n);
            proof {
                assert(target@ =~= wikilink@.take(k as int));
                assert(fragment@ =~= wikilink@.skip(k + 1));
            }
            (target, Some(fragment))
        },
        None => (wikilink, None),
    }
}

// === Resolved content ===

/// A reference to a record: its AT URI and content hash.
#[derive(Debug)]
pub struct StrongRef {
    pub uri: String,
    pub cid: String,
}

impl Clone for StrongRef {
    fn clone(&self) -> (r: Self)
        ensures
            r == *self,
    {
        StrongRef { uri: self.uri.clone(), cid: self.cid.clone() }
    }
}

/// A resolved entry reference from a wikilink
#[derive(Debug)]
pub struct ResolvedEntry {
    /// The canonical URL path (e.g., "/handle/notebook/entry_path")
    pub canonical_path: String,
    /// The original entry title for display
    pub display_title: String,
}

impl Clone for ResolvedEntry {
    fn clone(&self) -> (r: Self)
        ensures
            r == *self,
    {
        ResolvedEntry {
            canonical_path: self.canonical_path.clone(),
            display_title: self.display_title.clone(),
        }
    }
}

impl View for ResolvedEntry {
    type V = (Seq<char>, Seq<char>);

    open spec fn view(&self) -> (Seq<char>, Seq<char>) {
        (self.canonical_path@, self.display_title@)
    }
}

/// Pre-resolved data for rendering without network calls.
///
/// Populated during an async collection phase, then passed to the sync render phase.
pub struct ResolvedContent {
    /// Wikilink target (lowercase) → resolved entry info
    entry_links: Vec<(String, ResolvedEntry)>,
    /// AT URI → rendered HTML content
    embed_content: Vec<(String, String)>,
    /// Strong refs for populating records array
    embed_refs: Vec<StrongRef>,
}

impl ResolvedContent {
    #[verifier::type_invariant]
    closed spec fn keys_once(&self) -> bool {
        keys_distinct(self.entry_links@) && keys_distinct(self.embed_content@)
    }

    /// Wikilink target (lowercase) → (canonical path, display title).
    pub closed spec fn entry_links(&self) -> Map<Seq<char>, (Seq<char>, Seq<char>)> {
        assoc_map(self.entry_links@)
    }

    /// AT URI → rendered HTML.
    pub closed spec fn embeds(&self) -> Map<Seq<char>, Seq<char>> {
        assoc_map(self.embed_content@)
    }

    /// The strong refs collected, in order.
    pub closed spec fn refs(&self) -> Seq<StrongRef> {
        self.embed_refs@
    }

    /// Strong refs for populating records array.
    pub fn embed_refs(&self) -> (r: &Vec<StrongRef>)
        ensures
            r@ == self.refs(),
    {
        &self.embed_refs
    }

    pub fn new() -> (r: Self)
        ensures
            r.entry_links() == Map::<Seq<char>, (Seq<char>, Seq<char>)>::empty(),
            r.embeds() == Map::<Seq<char>, Seq<char>>::empty(),
            r.refs().len() == 0,
    {
        ResolvedContent { entry_links: Vec::new(), embed_content: Vec::new(), embed_refs: Vec::new() }
    }

    /// Look up a wikilink target, returns the resolved entry if found
    pub fn resolve_wikilink(&self, target: &str) -> (r: Option<&ResolvedEntry>)
        ensures
            ({
                let key = spec_to_lowercase(split_wikilink(target@).0);
                if self.entry_links().dom().contains(key) {
                    r matches Some(e) && e@ == self.entry_links()[key]
                } else {
                    r is None
                }
            }),
    {
        proof {
            use_type_invariant(self);
        }
        // Strip fragment if present
        let (target, _fragment) = parse_wikilink(target);
        let key = str_to_lowercase(target);
        proof {
            lemma_assoc_dom(self.entry_links@, key@);
        }
        match assoc_position(&self.entry_links, &key) {
            Some(i) => {
                proof {
                    lemma_assoc_value(self.entry_links@, i as int);
                }
                Some(&self.entry_links[i].1)
            },
            None => None,
        }
    }

    /// Get pre-rendered embed content for an AT URI
    pub fn get_embed_content(&self, uri: &str) -> (r: Option<&str>)
        ensures
            if self.embeds().dom().contains(uri@) {
                r matches Some(h) && h@ == self.embeds()[uri@]
            } else {
                r is None
            },
    {
        proof {
            use_type_invariant(self);
        }
        let key = uri.to_owned();
        proof {
            lemma_assoc_dom(self.embed_content@, key@);
        }
        match assoc_position(&self.embed_content, &key) {
            Some(i) => {
                proof {
                    lemma_assoc_value(self.embed_content@, i as int);
                }
                Some(self.embed_content[i].1.as_str())
            },
            None => None,
        }
    }

    /// Add a resolved entry link
    pub fn add_entry(&mut self, target: &str, canonical_path: &str, display_title: &str)
        ensures
            final(self).entry_links() == old(self).entry_links().insert(
                spec_to_lowercase(target@),
                (canonical_path@, display_title@),
            ),
            final(self).embeds() == old(self).embeds(),
            final(self).refs() == old(self).refs(),
    {
        proof {
            use_type_invariant(&*self);
        }
        let entry = ResolvedEntry {
            canonical_path: canonical_path.to_owned(),
            display_title: display_title.to_owned(),
        };
        let key = str_to_lowercase(target);
        let mut links = Vec::new();
        std::mem::swap(&mut links, &mut self.entry_links);
        assoc_insert(&mut links, key, entry);
        self.entry_links = links;
    }

    /// Add resolved embed content
    pub fn add_embed(&mut self, uri: &str, html: &str, strong_ref: Option<StrongRef>)
        ensures
            final(self).embeds() == old(self).embeds().insert(uri@, html@),
            final(self).entry_links() == old(self).entry_links(),
            final(self).refs() == match strong_ref {
                Some(sr) => old(self).refs().push(sr),
                None => old(self).refs(),
            },
    {
        proof {
            use_type_invariant(&*self);
        }
        let mut embeds = Vec::new();
        std::mem::swap(&mut embeds, &mut self.embed_content);
        assoc_insert(&mut embeds, uri.to_owned(), html.to_owned());
        self.embed_content = embeds;
        if let Some(sr) = strong_ref {
            let mut refs = Vec::new();
            std::mem::swap(&mut refs, &mut self.embed_refs);
            refs.push(sr);
            self.embed_refs = refs;
        }
    }
}

/// Content added is found again: an entry link by any wikilink whose
/// target matches it in any case (with or without a fragment), and embed
/// content by its exact URI.
pub proof fn law_resolved_content_found(
    links: Map<Seq<char>, (Seq<char>, Seq<char>)>,
    embeds: Map<Seq<char>, Seq<char>>,
    target: Seq<char>,
    canonical_path: Seq<char>,
    display_title: Seq<char>,
    wikilink: Seq<char>,
    uri: Seq<char>,
    html: Seq<char>,
)
    ensures
        ({
            let key = spec_to_lowercase(split_wikilink(wikilink).0);
            let l2 = links.insert(spec_to_lowercase(target), (canonical_path, display_title));
            key == spec_to_lowercase(target) ==> l2.dom().contains(key) && l2[key] == (
                canonical_path,
                display_title,
            )
        }),
        embeds.insert(uri, html).dom().contains(uri),
        embeds.insert(uri, html)[uri] == html,
{
}

/// What an index with these title and path maps finds for a lowercase
/// target: the entry of that title, else the entry of that path slug.
pub open spec fn entry_lookup(
    titles: Map<Seq<char>, (Seq<char>, Seq<char>)>,
    paths: Map<Seq<char>, (Seq<char>, Seq<char>)>,
    key: Seq<char>,
) -> Option<(Seq<char>, Seq<char>)> {
    if titles.dom().contains(key) {
        Some(titles[key])
    } else if paths.dom().contains(key) {
        Some(paths[key])
    } else {
        None
    }
}

/// An entry just added is found by a target that matches its title, in
/// any case, and by one that matches its path slug unless another title
/// takes that target first.
pub proof fn law_added_entry_resolves(
    titles: Map<Seq<char>, (Seq<char>, Seq<char>)>,
    paths: Map<Seq<char>, (Seq<char>, Seq<char>)>,
    title: Seq<char>,
    path: Seq<char>,
    url: Seq<char>,
    target: Seq<char>,
)
    ensures
        ({
            let t2 = titles.insert(spec_to_lowercase(title), (url, title));
            let p2 = paths.insert(spec_to_lowercase(path), (url, title));
            let key = spec_to_lowercase(target);
            &&& key == spec_to_lowercase(title) ==> entry_lookup(t2, p2, key) == Some((url, title))
            &&& (key == spec_to_lowercase(path) && !t2.dom().contains(key)) ==> entry_lookup(
                t2,
                p2,
                key,
            ) == Some((url, title))
        }),
{
}

/// Index of entries within a notebook for wikilink resolution.
///
/// Supports case-insensitive matching against entry title OR path slug.
pub struct EntryIndex {
    /// lowercase title → (canonical_path, original_title)
    by_title: Vec<(String, (String, String))>,
    /// lowercase path slug → (canonical_path, original_title)
    by_path: Vec<(String, (String, String))>,
}

impl EntryIndex {
    #[verifier::type_invariant]
    closed spec fn keys_once(&self) -> bool {
        keys_distinct(self.by_title@) && keys_distinct(self.by_path@)
    }

    /// Lowercase title → (canonical path, original title).
    pub closed spec fn titles(&self) -> Map<Seq<char>, (Seq<char>, Seq<char>)> {
        assoc_map(self.by_title@)
    }

    /// Lowercase path slug → (canonical path, original title).
    pub closed spec fn paths(&self) -> Map<Seq<char>, (Seq<char>, Seq<char>)> {
        assoc_map(self.by_path@)
    }

    pub fn new() -> (r: Self)
        ensures
            r.titles() == Map::<Seq<char>, (Seq<char>, Seq<char>)>::empty(),
            r.paths() == Map::<Seq<char>, (Seq<char>, Seq<char>)>::empty(),
    {
        EntryIndex { by_title: Vec::new(), by_path: Vec::new() }
    }

    /// Add an entry to the index
    pub fn add_entry(&mut self, title: &str, path: &str, canonical_url: &str)
        ensures
            final(self).titles() == old(self).titles().insert(
                spec_to_lowercase(title@),
                (canonical_url@, title@),
            ),
            final(self).paths() == old(self).paths().insert(
                spec_to_lowercase(path@),
                (canonical_url@, title@),
            ),
    {
        proof {
            use_type_invariant(&*self);
        }
        let canonical = canonical_url.to_owned();
        let title_owned = title.to_owned();
        let mut titles = Vec::new();
        std::mem::swap(&mut titles, &mut self.by_title);
        assoc_insert(&mut titles, str_to_lowercase(title), (canonical.clone(), title_owned.clone()));
        let mut paths = Vec::new();
        std::mem::swap(&mut paths, &mut self.by_path);
        assoc_insert(&mut paths, str_to_lowercase(path), (canonical, title_owned));
        self.by_title = titles;
        self.by_path = paths;
    }

    /// Resolve a wikilink target to (canonical_path, display_title, fragment)
    ///
    /// Matches case-insensitively against title first, then path slug.
    /// Fragment (if present) is returned with the input's lifetime.
    pub fn resolve<'a, 'b>(&'a self, wikilink: &'b str) -> (r: Option<
        (&'a str, &'a str, Option<&'b str>),
    >)
        ensures
            ({
                let (target, fragment) = split_wikilink(wikilink@);
                match entry_lookup(self.titles(), self.paths(), spec_to_lowercase(target)) {
                    None => r is None,
                    Some(v) => r matches Some(x) && x.0@ == v.0 && x.1@ == v.1 && match fragment {
                        Some(f) => x.2 matches Some(y) && y@ == f,
                        None => x.2 is None,
                    },
                }
            }),
    {
        proof {
            use_type_invariant(self);
        }
        let (target, fragment) = parse_wikilink(wikilink);
        let key = str_to_lowercase(target);
        proof {
            lemma_assoc_dom(self.by_title@, key@);
            lemma_assoc_dom(self.by_path@, key@);
        }
        // Try title match first
        if let Some(i) = assoc_position(&self.by_title, &key) {
            proof {
                lemma_assoc_value(self.by_title@, i as int);
            }
            let entry = &self.by_title[i].1;
            return Some((entry.0.as_str(), entry.1.as_str(), fragment));
        }
        // Try path match
        if let Some(i) = assoc_position(&self.by_path, &key) {
            proof {
                lemma_assoc_value(self.by_path@, i as int);
            }
            let entry = &self.by_path[i].1;
            return Some((entry.0.as_str(), entry.1.as_str(), fragment));
        }
        None
    }

    /// Check if the index contains any entries
    pub fn is_empty(&self) -> (r: bool)
        ensures
            r == (self.titles().dom().len() == 0),
    {
        proof {
            use_type_invariant(self);
            lemma_assoc_len(self.by_title@);
        }
        self.by_title.len() == 0
    }

    /// Get the number of entries
    pub fn len(&self) -> (r: usize)
        ensures
            r == self.titles().dom().len(),
    {
        proof {
            use_type_invariant(self);
            lemma_assoc_len(self.by_title@);
        }
        self.by_title.len()
    }
}

// === Extracted references ===

/// Reference extracted from markdown that needs resolution
#[derive(Debug, PartialEq)]
pub enum ExtractedRef {
    /// Wikilink like [[Entry Name]] or [[Entry Name#header]]
    Wikilink { target: String, fragment: Option<String>, display_text: Option<String> },
    /// AT Protocol embed like ![[at://did/collection/rkey]] or ![alt](at://...)
    AtEmbed { uri: String, alt_text: Option<String> },
    /// AT Protocol link like [text](at://...)
    AtLink { uri: String },
}

fn clone_opt(o: &Option<String>) -> (r: Option<String>)
    ensures
        r == *o,
{
    match o {
        Some(s) => Some(s.clone()),
        None => None,
    }
}

fn opt_to_owned(o: Option<&str>) -> (r: Option<String>)
    ensures
        opt_view(r) == opt_str_view(o),
{
    match o {
        Some(s) => Some(s.to_owned()),
        None => None,
    }
}

/// The text of an optional string.
pub open spec fn opt_view(o: Option<String>) -> Option<Seq<char>> {
    match o {
        Some(s) => Some(s@),
        None => None,
    }
}

/// The text of an optional string slice.
pub open spec fn opt_str_view(o: Option<&str>) -> Option<Seq<char>> {
    match o {
        Some(s) => Some(s@),
        None => None,
    }
}

impl Clone for ExtractedRef {
    fn clone(&self) -> (r: Self)
        ensures
            r == *self,
    {
        match self {
            ExtractedRef::Wikilink { target, fragment, display_text } => ExtractedRef::Wikilink {
                target: target.clone(),
                fragment: clone_opt(fragment),
                display_text: clone_opt(display_text),
            },
            ExtractedRef::AtEmbed { uri, alt_text } => ExtractedRef::AtEmbed {
                uri: uri.clone(),
                alt_text: clone_opt(alt_text),
            },
            ExtractedRef::AtLink { uri } => ExtractedRef::AtLink { uri: uri.clone() },
        }
    }
}

/// An extracted reference, its strings taken by their text.
pub enum SpecRef {
    Wikilink { target: Seq<char>, fragment: Option<Seq<char>>, display_text: Option<Seq<char>> },
    AtEmbed { uri: Seq<char>, alt_text: Option<Seq<char>> },
    AtLink { uri: Seq<char> },
}

impl View for ExtractedRef {
    type V = SpecRef;

    open spec fn view(&self) -> SpecRef {
        match self {
            ExtractedRef::Wikilink { target, fragment, display_text } => SpecRef::Wikilink {
                target: target@,
                fragment: opt_view(*fragment),
                display_text: opt_view(*display_text),
            },
            ExtractedRef::AtEmbed { uri, alt_text } => SpecRef::AtEmbed {
                uri: uri@,
                alt_text: opt_view(*alt_text),
            },
            ExtractedRef::AtLink { uri } => SpecRef::AtLink { uri: uri@ },
        }
    }
}

/// The targets of the wikilinks among `s`, in order.
pub open spec fn wikilink_targets(s: Seq<SpecRef>) -> Seq<Seq<char>>
    decreases s.len(),
{
    if s.len() == 0 {
        Seq::empty()
    } else {
        let rest = wikilink_targets(s.drop_last());
        match s.last() {
            SpecRef::Wikilink { target, .. } => rest.push(target),
            _ => rest,
        }
    }
}

/// The URIs of the AT embeds and links among `s`, in order.
pub open spec fn at_uris_of(s: Seq<SpecRef>) -> Seq<Seq<char>>
    decreases s.len(),
{
    if s.len() == 0 {
        Seq::empty()
    } else {
        let rest = at_uris_of(s.drop_last());
        match s.last() {
            SpecRef::AtEmbed { uri, .. } => rest.push(uri),
            SpecRef::AtLink { uri } => rest.push(uri),
            _ => rest,
        }
    }
}

/// The views of the refs in `v`.
pub open spec fn refs_view(v: Seq<ExtractedRef>) -> Seq<SpecRef> {
    v.map_values(|r: ExtractedRef| r@)
}

/// The texts of the strings in `v`.
pub open spec fn strings_view(v: Seq<String>) -> Seq<Seq<char>> {
    v.map_values(|s: String| s@)
}

/// Collector for refs encountered during rendering.
///
/// Pass this to renderers to collect refs as a side effect of the render pass.
/// This avoids a separate parsing pass just for collection.
#[derive(Debug)]
pub struct RefCollector {
    pub refs: Vec<ExtractedRef>,
}

impl Clone for RefCollector {
    fn clone(&self) -> (r: Self)
        ensures
            r.refs@ == self.refs@,
    {
        let mut refs: Vec<ExtractedRef> = Vec::new();
        let mut i: usize = 0;
        while i < self.refs.len()
            invariant
                i <= self.refs@.len(),
                refs@ == self.refs@.take(i as int),
            decreases self.refs@.len() - i,
        {
            refs.push(self.refs[i].clone());
            proof {
                assert(refs@ =~= self.refs@.take(i + 1));
            }
            i = i + 1;
        }
        proof {
            assert(self.refs@.take(i as int) =~= self.refs@);
        }
        RefCollector { refs }
    }
}

impl Default for RefCollector {
    fn default() -> (r: Self)
        ensures
            r.refs@.len() == 0,
    {
        RefCollector { refs: Vec::new() }
    }
}

impl RefCollector {
    pub fn new() -> (r: Self)
        ensures
            r.refs@.len() == 0,
    {
        RefCollector { refs: Vec::new() }
    }

    /// Record a wikilink reference
    pub fn add_wikilink(&mut self, target: &str, fragment: Option<&str>, display_text: Option<&str>)
        ensures
            refs_view(final(self).refs@) == refs_view(old(self).refs@).push(
                SpecRef::Wikilink {
                    target: target@,
                    fragment: opt_str_view(fragment),
                    display_text: opt_str_view(display_text),
                },
            ),
    {
        self.refs.push(
            ExtractedRef::Wikilink {
                target: target.to_owned(),
                fragment: opt_to_owned(fragment),
                display_text: opt_to_owned(display_text),
            },
        );
        proof {
            assert(refs_view(self.refs@) =~= refs_view(old(self).refs@).push(
                SpecRef::Wikilink {
                    target: target@,
                    fragment: opt_str_view(fragment),
                    display_text: opt_str_view(display_text),
                },
            ));
        }
    }

    /// Record an AT Protocol embed reference
    pub fn add_at_embed(&mut self, uri: &str, alt_text: Option<&str>)
        ensures
            refs_view(final(self).refs@) == refs_view(old(self).refs@).push(
                SpecRef::AtEmbed { uri: uri@, alt_text: opt_str_view(alt_text) },
            ),
    {
        self.refs.push(ExtractedRef::AtEmbed { uri: uri.to_owned(), alt_text: opt_to_owned(alt_text) });
        proof {
            assert(refs_view(self.refs@) =~= refs_view(old(self).refs@).push(
                SpecRef::AtEmbed { uri: uri@, alt_text: opt_str_view(alt_text) },
            ));
        }
    }

    /// Record an AT Protocol link reference
    pub fn add_at_link(&mut self, uri: &str)
        ensures
            refs_view(final(self).refs@) == refs_view(old(self).refs@).push(
                SpecRef::AtLink { uri: uri@ },
            ),
    {
        self.refs.push(ExtractedRef::AtLink { uri: uri.to_owned() });
        proof {
            assert(refs_view(self.refs@) =~= refs_view(old(self).refs@).push(
                SpecRef::AtLink { uri: uri@ },
            ));
        }
    }

    /// Get wikilinks that need resolution
    pub fn wikilinks(&self) -> (r: Vec<String>)
        ensures
            strings_view(r@) == wikilink_targets(refs_view(self.refs@)),
    {
        let mut out: Vec<String> = Vec::new();
        let mut i: usize = 0;
        while i < self.refs.len()
            invariant
                i <= self.refs@.len(),
                strings_view(out@) == wikilink_targets(refs_view(self.refs@.take(i as int))),
            decreases self.refs@.len() - i,
        {
            proof {
                assert(refs_view(self.refs@.take(i + 1)).drop_last() =~= refs_view(
                    self.refs@.take(i as int),
                ));
            }
            match &self.refs[i] {
                ExtractedRef::Wikilink { target, .. } => {
                    out.push(target.clone());
                    proof {
                        assert(strings_view(out@) =~= wikilink_targets(
                            refs_view(self.refs@.take(i as int)),
                        ).push(target@));
                    }
                },
                _ => {},
            }
            i = i + 1;
        }
        proof {
            assert(self.refs@.take(i as int) =~= self.refs@);
        }
        out
    }

    /// Get AT URIs that need fetching
    pub fn at_uris(&self) -> (r: Vec<String>)
        ensures
            strings_view(r@) == at_uris_of(refs_view(self.refs@)),
    {
        let mut out: Vec<String> = Vec::new();
        let mut i: usize = 0;
        while i < self.refs.len()
            invariant
                i <= self.refs@.len(),
                strings_view(out@) == at_uris_of(refs_view(self.refs@.take(i as int))),
            decreases self.refs@.len() - i,
        {
            proof {
                assert(refs_view(self.refs@.take(i + 1)).drop_last() =~= refs_view(
                    self.refs@.take(i as int),
                ));
            }
            match &self.refs[i] {
                ExtractedRef::AtEmbed { uri, .. } => {
                    out.push(uri.clone());
                    proof {
                        assert(strings_view(out@) =~= at_uris_of(
                            refs_view(self.refs@.take(i as int)),
                        ).push(uri@));
                    }
                },
                ExtractedRef::AtLink { uri } => {
                    out.push(uri.clone());
                    proof {
                        assert(strings_view(out@) =~= at_uris_of(
                            refs_view(self.refs@.take(i as int)),
                        ).push(uri@));
                    }
                },
                _ => {},
            }
            i = i + 1;
        }
        proof {
            assert(self.refs@.take(i as int) =~= self.refs@);
        }
        out
    }

    /// Take ownership of collected refs
    pub fn take(self) -> (r: Vec<ExtractedRef>)
        ensures
            r@ == self.refs@,
    {
        self.refs
    }
}

} // verus!
