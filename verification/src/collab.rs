//! Collaborators of a resource: the ordering of DIDs, and of the versions
//! of a record found across collaborators' repositories.
use crate::strings::str_eq;
use vstd::prelude::*;

verus! {

/// `a` sorts before `b`: the lexicographic order of their characters, which
/// is the order of `str` on UTF-8 bytes.
pub open spec fn text_lt(a: Seq<char>, b: Seq<char>) -> bool
    decreases a.len(),
{
    if a.len() == 0 {
        b.len() > 0
    } else if b.len() == 0 {
        false
    } else if a[0] != b[0] {
        (a[0] as int) < (b[0] as int)
    } else {
        text_lt(a.skip(1), b.skip(1))
    }
}

/// Text order is a strict total order.
pub proof fn lemma_text_lt_order(a: Seq<char>, b: Seq<char>)
    ensures
        !text_lt(a, a),
        !(text_lt(a, b) && text_lt(b, a)),
        a != b ==> text_lt(a, b) || text_lt(b, a),
    decreases a.len(),
{
    if a.len() > 0 && b.len() > 0 {
        lemma_text_lt_order(a.skip(1), b.skip(1));
        lemma_text_lt_order(a.skip(1), a.skip(1));
        if a[0] == b[0] && a.skip(1) == b.skip(1) {
            assert(a =~= seq![a[0]] + a.skip(1));
            assert(b =~= seq![b[0]] + b.skip(1));
        }
        if a[0] != b[0] {
            assert((a[0] as int) != (b[0] as int));
        }
    } else if a.len() > 0 {
        lemma_text_lt_order(a.skip(1), a.skip(1));
    } else if b.len() == 0 {
        assert(a =~= b);
    }
}

/// Text order is transitive.
pub proof fn lemma_text_lt_trans(a: Seq<char>, b: Seq<char>, c: Seq<char>)
    requires
        text_lt(a, b),
        text_lt(b, c),
    ensures
        text_lt(a, c),
    decreases a.len(),
{
    if a.len() > 0 && b.len() > 0 && c.len() > 0 && a[0] == b[0] && b[0] == c[0] {
        lemma_text_lt_trans(a.skip(1), b.skip(1), c.skip(1));
    }
}

proof fn lemma_text_lt_skip(a: Seq<char>, b: Seq<char>, i: int)
    requires
        0 <= i <= a.len(),
        i <= b.len(),
        a.take(i) == b.take(i),
    ensures
        text_lt(a, b) == text_lt(a.skip(i), b.skip(i)),
    decreases i,
{
    if i > 0 {
        assert(a[0] == a.take(i)[0]);
        assert(b[0] == b.take(i)[0]);
        assert(a.skip(1).take(i - 1) =~= a.take(i).skip(1));
        assert(b.skip(1).take(i - 1) =~= b.take(i).skip(1));
        lemma_text_lt_skip(a.skip(1), b.skip(1), i - 1);
        assert(a.skip(1).skip(i - 1) =~= a.skip(i));
        assert(b.skip(1).skip(i - 1) =~= b.skip(i));
    } else {
        assert(a.skip(0) =~= a);
        assert(b.skip(0) =~= b);
    }
}

/// Whether `a` sorts before `b`, as `str`'s order says.
pub fn text_less(a: &str, b: &str) -> (r: bool)
    ensures
        r == text_lt(a@, b@),
{
    let na = a.unicode_len();
    let nb = b.unicode_len();
    let mut i: usize = 0;
    while i < na && i < nb && a.get_char(i) == b.get_char(i)
        invariant
            i <= na == a@.len(),
            i <= nb == b@.len(),
            a@.take(i as int) == b@.take(i as int),
        decreases na - i,
    {
        proof {
            assert(a@.take(i + 1) =~= a@.take(i as int).push(a@[i as int]));
            assert(b@.take(i + 1) =~= b@.take(i as int).push(b@[i as int]));
        }
        i = i + 1;
    }
    proof {
        lemma_text_lt_skip(a@, b@, i as int);
    }
    if i == na {
        i < nb
    } else if i == nb {
        false
    } else {
        let x = a.get_char(i);
        let y = b.get_char(i);
        proof {
            assert(a@.skip(i as int)[0] == x);
            assert(b@.skip(i as int)[0] == y);
        }
        (x as u32) < (y as u32)
    }
}

/// Sorted in text order with no text twice.
pub open spec fn strictly_sorted(s: Seq<String>) -> bool {
    forall|i: int, j: int| 0 <= i < j < s.len() ==> text_lt((#[trigger] s[i])@, (#[trigger] s[j])@)
}

/// Some string of `s` holds the text `t`.
pub open spec fn holds_text(s: Seq<String>, t: Seq<char>) -> bool {
    exists|i: int| 0 <= i < s.len() && (#[trigger] s[i])@ == t
}

/// The texts of `items` sorted, each once: how the collaborators found in
/// invite and accept pairs are deduplicated (someone might appear in
/// several pairs).
pub fn sorted_distinct(items: &Vec<String>) -> (r: Vec<String>)
    ensures
        strictly_sorted(r@),
        forall|t: Seq<char>| holds_text(r@, t) <==> holds_text(items@, t),
{
    let mut out: Vec<String> = Vec::new();
    let mut i: usize = 0;
    while i < items.len()
        invariant
            i <= items@.len(),
            strictly_sorted(out@),
            forall|t: Seq<char>| holds_text(out@, t) <==> holds_text(items@.take(i as int), t),
        decreases items@.len() - i,
    {
        let x = items[i].clone();
        // First position whose text does not sort before x.
        let mut pos: usize = 0;
        while pos < out.len() && text_less(out[pos].as_str(), x.as_str())
            invariant
                pos <= out@.len(),
                forall|k: int| 0 <= k < pos ==> text_lt((#[trigger] out@[k])@, x@),
            decreases out@.len() - pos,
        {
            pos = pos + 1;
        }
        let ghost before = out@;
        if pos < out.len() && str_eq(out[pos].as_str(), x.as_str()) {
            // Already there.
        } else {
            proof {
                if pos < before.len() {
                    lemma_text_lt_order(before[pos as int]@, x@);
                }
            }
            out.insert(pos, x);
            proof {
                assert forall|a: int, b: int| 0 <= a < b < out@.len() implies text_lt(
                    (#[trigger] out@[a])@,
                    (#[trigger] out@[b])@,
                ) by {
                    if b < pos {
                        assert(out@[a] == before[a] && out@[b] == before[b]);
                    } else if b == pos {
                        assert(out@[a] == before[a]);
                    } else if a == pos {
                        assert(out@[b] == before[b - 1]);
                        if b - 1 > pos {
                            assert(text_lt(before[pos as int]@, before[b - 1]@));
                            lemma_text_lt_trans(x@, before[pos as int]@, before[b - 1]@);
                        }
                    } else if a < pos {
                        assert(out@[a] == before[a] && out@[b] == before[b - 1]);
                        if b - 1 > a {
                            assert(text_lt(before[a]@, before[b - 1]@));
                        } else {
                            assert(false);
                        }
                    } else {
                        assert(out@[a] == before[a - 1] && out@[b] == before[b - 1]);
                    }
                }
            }
        }
        proof {
            let now = items@.take(i + 1);
            assert(now =~= items@.take(i as int).push(items@[i as int]));
            assert forall|t: Seq<char>| holds_text(out@, t) <==> holds_text(now, t) by {
                if holds_text(now, t) {
                    let j = choose|j: int| 0 <= j < now.len() && (#[trigger] now[j])@ == t;
                    if j < i {
                        assert(items@.take(i as int)[j] == now[j]);
                        assert(holds_text(before, t));
                        let k = choose|k: int| 0 <= k < before.len() && (#[trigger] before[k])@ == t;
                        if out@.len() > before.len() {
                            if k < pos {
                                assert(out@[k] == before[k]);
                            } else {
                                assert(out@[k + 1] == before[k]);
                            }
                        }
                    } else {
                        if out@.len() > before.len() {
                            assert(out@[pos as int] == x);
                        } else {
                            assert(out@[pos as int]@ == x@);
                        }
                    }
                }
                if holds_text(out@, t) {
                    let k = choose|k: int| 0 <= k < out@.len() && (#[trigger] out@[k])@ == t;
                    if out@.len() > before.len() {
                        if k < pos {
                            assert(out@[k] == before[k]);
                            assert(holds_text(before, t));
                        } else if k == pos {
                            assert(now[i as int] == x);
                        } else {
                            assert(out@[k] == before[k - 1]);
                            assert(holds_text(before, t));
                        }
                    } else {
                        assert(holds_text(before, t));
                    }
                    if holds_text(before, t) && k != pos {
                        assert(holds_text(items@.take(i as int), t));
                        let j = choose|j: int|
                            0 <= j < items@.take(i as int).len() && (#[trigger] items@.take(
                                i as int,
                            )[j])@ == t;
                        assert(now[j] == items@.take(i as int)[j]);
                    }
                    if holds_text(before, t) && k == pos && out@.len() == before.len() {
                        assert(holds_text(items@.take(i as int), t));
                        let j = choose|j: int|
                            0 <= j < items@.take(i as int).len() && (#[trigger] items@.take(
                                i as int,
                            )[j])@ == t;
                        assert(now[j] == items@.take(i as int)[j]);
                    }
                }
            }
        }
        i = i + 1;
    }
    proof {
        assert(items@.take(i as int) =~= items@);
    }
    out
}


/// Whether a peer found in a session record joins the session: its session
/// has not expired and it is an authorized collaborator (one of a valid
/// invite and accept pair).
pub fn session_peer_allowed(expired: bool, peer_did: &str, collaborators: &[String]) -> (r: bool)
    ensures
        r == (!expired && exists|i: int|
            0 <= i < collaborators@.len() && (#[trigger] collaborators@[i])@ == peer_did@),
{
    if expired {
        return false;
    }
    let mut i: usize = 0;
    while i < collaborators.len()
        invariant
            !expired,
            i <= collaborators@.len(),
            forall|j: int| 0 <= j < i ==> (#[trigger] collaborators@[j])@ != peer_did@,
        decreases collaborators@.len() - i,
    {
        if str_eq(collaborators[i].as_str(), peer_did) {
            proof {
                assert(collaborators@[i as int]@ == peer_did@);
            }
            return true;
        }
        i = i + 1;
    }
    false
}

/// Raw record values, as `serde_json` holds them.
#[verifier::external_type_specification]
#[verifier::external_body]
pub struct ExJsonValue(serde_json::Value);

/// A version of a record from a collaborator's repository.
#[derive(Debug)]
pub struct CollaboratorVersion {
    /// The DID of the collaborator who owns this version.
    pub did: String,
    /// The full URI of this version.
    pub uri: String,
    /// CID of this version.
    pub cid: String,
    /// When this version was last updated (an RFC 3339 datetime), where the
    /// record says.
    pub updated_at: Option<String>,
    /// The raw record value.
    pub value: serde_json::Value,
}

/// The timestamp a version is ordered by.
pub open spec fn version_key(v: CollaboratorVersion) -> Option<Seq<char>> {
    match v.updated_at {
        Some(t) => Some(t@),
        None => None,
    }
}

/// A version with timestamp `a` comes before one with `b`: later first, and
/// versions without a timestamp after all that have one.
pub open spec fn sorts_before(a: Option<Seq<char>>, b: Option<Seq<char>>) -> bool {
    match (a, b) {
        (Some(x), Some(y)) => text_lt(y, x),
        (Some(_), None) => true,
        (None, _) => false,
    }
}

/// Neither comes before the other.
pub open spec fn same_rank(a: Option<Seq<char>>, b: Option<Seq<char>>) -> bool {
    !sorts_before(a, b) && !sorts_before(b, a)
}

/// The order of versions is a strict weak order.
pub proof fn lemma_sorts_before_order(a: Option<Seq<char>>, b: Option<Seq<char>>, c: Option<Seq<char>>)
    ensures
        !sorts_before(a, a),
        sorts_before(a, b) ==> !sorts_before(b, a),
        sorts_before(a, b) && sorts_before(b, c) ==> sorts_before(a, c),
        same_rank(a, b) && sorts_before(b, c) ==> sorts_before(a, c),
        sorts_before(a, b) && same_rank(b, c) ==> sorts_before(a, c),
        same_rank(a, b) ==> a == b,
{
    match (a, b, c) {
        (Some(x), Some(y), Some(z)) => {
            lemma_text_lt_order(x, y);
            lemma_text_lt_order(y, z);
            lemma_text_lt_order(x, z);
            if text_lt(y, x) && text_lt(z, y) {
                lemma_text_lt_trans(z, y, x);
            }
        },
        (Some(x), Some(y), None) => {
            lemma_text_lt_order(x, y);
        },
        (Some(x), None, Some(z)) => {
            lemma_text_lt_order(x, z);
        },
        (None, Some(y), Some(z)) => {
            lemma_text_lt_order(y, z);
        },
        (Some(x), None, None) => {
            lemma_text_lt_order(x, x);
        },
        (None, Some(y), None) => {
            lemma_text_lt_order(y, y);
        },
        (None, None, Some(z)) => {
            lemma_text_lt_order(z, z);
        },
        (None, None, None) => {},
    }
}

/// `perm` takes each of `0..n` once.
pub open spec fn is_permutation(perm: Seq<int>, n: int) -> bool {
    &&& perm.len() == n
    &&& forall|i: int| 0 <= i < n ==> 0 <= #[trigger] perm[i] < n
    &&& forall|i: int, j: int| 0 <= i < j < n ==> #[trigger] perm[i] != #[trigger] perm[j]
}

/// `after` is `before` reordered by `perm`, latest first, versions of the
/// same rank in the order they came.
pub open spec fn stably_ordered(
    before: Seq<CollaboratorVersion>,
    after: Seq<CollaboratorVersion>,
    perm: Seq<int>,
) -> bool {
    &&& after.len() == before.len()
    &&& is_permutation(perm, before.len() as int)
    &&& forall|i: int| 0 <= i < after.len() ==> #[trigger] after[i] == before[perm[i]]
    &&& forall|i: int, j: int|
        0 <= i < j < after.len() ==> !sorts_before(
            version_key(#[trigger] after[j]),
            version_key(#[trigger] after[i]),
        )
    &&& forall|i: int, j: int|
        0 <= i < j < after.len() && same_rank(
            version_key(#[trigger] after[i]),
            version_key(#[trigger] after[j]),
        ) ==> perm[i] < perm[j]
}

/// Whether a version updated at `a` comes before one updated at `b`.
fn version_sorts_before(a: &Option<String>, b: &Option<String>) -> (r: bool)
    ensures
        r == sorts_before(
            match a {
                Some(t) => Some(t@),
                None => None,
            },
            match b {
                Some(t) => Some(t@),
                None => None,
            },
        ),
{
    match (a, b) {
        (Some(x), Some(y)) => text_less(y.as_str(), x.as_str()),
        (Some(_), None) => true,
        (None, _) => false,
    }
}

/// The state of the insertion sort after `i` versions: those are ordered,
/// the rest still in their places.
spec fn sort_state(orig: Seq<CollaboratorVersion>, vs: Seq<CollaboratorVersion>, perm: Seq<int>, i: int) -> bool {
    &&& 0 <= i <= vs.len() == orig.len()
    &&& is_permutation(perm, vs.len() as int)
    &&& forall|k: int| 0 <= k < vs.len() ==> #[trigger] vs[k] == orig[perm[k]]
    &&& forall|k: int| i <= k < vs.len() ==> #[trigger] perm[k] == k
    &&& forall|a: int, b: int|
        0 <= a < b < i ==> !sorts_before(version_key(#[trigger] vs[b]), version_key(#[trigger] vs[a]))
    &&& forall|a: int, b: int|
        0 <= a < b < i && same_rank(version_key(#[trigger] vs[a]), version_key(#[trigger] vs[b]))
            ==> perm[a] < perm[b]
}

proof fn lemma_prefix_perm_below(perm: Seq<int>, n: int, i: int, a: int)
    requires
        is_permutation(perm, n),
        0 <= a < i <= n,
        forall|k: int| i <= k < n ==> #[trigger] perm[k] == k,
    ensures
        perm[a] < i,
{
    if perm[a] >= i {
        let p = perm[a];
        assert(perm[p] == p);
        assert(a != p);
        if a < p {
            assert(perm[a] != perm[p]);
        } else {
            assert(perm[p] != perm[a]);
        }
    }
}

proof fn lemma_insert_step(
    orig: Seq<CollaboratorVersion>,
    vs: Seq<CollaboratorVersion>,
    perm: Seq<int>,
    i: int,
    pos: int,
)
    requires
        sort_state(orig, vs, perm, i),
        i < vs.len(),
        0 <= pos <= i,
        forall|k: int| 0 <= k < pos ==> !sorts_before(version_key(vs[i]), version_key(#[trigger] vs[k])),
        pos < i ==> sorts_before(version_key(vs[i]), version_key(vs[pos])),
    ensures
        sort_state(orig, vs.remove(i).insert(pos, vs[i]), perm.remove(i).insert(pos, i), i + 1),
{
    let x = vs[i];
    let vs2 = vs.remove(i).insert(pos, x);
    let perm2 = perm.remove(i).insert(pos, i);
    let n = vs.len() as int;
    assert(perm[i] == i);
    assert forall|k: int| 0 <= k < n implies #[trigger] vs2[k] == vs[if k < pos {
        k
    } else if k == pos {
        i
    } else if k <= i {
        k - 1
    } else {
        k
    }] && perm2[k] == perm[if k < pos {
        k
    } else if k == pos {
        i
    } else if k <= i {
        k - 1
    } else {
        k
    }] by {}
    // A permutation still.
    assert forall|a: int| 0 <= a < n implies 0 <= #[trigger] perm2[a] < n by {}
    assert forall|a: int, b: int| 0 <= a < b < n implies #[trigger] perm2[a] != #[trigger] perm2[b] by {
        let oa = if a < pos { a } else if a == pos { i } else if a <= i { a - 1 } else { a };
        let ob = if b < pos { b } else if b == pos { i } else if b <= i { b - 1 } else { b };
        assert(perm2[a] == perm[oa] && perm2[b] == perm[ob]);
        assert(oa != ob);
        if oa < ob {
            assert(perm[oa] != perm[ob]);
        } else {
            assert(perm[ob] != perm[oa]);
        }
    }
    assert forall|k: int| 0 <= k < n implies #[trigger] vs2[k] == orig[perm2[k]] by {
        let ok = if k < pos { k } else if k == pos { i } else if k <= i { k - 1 } else { k };
        assert(vs2[k] == vs[ok] && perm2[k] == perm[ok]);
    }
    assert forall|k: int| i + 1 <= k < n implies #[trigger] perm2[k] == k by {
        assert(perm2[k] == perm[k]);
    }
    // Ordered.
    assert forall|a: int, b: int| 0 <= a < b < i + 1 implies !sorts_before(
        version_key(#[trigger] vs2[b]),
        version_key(#[trigger] vs2[a]),
    ) by {
        let oa = if a < pos { a } else if a == pos { i } else { a - 1 };
        let ob = if b < pos { b } else if b == pos { i } else { b - 1 };
        assert(vs2[a] == vs[oa] && vs2[b] == vs[ob]);
        if a == pos {
            // x comes before vs[pos], which comes no later than vs[ob].
            assert(ob >= pos);
            if ob > pos {
                assert(!sorts_before(version_key(vs[ob]), version_key(vs[pos])));
            }
            lemma_sorts_before_order(version_key(vs[ob]), version_key(x), version_key(vs[pos]));
        } else if b == pos {
            assert(!sorts_before(version_key(x), version_key(vs[oa])));
        }
    }
    // Stable.
    assert forall|a: int, b: int|
        0 <= a < b < i + 1 && same_rank(version_key(#[trigger] vs2[a]), version_key(#[trigger] vs2[b]))
            implies perm2[a] < perm2[b] by {
        let oa = if a < pos { a } else if a == pos { i } else { a - 1 };
        let ob = if b < pos { b } else if b == pos { i } else { b - 1 };
        assert(vs2[a] == vs[oa] && vs2[b] == vs[ob]);
        assert(perm2[a] == perm[oa] && perm2[b] == perm[ob]);
        if b == pos {
            lemma_prefix_perm_below(perm, n, i, oa);
        } else if a == pos {
            assert(ob >= pos);
            if ob > pos {
                assert(!sorts_before(version_key(vs[ob]), version_key(vs[pos])));
            }
            lemma_sorts_before_order(version_key(vs[ob]), version_key(x), version_key(vs[pos]));
            lemma_sorts_before_order(version_key(x), version_key(vs[ob]), version_key(vs[pos]));
        }
    }
}

/// Sort versions by `updated_at` descending (latest first), versions
/// without a timestamp last; versions of the same rank keep their order.
pub fn order_versions(versions: &mut Vec<CollaboratorVersion>)
    ensures
        exists|perm: Seq<int>| stably_ordered(old(versions)@, final(versions)@, perm),
{
    let ghost orig = versions@;
    let ghost mut perm: Seq<int> = Seq::new(versions@.len(), |k: int| k);
    let n = versions.len();
    let mut i: usize = 0;
    while i < n
        invariant
            n == versions@.len(),
            sort_state(orig, versions@, perm, i as int),
        decreases n - i,
    {
        let mut pos: usize = 0;
        while pos < i && !version_sorts_before(&versions[i].updated_at, &versions[pos].updated_at)
            invariant
                i < n == versions@.len(),
                pos <= i,
                forall|k: int|
                    0 <= k < pos ==> !sorts_before(
                        version_key(versions@[i as int]),
                        version_key(#[trigger] versions@[k]),
                    ),
            decreases i - pos,
        {
            pos = pos + 1;
        }
        proof {
            lemma_insert_step(orig, versions@, perm, i as int, pos as int);
            perm = perm.remove(i as int).insert(pos as int, i as int);
        }
        let x = versions.remove(i);
        versions.insert(pos, x);
        i = i + 1;
    }
    proof {
        assert(stably_ordered(orig, versions@, perm));
    }
}

} // verus!
