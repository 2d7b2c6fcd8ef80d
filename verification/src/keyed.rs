//! Lists of entries keyed by a string, each key at most once, seen as maps.
use vstd::prelude::*;

verus! {


/// No key occurs twice.
pub open spec fn keys_distinct<V>(s: Seq<(String, V)>) -> bool {
    forall|i: int, j: int| 0 <= i < j < s.len() ==> (#[trigger] s[i]).0@ != (#[trigger] s[j]).0@
}

/// Some entry has key `k`.
pub open spec fn has_key<V>(s: Seq<(String, V)>, k: Seq<char>) -> bool {
    exists|i: int| 0 <= i < s.len() && (#[trigger] s[i]).0@ == k
}

/// The map an entry list stands for, keys and values taken by their views.
pub open spec fn assoc_map<V: View>(s: Seq<(String, V)>) -> Map<Seq<char>, V::V>
    decreases s.len(),
{
    if s.len() == 0 {
        Map::empty()
    } else {
        assoc_map(s.drop_last()).insert(s.last().0@, s.last().1@)
    }
}

pub proof fn lemma_assoc_dom<V: View>(s: Seq<(String, V)>, k: Seq<char>)
    ensures
        assoc_map(s).dom().contains(k) <==> has_key(s, k),
        assoc_map(s).dom().finite(),
    decreases s.len(),
{
    if s.len() > 0 {
        let t = s.drop_last();
        lemma_assoc_dom(t, k);
        if has_key(s, k) && s.last().0@ != k {
            let i = choose|i: int| 0 <= i < s.len() && (#[trigger] s[i]).0@ == k;
            assert(t[i] == s[i]);
        }
        if has_key(t, k) {
            let i = choose|i: int| 0 <= i < t.len() && (#[trigger] t[i]).0@ == k;
            assert(s[i] == t[i]);
        }
    }
}

pub proof fn lemma_assoc_value<V: View>(s: Seq<(String, V)>, i: int)
    requires
        keys_distinct(s),
        0 <= i < s.len(),
    ensures
        assoc_map(s).dom().contains(s[i].0@),
        assoc_map(s)[s[i].0@] == s[i].1@,
    decreases s.len(),
{
    if i < s.len() - 1 {
        let t = s.drop_last();
        assert(t[i] == s[i]);
        assert forall|a: int, b: int| 0 <= a < b < t.len() implies (#[trigger] t[a]).0@ != (
        #[trigger] t[b]).0@ by {
            assert(t[a] == s[a] && t[b] == s[b]);
        }
        lemma_assoc_value(t, i);
        assert(s[i].0@ != s[s.len() - 1].0@);
    }
}

pub proof fn lemma_assoc_len<V: View>(s: Seq<(String, V)>)
    requires
        keys_distinct(s),
    ensures
        assoc_map(s).dom().len() == s.len(),
    decreases s.len(),
{
    if s.len() > 0 {
        let t = s.drop_last();
        assert forall|a: int, b: int| 0 <= a < b < t.len() implies (#[trigger] t[a]).0@ != (
        #[trigger] t[b]).0@ by {
            assert(t[a] == s[a] && t[b] == s[b]);
        }
        lemma_assoc_len(t);
        lemma_assoc_dom(t, s.last().0@);
        if has_key(t, s.last().0@) {
            let i = choose|i: int| 0 <= i < t.len() && (#[trigger] t[i]).0@ == s.last().0@;
            assert(s[i] == t[i]);
            assert(s[i].0@ != s[s.len() - 1].0@);
        }
    }
}

pub proof fn lemma_assoc_update<V: View>(s: Seq<(String, V)>, i: int, p: (String, V))
    requires
        keys_distinct(s),
        0 <= i < s.len(),
        s[i].0@ == p.0@,
    ensures
        keys_distinct(s.update(i, p)),
        assoc_map(s.update(i, p)) == assoc_map(s).insert(p.0@, p.1@),
    decreases s.len(),
{
    let u = s.update(i, p);
    assert forall|a: int, b: int| 0 <= a < b < u.len() implies (#[trigger] u[a]).0@ != (
    #[trigger] u[b]).0@ by {
        assert(u[a].0@ == s[a].0@ && u[b].0@ == s[b].0@);
    }
    let t = s.drop_last();
    if i == s.len() - 1 {
        assert(u.drop_last() =~= t);
        assert(assoc_map(u) =~= assoc_map(s).insert(p.0@, p.1@));
    } else {
        assert forall|a: int, b: int| 0 <= a < b < t.len() implies (#[trigger] t[a]).0@ != (
        #[trigger] t[b]).0@ by {
            assert(t[a] == s[a] && t[b] == s[b]);
        }
        assert(t[i] == s[i]);
        lemma_assoc_update(t, i, p);
        assert(u.drop_last() =~= t.update(i, p));
        assert(s[i].0@ != s[s.len() - 1].0@);
        assert(assoc_map(u) =~= assoc_map(s).insert(p.0@, p.1@));
    }
}

/// Index of the entry with key `key`.
pub fn assoc_position<V>(list: &Vec<(String, V)>, key: &String) -> (r: Option<usize>)
    ensures
        match r {
            Some(i) => i < list@.len() && list@[i as int].0@ == key@,
            None => !has_key(list@, key@),
        },
{
    let mut i: usize = 0;
    while i < list.len()
        invariant
            i <= list@.len(),
            forall|j: int| 0 <= j < i ==> (#[trigger] list@[j]).0@ != key@,
        decreases list@.len() - i,
    {
        if list[i].0.eq(key) {
            return Some(i);
        }
        i = i + 1;
    }
    None
}

/// Insert or replace the entry with key `key`.
pub fn assoc_insert<V: View>(list: &mut Vec<(String, V)>, key: String, val: V)
    requires
        keys_distinct(old(list)@),
    ensures
        keys_distinct(final(list)@),
        assoc_map(final(list)@) == assoc_map(old(list)@).insert(key@, val@),
        final(list)@ == old(list)@.push((key, val)) || exists|m: int|
            0 <= m < old(list)@.len() && final(list)@ == old(list)@.update(m, (key, val)),
{
    match assoc_position(list, &key) {
        Some(i) => {
            let ghost p = (key, val);
            proof {
                lemma_assoc_update(list@, i as int, p);
            }
            list.set(i, (key, val));
        },
        None => {
            let ghost s = list@;
            list.push((key, val));
            proof {
                let u = list@;
                assert(u.drop_last() =~= s);
                assert forall|a: int, b: int| 0 <= a < b < u.len() implies (#[trigger] u[a]).0@
                    != (#[trigger] u[b]).0@ by {
                    assert(u[a] == s[a]);
                    if b < s.len() {
                        assert(u[b] == s[b]);
                    }
                }
            }
        },
    }
}


pub proof fn lemma_assoc_remove<V: View>(s: Seq<(String, V)>, i: int)
    requires
        keys_distinct(s),
        0 <= i < s.len(),
    ensures
        keys_distinct(s.remove(i)),
        assoc_map(s.remove(i)) == assoc_map(s).remove(s[i].0@),
    decreases s.len(),
{
    let u = s.remove(i);
    let k = s[i].0@;
    assert forall|a: int, b: int| 0 <= a < b < u.len() implies (#[trigger] u[a]).0@ != (
    #[trigger] u[b]).0@ by {
        let a0 = if a < i { a } else { a + 1 };
        let b0 = if b < i { b } else { b + 1 };
        assert(u[a] == s[a0] && u[b] == s[b0]);
    }
    let t = s.drop_last();
    assert forall|a: int, b: int| 0 <= a < b < t.len() implies (#[trigger] t[a]).0@ != (
    #[trigger] t[b]).0@ by {
        assert(t[a] == s[a] && t[b] == s[b]);
    }
    if i == s.len() - 1 {
        assert(u =~= t);
        lemma_assoc_dom(t, k);
        if has_key(t, k) {
            let j = choose|j: int| 0 <= j < t.len() && (#[trigger] t[j]).0@ == k;
            assert(t[j] == s[j]);
        }
        assert(assoc_map(u) =~= assoc_map(s).remove(k));
    } else {
        assert(t[i] == s[i]);
        lemma_assoc_remove(t, i);
        assert(u.drop_last() =~= t.remove(i));
        assert(u.last() == s.last());
        assert(s[i].0@ != s[s.len() - 1].0@);
        assert(assoc_map(u) =~= assoc_map(s).remove(k));
    }
}

/// Remove the entry with key `key`, handing back its value.
pub fn assoc_remove<V: View>(list: &mut Vec<(String, V)>, key: &String) -> (r: Option<V>)
    requires
        keys_distinct(old(list)@),
    ensures
        keys_distinct(final(list)@),
        assoc_map(final(list)@) == assoc_map(old(list)@).remove(key@),
        final(list)@ == old(list)@ || exists|m: int|
            0 <= m < old(list)@.len() && final(list)@ == old(list)@.remove(m),
        match r {
            Some(v) => assoc_map(old(list)@).dom().contains(key@) && v@ == assoc_map(
                old(list)@,
            )[key@],
            None => !assoc_map(old(list)@).dom().contains(key@),
        },
{
    proof {
        lemma_assoc_dom(list@, key@);
    }
    match assoc_position(list, key) {
        Some(i) => {
            proof {
                lemma_assoc_value(list@, i as int);
                lemma_assoc_remove(list@, i as int);
            }
            let (_, v) = list.remove(i);
            Some(v)
        },
        None => {
            proof {
                assert(assoc_map(list@).remove(key@) =~= assoc_map(list@));
            }
            None
        },
    }
}

} // verus!
