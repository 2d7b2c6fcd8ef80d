//! Presence tracking for collaborative editing sessions.
//!
//! Tracks active collaborators, their cursor positions, and display info.
//! Collaborators are keyed by their node ID in its string form.
use crate::keyed::{
    assoc_insert, assoc_map, assoc_position, assoc_remove, keys_distinct, lemma_assoc_dom,
    lemma_assoc_len, lemma_assoc_update, lemma_assoc_value,
};
use crate::types::instant_now;
use vstd::prelude::*;

verus! {

/// `web_time::Instant::duration_since`: the time from `earlier` to `now`,
/// zero when `earlier` is later. Nothing is stated of the result: it depends
/// on the clock readings the instants hold.
#[verifier::external_body]
fn elapsed_between(now: &web_time::Instant, earlier: &web_time::Instant) -> std::time::Duration {
    now.duration_since(*earlier)
}

/// `Duration::as_nanos`: the whole nanoseconds of `d`. Nothing is stated of
/// the result: durations are opaque here.
#[verifier::external_body]
fn duration_nanos(d: &std::time::Duration) -> u128 {
    d.as_nanos()
}

/// A remote collaborator's cursor state.
#[derive(Debug)]
pub struct RemoteCursor {
    /// Character offset in the document.
    pub position: usize,
    /// Selection range (anchor, head) if any.
    pub selection: Option<(usize, usize)>,
    /// Assigned colour (RGBA).
    pub color: u32,
    /// When this cursor was last updated.
    pub updated_at: web_time::Instant,
}

impl Clone for RemoteCursor {
    fn clone(&self) -> (r: Self)
        ensures
            r == *self,
    {
        RemoteCursor {
            position: self.position,
            selection: self.selection,
            color: self.color,
            updated_at: self.updated_at,
        }
    }
}

/// A collaborator in the session.
#[derive(Debug)]
pub struct Collaborator {
    /// The collaborator's DID.
    pub did: String,
    /// Display name for UI.
    pub display_name: String,
    /// Assigned colour (RGBA).
    pub color: u32,
    /// Current cursor state.
    pub cursor: Option<RemoteCursor>,
    /// Node ID of this peer.
    pub node_id: String,
}

impl Clone for Collaborator {
    fn clone(&self) -> (r: Self)
        ensures
            r == *self,
    {
        Collaborator {
            did: self.did.clone(),
            display_name: self.display_name.clone(),
            color: self.color,
            cursor: match &self.cursor {
                Some(c) => Some(c.clone()),
                None => None,
            },
            node_id: self.node_id.clone(),
        }
    }
}

impl View for Collaborator {
    type V = Collaborator;

    open spec fn view(&self) -> Collaborator {
        *self
    }
}

/// Colour `i` of the palette collaborators get in turn (pastel-ish for
/// readability): red, teal, yellow, mint, coral, purple, orange, cyan.
pub open spec fn palette(i: nat) -> u32 {
    let k = i % 8;
    if k == 0 {
        0xFF6B6BFFu32
    } else if k == 1 {
        0x4ECDC4FFu32
    } else if k == 2 {
        0xFFE66DFFu32
    } else if k == 3 {
        0x95E1D3FFu32
    } else if k == 4 {
        0xF38181FFu32
    } else if k == 5 {
        0xAA96DAFFu32
    } else if k == 6 {
        0xFCBF49FFu32
    } else {
        0x2EC4B6FFu32
    }
}

fn palette_color(i: usize) -> (r: u32)
    ensures
        r == palette(i as nat),
{
    let k = i % 8;
    if k == 0 {
        0xFF6B6BFF
    } else if k == 1 {
        0x4ECDC4FF
    } else if k == 2 {
        0xFFE66DFF
    } else if k == 3 {
        0x95E1D3FF
    } else if k == 4 {
        0xF38181FF
    } else if k == 5 {
        0xAA96DAFF
    } else if k == 6 {
        0xFCBF49FF
    } else {
        0x2EC4B6FF
    }
}

/// Tracks all collaborators in a session.
pub struct PresenceTracker {
    /// Collaborators by node ID.
    collaborators: Vec<(String, Collaborator)>,
    /// Colour assignment counter.
    next_color_index: usize,
}

impl PresenceTracker {
    #[verifier::type_invariant]
    closed spec fn keyed_once(&self) -> bool {
        &&& keys_distinct(self.collaborators@)
        &&& forall|i: int|
            0 <= i < self.collaborators@.len() ==> (#[trigger] self.collaborators@[i]).0@
                == self.collaborators@[i].1.node_id@
    }

    /// The collaborators, by node ID.
    pub closed spec fn members(&self) -> Map<Seq<char>, Collaborator> {
        assoc_map(self.collaborators@)
    }

    /// How many colours have been handed out.
    pub closed spec fn colors_given(&self) -> nat {
        self.next_color_index as nat
    }

    /// Create a new presence tracker.
    pub fn new() -> (r: Self)
        ensures
            r.members() == Map::<Seq<char>, Collaborator>::empty(),
            r.colors_given() == 0,
    {
        PresenceTracker { collaborators: Vec::new(), next_color_index: 0 }
    }

    /// Assign a colour to a new collaborator.
    fn assign_color(&mut self) -> (r: u32)
        requires
            old(self).colors_given() < usize::MAX,
        ensures
            r == palette(old(self).colors_given()),
            final(self).colors_given() == old(self).colors_given() + 1,
            final(self).members() == old(self).members(),
    {
        proof {
            use_type_invariant(&*self);
        }
        let color = palette_color(self.next_color_index);
        self.next_color_index = self.next_color_index + 1;
        color
    }

    /// Add a collaborator when they join; one already known under the node ID is replaced.
    pub fn add_collaborator(&mut self, node_id: String, did: String, display_name: String)
        requires
            old(self).colors_given() < usize::MAX,
        ensures
            final(self).colors_given() == old(self).colors_given() + 1,
            final(self).members() == old(self).members().insert(
                node_id@,
                Collaborator {
                    did,
                    display_name,
                    color: palette(old(self).colors_given()),
                    cursor: None,
                    node_id,
                },
            ),
    {
        proof {
            use_type_invariant(&*self);
        }
        let color = self.assign_color();
        proof {
            use_type_invariant(&*self);
        }
        let key = node_id.clone();
        let collab = Collaborator { did, display_name, color, cursor: None, node_id };
        let ghost expected = collab;
        let mut list = Vec::new();
        std::mem::swap(&mut list, &mut self.collaborators);
        let ghost before = list@;
        assoc_insert(&mut list, key, collab);
        proof {
            assert forall|i: int| 0 <= i < list@.len() implies (#[trigger] list@[i]).0@
                == list@[i].1.node_id@ by {
                lemma_key_matches_after_insert(before, list@, i, expected);
            }
        }
        self.collaborators = list;
    }

    /// Remove a collaborator when they leave.
    pub fn remove_collaborator(&mut self, node_id: &String) -> (r: Option<Collaborator>)
        ensures
            final(self).members() == old(self).members().remove(node_id@),
            final(self).colors_given() == old(self).colors_given(),
            match r {
                Some(c) => old(self).members().dom().contains(node_id@) && c == old(
                    self,
                ).members()[node_id@],
                None => !old(self).members().dom().contains(node_id@),
            },
    {
        proof {
            use_type_invariant(&*self);
        }
        let mut list = Vec::new();
        std::mem::swap(&mut list, &mut self.collaborators);
        let ghost before = list@;
        let r = assoc_remove(&mut list, node_id);
        proof {
            assert forall|i: int| 0 <= i < list@.len() implies (#[trigger] list@[i]).0@
                == list@[i].1.node_id@ by {
                lemma_key_matches_after_remove(before, list@, node_id@, i);
            }
        }
        self.collaborators = list;
        r
    }

    /// Update a collaborator's cursor position; unknown node IDs are ignored.
    pub fn update_cursor(&mut self, node_id: &String, position: usize, selection: Option<(usize, usize)>)
        ensures
            final(self).colors_given() == old(self).colors_given(),
            old(self).members().dom().contains(node_id@) ==> {
                let old_c = old(self).members()[node_id@];
                let new_c = final(self).members()[node_id@];
                &&& final(self).members() == old(self).members().insert(node_id@, new_c)
                &&& new_c.did == old_c.did
                &&& new_c.display_name == old_c.display_name
                &&& new_c.color == old_c.color
                &&& new_c.node_id == old_c.node_id
                &&& new_c.cursor matches Some(c) && c.position == position && c.selection
                    == selection && c.color == old_c.color
            },
            !old(self).members().dom().contains(node_id@) ==> final(self).members() == old(
                self,
            ).members(),
    {
        proof {
            use_type_invariant(&*self);
            lemma_assoc_dom(self.collaborators@, node_id@);
        }
        if let Some(i) = assoc_position(&self.collaborators, node_id) {
            proof {
                lemma_assoc_value(self.collaborators@, i as int);
            }
            let mut collab = self.collaborators[i].1.clone();
            let key = self.collaborators[i].0.clone();
            collab.cursor = Some(
                RemoteCursor { position, selection, color: collab.color, updated_at: instant_now() },
            );
            let mut list = Vec::new();
            std::mem::swap(&mut list, &mut self.collaborators);
            let ghost before = list@;
            let ghost p = (key, collab);
            proof {
                lemma_assoc_update(before, i as int, p);
            }
            list.set(i, (key, collab));
            proof {
                assert forall|j: int| 0 <= j < list@.len() implies (#[trigger] list@[j]).0@
                    == list@[j].1.node_id@ by {
                    if j != i {
                        assert(list@[j] == before[j]);
                    }
                }
                assert(assoc_map(list@) =~= assoc_map(before).insert(node_id@, collab));
            }
            self.collaborators = list;
        }
    }

    /// Get all active collaborators, each once.
    pub fn collaborators(&self) -> (r: Vec<Collaborator>)
        ensures
            r@.len() == self.members().dom().len(),
            forall|i: int|
                0 <= i < r@.len() ==> self.members().dom().contains(r@[i].node_id@)
                    && #[trigger] r@[i] == self.members()[r@[i].node_id@],
    {
        proof {
            use_type_invariant(self);
            lemma_assoc_len(self.collaborators@);
        }
        let mut out: Vec<Collaborator> = Vec::new();
        let mut i: usize = 0;
        while i < self.collaborators.len()
            invariant
                i <= self.collaborators@.len(),
                out@.len() == i,
                keys_distinct(self.collaborators@),
                forall|j: int|
                    0 <= j < self.collaborators@.len() ==> (#[trigger] self.collaborators@[j]).0@
                        == self.collaborators@[j].1.node_id@,
                forall|j: int| 0 <= j < i ==> #[trigger] out@[j] == self.collaborators@[j].1,
            decreases self.collaborators@.len() - i,
        {
            out.push(self.collaborators[i].1.clone());
            i = i + 1;
        }
        proof {
            assert forall|j: int| 0 <= j < out@.len() implies self.members().dom().contains(
                out@[j].node_id@,
            ) && #[trigger] out@[j] == self.members()[out@[j].node_id@] by {
                lemma_assoc_value(self.collaborators@, j);
            }
        }
        out
    }

    /// Get all remote cursors (for rendering): the collaborators that have one.
    pub fn cursors(&self) -> (r: Vec<(Collaborator, RemoteCursor)>)
        ensures
            forall|i: int|
                0 <= i < r@.len() ==> self.members().dom().contains((#[trigger] r@[i]).0.node_id@)
                    && r@[i].0 == self.members()[r@[i].0.node_id@] && r@[i].0.cursor == Some(
                    r@[i].1,
                ),
            forall|k: Seq<char>|
                self.members().dom().contains(k) && (#[trigger] self.members()[k]).cursor is Some
                    ==> exists|i: int| 0 <= i < r@.len() && r@[i].0.node_id@ == k,
    {
        proof {
            use_type_invariant(self);
        }
        let ghost s = self.collaborators@;
        let mut out: Vec<(Collaborator, RemoteCursor)> = Vec::new();
        let mut i: usize = 0;
        while i < self.collaborators.len()
            invariant
                i <= s.len(),
                s == self.collaborators@,
                keys_distinct(s),
                forall|j: int| 0 <= j < s.len() ==> (#[trigger] s[j]).0@ == s[j].1.node_id@,
                forall|j: int|
                    0 <= j < out@.len() ==> exists|m: int|
                        0 <= m < i && (#[trigger] out@[j]).0 == s[m].1 && out@[j].0.cursor
                            == Some(out@[j].1),
                forall|m: int|
                    0 <= m < i && (#[trigger] s[m]).1.cursor is Some ==> exists|j: int|
                        0 <= j < out@.len() && out@[j].0.node_id@ == s[m].0@,
            decreases s.len() - i,
        {
            let c = &self.collaborators[i].1;
            let ghost old_out = out@;
            if let Some(cursor) = &c.cursor {
                out.push((c.clone(), cursor.clone()));
                proof {
                    let j = out@.len() - 1;
                    assert(out@[j].0 == s[i as int].1);
                }
            }
            proof {
                assert forall|m: int|
                    0 <= m < i + 1 && (#[trigger] s[m]).1.cursor is Some implies exists|j: int|
                    0 <= j < out@.len() && out@[j].0.node_id@ == s[m].0@ by {
                    if m == i {
                        let j = out@.len() - 1;
                        assert(out@[j].0.node_id@ == s[m].0@);
                    } else {
                        let j = choose|j: int|
                            0 <= j < old_out.len() && old_out[j].0.node_id@ == s[m].0@;
                        assert(out@[j] == old_out[j]);
                    }
                }
            }
            i = i + 1;
        }
        proof {
            assert forall|j: int| 0 <= j < out@.len() implies self.members().dom().contains(
                (#[trigger] out@[j]).0.node_id@,
            ) && out@[j].0 == self.members()[out@[j].0.node_id@] && out@[j].0.cursor == Some(
                out@[j].1,
            ) by {
                let m = choose|m: int|
                    0 <= m < s.len() && out@[j].0 == s[m].1 && out@[j].0.cursor == Some(out@[j].1);
                lemma_assoc_value(s, m);
            }
            assert forall|k: Seq<char>|
                self.members().dom().contains(k) && (#[trigger] self.members()[k]).cursor is Some
                    implies exists|i: int| 0 <= i < out@.len() && out@[i].0.node_id@ == k by {
                lemma_assoc_dom(s, k);
                let m = choose|m: int| 0 <= m < s.len() && (#[trigger] s[m]).0@ == k;
                lemma_assoc_value(s, m);
            }
        }
        out
    }

    /// Get a collaborator by node ID.
    pub fn get(&self, node_id: &String) -> (r: Option<&Collaborator>)
        ensures
            match r {
                Some(c) => self.members().dom().contains(node_id@) && *c == self.members()[node_id@],
                None => !self.members().dom().contains(node_id@),
            },
    {
        proof {
            use_type_invariant(self);
            lemma_assoc_dom(self.collaborators@, node_id@);
        }
        match assoc_position(&self.collaborators, node_id) {
            Some(i) => {
                proof {
                    lemma_assoc_value(self.collaborators@, i as int);
                }
                Some(&self.collaborators[i].1)
            },
            None => None,
        }
    }

    /// Check if a node ID is a known collaborator.
    pub fn contains(&self, node_id: &String) -> (r: bool)
        ensures
            r == self.members().dom().contains(node_id@),
    {
        proof {
            lemma_assoc_dom(self.collaborators@, node_id@);
        }
        assoc_position(&self.collaborators, node_id).is_some()
    }

    /// Number of active collaborators.
    pub fn len(&self) -> (r: usize)
        ensures
            r == self.members().dom().len(),
    {
        proof {
            use_type_invariant(self);
            lemma_assoc_len(self.collaborators@);
        }
        self.collaborators.len()
    }

    /// Check if there are no collaborators.
    pub fn is_empty(&self) -> (r: bool)
        ensures
            r == (self.members().dom().len() == 0),
    {
        proof {
            use_type_invariant(self);
            lemma_assoc_len(self.collaborators@);
        }
        self.collaborators.len() == 0
    }

    /// Remove stale cursors that haven't been updated recently.
    ///
    /// The age of each cursor is read off the clock and handed to
    /// `clear_cursors_older_than`; whatever the clock reads, every
    /// collaborator stays, and loses its cursor exactly when the age read for
    /// it exceeds the limit.
    pub fn prune_stale_cursors(&mut self, max_age: std::time::Duration)
        ensures
            final(self).colors_given() == old(self).colors_given(),
            final(self).members().dom() == old(self).members().dom(),
            exists|ages: Seq<(String, u128)>, max_ns: u128|
                #[trigger] cleared_by(old(self).members(), final(self).members(), ages, max_ns),
    {
        proof {
            use_type_invariant(&*self);
        }
        let now = instant_now();
        let mut ages: Vec<(String, u128)> = Vec::new();
        let mut i: usize = 0;
        while i < self.collaborators.len()
            invariant
                i <= self.collaborators@.len(),
            decreases self.collaborators@.len() - i,
        {
            match &self.collaborators[i].1.cursor {
                Some(cursor) => {
                    let elapsed = elapsed_between(&now, &cursor.updated_at);
                    let age = duration_nanos(&elapsed);
                    ages.push((self.collaborators[i].0.clone(), age));
                },
                None => {},
            }
            i = i + 1;
        }
        let max_ns = duration_nanos(&max_age);
        self.clear_cursors_older_than(&ages, max_ns);
        proof {
            assert(cleared_by(old(self).members(), self.members(), ages@, max_ns));
        }
    }

    /// Clear the cursor of each collaborator whose age in `ages_ns` (the first
    /// entry under its key) exceeds `max_age_ns`; everything else stays.
    pub fn clear_cursors_older_than(&mut self, ages_ns: &Vec<(String, u128)>, max_age_ns: u128)
        ensures
            final(self).colors_given() == old(self).colors_given(),
            final(self).members().dom() == old(self).members().dom(),
            forall|k: Seq<char>|
                #[trigger] final(self).members().dom().contains(k) ==> final(self).members()[k]
                    == after_clearing(old(self).members()[k], k, ages_ns@, max_age_ns),
    {
        proof {
            use_type_invariant(&*self);
        }
        let mut list = Vec::new();
        std::mem::swap(&mut list, &mut self.collaborators);
        let ghost s = list@;
        let mut i: usize = 0;
        while i < list.len()
            invariant
                i <= list@.len(),
                list@.len() == s.len(),
                keys_distinct(s),
                forall|j: int| 0 <= j < s.len() ==> (#[trigger] s[j]).0@ == s[j].1.node_id@,
                forall|j: int| 0 <= j < list@.len() ==> (#[trigger] list@[j]).0 == s[j].0,
                forall|j: int|
                    0 <= j < i ==> (#[trigger] list@[j]).1 == after_clearing(
                        s[j].1,
                        s[j].0@,
                        ages_ns@,
                        max_age_ns,
                    ),
                forall|j: int| i <= j < list@.len() ==> (#[trigger] list@[j]).1 == s[j].1,
            decreases s.len() - i,
        {
            let age = age_in(ages_ns, list[i].0.as_str());
            let stale = match age {
                Some(a) => a > max_age_ns,
                None => false,
            };
            if stale {
                let mut collab = list[i].1.clone();
                collab.cursor = None;
                let key = list[i].0.clone();
                list.set(i, (key, collab));
            }
            i = i + 1;
        }
        proof {
            assert(keys_distinct(list@)) by {
                assert forall|a: int, b: int| 0 <= a < b < list@.len() implies (
                #[trigger] list@[a]).0@ != (#[trigger] list@[b]).0@ by {
                    assert(list@[a].0 == s[a].0 && list@[b].0 == s[b].0);
                }
            }
            assert forall|k: Seq<char>| #[trigger] assoc_map(list@).dom().contains(k) == assoc_map(
                s,
            ).dom().contains(k) by {
                lemma_assoc_dom(list@, k);
                lemma_assoc_dom(s, k);
                if crate::keyed::has_key(list@, k) {
                    let j = choose|j: int| 0 <= j < list@.len() && (#[trigger] list@[j]).0@ == k;
                    assert(s[j].0@ == k);
                }
                if crate::keyed::has_key(s, k) {
                    let j = choose|j: int| 0 <= j < s.len() && (#[trigger] s[j]).0@ == k;
                    assert(list@[j].0@ == k);
                }
            }
            assert(assoc_map(list@).dom() =~= assoc_map(s).dom());
            assert forall|k: Seq<char>| #[trigger] assoc_map(list@).dom().contains(k) implies assoc_map(
                list@,
            )[k] == after_clearing(assoc_map(s)[k], k, ages_ns@, max_age_ns) by {
                lemma_assoc_dom(list@, k);
                let j = choose|j: int| 0 <= j < list@.len() && (#[trigger] list@[j]).0@ == k;
                lemma_assoc_value(list@, j);
                lemma_assoc_value(s, j);
            }
            assert forall|j: int| 0 <= j < list@.len() implies (#[trigger] list@[j]).0@
                == list@[j].1.node_id@ by {
                assert(list@[j].0 == s[j].0);
            }
        }
        self.collaborators = list;
    }
}

/// `after` is `before` with the cursors older than `max` by `ages` cleared.
pub open spec fn cleared_by(
    before: Map<Seq<char>, Collaborator>,
    after: Map<Seq<char>, Collaborator>,
    ages: Seq<(String, u128)>,
    max: u128,
) -> bool {
    forall|k: Seq<char>|
        #[trigger] after.dom().contains(k) ==> after[k] == after_clearing(before[k], k, ages, max)
}

/// The first age that `ages` holds under key `k`.
pub open spec fn first_age(ages: Seq<(String, u128)>, k: Seq<char>) -> Option<u128>
    decreases ages.len(),
{
    if ages.len() == 0 {
        None
    } else {
        match first_age(ages.drop_last(), k) {
            Some(a) => Some(a),
            None => if ages.last().0@ == k {
                Some(ages.last().1)
            } else {
                None
            },
        }
    }
}

/// Collaborator `c`, under key `k`, once cursors older than `max` are
/// cleared: without its cursor when its age exceeds `max`, else as it was.
pub open spec fn after_clearing(c: Collaborator, k: Seq<char>, ages: Seq<(String, u128)>, max: u128) -> Collaborator {
    if first_age(ages, k) matches Some(a) && a > max {
        Collaborator { cursor: None, ..c }
    } else {
        c
    }
}

/// The first age that `ages` holds under `key`.
fn age_in(ages: &Vec<(String, u128)>, key: &str) -> (r: Option<u128>)
    ensures
        r == first_age(ages@, key@),
{
    let mut j: usize = 0;
    while j < ages.len()
        invariant
            j <= ages@.len(),
            first_age(ages@.take(j as int), key@) is None,
        decreases ages@.len() - j,
    {
        proof {
            assert(ages@.take(j + 1).drop_last() =~= ages@.take(j as int));
        }
        if crate::strings::str_eq(ages[j].0.as_str(), key) {
            proof {
                lemma_first_age_prefix(ages@, j + 1, key@);
            }
            return Some(ages[j].1);
        }
        j = j + 1;
    }
    proof {
        assert(ages@.take(j as int) =~= ages@);
    }
    None
}

proof fn lemma_first_age_prefix(ages: Seq<(String, u128)>, n: int, k: Seq<char>)
    requires
        0 <= n <= ages.len(),
        first_age(ages.take(n), k) is Some,
    ensures
        first_age(ages, k) == first_age(ages.take(n), k),
    decreases ages.len() - n,
{
    if n < ages.len() {
        assert(ages.take(n + 1).drop_last() =~= ages.take(n));
        lemma_first_age_prefix(ages, n + 1, k);
    } else {
        assert(ages.take(n) =~= ages);
    }
}

proof fn lemma_key_matches_after_insert(
    before: Seq<(String, Collaborator)>,
    after: Seq<(String, Collaborator)>,
    i: int,
    c: Collaborator,
)
    requires
        forall|j: int| 0 <= j < before.len() ==> (#[trigger] before[j]).0@ == before[j].1.node_id@,
        0 <= i < after.len(),
        after == before.push((c.node_id, c)) || exists|m: int|
            0 <= m < before.len() && after == before.update(m, (c.node_id, c)),
    ensures
        after[i].0@ == after[i].1.node_id@,
{
    if after == before.push((c.node_id, c)) {
        if i < before.len() {
            assert(after[i] == before[i]);
        }
    } else {
        let m = choose|m: int| 0 <= m < before.len() && after == before.update(m, (c.node_id, c));
        if i != m {
            assert(after[i] == before[i]);
        }
    }
}

proof fn lemma_key_matches_after_remove(
    before: Seq<(String, Collaborator)>,
    after: Seq<(String, Collaborator)>,
    key: Seq<char>,
    i: int,
)
    requires
        forall|j: int| 0 <= j < before.len() ==> (#[trigger] before[j]).0@ == before[j].1.node_id@,
        0 <= i < after.len(),
        after == before || exists|m: int| 0 <= m < before.len() && after == before.remove(m),
    ensures
        after[i].0@ == after[i].1.node_id@,
{
    if after == before {
    } else {
        let m = choose|m: int| 0 <= m < before.len() && after == before.remove(m);
        if i < m {
            assert(after[i] == before[i]);
        } else {
            assert(after[i] == before[i + 1]);
        }
    }
}


/// Every palette colour is a real, opaque colour, and colours come round
/// again after the eight of the palette.
pub proof fn law_palette_cycles(i: nat)
    ensures
        palette(i) != 0,
        palette(i) & 0xFF == 0xFF,
        palette(i + 8) == palette(i),
{
    assert((i + 8) % 8 == i % 8);
    assert(0xFF6B6BFFu32 & 0xFF == 0xFF) by (bit_vector);
    assert(0x4ECDC4FFu32 & 0xFF == 0xFF) by (bit_vector);
    assert(0xFFE66DFFu32 & 0xFF == 0xFF) by (bit_vector);
    assert(0x95E1D3FFu32 & 0xFF == 0xFF) by (bit_vector);
    assert(0xF38181FFu32 & 0xFF == 0xFF) by (bit_vector);
    assert(0xAA96DAFFu32 & 0xFF == 0xFF) by (bit_vector);
    assert(0xFCBF49FFu32 & 0xFF == 0xFF) by (bit_vector);
    assert(0x2EC4B6FFu32 & 0xFF == 0xFF) by (bit_vector);
}

/// A collaborator who joins and then leaves leaves the other members as
/// they were; one not known before leaves no trace.
pub proof fn law_join_then_leave(members: Map<Seq<char>, Collaborator>, node_id: Seq<char>, c: Collaborator)
    ensures
        members.insert(node_id, c).remove(node_id) == members.remove(node_id),
        !members.dom().contains(node_id) ==> members.insert(node_id, c).remove(node_id) == members,
{
    assert(members.insert(node_id, c).remove(node_id) =~= members.remove(node_id));
    if !members.dom().contains(node_id) {
        assert(members.remove(node_id) =~= members);
    }
}

} // verus!
