//! Decisions of the notebook agent's publishing and permission workflows.
//!
//! The workflows fetch and write records over the network; what they decide
//! from what comes back is here, over plain values.
use crate::strings::str_eq;
use vstd::prelude::*;

verus! {

// === Upserting an entry ===

/// What to do to publish an entry into a notebook.
#[derive(Debug, Clone, Copy, PartialEq, Eq, Structural)]
pub enum UpsertAction {
    /// Update the entry at this index of the notebook's entry list: its
    /// content, title, path, embeds and tags.
    UpdateByKey(usize),
    /// Create the entry under the given record key and append it to the
    /// notebook's entry list.
    CreateWithKey,
    /// Create the entry and append it to the notebook's entry list.
    Create,
    /// Look through the entries' titles for one to update.
    MatchTitles,
}

/// `k` is the first index of `keys` that holds `key`, or `keys.len()`.
pub open spec fn first_key_index(keys: Seq<Option<String>>, key: Seq<char>) -> int
    decreases keys.len(),
{
    if keys.len() == 0 {
        0
    } else if first_key_index(keys.drop_last(), key) < keys.len() - 1 {
        first_key_index(keys.drop_last(), key)
    } else if keys.last() matches Some(k) && k@ == key {
        keys.len() - 1
    } else {
        keys.len() as int
    }
}

/// The step to take: with a record key, update the notebook's entry with that
/// key, or create one under it; without one, create the entry in an empty
/// notebook, or look through the titles.
pub open spec fn spec_upsert_plan(existing_rkey: Option<Seq<char>>, entry_rkeys: Seq<Option<String>>) -> UpsertAction {
    match existing_rkey {
        Some(k) => {
            let i = first_key_index(entry_rkeys, k);
            if i < entry_rkeys.len() {
                UpsertAction::UpdateByKey(i as usize)
            } else {
                UpsertAction::CreateWithKey
            }
        },
        None => if entry_rkeys.len() == 0 {
            UpsertAction::Create
        } else {
            UpsertAction::MatchTitles
        },
    }
}

/// Decide how to publish an entry, given the record key it may already have
/// and the record keys of the notebook's entries, in list order.
pub fn upsert_plan(existing_rkey: Option<&str>, entry_rkeys: &Vec<Option<String>>) -> (r: UpsertAction)
    ensures
        r == spec_upsert_plan(
            match existing_rkey {
                Some(k) => Some(k@),
                None => None,
            },
            entry_rkeys@,
        ),
{
    match existing_rkey {
        Some(rkey) => {
            let mut i: usize = 0;
            while i < entry_rkeys.len()
                invariant
                    existing_rkey == Some(rkey),
                    i <= entry_rkeys@.len(),
                    first_key_index(entry_rkeys@.take(i as int), rkey@) == i,
                decreases entry_rkeys@.len() - i,
            {
                proof {
                    assert(entry_rkeys@.take(i + 1).drop_last() =~= entry_rkeys@.take(i as int));
                }
                let hit = match &entry_rkeys[i] {
                    Some(k) => str_eq(k.as_str(), rkey),
                    None => false,
                };
                if hit {
                    proof {
                        assert(entry_rkeys@.take(i + 1).last() == entry_rkeys@[i as int]);
                        assert(first_key_index(entry_rkeys@.take(i + 1), rkey@) == i);
                        lemma_first_key_index_prefix(entry_rkeys@, i + 1, rkey@);
                    }
                    return UpsertAction::UpdateByKey(i);
                }
                proof {
                    assert(entry_rkeys@.take(i + 1).last() == entry_rkeys@[i as int]);
                }
                i = i + 1;
            }
            proof {
                assert(entry_rkeys@.take(i as int) =~= entry_rkeys@);
            }
            UpsertAction::CreateWithKey
        },
        None => {
            if entry_rkeys.len() == 0 {
                UpsertAction::Create
            } else {
                UpsertAction::MatchTitles
            }
        },
    }
}

proof fn lemma_first_key_index_prefix(keys: Seq<Option<String>>, n: int, key: Seq<char>)
    requires
        0 <= n <= keys.len(),
        first_key_index(keys.take(n), key) < n,
    ensures
        first_key_index(keys, key) == first_key_index(keys.take(n), key),
    decreases keys.len() - n,
{
    if n < keys.len() {
        assert(keys.take(n + 1).drop_last() =~= keys.take(n));
        lemma_first_key_index_prefix(keys, n + 1, key);
    } else {
        assert(keys.take(n) =~= keys);
    }
}

/// The first entry whose title, where it could be read, is `title`.
pub fn first_title_match(titles: &Vec<Option<String>>, title: &str) -> (r: Option<usize>)
    ensures
        match r {
            Some(i) => first_key_index(titles@, title@) == i,
            None => first_key_index(titles@, title@) == titles@.len(),
        },
{
    let mut i: usize = 0;
    while i < titles.len()
        invariant
            i <= titles@.len(),
            first_key_index(titles@.take(i as int), title@) == i,
        decreases titles@.len() - i,
    {
        proof {
            assert(titles@.take(i + 1).drop_last() =~= titles@.take(i as int));
        }
        let hit = match &titles[i] {
            Some(t) => str_eq(t.as_str(), title),
            None => false,
        };
        if hit {
            proof {
                assert(titles@.take(i + 1).last() == titles@[i as int]);
                assert(first_key_index(titles@.take(i + 1), title@) == i);
                lemma_first_key_index_prefix(titles@, i + 1, title@);
            }
            return Some(i);
        }
        proof {
            assert(titles@.take(i + 1).last() == titles@[i as int]);
        }
        i = i + 1;
    }
    proof {
        assert(titles@.take(i as int) =~= titles@);
    }
    None
}

// === Permissions of a resource ===

/// How an editor came by their permission.
#[derive(Debug, Clone, Copy, PartialEq, Eq, Structural)]
pub enum GrantScope {
    /// On the resource itself.
    Direct,
    /// Through the notebook the entry is in.
    Inherited,
}

/// One editor's permission: who, how, from which record and since when.
#[derive(Debug)]
pub struct Grant {
    pub did: String,
    pub scope: GrantScope,
    pub source: String,
    pub granted_at: String,
}

/// An invite to edit, and when its invitee accepted it, if they did.
#[derive(Debug)]
pub struct InviteReply {
    pub invitee_did: String,
    pub invite_uri: String,
    pub accepted_at: Option<String>,
}

/// A grant as plain text.
#[verifier::ext_equal]
pub struct GrantView {
    pub did: Seq<char>,
    pub scope: GrantScope,
    pub source: Seq<char>,
    pub granted_at: Seq<char>,
}

pub open spec fn grant_view(g: Grant) -> GrantView {
    GrantView { did: g.did@, scope: g.scope, source: g.source@, granted_at: g.granted_at@ }
}

pub open spec fn grants_view(s: Seq<Grant>) -> Seq<GrantView> {
    s.map_values(|g: Grant| grant_view(g))
}

/// The grant an accepted invite gives.
pub open spec fn invite_grant(i: InviteReply, scope: GrantScope) -> GrantView {
    GrantView {
        did: i.invitee_did@,
        scope,
        source: i.invite_uri@,
        granted_at: i.accepted_at.unwrap()@,
    }
}

/// `editors` followed by a direct grant for each accepted invite, in order;
/// invites not accepted are pending and give nothing.
pub open spec fn with_direct(editors: Seq<GrantView>, invites: Seq<InviteReply>) -> Seq<GrantView>
    decreases invites.len(),
{
    if invites.len() == 0 {
        editors
    } else {
        let acc = with_direct(editors, invites.drop_last());
        let i = invites.last();
        if i.accepted_at is Some {
            acc.push(invite_grant(i, GrantScope::Direct))
        } else {
            acc
        }
    }
}

/// Someone in `editors` is `did`.
pub open spec fn lists_did(editors: Seq<GrantView>, did: Seq<char>) -> bool {
    exists|k: int| 0 <= k < editors.len() && (#[trigger] editors[k]).did == did
}

/// `editors` followed by an inherited grant for each accepted notebook invite
/// whose invitee is not listed yet, in order.
pub open spec fn with_inherited(editors: Seq<GrantView>, invites: Seq<InviteReply>) -> Seq<GrantView>
    decreases invites.len(),
{
    if invites.len() == 0 {
        editors
    } else {
        let acc = with_inherited(editors, invites.drop_last());
        let i = invites.last();
        if !lists_did(acc, i.invitee_did@) && i.accepted_at is Some {
            acc.push(invite_grant(i, GrantScope::Inherited))
        } else {
            acc
        }
    }
}

/// The editors of a resource: its authority first, then the invitees who
/// accepted a direct invite, then, for an entry, those who accepted an invite
/// to its notebook and are not listed already.
pub open spec fn spec_permissions(
    authority: GrantView,
    direct: Seq<InviteReply>,
    inherited: Seq<InviteReply>,
) -> Seq<GrantView> {
    with_inherited(with_direct(seq![authority], direct), inherited)
}

/// Whether a resource in `collection` is an entry, which inherits its
/// notebook's editors.
pub fn inherits_notebook_grants(collection: Option<&str>) -> (r: bool)
    ensures
        r == (collection matches Some(c) && c@ == "sh.weaver.notebook.entry"@),
{
    match collection {
        Some(c) => str_eq(c, "sh.weaver.notebook.entry"),
        None => false,
    }
}

fn clone_string(s: &String) -> (r: String)
    ensures
        r@ == s@,
{
    s.clone()
}

fn listed(editors: &Vec<Grant>, did: &str) -> (r: bool)
    ensures
        r == lists_did(grants_view(editors@), did@),
{
    let mut i: usize = 0;
    while i < editors.len()
        invariant
            i <= editors@.len(),
            forall|k: int| 0 <= k < i ==> (#[trigger] editors@[k]).did@ != did@,
        decreases editors@.len() - i,
    {
        if str_eq(editors[i].did.as_str(), did) {
            proof {
                assert(grants_view(editors@)[i as int].did == did@);
            }
            return true;
        }
        i = i + 1;
    }
    proof {
        assert forall|k: int| 0 <= k < grants_view(editors@).len() implies (
        #[trigger] grants_view(editors@)[k]).did != did@ by {
            assert(editors@[k].did@ != did@);
        }
    }
    false
}

/// The editors of a resource, given its authority's DID, its URI and when it
/// was created, and the replies to its direct invites and, for an entry in a
/// notebook, to the notebook's invites.
pub fn merge_permission_grants(
    authority_did: String,
    resource_uri: String,
    created_at: String,
    direct: &Vec<InviteReply>,
    inherited: &Vec<InviteReply>,
) -> (r: Vec<Grant>)
    ensures
        grants_view(r@) == spec_permissions(
            GrantView {
                did: authority_did@,
                scope: GrantScope::Direct,
                source: resource_uri@,
                granted_at: created_at@,
            },
            direct@,
            inherited@,
        ),
{
    let ghost authority = GrantView {
        did: authority_did@,
        scope: GrantScope::Direct,
        source: resource_uri@,
        granted_at: created_at@,
    };
    let mut editors: Vec<Grant> = Vec::new();
    editors.push(
        Grant { did: authority_did, scope: GrantScope::Direct, source: resource_uri, granted_at: created_at },
    );
    proof {
        assert(grants_view(editors@) =~= seq![authority]);
    }
    let mut i: usize = 0;
    while i < direct.len()
        invariant
            i <= direct@.len(),
            grants_view(editors@) == with_direct(seq![authority], direct@.take(i as int)),
        decreases direct@.len() - i,
    {
        proof {
            assert(direct@.take(i + 1).drop_last() =~= direct@.take(i as int));
        }
        let inv = &direct[i];
        if let Some(at) = &inv.accepted_at {
            let g = Grant {
                did: clone_string(&inv.invitee_did),
                scope: GrantScope::Direct,
                source: clone_string(&inv.invite_uri),
                granted_at: clone_string(at),
            };
            let ghost before = editors@;
            editors.push(g);
            proof {
                assert(grants_view(editors@) =~= grants_view(before).push(grant_view(g)));
            }
        }
        i = i + 1;
    }
    proof {
        assert(direct@.take(i as int) =~= direct@);
    }
    let ghost base = with_direct(seq![authority], direct@);
    let mut j: usize = 0;
    while j < inherited.len()
        invariant
            j <= inherited@.len(),
            grants_view(editors@) == with_inherited(base, inherited@.take(j as int)),
        decreases inherited@.len() - j,
    {
        proof {
            assert(inherited@.take(j + 1).drop_last() =~= inherited@.take(j as int));
        }
        let inv = &inherited[j];
        if !listed(&editors, inv.invitee_did.as_str()) {
            if let Some(at) = &inv.accepted_at {
                let g = Grant {
                    did: clone_string(&inv.invitee_did),
                    scope: GrantScope::Inherited,
                    source: clone_string(&inv.invite_uri),
                    granted_at: clone_string(at),
                };
                let ghost before = editors@;
                editors.push(g);
                proof {
                    assert(grants_view(editors@) =~= grants_view(before).push(grant_view(g)));
                }
            }
        }
        j = j + 1;
    }
    proof {
        assert(inherited@.take(j as int) =~= inherited@);
    }
    editors
}

} // verus!
