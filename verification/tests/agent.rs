use weaver_editor::agent::{
    first_title_match, inherits_notebook_grants, merge_permission_grants, upsert_plan, GrantScope,
    InviteReply, UpsertAction,
};

fn reply(did: &str, uri: &str, at: Option<&str>) -> InviteReply {
    InviteReply {
        invitee_did: did.to_string(),
        invite_uri: uri.to_string(),
        accepted_at: at.map(|s| s.to_string()),
    }
}

#[test]
fn agent_upsert_plan_by_key_and_title() {
    let keys = vec![Some("k1".to_string()), None, Some("k2".to_string()), Some("k2".to_string())];
    assert_eq!(upsert_plan(Some("k2"), &keys), UpsertAction::UpdateByKey(2));
    assert_eq!(upsert_plan(Some("k9"), &keys), UpsertAction::CreateWithKey);
    assert_eq!(upsert_plan(Some("k1"), &Vec::new()), UpsertAction::CreateWithKey);
    assert_eq!(upsert_plan(None, &Vec::new()), UpsertAction::Create);
    assert_eq!(upsert_plan(None, &keys), UpsertAction::MatchTitles);
}

#[test]
fn agent_first_title_match() {
    let titles = vec![None, Some("A".to_string()), Some("B".to_string()), Some("B".to_string())];
    assert_eq!(first_title_match(&titles, "B"), Some(2));
    assert_eq!(first_title_match(&titles, "C"), None);
    assert_eq!(first_title_match(&Vec::new(), "A"), None);
}

#[test]
fn agent_permissions_merge() {
    let direct = vec![reply("did:b", "inv1", Some("t1")), reply("did:c", "inv2", None)];
    let inherited = vec![
        reply("did:b", "inv3", Some("t3")),
        reply("did:d", "inv4", Some("t4")),
        reply("did:d", "inv5", Some("t5")),
        reply("did:e", "inv6", None),
    ];
    let grants = merge_permission_grants(
        "did:a".to_string(),
        "at://did:a/sh.weaver.notebook.entry/1".to_string(),
        "2024".to_string(),
        &direct,
        &inherited,
    );
    let got: Vec<(String, GrantScope, String, String)> = grants
        .into_iter()
        .map(|g| (g.did, g.scope, g.source, g.granted_at))
        .collect();
    assert_eq!(
        got,
        vec![
            (
                "did:a".to_string(),
                GrantScope::Direct,
                "at://did:a/sh.weaver.notebook.entry/1".to_string(),
                "2024".to_string()
            ),
            ("did:b".to_string(), GrantScope::Direct, "inv1".to_string(), "t1".to_string()),
            ("did:d".to_string(), GrantScope::Inherited, "inv4".to_string(), "t4".to_string()),
        ]
    );
}

#[test]
fn agent_entries_inherit_notebook_grants() {
    assert!(inherits_notebook_grants(Some("sh.weaver.notebook.entry")));
    assert!(!inherits_notebook_grants(Some("sh.weaver.notebook.book")));
    assert!(!inherits_notebook_grants(None));
}
