use weaver_editor::collab::{
    order_versions, session_peer_allowed, sorted_distinct, text_less, CollaboratorVersion,
};

fn version(did: &str, updated: Option<&str>) -> CollaboratorVersion {
    CollaboratorVersion {
        did: did.to_string(),
        uri: format!("at://{}/sh.weaver.notebook.entry/3k", did),
        cid: "bafy".to_string(),
        updated_at: updated.map(|u| u.to_string()),
        value: serde_json::Value::Null,
    }
}

#[test]
fn text_order_is_str_order() {
    let words = ["", "a", "ab", "b", "did:plc:a", "did:plc:b", "é", "z", "Z"];
    for a in words {
        for b in words {
            assert_eq!(text_less(a, b), a < b, "{} {}", a, b);
        }
    }
}

#[test]
fn collaborators_sorted_and_deduplicated() {
    let dids: Vec<String> = ["did:plc:c", "did:plc:a", "did:plc:c", "did:plc:b", "did:plc:a"]
        .iter()
        .map(|s| s.to_string())
        .collect();
    assert_eq!(sorted_distinct(&dids), vec!["did:plc:a", "did:plc:b", "did:plc:c"]);
    assert!(sorted_distinct(&Vec::new()).is_empty());
}

#[test]
fn versions_latest_first_stable() {
    let mut versions = vec![
        version("did:plc:a", Some("2024-01-01T00:00:00Z")),
        version("did:plc:b", None),
        version("did:plc:c", Some("2024-03-01T00:00:00Z")),
        version("did:plc:d", Some("2024-01-01T00:00:00Z")),
        version("did:plc:e", None),
    ];
    order_versions(&mut versions);
    let order: Vec<&str> = versions.iter().map(|v| v.did.as_str()).collect();
    assert_eq!(order, vec!["did:plc:c", "did:plc:a", "did:plc:d", "did:plc:b", "did:plc:e"]);
}

#[test]
fn session_peers_must_be_current_collaborators() {
    let collaborators = vec!["did:plc:a".to_string(), "did:plc:b".to_string()];
    assert!(session_peer_allowed(false, "did:plc:b", &collaborators));
    assert!(!session_peer_allowed(true, "did:plc:b", &collaborators));
    assert!(!session_peer_allowed(false, "did:plc:z", &collaborators));
    assert!(!session_peer_allowed(false, "did:plc:a", &[]));
}
