use weaver_editor::resolve::{
    parse_wikilink, EntryIndex, ExtractedRef, RefCollector, ResolvedContent, StrongRef,
};

#[test]
fn test_entry_index_resolve_by_title() {
    let mut index = EntryIndex::new();
    index.add_entry(
        "My First Note",
        "my_first_note",
        "/alice/notebook/my_first_note",
    );

    let result = index.resolve("My First Note");
    assert!(result.is_some());
    let (path, title, fragment) = result.unwrap();
    assert_eq!(path, "/alice/notebook/my_first_note");
    assert_eq!(title, "My First Note");
    assert_eq!(fragment, None);
}

#[test]
fn test_entry_index_resolve_case_insensitive() {
    let mut index = EntryIndex::new();
    index.add_entry(
        "My First Note",
        "my_first_note",
        "/alice/notebook/my_first_note",
    );

    let result = index.resolve("my first note");
    assert!(result.is_some());
}

#[test]
fn test_entry_index_resolve_by_path() {
    let mut index = EntryIndex::new();
    index.add_entry(
        "My First Note",
        "my_first_note",
        "/alice/notebook/my_first_note",
    );

    let result = index.resolve("my_first_note");
    assert!(result.is_some());
}

#[test]
fn test_entry_index_resolve_with_fragment() {
    let mut index = EntryIndex::new();
    index.add_entry("My Note", "my_note", "/alice/notebook/my_note");

    let result = index.resolve("My Note#section");
    assert!(result.is_some());
    let (path, title, fragment) = result.unwrap();
    assert_eq!(path, "/alice/notebook/my_note");
    assert_eq!(title, "My Note");
    assert_eq!(fragment, Some("section"));
}

#[test]
fn test_resolved_content_wikilink_lookup() {
    let mut content = ResolvedContent::new();
    content.add_entry("My Note", "/alice/notebook/my_note", "My Note");

    let result = content.resolve_wikilink("my note");
    assert!(result.is_some());
    assert_eq!(
        result.unwrap().canonical_path.as_str(),
        "/alice/notebook/my_note"
    );
}

#[test]
fn test_resolved_content_embed_lookup() {
    let mut content = ResolvedContent::new();
    let uri = "at://did:plc:xyz/app.bsky.feed.post/abc";
    content.add_embed(uri, "<div>post content</div>", None);

    let lookup_uri = "at://did:plc:xyz/app.bsky.feed.post/abc";
    let result = content.get_embed_content(lookup_uri);
    assert!(result.is_some());
    assert_eq!(result.unwrap(), "<div>post content</div>");
}

#[test]
fn resolve_entry_index_counts_and_replaces() {
    let mut index = EntryIndex::new();
    assert!(index.is_empty());
    index.add_entry("A", "a", "/x/a");
    index.add_entry("B", "b", "/x/b");
    index.add_entry("a", "a2", "/x/a2");
    assert_eq!(index.len(), 2);
    let (path, title, _) = index.resolve("A").unwrap();
    assert_eq!(path, "/x/a2");
    assert_eq!(title, "a");
    assert!(index.resolve("missing").is_none());
    // The old path slug still resolves, to its own entry.
    assert_eq!(index.resolve("a2").unwrap().0, "/x/a2");
}

#[test]
fn resolve_parse_wikilink_splits_at_first_hash() {
    assert_eq!(parse_wikilink("Note#a#b"), ("Note", Some("a#b")));
    assert_eq!(parse_wikilink("Note"), ("Note", None));
    assert_eq!(parse_wikilink("#top"), ("", Some("top")));
}

#[test]
fn resolve_wikilink_lookup_strips_fragment() {
    let mut content = ResolvedContent::new();
    content.add_entry("Topic", "/t", "Topic");
    assert_eq!(content.resolve_wikilink("TOPIC#intro").unwrap().display_title, "Topic");
    assert!(content.resolve_wikilink("other").is_none());
    assert!(content.get_embed_content("at://none").is_none());
}

#[test]
fn resolve_embed_refs_are_kept_in_order() {
    let mut content = ResolvedContent::new();
    content.add_embed("at://a", "A", Some(StrongRef { uri: "at://a".to_string(), cid: "c1".to_string() }));
    content.add_embed("at://b", "B", None);
    content.add_embed("at://a", "A2", Some(StrongRef { uri: "at://a".to_string(), cid: "c2".to_string() }));
    assert_eq!(content.get_embed_content("at://a"), Some("A2"));
    let refs = content.embed_refs();
    assert_eq!(refs.len(), 2);
    assert_eq!(refs[0].cid, "c1");
    assert_eq!(refs[1].cid, "c2");
}

#[test]
fn resolve_ref_collector_records_in_order() {
    let mut c = RefCollector::new();
    c.add_wikilink("Note", Some("sec"), None);
    c.add_at_embed("at://e", Some("alt"));
    c.add_at_link("at://l");
    c.add_wikilink("Other", None, Some("shown"));
    assert_eq!(c.wikilinks(), vec!["Note".to_string(), "Other".to_string()]);
    assert_eq!(c.at_uris(), vec!["at://e".to_string(), "at://l".to_string()]);
    let refs = c.take();
    assert_eq!(refs.len(), 4);
    assert_eq!(
        refs[0],
        ExtractedRef::Wikilink {
            target: "Note".to_string(),
            fragment: Some("sec".to_string()),
            display_text: None,
        }
    );
    assert_eq!(refs[2], ExtractedRef::AtLink { uri: "at://l".to_string() });
}
