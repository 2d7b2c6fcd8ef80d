use weaver_editor::util::{
    aturi_to_http, avatar_cdn_url, blob_url, entry_matches_title, neighbours,
    normalize_title_path, notebook_match, strip_trailing_punctuation, title_matches,
};

#[test]
fn title_path_is_lowercase_with_underscores() {
    assert_eq!(normalize_title_path("My First Note"), "my_first_note");
    assert_eq!(normalize_title_path("  Two  Spaces "), "__two__spaces_");
    assert_eq!(normalize_title_path(""), "");
    assert_eq!(normalize_title_path("ÄÖ Ü"), "äö_ü");
}

#[test]
fn trailing_punctuation_is_stripped() {
    assert_eq!(strip_trailing_punctuation("Hello, world!?."), "Hello, world");
    assert_eq!(strip_trailing_punctuation("Intro:"), "Intro");
    assert_eq!(strip_trailing_punctuation("no change"), "no change");
    assert_eq!(strip_trailing_punctuation("...!"), "");
    assert_eq!(strip_trailing_punctuation("a.b"), "a.b");
}

#[test]
fn titles_match_with_punctuation_fallback() {
    assert!(title_matches("My Note", "My Note"));
    assert!(title_matches("My Note", "My Note."));
    assert!(title_matches("What now?", "What now"));
    assert!(!title_matches("My Note", "Other Note"));
    assert!(!title_matches("My Note", "My Note x"));
    // Symmetric either way round.
    assert_eq!(title_matches("Done!", "Done"), title_matches("Done", "Done!"));
}

#[test]
fn cdn_and_blob_urls() {
    assert_eq!(
        avatar_cdn_url("did:plc:abc", "bafkreiabc"),
        "https://cdn.bsky.app/img/avatar/plain/did:plc:abc/bafkreiabc"
    );
    assert_eq!(
        blob_url("did:plc:abc", "pds.example.com", "bafkreiabc"),
        "https://pds.example.com/xrpc/com.atproto.repo.getBlob?did=did:plc:abc&cid=bafkreiabc"
    );
}

#[test]
fn aturi_conversion() {
    assert_eq!(aturi_to_http("https://example.com/x", "bsky.app"), Some("https://example.com/x"));
    assert_eq!(aturi_to_http("/local/path", "bsky.app"), Some("/local/path"));
    assert_eq!(
        aturi_to_http("at://did:plc:abc/app.bsky.feed.post/3k", "bsky.app"),
        None
    );
    assert_eq!(aturi_to_http("at://did:plc:abc", "bsky.app"), None);
}

#[test]
fn entry_and_notebook_title_matching() {
    assert!(entry_matches_title("my_note", "My Note", "My Note."));
    assert!(entry_matches_title("my_note", "Other", "my_note"));
    assert!(!entry_matches_title("a", "b", "c"));
    assert_eq!(notebook_match(Some("notes"), Some("Notes"), "notes!"), Some("notes"));
    assert_eq!(notebook_match(Some("notes"), Some("My Notes"), "My Notes"), Some("My Notes"));
    assert_eq!(notebook_match(None, Some("Book"), "Book"), Some("Book"));
    assert_eq!(notebook_match(Some("x"), None, "Book"), None);
}

#[test]
fn entry_neighbours() {
    assert_eq!(neighbours(0, 1), (None, None));
    assert_eq!(neighbours(0, 3), (None, Some(1)));
    assert_eq!(neighbours(1, 3), (Some(0), Some(2)));
    assert_eq!(neighbours(2, 3), (Some(1), None));
}
