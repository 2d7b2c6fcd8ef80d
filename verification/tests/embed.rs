use weaver_editor::render::ImageResolver;
use weaver_editor::{EditorImage, EditorImageResolver};

fn image(name: Option<&str>, alt: &str, blob: Option<&str>) -> EditorImage {
    EditorImage {
        name: name.map(|n| n.to_string()),
        alt: alt.to_string(),
        published_blob_rkey: blob.map(|b| b.to_string()),
    }
}

#[test]
fn pending_image_resolves_to_data_url() {
    let mut resolver = EditorImageResolver::new();
    resolver.add_pending("photo.jpg", "data:image/png;base64,AAAA".to_string());
    assert!(resolver.is_pending("photo.jpg"));
    assert_eq!(
        resolver.resolve_image_url("/image/photo.jpg"),
        Some("data:image/png;base64,AAAA".to_string())
    );
    // A bare name is looked up as it stands.
    assert_eq!(
        resolver.resolve_image_url("photo.jpg"),
        Some("data:image/png;base64,AAAA".to_string())
    );
}

#[test]
fn promoted_image_resolves_to_draft_path() {
    let mut resolver = EditorImageResolver::new();
    resolver.add_pending("photo.jpg", "data:x".to_string());
    resolver.promote_to_uploaded("photo.jpg", "3kblob", "did:plc:abc");
    assert!(!resolver.is_pending("photo.jpg"));
    assert_eq!(
        resolver.resolve_image_url("/image/photo.jpg"),
        Some("/image/did:plc:abc/draft/3kblob/photo.jpg".to_string())
    );
}

#[test]
fn published_image_resolves_to_entry_path() {
    let mut resolver = EditorImageResolver::default();
    resolver.add_published("cat.png", "3kentry", "alice.example.com");
    assert!(!resolver.is_pending("cat.png"));
    assert_eq!(
        resolver.resolve_image_url("/image/cat.png"),
        Some("/image/alice.example.com/3kentry/cat.png".to_string())
    );
}

#[test]
fn unknown_image_is_not_resolved() {
    let mut resolver = EditorImageResolver::new();
    resolver.add_uploaded("a.png", "rk", "did:plc:x");
    assert_eq!(resolver.resolve_image_url("/image/b.png"), None);
    assert_eq!(resolver.resolve_image_url("https://other.com/a.png.jpg"), None);
    assert!(!resolver.is_pending("b.png"));
}

#[test]
fn from_images_draft_mode_takes_only_published_blobs() {
    let images = vec![
        image(Some("one.png"), "first", Some("blob1")),
        image(None, "alt-two", Some("blob2")),
        image(Some("three.png"), "third", None),
        image(Some(""), "", Some("blob4")),
    ];
    let resolver = EditorImageResolver::from_images(&images, "did:plc:me", None);
    assert_eq!(
        resolver.resolve_image_url("/image/one.png"),
        Some("/image/did:plc:me/draft/blob1/one.png".to_string())
    );
    assert_eq!(
        resolver.resolve_image_url("/image/alt-two"),
        Some("/image/did:plc:me/draft/blob2/alt-two".to_string())
    );
    assert_eq!(resolver.resolve_image_url("/image/three.png"), None);
    assert_eq!(resolver.resolve_image_url("/image/"), None);
}

#[test]
fn from_images_published_mode_takes_all_named_images() {
    let images = vec![
        image(Some("one.png"), "first", Some("blob1")),
        image(Some("three.png"), "third", None),
    ];
    let resolver = EditorImageResolver::from_images(&images, "did:plc:me", Some("3kentry"));
    assert_eq!(
        resolver.resolve_image_url("/image/one.png"),
        Some("/image/did:plc:me/3kentry/one.png".to_string())
    );
    assert_eq!(
        resolver.resolve_image_url("/image/three.png"),
        Some("/image/did:plc:me/3kentry/three.png".to_string())
    );
}

#[test]
fn cloned_resolver_answers_alike() {
    let mut resolver = EditorImageResolver::new();
    resolver.add_pending("p.png", "data:p".to_string());
    resolver.add_published("q.png", "rk", "id");
    let copy = resolver.clone();
    assert!(copy.is_pending("p.png"));
    assert_eq!(
        copy.resolve_image_url("/image/q.png"),
        Some("/image/id/rk/q.png".to_string())
    );
}

#[test]
fn re_adding_an_image_replaces_it() {
    let mut resolver = EditorImageResolver::new();
    resolver.add_uploaded("x.png", "old", "id");
    resolver.add_uploaded("x.png", "new", "id");
    assert_eq!(
        resolver.resolve_image_url("/image/x.png"),
        Some("/image/id/draft/new/x.png".to_string())
    );
}
