use weaver_editor::render::{EmbedContentProvider, EmbedTag, ImageResolver, WikilinkValidator};

struct TestEmbedProvider;

impl EmbedContentProvider for TestEmbedProvider {
    fn get_embed_content(&self, tag: &EmbedTag) -> Option<String> {
        if tag.dest_url == "at://test/embed" {
            Some("<div>Test Embed</div>".to_string())
        } else {
            None
        }
    }
}

fn make_embed_tag(url: &str) -> EmbedTag {
    EmbedTag { dest_url: url.to_string(), title: String::new(), id: String::new() }
}

struct TestImageResolver;

impl ImageResolver for TestImageResolver {
    fn resolve_image_url(&self, url: &str) -> Option<String> {
        if url.starts_with("/image/") {
            Some(format!("https://cdn.example.com{}", url))
        } else {
            None
        }
    }
}

struct TestWikilinkValidator {
    valid: Vec<String>,
}

impl WikilinkValidator for TestWikilinkValidator {
    fn is_valid_link(&self, target: &str) -> bool {
        self.valid.iter().any(|v| v == target)
    }
}

#[test]
fn test_image_resolver() {
    let resolver = TestImageResolver;
    assert_eq!(
        resolver.resolve_image_url("/image/photo.jpg"),
        Some("https://cdn.example.com/image/photo.jpg".to_string())
    );
    assert_eq!(resolver.resolve_image_url("https://other.com/img.png"), None);
}

#[test]
fn test_wikilink_validator() {
    let validator = TestWikilinkValidator {
        valid: vec!["Home".to_string(), "About".to_string()],
    };
    assert!(validator.is_valid_link("Home"));
    assert!(validator.is_valid_link("About"));
    assert!(!validator.is_valid_link("Missing"));
}

#[test]
fn test_embed_provider() {
    let provider = TestEmbedProvider;
    assert_eq!(
        provider.get_embed_content(&make_embed_tag("at://test/embed")),
        Some("<div>Test Embed</div>".to_string())
    );
    assert_eq!(provider.get_embed_content(&make_embed_tag("at://other")), None);
}

#[test]
fn test_option_impls() {
    let some_provider: Option<TestEmbedProvider> = Some(TestEmbedProvider);
    assert_eq!(
        some_provider.get_embed_content(&make_embed_tag("at://test/embed")),
        Some("<div>Test Embed</div>".to_string())
    );

    let none_provider: Option<TestEmbedProvider> = None;
    assert_eq!(none_provider.get_embed_content(&make_embed_tag("at://test/embed")), None);
}

#[test]
fn test_unit_impls() {
    let embed: () = ();
    assert_eq!(embed.get_embed_content(&make_embed_tag("anything")), None);

    let image: () = ();
    assert_eq!(image.resolve_image_url("anything"), None);

    let wiki: () = ();
    assert!(wiki.is_valid_link("anything")); // default true
}

#[test]
fn render_option_impls() {
    let some_resolver: Option<TestImageResolver> = Some(TestImageResolver);
    assert_eq!(
        some_resolver.resolve_image_url("/image/a.png"),
        Some("https://cdn.example.com/image/a.png".to_string())
    );
    let no_resolver: Option<TestImageResolver> = None;
    assert_eq!(no_resolver.resolve_image_url("/image/a.png"), None);

    let no_validator: Option<TestWikilinkValidator> = None;
    assert!(no_validator.is_valid_link("anything"));
    let strict = Some(TestWikilinkValidator { valid: vec![] });
    assert!(!strict.is_valid_link("anything"));
    assert!(!(&TestWikilinkValidator { valid: vec![] }).is_valid_link("x"));
}
