use weaver_editor::paragraph::{hash_source, make_paragraph_id, ParagraphRender};

#[test]
fn test_hash_source() {
    let h1 = hash_source("hello world");
    let h2 = hash_source("hello world");
    let h3 = hash_source("hello world!");

    assert_eq!(h1, h2);
    assert_ne!(h1, h3);
}

#[test]
fn test_make_paragraph_id() {
    assert_eq!(make_paragraph_id(0), "p-0");
    assert_eq!(make_paragraph_id(42), "p-42");
}

#[test]
fn test_paragraph_contains() {
    let para = ParagraphRender {
        id: "p-0".to_string(),
        byte_range: 10..50,
        char_range: 10..50,
        html: String::new(),
        offset_map: vec![],
        syntax_spans: vec![],
        source_hash: 0,
    };

    assert!(!para.contains_byte(9));
    assert!(para.contains_byte(10));
    assert!(para.contains_byte(25));
    assert!(para.contains_byte(49));
    assert!(!para.contains_byte(50));

    assert!(!para.contains_char(9));
    assert!(para.contains_char(10));
    assert!(para.contains_char(25));
    assert!(!para.contains_char(50));
}

#[test]
fn paragraph_lengths() {
    let para = ParagraphRender {
        id: "p-1".to_string(),
        byte_range: 3..12,
        char_range: 3..8,
        html: String::new(),
        offset_map: vec![],
        syntax_spans: vec![],
        source_hash: 0,
    };
    assert_eq!(para.char_len(), 5);
    assert_eq!(para.byte_len(), 9);
    let reversed = ParagraphRender { char_range: 8..3, ..para };
    assert_eq!(reversed.char_len(), 0);
}

#[test]
fn paragraph_hash_is_not_the_identity() {
    assert_ne!(hash_source(""), hash_source("a"));
    assert_eq!(make_paragraph_id(1234567), "p-1234567");
}
