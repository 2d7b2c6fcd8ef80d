use weaver_editor::syntax::{classify_syntax, SyntaxSpanInfo, SyntaxType};

#[test]
fn test_classify_block_syntax() {
    assert_eq!(classify_syntax("# "), SyntaxType::Block);
    assert_eq!(classify_syntax("## "), SyntaxType::Block);
    assert_eq!(classify_syntax("> "), SyntaxType::Block);
    assert_eq!(classify_syntax("- "), SyntaxType::Block);
    assert_eq!(classify_syntax("* "), SyntaxType::Block);
    assert_eq!(classify_syntax("1. "), SyntaxType::Block);
    assert_eq!(classify_syntax("```"), SyntaxType::Block);
    assert_eq!(classify_syntax("---"), SyntaxType::Block);
}

#[test]
fn test_classify_inline_syntax() {
    assert_eq!(classify_syntax("**"), SyntaxType::Inline);
    assert_eq!(classify_syntax("*"), SyntaxType::Inline);
    assert_eq!(classify_syntax("`"), SyntaxType::Inline);
    assert_eq!(classify_syntax("~~"), SyntaxType::Inline);
    assert_eq!(classify_syntax("["), SyntaxType::Inline);
    assert_eq!(classify_syntax("]("), SyntaxType::Inline);
}

#[test]
fn test_adjust_positions() {
    let mut span = SyntaxSpanInfo {
        syn_id: "s0".to_string(),
        char_range: 10..15,
        syntax_type: SyntaxType::Inline,
        formatted_range: Some(10..25),
    };

    span.adjust_positions(5);
    assert_eq!(span.char_range, 15..20);
    assert_eq!(span.formatted_range, Some(15..30));

    span.adjust_positions(-3);
    assert_eq!(span.char_range, 12..17);
    assert_eq!(span.formatted_range, Some(12..27));
}

#[test]
fn test_cursor_in_range() {
    // Paired syntax with formatted_range
    let span = SyntaxSpanInfo {
        syn_id: "s0".to_string(),
        char_range: 0..2, // **
        syntax_type: SyntaxType::Inline,
        formatted_range: Some(0..10), // **content**
    };

    assert!(span.cursor_in_range(0));
    assert!(span.cursor_in_range(5));
    assert!(span.cursor_in_range(10));
    assert!(!span.cursor_in_range(11));

    // Unpaired syntax without formatted_range
    let span = SyntaxSpanInfo {
        syn_id: "s1".to_string(),
        char_range: 0..2, // ##
        syntax_type: SyntaxType::Block,
        formatted_range: None,
    };

    assert!(span.cursor_in_range(0));
    assert!(span.cursor_in_range(1));
    assert!(span.cursor_in_range(2));
    assert!(!span.cursor_in_range(3));
}

#[test]
fn syntax_leading_whitespace_and_lists() {
    assert_eq!(classify_syntax("  # "), SyntaxType::Block);
    assert_eq!(classify_syntax("-x"), SyntaxType::Inline);
    assert_eq!(classify_syntax("*\t"), SyntaxType::Block);
    assert_eq!(classify_syntax("12"), SyntaxType::Inline);
    assert_eq!(classify_syntax("3) a."), SyntaxType::Block);
    assert_eq!(classify_syntax(""), SyntaxType::Inline);
}
