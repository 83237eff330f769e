use iced_highlighter_tree_sitter::{style_of, ScopeStyle};

#[test]
fn standard_ids_map_to_their_classes() {
    assert_eq!(style_of(1), ScopeStyle::Comment);
    assert_eq!(style_of(2), ScopeStyle::Constant);
    assert_eq!(style_of(3), ScopeStyle::Constant);
    assert_eq!(style_of(6), ScopeStyle::Function);
    assert_eq!(style_of(7), ScopeStyle::Function);
    assert_eq!(style_of(8), ScopeStyle::Special);
    assert_eq!(style_of(9), ScopeStyle::Special);
    assert_eq!(style_of(18), ScopeStyle::Str);
    assert_eq!(style_of(19), ScopeStyle::Str);
    assert_eq!(style_of(21), ScopeStyle::Type);
    assert_eq!(style_of(22), ScopeStyle::Type);
    assert_eq!(style_of(24), ScopeStyle::Variable);
}

#[test]
fn other_ids_are_plain() {
    for id in [0, 4, 5, 10, 17, 20, 23, 25, 26, usize::MAX] {
        assert_eq!(style_of(id), ScopeStyle::Plain);
    }
}

#[test]
fn comments_and_strings_keep_default_font() {
    assert!(!ScopeStyle::Comment.is_monospace());
    assert!(!ScopeStyle::Str.is_monospace());
    assert!(ScopeStyle::Constant.is_monospace());
    assert!(ScopeStyle::Plain.is_monospace());
}
