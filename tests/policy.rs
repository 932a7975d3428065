use cargo_registry::policy::{same_text, valid_feature, valid_keyword_name, valid_name};

#[test]
fn naming_rules() {
    assert!(valid_name("my_crate"));
    assert!(!valid_name("1abc"));
    assert!(valid_keyword_name("1abc"));
    assert!(!valid_keyword_name(""));
    assert!(valid_feature("a/b"));
    assert!(!valid_feature("a//b"));
    assert!(same_text("abc", "abc"));
    assert!(!same_text("abc", "abd"));
    assert!(!same_text("abc", "ab"));
}
