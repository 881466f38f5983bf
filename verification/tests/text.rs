use namespace_resolver::text::same_text;

#[test]
fn equal_names_are_the_same() {
    assert!(same_text("hosting", "hosting"));
    assert!(same_text("", ""));
}

#[test]
fn different_names_are_not_the_same() {
    assert!(!same_text("hosting", "serving"));
    assert!(!same_text("hosting", "hostin"));
    assert!(!same_text("hosting", "hostings"));
    assert!(!same_text("", "a"));
    assert!(!same_text("Hosting", "hosting"));
}

#[test]
fn names_beyond_ascii_compare_by_their_characters() {
    assert!(same_text("küche", "küche"));
    assert!(!same_text("küche", "kuche"));
    assert!(!same_text("é", "e\u{301}"));
}
