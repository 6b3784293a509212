use runcc::label::Label;

#[test]
fn label_shorter_than_limit_is_padded() {
    let label = Label::from_label(String::from("ab"), 4);
    assert_eq!(label.label(), "ab");
    assert_eq!(label.display(), "ab  ");
}

#[test]
fn label_at_limit_is_kept() {
    let label = Label::from_label(String::from("abcd"), 4);
    assert_eq!(label.display(), "abcd");
    assert!(label.display.is_none());
}

#[test]
fn label_slightly_over_limit_gets_short_marker() {
    // one character over: one dot
    let label = Label::from_label(String::from("abcde"), 4);
    assert_eq!(label.display(), "abc.");
}

#[test]
fn label_far_over_limit_gets_three_dots() {
    let label = Label::from_label(String::from("abcdefghij"), 5);
    assert_eq!(label.display(), "ab...");
}

#[test]
fn display_width_equals_limit() {
    for (raw, limit) in [("a", 5), ("abcde", 5), ("abcdefgh", 5), ("", 3)] {
        let label = Label::from_label(String::from(raw), limit);
        assert_eq!(label.display().chars().count(), limit);
    }
}

#[test]
fn explicit_display_wins() {
    let label = Label::new(String::from("raw"), Some(String::from("shown")));
    assert_eq!(label.label(), "raw");
    assert_eq!(label.display(), "shown");
}
