use ghostty_styles::export::slug_from_title;

#[test]
fn slug_basic() {
    assert_eq!(slug_from_title("My Cool Theme"), "my-cool-theme");
}

#[test]
fn slug_special_characters() {
    assert_eq!(slug_from_title("Nord (Dark)!"), "nord-dark");
}

#[test]
fn slug_leading_trailing_hyphens() {
    assert_eq!(slug_from_title("--hello--world--"), "hello-world");
}

#[test]
fn slug_consecutive_non_alnum() {
    assert_eq!(slug_from_title("a---b___c"), "a-b-c");
}

#[test]
fn slug_empty_title() {
    assert_eq!(slug_from_title(""), "");
}

#[test]
fn slug_all_special() {
    assert_eq!(slug_from_title("!@#$%"), "");
}

#[test]
fn slug_unicode() {
    // Non-ASCII characters act as separators.
    assert_eq!(slug_from_title("caf\u{e9} theme"), "caf-theme");
}

#[test]
fn slug_numbers() {
    assert_eq!(slug_from_title("Theme 42"), "theme-42");
}
