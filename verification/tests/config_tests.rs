use ghostty_styles::config::{filter_color_keys, merge_theme_config};

#[test]
fn filter_removes_background() {
    let input = "background = #1a1b26\nfont-size = 14";
    let result = filter_color_keys(input);
    assert!(!result.contains("background"));
    assert!(result.contains("font-size = 14"));
}

#[test]
fn filter_removes_palette() {
    let input = "palette = 0=#000000\npalette = 1=#ff0000\nfont-family = Fira Code";
    let result = filter_color_keys(input);
    assert!(!result.contains("palette"));
    assert!(result.contains("font-family = Fira Code"));
}

#[test]
fn filter_removes_all_color_keys() {
    let input = "background = #000\nforeground = #fff\ncursor-color = #f00\ncursor-text = #0f0\nselection-background = #00f\nselection-foreground = #ff0\ncursor-style = block\nbackground-opacity = 0.9";
    let result = filter_color_keys(input);
    assert_eq!(result.trim(), "");
}

#[test]
fn filter_keeps_comments() {
    let input = "# This is a comment\nbackground = #000";
    let result = filter_color_keys(input);
    assert!(result.contains("# This is a comment"));
    assert!(!result.contains("background = #000"));
}

#[test]
fn filter_keeps_empty_lines() {
    let input = "font-size = 14\n\nfont-family = Fira Code";
    let result = filter_color_keys(input);
    assert!(result.contains("font-size = 14"));
    assert!(result.contains("font-family = Fira Code"));
    assert!(result.contains("\n\n"));
}

#[test]
fn filter_keeps_non_color_keys() {
    let input = "font-size = 14\nwindow-padding-x = 10\nfont-family = Fira Code";
    let result = filter_color_keys(input);
    assert_eq!(result, input);
}

#[test]
fn filter_mixed_content() {
    let input = "# My config\nfont-size = 14\nbackground = #1a1b26\nforeground = #c0caf5\n\nwindow-padding-x = 10\npalette = 0=#15161e";
    let result = filter_color_keys(input);
    assert!(result.contains("# My config"));
    assert!(result.contains("font-size = 14"));
    assert!(result.contains("window-padding-x = 10"));
    assert!(!result.contains("background = #1a1b26"));
    assert!(!result.contains("foreground = #c0caf5"));
    assert!(!result.contains("palette"));
}

#[test]
fn merge_replaces_colors_and_keeps_rest() {
    let existing = "font-size = 14\nbackground = #000000";
    let merged = merge_theme_config(existing, "Nord", "background = #2e3440");
    assert!(merged.contains("font-size = 14"));
    assert!(merged.contains("# Theme: Nord"));
    assert!(merged.contains("background = #2e3440"));
    assert!(!merged.contains("background = #000000"));
    assert!(merged.ends_with('\n'));
}

#[test]
fn merge_into_empty_config() {
    let merged = merge_theme_config("", "Bare", "foreground = #ffffff");
    assert_eq!(merged, "\n# Theme: Bare\nforeground = #ffffff\n");
}
