use ghostty_styles::color::HslColor;
use ghostty_styles::creator::{ColorField, CreatorState, GenAlgorithm, SliderFocus};

#[test]
fn color_field_all_count() {
    assert_eq!(ColorField::all().len(), 22);
}

#[test]
fn color_field_labels() {
    assert_eq!(ColorField::Background.label(), "Background");
    assert_eq!(ColorField::Palette(1).label(), "Palette  1 (Red)");
    assert_eq!(ColorField::Palette(14).label(), "Palette 14 (Bright Cyan)");
}

#[test]
fn gen_algorithm_toggle() {
    assert_eq!(GenAlgorithm::HueRotation.toggle(), GenAlgorithm::Base16);
    assert_eq!(GenAlgorithm::Base16.toggle(), GenAlgorithm::HueRotation);
}

#[test]
fn gen_algorithm_labels() {
    assert_eq!(GenAlgorithm::HueRotation.label(), "Hue Rotation");
    assert_eq!(GenAlgorithm::Base16.label(), "Base16");
}

#[test]
fn creator_state_new_has_22_colors() {
    let state = CreatorState::new("Test Theme");
    assert_eq!(state.colors.len(), 22);
    assert!(!state.unsaved);
    assert!(!state.palette_dirty);
    assert_eq!(state.title, "Test Theme");
}

#[test]
fn creator_state_new_is_dark() {
    let state = CreatorState::new("Dark Theme");
    assert!(state.is_dark());
}

#[test]
fn slug_from_title() {
    let state = CreatorState::new("My Cool Theme!");
    assert_eq!(state.slug_from_title(), "my-cool-theme");
}

#[test]
fn build_raw_config_format() {
    let state = CreatorState::new("Test");
    let raw = state.build_raw_config();
    assert!(raw.contains("background = #"));
    assert!(raw.contains("foreground = #"));
    assert!(raw.contains("cursor-color = #"));
    assert!(raw.contains("cursor-text = #"));
    assert!(raw.contains("selection-background = #"));
    assert!(raw.contains("selection-foreground = #"));
    for i in 0..16 {
        assert!(raw.contains(&format!("palette = {}=#", i)));
    }
}

#[test]
fn build_preview_config_valid() {
    let state = CreatorState::new("Preview Test");
    let config = state.build_preview_config();
    assert_eq!(config.title, "Preview Test");
    assert_eq!(config.palette.len(), 16);
    assert!(config.is_dark);
    assert!(config.cursor_color.is_some());
    assert!(config.cursor_text.is_some());
    assert!(config.selection_bg.is_some());
    assert!(config.selection_fg.is_some());
}

#[test]
fn adjust_slider_hue_wraps() {
    let mut state = CreatorState::new("Test");
    // Set a known color on the current field
    state.set_current_color(HslColor::new(35000, 5000, 5000));
    state.slider_focus = SliderFocus::Hue;
    state.adjust_slider(2000);
    assert_eq!(state.current_color().h, 1000);
}

#[test]
fn adjust_slider_saturation_clamps() {
    let mut state = CreatorState::new("Test");
    state.set_current_color(HslColor::new(18000, 9500, 5000));
    state.slider_focus = SliderFocus::Saturation;
    state.adjust_slider(1000);
    assert_eq!(state.current_color().s, 10000);
}

#[test]
fn commit_hex_input_valid() {
    let mut state = CreatorState::new("Test");
    state.hex_input = "#ff0000".to_string();
    state.commit_hex_input();
    let (r, g, b) = state.current_color().to_rgb();
    assert_eq!((r, g, b), (255, 0, 0));
}

#[test]
fn commit_hex_input_invalid_no_change() {
    let mut state = CreatorState::new("Test");
    let before = *state.current_color();
    state.hex_input = "nope".to_string();
    state.commit_hex_input();
    assert_eq!(*state.current_color(), before);
}

#[test]
fn auto_derive_sets_cursor_and_selection() {
    let mut state = CreatorState::new("Test");
    let fg = state.colors[1];
    let bg = state.colors[0];
    state.auto_derive();
    assert_eq!(state.colors[2], fg); // cursor-color = fg
    assert_eq!(state.colors[3], bg); // cursor-text = bg
    assert_eq!(state.colors[5], fg); // selection-fg = fg
}

#[test]
fn auto_derive_exact_from_edited_colors() {
    // Editing background and foreground re-derives the cursor and
    // selection colors from them exactly.
    let mut state = CreatorState::new("Derive");
    let bg = HslColor::from_hex("#1a1b26").unwrap();
    let fg = HslColor::from_hex("#c0caf5").unwrap();
    state.field_index = 0;
    state.set_current_color(bg);
    state.field_index = 1;
    state.set_current_color(fg);
    assert_eq!(state.colors[2], fg); // cursor-color = foreground
    assert_eq!(state.colors[3], bg); // cursor-text = background
    assert_eq!(state.colors[5], fg); // selection-fg = foreground
    // selection-bg keeps the background hue
    assert_eq!(state.colors[4].h, bg.h);
}

#[test]
fn generate_palette_idempotent() {
    // Regenerating with unchanged background, foreground and algorithm
    // yields byte-identical output.
    let mut state = CreatorState::new("Twice");
    state.generate_palette();
    let first = state.build_raw_config();
    state.generate_palette();
    let second = state.build_raw_config();
    assert_eq!(first, second);
}

#[test]
fn generate_palette_base16_idempotent() {
    let mut state = CreatorState::new("Twice 16");
    state.gen_algorithm = GenAlgorithm::Base16;
    state.generate_palette();
    let first = state.build_raw_config();
    state.generate_palette();
    let second = state.build_raw_config();
    assert_eq!(first, second);
}

#[test]
fn set_palette_slot_marks_dirty() {
    let mut state = CreatorState::new("Dirty");
    state.field_index = 7;
    state.set_current_color(HslColor::new(0, 0, 0));
    assert!(state.palette_dirty);
    assert!(state.unsaved);
}

#[test]
fn from_theme_parses_and_falls_back() {
    let state = CreatorState::new("Source");
    let mut config = state.build_preview_config();
    config.cursor_color = None;
    config.palette = vec!["#ff0000".to_string(), "not-a-color".to_string()];
    let forked = CreatorState::from_theme(&config);
    assert_eq!(forked.colors.len(), 22);
    // Missing cursor color falls back to the foreground.
    assert_eq!(forked.colors[2], forked.colors[1]);
    // A parsable palette entry is parsed; an unparsable one becomes black.
    assert_eq!(forked.colors[6].to_rgb(), (255, 0, 0));
    assert_eq!(forked.colors[7], HslColor::new(0, 0, 0));
    assert_eq!(forked.forked_from.as_deref(), Some(config.slug.as_str()));
    assert!(!forked.unsaved);
}
