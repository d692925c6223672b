use ghostty_styles::collection::{
    create_collection, normalize_collection_name, AppConfig, CycleOrder, ModePreference,
};

#[test]
fn mode_preference_labels() {
    assert_eq!(ModePreference::Dark.label(), "dark");
    assert_eq!(ModePreference::Light.label(), "light");
    assert_eq!(ModePreference::AutoOs.label(), "auto-os");
    assert_eq!(ModePreference::AutoTime.label(), "auto-time");
}

#[test]
fn mode_preference_next_chain() {
    let mut pref = Some(ModePreference::Dark);
    pref = pref.unwrap().next();
    assert_eq!(pref, Some(ModePreference::Light));
    pref = pref.unwrap().next();
    assert_eq!(pref, Some(ModePreference::AutoOs));
    pref = pref.unwrap().next();
    assert_eq!(pref, Some(ModePreference::AutoTime));
    let end = pref.unwrap().next();
    assert_eq!(end, None);
}

#[test]
fn app_config_default() {
    let config = AppConfig::default();
    assert!(config.active_collection.is_none());
    assert!(config.mode_preference.is_none());
    assert_eq!(config.dark_after, "19:00");
    assert_eq!(config.light_after, "07:00");
}

#[test]
fn normalize_collection_name_basic() {
    assert_eq!(
        normalize_collection_name("My Themes"),
        Some("my-themes".to_string())
    );
}

#[test]
fn normalize_collection_name_sanitizes_path_chars() {
    assert_eq!(
        normalize_collection_name("../../Favorites!!!"),
        Some("favorites".to_string())
    );
}

#[test]
fn normalize_collection_name_empty_rejected() {
    assert_eq!(normalize_collection_name("___---"), None);
}

#[test]
fn create_collection_fresh() {
    let coll = create_collection("My Themes", false).unwrap();
    assert_eq!(coll.name, "my-themes");
    assert!(coll.themes.is_empty());
    assert_eq!(coll.current_index, 0);
    assert!(matches!(coll.order, CycleOrder::Sequential));
    assert!(coll.interval.is_none());
}

#[test]
fn create_collection_empty_name_rejected() {
    let err = create_collection("   ", false).unwrap_err();
    assert_eq!(err, "Collection name cannot be empty");
}

#[test]
fn create_collection_unusable_name_rejected() {
    let err = create_collection("!!!", false).unwrap_err();
    assert_eq!(err, "Collection name must contain at least one letter or number");
}

#[test]
fn create_collection_existing_rejected() {
    let err = create_collection("My Themes", true).unwrap_err();
    assert_eq!(err, "Collection 'my-themes' already exists");
}
