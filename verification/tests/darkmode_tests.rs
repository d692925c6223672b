use ghostty_styles::collection::ModePreference;
use ghostty_styles::darkmode::{parse_hhmm, resolve_mode, resolve_time, seconds_until_boundary};

#[test]
fn parse_hhmm_valid() {
    assert_eq!(parse_hhmm("07:00"), Some(420));
    assert_eq!(parse_hhmm("19:00"), Some(1140));
    assert_eq!(parse_hhmm("00:00"), Some(0));
    assert_eq!(parse_hhmm("23:59"), Some(1439));
}

#[test]
fn parse_hhmm_invalid() {
    assert_eq!(parse_hhmm("25:00"), None);
    assert_eq!(parse_hhmm("12:60"), None);
    assert_eq!(parse_hhmm("abc"), None);
    assert_eq!(parse_hhmm(""), None);
}

#[test]
fn seconds_until_boundary_returns_some() {
    let result = seconds_until_boundary("19:00", "07:00", 600);
    assert!(result.is_some());
    assert!(result.unwrap() > 0);
}

#[test]
fn seconds_until_boundary_exact() {
    // At 10:00, light (07:00) is 21 hours ahead and dark (19:00) is 9
    // hours ahead: the next boundary crossing is 9 hours away.
    assert_eq!(seconds_until_boundary("19:00", "07:00", 600), Some(9 * 3600));
    // At 20:00 the next boundary is light at 07:00, 11 hours ahead.
    assert_eq!(seconds_until_boundary("19:00", "07:00", 1200), Some(11 * 3600));
}

#[test]
fn seconds_until_boundary_malformed() {
    assert_eq!(seconds_until_boundary("25:00", "07:00", 600), None);
}

#[test]
fn resolve_time_normal_window() {
    // dark after 19:00, light after 07:00: 20:00 is dark, 08:00 is light.
    assert_eq!(resolve_time("19:00", "07:00", 20 * 60), Some(true));
    assert_eq!(resolve_time("19:00", "07:00", 8 * 60), Some(false));
}

#[test]
fn resolve_time_inverted_window() {
    // dark after 01:00, light after 09:00: 02:00 is dark, 10:00 is light.
    assert_eq!(resolve_time("01:00", "09:00", 2 * 60), Some(true));
    assert_eq!(resolve_time("01:00", "09:00", 10 * 60), Some(false));
}

#[test]
fn resolve_time_malformed_boundary() {
    assert_eq!(resolve_time("24:00", "07:00", 600), None);
    assert_eq!(resolve_time("19:00", "7", 600), None);
}

#[test]
fn resolve_mode_fixed_and_os() {
    assert_eq!(
        resolve_mode(&ModePreference::Dark, "19:00", "07:00", 600, None),
        Some(true)
    );
    assert_eq!(
        resolve_mode(&ModePreference::Light, "19:00", "07:00", 600, Some(true)),
        Some(false)
    );
    assert_eq!(
        resolve_mode(&ModePreference::AutoOs, "19:00", "07:00", 600, Some(true)),
        Some(true)
    );
    assert_eq!(
        resolve_mode(&ModePreference::AutoOs, "19:00", "07:00", 600, None),
        None
    );
}

#[test]
fn resolve_mode_auto_time() {
    assert_eq!(
        resolve_mode(&ModePreference::AutoTime, "19:00", "07:00", 20 * 60, None),
        Some(true)
    );
    assert_eq!(
        resolve_mode(&ModePreference::AutoTime, "19:00", "07:00", 8 * 60, None),
        Some(false)
    );
}
