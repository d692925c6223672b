use ghostty_styles::collection::{Collection, CollectionTheme, CycleOrder};
use ghostty_styles::daemon::{
    collection_status, daemon_status, parse_interval, plan_start, plan_stop, DaemonError,
    DaemonLiveness, PidLock,
};

fn ready_collection() -> Collection {
    Collection {
        name: "favorites".to_string(),
        themes: vec![CollectionTheme {
            slug: "nord".to_string(),
            title: "Nord".to_string(),
            is_dark: true,
            raw_config: "background = #2e3440".to_string(),
        }],
        current_index: 0,
        order: CycleOrder::Sequential,
        interval: Some("30m".to_string()),
    }
}

#[test]
fn parse_interval_accepts_units() {
    assert_eq!(parse_interval("30m"), Ok(1800));
    assert_eq!(parse_interval("1h"), Ok(3600));
    assert_eq!(parse_interval("90s"), Ok(90));
}

#[test]
fn parse_interval_rejects_bad_input() {
    assert!(parse_interval("0m").is_err());
    assert!(parse_interval("abc").is_err());
    assert!(parse_interval("").is_err());
}

#[test]
fn parse_interval_error_messages() {
    assert_eq!(parse_interval("").unwrap_err(), "Interval string is empty");
    assert_eq!(
        parse_interval("10x").unwrap_err(),
        "Invalid interval '10x': must end with 's', 'm', or 'h'"
    );
    assert_eq!(
        parse_interval("m").unwrap_err(),
        "Invalid interval 'm': could not parse number"
    );
    assert_eq!(
        parse_interval("0h").unwrap_err(),
        "Interval must be greater than zero"
    );
}

#[test]
fn plan_start_happy_path() {
    let coll = ready_collection();
    let plan = plan_start(&PidLock::Absent, Some(&coll)).unwrap();
    assert!(!plan.remove_stale);
    assert_eq!(plan.interval_secs, 1800);
}

#[test]
fn plan_start_clears_stale_lock() {
    let coll = ready_collection();
    let plan = plan_start(&PidLock::Held { pid: 4242, alive: false }, Some(&coll)).unwrap();
    assert!(plan.remove_stale);
}

#[test]
fn plan_start_blocked_by_live_daemon() {
    let coll = ready_collection();
    let err = plan_start(&PidLock::Held { pid: 4242, alive: true }, Some(&coll)).unwrap_err();
    assert!(matches!(err, DaemonError::AlreadyRunning { pid: 4242 }));
}

#[test]
fn plan_start_requires_active_collection() {
    let err = plan_start(&PidLock::Absent, None).unwrap_err();
    assert!(matches!(err, DaemonError::NoActiveCollection));
}

#[test]
fn plan_start_requires_interval() {
    let mut coll = ready_collection();
    coll.interval = None;
    let err = plan_start(&PidLock::Absent, Some(&coll)).unwrap_err();
    assert!(matches!(err, DaemonError::MissingInterval));
}

#[test]
fn plan_start_rejects_bad_interval() {
    let mut coll = ready_collection();
    coll.interval = Some("soon".to_string());
    let err = plan_start(&PidLock::Absent, Some(&coll)).unwrap_err();
    match err {
        DaemonError::InvalidInterval { message } => {
            assert!(message.contains("soon"));
        }
        other => panic!("expected InvalidInterval, got {:?}", other),
    }
}

#[test]
fn plan_start_requires_themes() {
    let mut coll = ready_collection();
    coll.themes.clear();
    let err = plan_start(&PidLock::Absent, Some(&coll)).unwrap_err();
    assert!(matches!(err, DaemonError::EmptyCollection));
}

#[test]
fn plan_stop_signals_live_daemon() {
    assert_eq!(plan_stop(&PidLock::Held { pid: 77, alive: true }).unwrap(), 77);
}

#[test]
fn plan_stop_without_daemon() {
    assert!(matches!(
        plan_stop(&PidLock::Absent).unwrap_err(),
        DaemonError::NotRunning
    ));
    assert!(matches!(
        plan_stop(&PidLock::Corrupt).unwrap_err(),
        DaemonError::CorruptPidFile
    ));
    assert!(matches!(
        plan_stop(&PidLock::Held { pid: 9, alive: false }).unwrap_err(),
        DaemonError::StaleLock { pid: 9 }
    ));
}

#[test]
fn daemon_status_classifies() {
    assert_eq!(daemon_status(&PidLock::Absent).unwrap(), DaemonLiveness::NotRunning);
    assert_eq!(
        daemon_status(&PidLock::Held { pid: 5, alive: true }).unwrap(),
        DaemonLiveness::Running { pid: 5 }
    );
    assert_eq!(
        daemon_status(&PidLock::Held { pid: 5, alive: false }).unwrap(),
        DaemonLiveness::Stale { pid: 5 }
    );
    assert!(daemon_status(&PidLock::Corrupt).is_err());
}

#[test]
fn collection_status_reports_current_theme() {
    let coll = ready_collection();
    let status = collection_status(&coll);
    assert_eq!(status.theme_count, 1);
    assert_eq!(status.interval.as_deref(), Some("30m"));
    assert_eq!(status.current_title.as_deref(), Some("Nord"));
}

#[test]
fn collection_status_empty_collection() {
    let mut coll = ready_collection();
    coll.themes.clear();
    let status = collection_status(&coll);
    assert_eq!(status.theme_count, 0);
    assert!(status.current_title.is_none());
}
