use scorebar::refresh::{current_notice, fetch_due, username_changed, Week};
use scorebar::settings::Settings;

#[test]
fn a_poll_inside_the_cdn_window_reuses_what_is_on_screen() {
    assert!(fetch_due(true, false, false, None));
    assert!(!fetch_due(true, false, false, Some(59)));
    assert!(fetch_due(true, false, false, Some(60)));
    assert!(fetch_due(true, false, false, Some(3_600)));
}

#[test]
fn a_forced_refresh_skips_the_window_but_not_a_fetch_in_flight() {
    assert!(fetch_due(true, false, true, Some(1)));
    assert!(!fetch_due(true, true, true, Some(1)));
    assert!(!fetch_due(true, true, false, None));
}

#[test]
fn with_no_username_nothing_is_fetched() {
    assert!(!fetch_due(false, false, true, None));
    assert!(!fetch_due(false, false, false, None));
}

fn named(name: Option<&str>) -> Settings {
    Settings {
        sleeper_username: name.map(str::to_owned),
        ..Settings::default()
    }
}

#[test]
fn a_new_username_is_a_new_account_but_new_spacing_is_not() {
    assert!(username_changed(&named(Some("a")), &named(Some("b"))));
    assert!(!username_changed(&named(Some("a")), &named(Some("  a "))));
    assert!(username_changed(&named(None), &named(Some("a"))));
    assert!(!username_changed(&named(None), &named(Some("   "))));
    assert!(username_changed(&named(Some("a")), &named(None)));
}

#[test]
fn a_fetch_error_owns_the_notice_line() {
    assert_eq!(
        current_notice(Some("Offline".to_owned()), Some("config.toml ignored".to_owned())),
        Some("Offline".to_owned())
    );
    assert_eq!(
        current_notice(None, Some("config.toml ignored".to_owned())),
        Some("config.toml ignored".to_owned())
    );
    assert_eq!(current_notice(None, None), None);
}

#[test]
fn a_failed_fetch_never_blanks_the_week() {
    let week: Week<u32> = Week::from_cache(Some(7));
    assert!(!week.is_stale());
    let week = week.after_fetch(Err("Offline".to_owned()));
    assert_eq!(week.snapshot, Some(7));
    assert_eq!(week.error.as_deref(), Some("Offline"));
    assert!(week.is_stale());
    let week = week.after_fetch(Err("Still offline".to_owned()));
    assert_eq!(week.snapshot, Some(7));
    let week = week.after_fetch(Ok(8));
    assert_eq!(week.snapshot, Some(8));
    assert_eq!(week.error, None);
    let week = week.invalidate();
    assert_eq!(week.snapshot, None);
    let empty: Week<u32> = Week::empty();
    let failed = empty.after_fetch(Err("Offline".to_owned()));
    assert_eq!(failed.snapshot, None);
    assert!(!failed.is_stale());
}
