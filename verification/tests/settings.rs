use scorebar::settings::{poll_interval, MIN_FETCH_GAP_SECONDS};
use std::time::Duration;

use scorebar::settings::{
    first_line, fixture_settings, MenuBarTitle, Settings, APP_DIR_NAME, DEFAULT_REFRESH_SECONDS,
    FILE_HEADER, FIXTURE_USERNAME, MIN_REFRESH_SECONDS,
};

#[test]
fn the_defaults_are_a_minute_the_closest_game_and_no_username() {
    let settings = Settings::default();
    assert_eq!(settings.sleeper_username, None);
    assert_eq!(settings.menu_bar_title, MenuBarTitle::ClosestGame);
    assert_eq!(settings.refresh_seconds, 60);
    assert!(!settings.is_configured());
}

/// The default is the cdn's own cache window; anything faster is wasted.
#[test]
fn the_default_refresh_matches_the_cdn_cache_window() {
    assert_eq!(DEFAULT_REFRESH_SECONDS, 60);
    assert_eq!(
        Settings::default().refresh_interval(),
        Duration::from_secs(60)
    );
}

#[test]
fn the_menu_bar_title_round_trips_through_its_string() {
    for title in MenuBarTitle::ALL {
        assert_eq!(MenuBarTitle::parse(title.as_config_str()), title);
    }
}

#[test]
fn title_names_parse_whatever_their_case() {
    assert_eq!(MenuBarTitle::parse("Record"), MenuBarTitle::Record);
    assert_eq!(MenuBarTitle::parse(" GLYPH_ONLY "), MenuBarTitle::GlyphOnly);
}

/// A value from a newer build is not a reason to refuse the file.
#[test]
fn an_unknown_title_falls_back_to_the_default() {
    assert_eq!(MenuBarTitle::parse("margin"), MenuBarTitle::ClosestGame);
}

#[test]
fn too_fast_a_refresh_is_clamped_to_the_floor() {
    let settings = Settings {
        refresh_seconds: 0,
        ..Settings::default()
    }
    .clamped();
    assert_eq!(settings.refresh_seconds, MIN_REFRESH_SECONDS);
    assert_eq!(
        settings.refresh_interval(),
        Duration::from_secs(MIN_REFRESH_SECONDS)
    );

    // A slower refresh than the default is the user's business.
    let slow = Settings {
        refresh_seconds: 600,
        ..Settings::default()
    }
    .clamped();
    assert_eq!(slow.refresh_seconds, 600);
}

/// A username of spaces is a half-finished edit, not a username.
#[test]
fn a_blank_username_reads_as_no_username() {
    let settings = Settings {
        sleeper_username: Some("   ".into()),
        ..Settings::default()
    }
    .clamped();
    assert_eq!(settings.sleeper_username, None);
    assert!(!settings.is_configured());

    let padded = Settings {
        sleeper_username: Some("  example_user \n".into()),
        ..Settings::default()
    };
    assert_eq!(padded.username(), Some("example_user"));
    assert_eq!(
        padded.clamped().sleeper_username.as_deref(),
        Some("example_user")
    );
}

#[test]
fn the_app_directory_is_named_for_the_app() {
    assert_eq!(APP_DIR_NAME, "scorebar");
}

// ── More cases ───────────────────────────────────────────────────────────────

#[test]
fn every_title_has_its_own_word_and_label() {
    assert_eq!(MenuBarTitle::ClosestGame.as_config_str(), "closest_game");
    assert_eq!(MenuBarTitle::Record.as_config_str(), "record");
    assert_eq!(MenuBarTitle::GlyphOnly.as_config_str(), "glyph_only");
    assert_eq!(MenuBarTitle::ClosestGame.label(), "Closest game");
    assert_eq!(MenuBarTitle::Record.label(), "Record");
    assert_eq!(MenuBarTitle::GlyphOnly.label(), "Icon only");
    assert_eq!(MenuBarTitle::default(), MenuBarTitle::ClosestGame);
}

#[test]
fn parsing_trims_and_ignores_ascii_case_only() {
    assert_eq!(MenuBarTitle::parse("\tRECORD\n"), MenuBarTitle::Record);
    assert_eq!(MenuBarTitle::parse("Glyph_Only"), MenuBarTitle::GlyphOnly);
    assert_eq!(MenuBarTitle::parse("closest_game"), MenuBarTitle::ClosestGame);
    assert_eq!(MenuBarTitle::parse(""), MenuBarTitle::ClosestGame);
    assert_eq!(MenuBarTitle::parse("re cord"), MenuBarTitle::ClosestGame);
}

/// Clamping twice is clamping once, and the title rides through untouched.
#[test]
fn clamping_settles_after_one_pass() {
    let settings = Settings {
        sleeper_username: Some("\u{a0} someone \u{3000}".into()),
        menu_bar_title: MenuBarTitle::Record,
        refresh_seconds: 3,
    };
    let once = settings.clone().clamped();
    let twice = once.clone().clamped();
    assert_eq!(once, twice);
    assert_eq!(once.sleeper_username.as_deref(), Some("someone"));
    assert_eq!(once.menu_bar_title, MenuBarTitle::Record);
    assert_eq!(once.refresh_seconds, 15);
    assert_eq!(settings.username(), once.username());
}

#[test]
fn the_interval_is_floored_even_without_clamping() {
    let fast = Settings {
        refresh_seconds: 1,
        ..Settings::default()
    };
    assert_eq!(fast.refresh_interval(), Duration::from_secs(15));
    let exact = Settings {
        refresh_seconds: 15,
        ..Settings::default()
    };
    assert_eq!(exact.refresh_interval(), Duration::from_secs(15));
    let slow = Settings {
        refresh_seconds: 900,
        ..Settings::default()
    };
    assert_eq!(slow.refresh_interval(), Duration::from_secs(900));
}

#[test]
fn a_set_username_makes_the_settings_configured() {
    let settings = Settings {
        sleeper_username: Some("manager_a".into()),
        ..Settings::default()
    };
    assert!(settings.is_configured());
    assert_eq!(settings.username(), Some("manager_a"));
}

#[test]
fn only_the_first_line_of_a_message_is_kept() {
    assert_eq!(
        first_line("TOML parse error at line 1, column 18\n  |\n1 | menu_bar_title = \n  |     ^\n"),
        "TOML parse error at line 1, column 18"
    );
    assert_eq!(first_line("  one line  "), "one line");
    assert_eq!(first_line("windows line\r\nsecond"), "windows line");
    assert_eq!(first_line(""), "");
    assert_eq!(first_line("\nafter a blank first line"), "");
}

#[test]
fn the_fixture_settings_name_the_example_manager() {
    let settings = fixture_settings();
    assert_eq!(settings.username(), Some(FIXTURE_USERNAME));
    assert_eq!(settings.menu_bar_title, MenuBarTitle::ClosestGame);
    assert_eq!(settings.refresh_seconds, DEFAULT_REFRESH_SECONDS);
}

#[test]
fn the_file_header_is_a_block_of_comments() {
    assert!(FILE_HEADER.lines().all(|line| line.starts_with('#')));
    assert!(FILE_HEADER.ends_with('\n'));
}

/// The floor is the cdn's cache window, whatever the file asks for.
#[test]
fn the_poll_interval_never_goes_below_the_cdn_floor() {
    assert_eq!(Duration::from_secs(MIN_FETCH_GAP_SECONDS), Duration::from_secs(60));
    assert_eq!(
        poll_interval(&Settings {
            refresh_seconds: 15,
            ..Settings::default()
        }),
        Duration::from_secs(MIN_FETCH_GAP_SECONDS)
    );
    assert_eq!(
        poll_interval(&Settings {
            refresh_seconds: 900,
            ..Settings::default()
        }),
        Duration::from_secs(900)
    );
}
