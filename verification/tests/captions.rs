use scorebar::captions::{
    checked_refresh, day_label, empty_line, is_starting_slot, notice_text, percent_text,
    projection_line, projection_text, score_line, slot_label, starting_slots, truncate,
    week_label, week_record, win_line, Outcome, Weekday, APP_NAME, CONFIG_FILE_NOTE,
    LOADING_LINE, NO_LEAGUES_LINE, NO_SCORES_LINE, NO_USERNAME_LINE, REFRESH_CHOICES, SLEEPER_URL,
    TAB_CHARS,
};
use scorebar::settings::MIN_REFRESH_SECONDS;

/// Every offered interval ticks itself, and anything else ticks the nearest
/// one below it rather than nothing.
#[test]
fn the_refresh_rows_always_have_exactly_one_tick() {
    for (seconds, _) in REFRESH_CHOICES {
        assert_eq!(checked_refresh(seconds), seconds);
    }
    assert_eq!(checked_refresh(120), 60);
    assert_eq!(checked_refresh(3_600), 900);
    // Below the shortest offer — a hand-edited file — still ticks one.
    assert_eq!(checked_refresh(MIN_REFRESH_SECONDS), REFRESH_CHOICES[0].0);
    assert!(REFRESH_CHOICES
        .iter()
        .all(|(seconds, _)| *seconds >= MIN_REFRESH_SECONDS));
}

#[test]
fn the_sleeper_row_opens_the_league_list() {
    assert_eq!(SLEEPER_URL, "https://sleeper.com/leagues");
}

/// The note has to name a path the user can find without knowing whose
/// home directory it is.
#[test]
fn the_config_note_is_a_tilde_path() {
    assert!(CONFIG_FILE_NOTE.starts_with("Opens ~/"));
    assert!(CONFIG_FILE_NOTE.ends_with("config.toml"));
}

#[test]
fn the_header_names_the_week_or_the_app() {
    assert_eq!(week_label(Some(2)), "Week 2");
    assert_eq!(week_label(Some(14)), "Week 14");
    assert_eq!(week_label(None), APP_NAME);
    assert_eq!(day_label(Weekday::Sun), "Sunday");
    assert_eq!(day_label(Weekday::Thu), "Thursday");
}

/// No failure, no notice: a healthy popover has nothing under its header.
#[test]
fn a_good_fetch_says_nothing() {
    assert_eq!(notice_text(None, Some("from 12:00 PM")), None);
    assert_eq!(notice_text(None, None), None);
}

/// A failure with numbers behind it says both what broke and how old they
/// are; a failure with nothing behind it says only what broke.
#[test]
fn a_failed_fetch_dates_the_numbers_it_left_up() {
    let line = notice_text(Some("Offline"), Some("from 10:00 AM")).expect("a notice");
    assert!(line.starts_with("Offline · from "), "{line}");
    assert!(line.contains("10:00"), "{line}");

    assert_eq!(
        notice_text(Some("Offline"), None).as_deref(),
        Some("Offline")
    );
}

#[test]
fn the_meter_is_the_printed_percentage() {
    assert_eq!(percent_text(54), "54%");
    assert_eq!(percent_text(0), "0%");
    assert_eq!(percent_text(100), "100%");
}

#[test]
fn the_projection_caption_reads_as_a_scoreline() {
    assert_eq!(projection_text("131.6", "79.0"), "proj 131.6 – 79.0");
}

#[test]
fn the_caption_drops_the_count_once_everyone_has_played() {
    assert_eq!(projection_line("131.6", 5), "proj 131.6 · 5 to play");
    assert_eq!(projection_line("131.6", 0), "proj 131.6");
}

#[test]
fn a_name_that_fits_is_left_alone() {
    assert_eq!(truncate("J. Player", 20), "J. Player");
    assert_eq!(truncate("J. Player", 9), "J. Player");
    assert_eq!(truncate("", 4), "");
}

#[test]
fn a_name_that_does_not_fit_is_cut_to_the_budget() {
    // Nine characters of budget: eight kept plus the ellipsis.
    assert_eq!(truncate("A Very Long Name", 9), "A Very L\u{2026}");
    assert_eq!(truncate("A Very Long Name", 9).chars().count(), 9);
    // A cut that lands on a space does not leave it dangling before the
    // ellipsis.
    assert_eq!(truncate("A Very Long Name", 8), "A Very\u{2026}");
    assert_eq!(truncate("anything", 0), "");
}

/// Counted in characters, so a name with an accent in it is cut where it
/// looks like it should be and never panics on a byte boundary.
#[test]
fn truncation_counts_characters_rather_than_bytes() {
    assert_eq!(truncate("Ramírez", 7), "Ramírez");
    assert_eq!(truncate("Ramírez", 5), "Ramí\u{2026}");
}

/// A tab is cut the same way, so a committee-named league cannot push the
/// row onto a second line.
#[test]
fn a_long_league_name_is_cut_in_its_tab() {
    let long = "A".repeat(40);
    assert_eq!(truncate(&long, TAB_CHARS).chars().count(), TAB_CHARS);
}

/// The label is the league's own word for the slot, so a superflex league
/// says superflex.
#[test]
fn a_slot_is_labelled_the_way_its_league_spells_it() {
    assert_eq!(slot_label("QB"), "QB");
    assert_eq!(slot_label("SUPER_FLEX"), "SUPERFLEX");
    assert_eq!(slot_label("FLEX"), "FLEX");
    assert_eq!(slot_label("WRRB_FLEX"), "FLEX");
    assert_eq!(slot_label("REC_FLEX"), "REC FLEX");
    assert_eq!(slot_label("DEF"), "DST");
    // Unknown slots keep their own name rather than vanishing.
    assert_eq!(slot_label("TAXI_SPOT"), "TAXI SPOT");
}

fn slots(positions: &[&str]) -> Vec<String> {
    positions.iter().map(|slot| (*slot).to_owned()).collect()
}

/// The bench is not a lineup. Everything after the starting slots has to be
/// dropped, or the window draws a dozen empty rows under the real ones.
#[test]
fn only_the_starting_slots_become_rows() {
    let rows = starting_slots(&slots(&["QB", "RB", "SUPER_FLEX", "BN", "BN", "IR", "TAXI"]));
    assert_eq!(rows.len(), 3);
    assert_eq!(rows, vec!["QB", "RB", "SUPER_FLEX"]);
}

/// The league's own word for the slot survives: a superflex league says
/// `SUPER_FLEX`, not this view's guess at it.
#[test]
fn the_slot_keeps_the_leagues_own_spelling() {
    let rows = starting_slots(&slots(&["SUPER_FLEX"]));
    assert_eq!(rows[0], "SUPER_FLEX");
}

#[test]
fn the_record_counts_the_leagues_being_won() {
    let outcomes = [
        Some(Outcome::Ahead),
        Some(Outcome::Ahead),
        Some(Outcome::Behind),
    ];
    assert_eq!(week_record(&outcomes), "2–1");
}

/// A level game is its own column rather than being rounded into a win or a
/// loss.
#[test]
fn a_level_game_is_counted_as_a_tie() {
    assert_eq!(
        week_record(&[Some(Outcome::Ahead), Some(Outcome::Level)]),
        "1–0–1"
    );
}

/// A bye is not a game, so it changes no column.
#[test]
fn a_bye_is_left_out_of_the_record() {
    assert_eq!(week_record(&[Some(Outcome::Ahead), None]), "1–0");
}

// ── More cases ───────────────────────────────────────────────────────────────

#[test]
fn an_interval_between_offers_ticks_the_one_below() {
    assert_eq!(checked_refresh(0), 60);
    assert_eq!(checked_refresh(59), 60);
    assert_eq!(checked_refresh(299), 60);
    assert_eq!(checked_refresh(301), 300);
    assert_eq!(checked_refresh(899), 300);
    assert_eq!(checked_refresh(u64::MAX), 900);
    assert_eq!(REFRESH_CHOICES[0].1, "1 minute");
    assert_eq!(REFRESH_CHOICES[2].1, "15 minutes");
}

#[test]
fn every_day_is_spelled_out() {
    let days = [
        (Weekday::Mon, "Monday"),
        (Weekday::Tue, "Tuesday"),
        (Weekday::Wed, "Wednesday"),
        (Weekday::Thu, "Thursday"),
        (Weekday::Fri, "Friday"),
        (Weekday::Sat, "Saturday"),
        (Weekday::Sun, "Sunday"),
    ];
    for (day, name) in days {
        assert_eq!(day_label(day), name);
    }
}

#[test]
fn the_win_line_is_a_whole_percent() {
    assert_eq!(win_line(96), "96% win");
    assert_eq!(win_line(0), "0% win");
}

#[test]
fn a_score_line_without_an_opponent_is_one_score() {
    assert_eq!(score_line("82.10", Some("79.66")), "82.10 – 79.66");
    assert_eq!(score_line("104.30", None), "104.30");
}

#[test]
fn the_empty_line_says_what_to_do_next() {
    assert_eq!(empty_line(false, true, true), NO_USERNAME_LINE);
    assert_eq!(empty_line(true, true, true), LOADING_LINE);
    assert_eq!(empty_line(true, false, true), NO_SCORES_LINE);
    assert_eq!(empty_line(true, false, false), NO_LEAGUES_LINE);
}

#[test]
fn a_cut_never_exceeds_the_budget() {
    for max in 0..12 {
        for text in ["", "a", "ab cd", "  spaced   out  ", "Ramírez Jr.", "déjà vu"] {
            let cut = truncate(text, max);
            assert!(cut.chars().count() <= max, "{text:?} at {max}: {cut:?}");
            if text.chars().count() <= max {
                assert_eq!(cut, text);
            } else if max > 0 {
                assert!(cut.ends_with('\u{2026}'));
            }
        }
    }
    // Cutting to one character leaves only the ellipsis.
    assert_eq!(truncate("abc", 1), "\u{2026}");
}

#[test]
fn no_slot_label_keeps_an_underscore() {
    for slot in ["IDP_FLEX", "DST", "K", "WR_TE", "_", "A__B", "BN"] {
        assert!(!slot_label(slot).contains('_'), "{slot}");
    }
    assert_eq!(slot_label("IDP_FLEX"), "IDP");
    assert_eq!(slot_label("DST"), "DST");
    assert_eq!(slot_label("A__B"), "A  B");
}

#[test]
fn the_bench_reserve_and_taxi_are_not_starting_slots() {
    assert!(!is_starting_slot("BN"));
    assert!(!is_starting_slot("IR"));
    assert!(!is_starting_slot("TAXI"));
    assert!(is_starting_slot("QB"));
    assert!(is_starting_slot("bn"));
    assert!(starting_slots(&[]).is_empty());
    assert_eq!(
        starting_slots(&slots(&["BN", "QB", "IR", "WR"])),
        vec!["QB", "WR"]
    );
}

#[test]
fn a_week_of_byes_is_nothing_to_nothing() {
    assert_eq!(week_record(&[]), "0–0");
    assert_eq!(week_record(&[None, None]), "0–0");
    assert_eq!(
        week_record(&[Some(Outcome::Level), Some(Outcome::Behind)]),
        "0–1–1"
    );
}
