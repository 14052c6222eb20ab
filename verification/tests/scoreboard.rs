use scorebar::scoreboard::{closest_game_index, now_unix, unix_timestamp};
use scorebar::scoreboard::{
    is_yet_to_play, lineup_slots, name_of, owned_roster, record_of, require_leagues,
    roster_with_id, seat_label, team_names, week_state, yet_to_play, Error, LineupSlot,
    WeekState,
};
use scorebar::sleeper::{
    Error as SleeperError, LeagueUser, LeagueUserMetadata, Player, PlayerId, PlayerIndex, Roster,
    RosterId, RosterSettings, UserId, EMPTY_STARTER,
};

#[test]
fn a_week_that_needs_a_word_gets_one() {
    assert_eq!(WeekState::InProgress.caption(), None);
    assert_eq!(WeekState::NotStarted.caption(), Some("Not started"));
    assert_eq!(WeekState::Final.caption(), Some("Final"));
    assert_eq!(WeekState::Bye.caption(), Some("Bye"));
    assert_eq!(WeekState::NoMatchup.caption(), Some("No matchup"));
}

// `week_state` takes what the two matchups say about the game: `None` for no
// opponent, and otherwise whether both sides are still on zero.

#[test]
fn a_week_with_no_opponent_is_a_bye() {
    assert_eq!(week_state(2, Some(1), None), WeekState::Bye);
    // Even once the league has scored the week: there was still nobody to
    // play, and that is the more useful thing to say.
    assert_eq!(week_state(2, Some(2), None), WeekState::Bye);
}

#[test]
fn a_scored_week_is_final() {
    // 22.4 against 19.1.
    assert_eq!(week_state(2, Some(2), Some(false)), WeekState::Final);
    // A league whose scoring has run past this week is still final.
    assert_eq!(week_state(2, Some(3), Some(false)), WeekState::Final);
    // One week short of it is not.
    assert_eq!(week_state(2, Some(1), Some(false)), WeekState::InProgress);
}

#[test]
fn a_week_of_zeros_has_not_kicked_off() {
    assert_eq!(week_state(2, Some(1), Some(true)), WeekState::NotStarted);
    // And with no last_scored_leg at all, which is what a league in its
    // first week sends.
    assert_eq!(week_state(1, None, Some(true)), WeekState::NotStarted);
}

/// The reason `NotStarted` is checked after `Final`: a week both managers
/// lost 0-0 is finished, not pending.
#[test]
fn a_scored_week_of_zeros_is_final_rather_than_pending() {
    assert_eq!(week_state(2, Some(2), Some(true)), WeekState::Final);
}

#[test]
fn a_live_week_is_in_progress() {
    // 22.4 against 8.0.
    assert_eq!(week_state(2, Some(1), Some(false)), WeekState::InProgress);
}

/// A lineup as the matchups payload gives it, reduced to what this module
/// reads: each starter, and whether he is on zero.
fn lineup(starters: &[(&str, f32)]) -> Vec<(PlayerId, bool)> {
    starters
        .iter()
        .map(|(id, points)| (PlayerId::from(*id), *points == 0.0))
        .collect()
}

#[test]
fn a_starter_on_zero_is_counted_as_still_to_play() {
    assert_eq!(yet_to_play(&lineup(&[("100", 22.4), ("200", 0.0), ("300", 0.0)])), 2);
}

/// The empty-slot marker is a slot a manager left open, not a player with
/// points coming.
#[test]
fn an_empty_lineup_slot_is_not_a_player_yet_to_play() {
    assert_eq!(yet_to_play(&lineup(&[("100", 22.4), ("0", 0.0), ("300", 0.0)])), 1);
    assert!(!is_yet_to_play(&PlayerId::from("0"), true));
    assert!(is_yet_to_play(&PlayerId::from("300"), true));
    assert!(!is_yet_to_play(&PlayerId::from("300"), false));
}

#[test]
fn a_finished_lineup_has_nobody_left_to_play() {
    assert_eq!(yet_to_play(&lineup(&[("100", 22.4), ("200", 9.1), ("300", 4.0)])), 0);
    assert_eq!(yet_to_play(&[]), 0);
}

#[test]
fn the_count_saturates_rather_than_wrapping() {
    let starters: Vec<(PlayerId, bool)> = (0..300).map(|n| (PlayerId::from(format!("{}", n + 1)), true)).collect();
    assert_eq!(yet_to_play(&starters), u8::MAX);
}

// ── Names and records ────────────────────────────────────────────────────────

fn member(id: &str, display: &str, team: Option<&str>) -> LeagueUser {
    LeagueUser {
        user_id: UserId::from(id),
        display_name: display.to_owned(),
        avatar: None,
        metadata: LeagueUserMetadata {
            team_name: team.map(str::to_owned),
            avatar: None,
        },
    }
}

fn roster(id: u32, owner: Option<&str>, wins: u32, losses: u32) -> Roster {
    Roster {
        roster_id: RosterId(id),
        owner_id: owner.map(UserId::from),
        players: Vec::new(),
        starters: Vec::new(),
        settings: RosterSettings {
            wins,
            losses,
            ..RosterSettings::default()
        },
    }
}

#[test]
fn a_card_names_both_sides_the_right_way_round() {
    let members = [member("1", "manager_one", Some("Team One")), member("2", "manager_two", None)];
    let rosters = [roster(1, Some("1"), 1, 0), roster(2, Some("2"), 0, 1)];
    let names = team_names(&members);
    assert_eq!(names.len(), 2);

    let mine = owned_roster(&rosters, &UserId::from("1")).expect("a roster");
    assert_eq!(rosters[mine].roster_id, RosterId(1));
    assert_eq!(name_of(&names, Some(&rosters[mine]), RosterId(1)), "Team One");
    assert_eq!(record_of(Some(&rosters[mine])), "1-0");

    let theirs = roster_with_id(&rosters, RosterId(2)).expect("the opponent's roster");
    // No team_name in this member's metadata, so the display name stands in
    // rather than a blank.
    assert_eq!(name_of(&names, Some(&rosters[theirs]), RosterId(2)), "manager_two");
    assert_eq!(record_of(Some(&rosters[theirs])), "0-1");
}

#[test]
fn a_league_the_user_has_no_roster_in_has_no_card() {
    let rosters = [roster(1, Some("1"), 1, 0), roster(2, Some("2"), 0, 1)];
    assert_eq!(owned_roster(&rosters, &UserId::from("999")), None);
}

#[test]
fn a_roster_nobody_can_name_is_named_by_its_number() {
    let names = team_names(&[member("1", "manager_one", None)]);
    let orphan = roster(7, None, 0, 0);
    let stranger = roster(8, Some("5"), 0, 0);
    assert_eq!(name_of(&names, Some(&orphan), RosterId(7)), "Roster 7");
    assert_eq!(name_of(&names, Some(&stranger), RosterId(8)), "Roster 8");
    assert_eq!(name_of(&names, None, RosterId(9)), "Roster 9");
    assert_eq!(record_of(None), "0-0");
    assert_eq!(roster_with_id(&[orphan], RosterId(1)), None);
}

#[test]
fn a_later_member_with_the_same_id_names_the_team() {
    let names = team_names(&[member("1", "first", None), member("1", "second", None)]);
    assert_eq!(name_of(&names, Some(&roster(1, Some("1"), 0, 0)), RosterId(1)), "second");
}

// ── Lineup rows ──────────────────────────────────────────────────────────────

fn positions(slots: &[&str]) -> Vec<String> {
    slots.iter().map(|slot| (*slot).to_owned()).collect()
}

fn ids(list: &[&str]) -> Vec<PlayerId> {
    list.iter().map(|id| PlayerId::from(*id)).collect()
}

/// A bye leaves the other half of every row empty rather than dropping the
/// rows: the lineup is still worth reading with nobody to compare it to.
#[test]
fn a_side_with_no_starters_leaves_half_the_row_empty() {
    let rows = lineup_slots(&positions(&["QB", "RB"]), &ids(&["1", "2"]), &[]);
    assert_eq!(rows.len(), 2);
    assert!(rows.iter().all(|row| row.mine));
    assert!(rows.iter().all(|row| !row.theirs));
}

/// The empty-slot marker is not a player. A manager who left a flex open gets
/// a blank half, not a row named `"0"`.
#[test]
fn the_empty_starter_marker_is_not_a_player() {
    let rows = lineup_slots(&positions(&["QB", "FLEX"]), &ids(&["1", EMPTY_STARTER]), &[]);
    assert!(rows[0].mine);
    assert!(!rows[1].mine);
    assert_eq!(seat_label(&PlayerId::from(EMPTY_STARTER), None), None);
}

#[test]
fn the_lineup_rows_are_the_starting_slots_in_order() {
    let rows = lineup_slots(
        &positions(&["QB", "RB", "SUPER_FLEX", "BN", "BN", "IR", "TAXI"]),
        &ids(&["1", "2", "3"]),
        &ids(&["4", "5"]),
    );
    assert_eq!(
        rows,
        vec![
            LineupSlot { position: "QB".to_owned(), mine: true, theirs: true },
            LineupSlot { position: "RB".to_owned(), mine: true, theirs: true },
            LineupSlot { position: "SUPER_FLEX".to_owned(), mine: true, theirs: false },
        ]
    );
}

/// With no player dictionary the rows still draw — as ids. Losing the names
/// must not cost the row.
#[test]
fn a_missing_dictionary_falls_back_to_the_id() {
    let label = seat_label(&PlayerId::from("4984"), None).expect("a player");
    assert_eq!(label.name, "4984");
    assert_eq!(label.team, "");
    assert_eq!(label.status, "");
}

/// And with one, the row carries the short name, the team and whatever
/// injury designation the player is under.
#[test]
fn a_dictionary_fills_in_the_name_the_team_and_the_designation() {
    let player = Player {
        player_id: PlayerId::from("4984"),
        first_name: Some("Example".to_owned()),
        last_name: Some("Player".to_owned()),
        position: Some("QB".to_owned()),
        team: Some("SF".to_owned()),
        fantasy_positions: vec!["QB".to_owned()],
        injury_status: Some("Questionable".to_owned()),
        injury_body_part: None,
        status: Some("Active".to_owned()),
        full_name: None,
    };
    let index = PlayerIndex::new(vec![(PlayerId::from("4984"), player)]);
    let label = seat_label(&PlayerId::from("4984"), Some(&index)).expect("a player");
    assert_eq!(label.name, "E. Player");
    assert_eq!(label.team, "SF");
    assert_eq!(label.status, "Questionable");

    // A player the dictionary has never heard of is still his id.
    let stranger = seat_label(&PlayerId::from("99999"), Some(&index)).expect("a player");
    assert_eq!(stranger.name, "99999");
    assert_eq!(stranger.team, "");
}

// ── Errors ───────────────────────────────────────────────────────────────────

#[test]
fn the_two_cases_core_adds_read_as_sentences() {
    let unknown = Error::UnknownUsername {
        username: "nobody".to_owned(),
    };
    assert_eq!(unknown.to_string(), "no sleeper account named \"nobody\"");

    let empty = Error::NoLeagues { season: 2026 };
    assert_eq!(
        empty.to_string(),
        "that account is not in any leagues for the 2026 season"
    );
}

/// A wrapped sleeper error does not gain a prefix on the way through.
#[test]
fn a_wrapped_sleeper_error_keeps_its_own_words() {
    let error = Error::from(SleeperError::Status {
        code: 503,
        endpoint: "/v1/state/nfl".to_owned(),
    });
    assert_eq!(error.to_string(), "sleeper answered 503 for /v1/state/nfl");
}

#[test]
fn only_sleeper_failures_are_worth_retrying() {
    assert!(Error::from(SleeperError::Status {
        code: 503,
        endpoint: "/v1/state/nfl".to_owned(),
    })
    .is_transient());
    assert!(!Error::from(SleeperError::NotFound {
        what: "user \"nobody\"".to_owned(),
    })
    .is_transient());
    assert!(!Error::UnknownUsername {
        username: "nobody".to_owned(),
    }
    .is_transient());
    assert!(!Error::NoLeagues { season: 2026 }.is_transient());
}

#[test]
fn a_not_found_user_is_the_users_typo() {
    let typo = Error::from_user_lookup(
        SleeperError::NotFound {
            what: "user \"nobdy\"".to_owned(),
        },
        "nobdy",
    );
    assert_eq!(typo.to_string(), "no sleeper account named \"nobdy\"");
    let outage = Error::from_user_lookup(
        SleeperError::Status {
            code: 502,
            endpoint: "/v1/user/nobdy".to_owned(),
        },
        "nobdy",
    );
    assert!(outage.is_transient());
    assert_eq!(outage.to_string(), "sleeper answered 502 for /v1/user/nobdy");
}

#[test]
fn an_empty_league_list_names_the_season() {
    assert!(require_leagues(3, 2026).is_ok());
    match require_leagues(0, 2025) {
        Err(error) => assert_eq!(
            error.to_string(),
            "that account is not in any leagues for the 2025 season"
        ),
        Ok(()) => panic!("no leagues is an error"),
    }
}

// ── The clock ────────────────────────────────────────────────────────────────

#[test]
fn the_clock_is_a_plain_unix_timestamp() {
    // Some time after this file was written and a long way before the 32-bit
    // rollover: enough to catch milliseconds or nanoseconds.
    assert!(now_unix() > 1_700_000_000, "{}", now_unix());
    assert!(now_unix() < 4_000_000_000, "{}", now_unix());
}

#[test]
fn a_clock_before_the_epoch_reads_as_zero() {
    assert_eq!(unix_timestamp(None), 0);
    assert_eq!(unix_timestamp(Some(1_757_530_800)), 1_757_530_800);
}

#[test]
fn the_closest_game_is_the_first_of_the_nearest() {
    use_closest(&[46, 2, 34], Some(1));
    // Nearest to even from either direction, and an exact tie keeps the
    // user's own order.
    use_closest(&[30, 6, 6], Some(1));
    use_closest(&[10, 10], Some(0));
    use_closest(&[], None);
}

fn use_closest(distances: &[u32], expected: Option<usize>) {
    assert_eq!(closest_game_index(distances), expected, "{distances:?}");
}
