use scorebar::sleeper::model::is_projected_stat_set;
use scorebar::sleeper::endpoint::{base_url_from, check_status, required};
use scorebar::sleeper::error::HttpFailure;
use scorebar::sleeper::model::avatar_url;
use scorebar::sleeper::{
    pair_for_roster, pairs, starter_points, Error, LeagueId, LeagueSettings, LeagueUser,
    LeagueUserMetadata, Player, PlayerId, PlayerIndex, Position, Request, Roster,
    RosterId, RosterSettings, State, User, UserId, DEFAULT_BASE_URL, EMPTY_STARTER,
};

fn state(season: &str) -> State {
    State {
        week: 2,
        season: season.to_owned(),
        season_type: "regular".to_owned(),
        display_week: Some(2),
        season_start_date: Some("2026-09-10".to_owned()),
        leg: Some(2),
    }
}

#[test]
fn state_carries_the_week_everything_hangs_off() {
    let state = state("2026");
    assert_eq!(state.week, 2);
    assert_eq!(state.season, "2026");
    assert_eq!(state.season_type, "regular");
    assert_eq!(state.display_week, Some(2));
    assert_eq!(state.leg, Some(2));
    assert_eq!(state.season_year(), Some(2026));
}

#[test]
fn user_keeps_the_id_and_expands_the_avatar_hash() {
    let user = User {
        user_id: UserId::from("100000000000000001"),
        username: Some("manager_a".to_owned()),
        display_name: "manager_a".to_owned(),
        avatar: Some("11111111111111111111111111111111".to_owned()),
    };
    assert_eq!(user.user_id.as_str(), "100000000000000001");
    assert_eq!(user.display_name, "manager_a");
    assert_eq!(
        user.avatar_url().as_deref(),
        Some("https://sleepercdn.com/avatars/11111111111111111111111111111111")
    );
}

fn member(id: &str, display: &str, team: Option<&str>, hash: Option<&str>, url: Option<&str>) -> LeagueUser {
    LeagueUser {
        user_id: UserId::from(id),
        display_name: display.to_owned(),
        avatar: hash.map(str::to_owned),
        metadata: LeagueUserMetadata {
            team_name: team.map(str::to_owned),
            avatar: url.map(str::to_owned),
        },
    }
}

#[test]
fn league_users_fall_back_to_the_display_name_without_a_team_name() {
    let users = [
        member("1", "manager_a", None, None, None),
        member("2", "manager_c", Some("Team C"), None, None),
    ];
    assert_eq!(users[0].metadata.team_name, None);
    assert_eq!(users[0].team_name(), "manager_a");
    assert_eq!(users[1].team_name(), "Team C");
}

/// The two avatar conventions: a bare hash needs the cdn prefix, a metadata
/// avatar is already a url and must be left alone.
#[test]
fn a_metadata_avatar_url_wins_over_the_account_hash() {
    let hash = "11111111111111111111111111111111";
    let plain = member("1", "manager_a", None, Some(hash), None);
    let custom = member(
        "4",
        "manager_h",
        None,
        Some(hash),
        Some("https://example.invalid/avatars/manager_h.png"),
    );
    assert_eq!(
        plain.avatar_url().as_deref(),
        Some("https://sleepercdn.com/avatars/11111111111111111111111111111111")
    );
    assert_eq!(
        custom.avatar_url().as_deref(),
        Some("https://example.invalid/avatars/manager_h.png")
    );
}

fn roster(id: u32, owner: Option<&str>, starters: &[&str], wins: u32, losses: u32, ties: u32) -> Roster {
    Roster {
        roster_id: RosterId(id),
        owner_id: owner.map(UserId::from),
        players: starters
            .iter()
            .filter(|id| **id != EMPTY_STARTER)
            .map(|id| PlayerId::from(*id))
            .collect(),
        starters: starters.iter().map(|id| PlayerId::from(*id)).collect(),
        settings: RosterSettings {
            wins,
            losses,
            ties,
            ..RosterSettings::default()
        },
    }
}

/// `"0"` is not a player id. It is an empty lineup slot and it is never in
/// `players`, so anything that looks it up has to check first.
#[test]
fn a_starters_list_can_hold_an_empty_slot() {
    let first = roster(1, Some("1"), &["4984", "4866", "9493", "0", "11604"], 0, 1, 0);
    assert_eq!(first.starters.len(), 5);
    assert!(first.starters[3].is_empty_slot());
    assert!(!first.players.contains(&first.starters[3]));
    assert!(!first.starters[0].is_empty_slot());
}

#[test]
fn a_sparse_roster_has_a_zero_record() {
    let sparse = Roster {
        roster_id: RosterId(3),
        owner_id: None,
        players: Vec::new(),
        starters: Vec::new(),
        settings: RosterSettings::default(),
    };
    assert!(sparse.players.is_empty());
    assert_eq!(sparse.owner_id, None);
    assert_eq!(sparse.settings.record(), "0-0");
}

#[test]
fn a_record_carries_ties_only_when_there_are_some() {
    assert_eq!(roster(1, None, &[], 0, 1, 0).settings.record(), "0-1");
    assert_eq!(roster(1, None, &[], 10, 3, 1).settings.record(), "10-3-1");
}

fn ids(list: &[&str]) -> Vec<PlayerId> {
    list.iter().map(|id| PlayerId::from(*id)).collect()
}

/// The lists are not guaranteed to be the same length. A plain zip would
/// truncate the lineup and shift every slot label after the gap.
#[test]
fn starter_points_survives_mismatched_lengths() {
    let starters = ids(&["1", "2", "3", "8148", "5", "6", "7", "8", "9", "10", "11", "12"]);
    let points: Vec<f32> = vec![10.0, 2.5, 7.0, 5.3];
    let short = starter_points(&starters, &points, 0.0);
    assert_eq!(short.len(), 12, "every slot still gets a row");
    assert!((short[3].1 - 5.3).abs() < 0.001);
    assert_eq!(short[11].1, 0.0, "a slot with no score reads as zero");

    let long = starter_points(&starters, &vec![1.0f32; 20], 0.0);
    assert_eq!(long.len(), 12, "scores past the last slot are dropped");

    assert!(starter_points(&Vec::new(), &points, 0.0).is_empty());
}

#[test]
fn starter_points_pair_each_slot_with_its_score() {
    let starters = ids(&["1", "2", "3", "8148", "5", "6", "7"]);
    let points: Vec<f32> = vec![1.0, 2.0, 3.0, 5.3, 4.0, 6.5, 7.0];
    let lineup = starter_points(&starters, &points, 0.0);
    assert_eq!(lineup.len(), 7);
    assert_eq!(lineup[3].0.as_str(), "8148");
    assert!((lineup[3].1 - 5.3).abs() < 0.001);
    assert!((lineup[6].1 - 7.0).abs() < 0.001);
}

/// A week of six rosters in three games, in the order Sleeper lists them.
fn week() -> Vec<(RosterId, Option<u32>)> {
    vec![
        (RosterId(1), Some(4)),
        (RosterId(2), Some(3)),
        (RosterId(3), Some(1)),
        (RosterId(4), Some(1)),
        (RosterId(8), Some(4)),
        (RosterId(6), Some(3)),
    ]
}

fn roster_at(entries: &[(RosterId, Option<u32>)], slot: usize) -> RosterId {
    entries[slot].0
}

#[test]
fn matchups_group_into_head_to_head_pairs() {
    let entries = week();
    let pairs = pairs(&entries);
    assert_eq!(pairs.len(), 3);

    let ids: Vec<Option<u32>> = pairs.iter().map(|pair| pair.matchup_id).collect();
    assert_eq!(ids, vec![Some(4), Some(3), Some(1)]);

    let first = &pairs[0];
    assert_eq!(roster_at(&entries, first.home), RosterId(1));
    assert_eq!(first.away.map(|away| roster_at(&entries, away)), Some(RosterId(8)));
    assert!(first.contains(&entries, RosterId(8)));
    assert!(!first.contains(&entries, RosterId(2)));
}

#[test]
fn pair_for_roster_puts_the_roster_asked_for_on_the_home_side() {
    let entries = week();
    let pair = pair_for_roster(&entries, RosterId(8)).expect("roster 8 plays somebody");
    assert_eq!(roster_at(&entries, pair.home), RosterId(8));
    assert_eq!(pair.away.map(|away| roster_at(&entries, away)), Some(RosterId(1)));
    assert_eq!(pair.matchup_id, Some(4));
    assert_eq!(
        pair.opponent_of(&entries, RosterId(8)).map(|other| roster_at(&entries, other)),
        Some(RosterId(1))
    );

    assert!(pair_for_roster(&entries, RosterId(99)).is_none());
}

/// An odd team out and a bye are both normal. Neither may drop a roster.
#[test]
fn an_unpaired_roster_still_comes_back() {
    let mut entries = week();
    entries.truncate(5);
    let odd = pairs(&entries);
    assert_eq!(odd.len(), 3, "five rosters still make three rows");
    let lonely = odd
        .iter()
        .find(|pair| pair.away.is_none())
        .expect("the odd roster out is still here");
    assert_eq!(roster_at(&entries, lonely.home), RosterId(2));
    assert!(lonely.opponent_of(&entries, RosterId(2)).is_none());
    assert!(lonely.opponent_of(&entries, RosterId(1)).is_none());

    // Rosters with no matchup_id are each on a bye, not playing each other.
    for entry in &mut entries {
        entry.1 = None;
    }
    let byes = pairs(&entries);
    assert_eq!(byes.len(), 5);
    assert!(byes.iter().all(|pair| pair.away.is_none()));
}

#[test]
fn every_roster_lands_in_exactly_one_pairing() {
    let entries = vec![
        (RosterId(5), Some(2)),
        (RosterId(7), None),
        (RosterId(1), Some(2)),
        (RosterId(2), Some(9)),
        (RosterId(3), Some(2)),
    ];
    let all = pairs(&entries);
    for slot in 0..entries.len() {
        let holding = all
            .iter()
            .filter(|pair| pair.home == slot || pair.away == Some(slot))
            .count();
        assert_eq!(holding, 1, "slot {slot}");
    }
    // A third roster on the same id starts a pairing of its own.
    assert_eq!(all.len(), 4);
    let alone = pair_for_roster(&entries, RosterId(7)).expect("a bye still comes back");
    assert_eq!(alone.away, None);
    assert_eq!(alone.matchup_id, None);
}

#[test]
fn ids_of_different_kinds_are_different_types() {
    let player = PlayerId::from("4984");
    assert_eq!(player.to_string(), "4984");
    assert_eq!(PlayerId::from(String::from("4984")), player);
    assert_eq!(RosterId::from(1u32).to_string(), "1");
    assert_eq!(Position::DEF.as_str(), "DEF");
    assert_eq!(Position::ALL.len(), 6);
}

#[test]
fn ids_spell_themselves_and_compare_by_their_text() {
    assert_eq!(LeagueId::from("200000000000000001").as_str(), "200000000000000001");
    assert_eq!(UserId::new("42").to_string(), "42");
    assert!(PlayerId::new("0").is_empty_slot());
    assert!(!PlayerId::new("00").is_empty_slot());
    assert!(PlayerId::new("4984").same(&PlayerId::from("4984")));
    assert_eq!(RosterId(12).to_string(), "12");
    let names: Vec<&str> = Position::ALL.iter().map(Position::as_str).collect();
    assert_eq!(names, vec!["QB", "RB", "WR", "TE", "K", "DEF"]);
}

#[test]
fn a_season_that_is_not_a_year_has_no_number() {
    assert_eq!(state("2025").season_year(), Some(2025));
    assert_eq!(state("twenty").season_year(), None);
    assert_eq!(state("").season_year(), None);
    assert_eq!(state("70000").season_year(), None);
    assert_eq!(state("+2026").season_year(), Some(2026));
}

#[test]
fn a_hash_becomes_a_cdn_url() {
    assert_eq!(avatar_url("abc"), "https://sleepercdn.com/avatars/abc");
    let bare = member("9", "manager_z", Some("   "), None, None);
    assert_eq!(bare.avatar_url(), None);
    assert_eq!(bare.team_name(), "manager_z");
    assert_eq!(LeagueSettings::default().last_scored_leg, None);
}

fn player(
    id: &str,
    first: Option<&str>,
    last: Option<&str>,
    position: Option<&str>,
    full: Option<&str>,
) -> Player {
    Player {
        player_id: PlayerId::from(id),
        first_name: first.map(str::to_owned),
        last_name: last.map(str::to_owned),
        position: position.map(str::to_owned),
        team: None,
        fantasy_positions: position.map(|p| vec![p.to_owned()]).unwrap_or_default(),
        injury_status: None,
        injury_body_part: None,
        status: None,
        full_name: full.map(str::to_owned),
    }
}

fn index() -> PlayerIndex {
    let mut allen = player("4984", Some("Josh"), Some("Allen"), Some("QB"), Some("Josh Allen"));
    allen.team = Some("BUF".to_owned());
    allen.status = Some("Active".to_owned());
    let mut nacua = player("9493", Some("Puka"), Some("Nacua"), Some("WR"), Some("Puka Nacua"));
    nacua.injury_status = Some("Questionable".to_owned());
    nacua.injury_body_part = Some("Hip".to_owned());
    let bills = player("BUF", Some("Buffalo"), Some("Bills"), Some("DEF"), None);
    PlayerIndex::new(vec![
        (PlayerId::from("4984"), allen),
        (PlayerId::from("9493"), nacua),
        (PlayerId::from("BUF"), bills),
    ])
}

#[test]
fn a_team_defense_has_almost_none_of_a_players_fields() {
    let index = index();
    let bills = index.get(&PlayerId::from("BUF")).expect("bills defense");
    assert_eq!(bills.full_name, None);
    assert_eq!(bills.status, None);
    assert!(bills.is_defense());
    assert_eq!(bills.name(), "Buffalo Bills");
    assert_eq!(bills.short_name(), "Bills D/ST");
}

#[test]
fn injuries_and_free_agency_survive_the_trim() {
    let index = index();
    let nacua = index.get(&PlayerId::from("9493")).expect("an injured wr");
    assert_eq!(nacua.injury_status.as_deref(), Some("Questionable"));
    assert_eq!(nacua.injury_body_part.as_deref(), Some("Hip"));
    assert!(nacua.is_injured());
    let allen = index.get(&PlayerId::from("4984")).expect("josh allen");
    assert!(!allen.is_injured());
    assert!(!allen.is_defense());
}

#[test]
fn a_missing_id_falls_back_rather_than_failing() {
    let index = index();
    assert_eq!(index.short_name(&PlayerId::from("4984")), "J. Allen");
    // A rookie signed since the cache was written.
    assert_eq!(index.short_name(&PlayerId::from("99999")), "99999");
    assert_eq!(index.name(&PlayerId::from("99999")), "99999");
    // The "0" an empty lineup slot holds is not a lookup miss.
    assert_eq!(index.short_name(&PlayerId::from("0")), "—");
    assert_eq!(index.name(&PlayerId::from("0")), "—");
}

#[test]
fn retaining_the_rostered_players_shrinks_the_index() {
    let mut index = index();
    assert_eq!(index.len(), 3);
    index.retain(&[PlayerId::from("4984"), PlayerId::from("BUF")]);
    assert_eq!(index.len(), 2);
    assert!(index.get(&PlayerId::from("9493")).is_none());
    assert_eq!(index.iter().count(), 2);
}

#[test]
fn a_later_entry_for_the_same_id_wins() {
    let first = player("1", Some("Old"), Some("Name"), Some("RB"), None);
    let second = player("1", Some("New"), Some("Name"), Some("RB"), None);
    let index = PlayerIndex::new(vec![(PlayerId::from("1"), first), (PlayerId::from("1"), second)]);
    assert_eq!(index.len(), 1);
    assert_eq!(index.short_name(&PlayerId::from("1")), "N. Name");
    assert!(PlayerIndex::new(Vec::new()).is_empty());
}

#[test]
fn a_name_is_built_from_whatever_parts_there_are() {
    assert_eq!(player("7", Some("Only"), None, None, None).name(), "Only");
    assert_eq!(player("7", None, Some("Last"), None, None).name(), "Last");
    assert_eq!(player("7", None, None, None, None).name(), "7");
    assert_eq!(player("7", Some(" "), Some("Last"), None, None).short_name(), "Last");
    assert_eq!(player("7", Some("Ann"), None, None, None).short_name(), "Ann");
    assert_eq!(player("NYJ", None, None, Some("DEF"), None).short_name(), "NYJ D/ST");
}

// ── Requests and their answers ───────────────────────────────────────────────

#[test]
fn a_trailing_slash_does_not_become_a_double_slash() {
    assert_eq!(base_url_from("http://127.0.0.1:8080/"), "http://127.0.0.1:8080");
    assert_eq!(base_url_from(DEFAULT_BASE_URL), DEFAULT_BASE_URL);
}

#[test]
fn a_test_base_url_is_honoured() {
    assert!(base_url_from("http://localhost:1").starts_with("http://localhost"));
}

#[test]
fn every_request_has_its_path_and_subject() {
    let league = LeagueId::from("200");
    assert_eq!(Request::NflState.path(), "/v1/state/nfl");
    assert_eq!(Request::User("someone".to_owned()).path(), "/v1/user/someone");
    assert_eq!(
        Request::Leagues(UserId::from("100"), 2026).path(),
        "/v1/user/100/leagues/nfl/2026"
    );
    assert_eq!(Request::League(league.clone()).path(), "/v1/league/200");
    assert_eq!(Request::LeagueUsers(league.clone()).path(), "/v1/league/200/users");
    assert_eq!(Request::Rosters(league.clone()).path(), "/v1/league/200/rosters");
    assert_eq!(Request::Matchups(league.clone(), 2).path(), "/v1/league/200/matchups/2");
    assert_eq!(Request::Players.path(), "/v1/players/nfl");
    assert_eq!(Request::User("someone".to_owned()).subject(), "user \"someone\"");
    assert_eq!(
        Request::Matchups(league, 2).subject(),
        "matchups for league 200 week 2"
    );
}

#[test]
fn the_projections_query_names_every_position() {
    let request = Request::Projections {
        season: 2026,
        week: 2,
        positions: vec![Position::QB, Position::DEF],
    };
    assert_eq!(request.path(), "/projections/nfl/2026/2");
    assert_eq!(request.subject(), "projections for 2026 week 2");
    let query: Vec<(&str, String)> = request.query();
    assert_eq!(
        query,
        vec![
            ("season_type", "regular".to_owned()),
            ("position[]", "QB".to_owned()),
            ("position[]", "DEF".to_owned()),
            ("order_by", "pts_half_ppr".to_owned()),
        ]
    );
    assert!(Request::NflState.query().is_empty());
}

#[test]
fn a_status_is_a_body_a_miss_or_a_failure() {
    assert!(matches!(check_status(200, "/v1/state/nfl"), Ok(true)));
    assert!(matches!(check_status(204, "/v1/state/nfl"), Ok(true)));
    assert!(matches!(check_status(404, "/v1/league/1"), Ok(false)));
    match check_status(503, "/v1/state/nfl") {
        Err(Error::Status { code, endpoint }) => {
            assert_eq!(code, 503);
            assert_eq!(endpoint, "/v1/state/nfl");
        }
        other => panic!("expected a status error, got {other:?}"),
    }
    assert!(matches!(check_status(301, "/x"), Err(Error::Status { code: 301, .. })));
}

#[test]
fn an_absent_answer_is_a_not_found() {
    assert_eq!(required(Some(3), "anything".to_owned()).ok(), Some(3));
    match required::<u8>(None, "user \"nobody\"".to_owned()) {
        Err(error) => assert_eq!(error.to_string(), "sleeper has no user \"nobody\""),
        Ok(_) => panic!("a missing answer is an error"),
    }
}

#[test]
fn transient_errors_are_the_ones_worth_retrying() {
    assert!(Error::Status {
        code: 429,
        endpoint: "/v1/state/nfl".into()
    }
    .is_transient());
    assert!(Error::Status {
        code: 503,
        endpoint: "/v1/state/nfl".into()
    }
    .is_transient());
    assert!(!Error::Status {
        code: 400,
        endpoint: "/v1/state/nfl".into()
    }
    .is_transient());
    assert!(!Error::NotFound {
        what: "user \"nobody\"".into()
    }
    .is_transient());
}

#[test]
fn not_found_reads_as_a_sentence() {
    let error = Error::NotFound {
        what: "user \"nobody\"".into(),
    };
    assert_eq!(error.to_string(), "sleeper has no user \"nobody\"");
}

#[test]
fn a_transport_failure_is_transient_only_when_it_timed_out_or_never_connected() {
    let failure = |timed_out, connect_failed| {
        Error::Http(HttpFailure {
            message: "dns error".to_owned(),
            timed_out,
            connect_failed,
        })
    };
    assert!(failure(true, false).is_transient());
    assert!(failure(false, true).is_transient());
    assert!(!failure(false, false).is_transient());
    assert_eq!(failure(false, false).to_string(), "sleeper request failed: dns error");
    let decode = Error::Decode {
        endpoint: "/v1/players/nfl".to_owned(),
        source: "expected value at line 1 column 1".to_owned(),
    };
    assert!(!decode.is_transient());
    assert_eq!(
        decode.to_string(),
        "could not decode /v1/players/nfl: expected value at line 1 column 1"
    );
}

#[test]
fn a_filler_projection_is_not_a_projection() {
    let keys = |list: &[&str]| list.iter().map(|key| (*key).to_owned()).collect::<Vec<String>>();
    assert!(is_projected_stat_set(&keys(&["pass_yd", "pass_td", "pts_half_ppr"])));
    assert!(is_projected_stat_set(&keys(&["pts_"])));
    assert!(!is_projected_stat_set(&keys(&["adp_dd_ppr"])));
    assert!(!is_projected_stat_set(&keys(&["pts", "xpts_ppr", "PTS_PPR"])));
    assert!(!is_projected_stat_set(&[]));
}
