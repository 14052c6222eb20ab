//! The Sleeper payloads a scoring ui reads, trimmed to what it needs.
//!
//! Nothing here decodes json: that is the app's side of the line, and it
//! hands these types over fully formed. What is here is every rule the
//! payloads carry — which name to print, which avatar to load, how a record
//! reads, what season a state is in — each stated over the fields it reads.
//!
//! The parts of a payload that are a league's own configuration and hold
//! points (`scoring_settings`, the matchup scores, the projections) are
//! floating point and stay with the app.

use vstd::prelude::*;

use crate::sleeper::ids::{PlayerId, UserId};
use crate::text::{
    blank, decimal, decimal_string, is_blank, join2, opt_str, opt_text, parse_u16, parse_u16_str,
    push_char, push_decimal, str_eq, trim, trim_str,
};

verus! {

/// `GET /v1/state/nfl` — the clock every other call hangs off.
#[derive(Debug, Clone)]
pub struct State {
    /// The scoring week. This is the one to ask for matchups with.
    pub week: u8,
    /// The season as a string, because it is a url path segment (`"2026"`).
    pub season: String,
    /// `"pre"`, `"regular"` or `"post"`.
    pub season_type: String,
    /// The week Sleeper's own ui labels as current. It agrees with `week`
    /// mid-season and diverges at the edges, right after a week's games end.
    pub display_week: Option<u8>,
    /// `YYYY-MM-DD` for the first day of the season.
    pub season_start_date: Option<String>,
    /// The week within the season type. Equal to `week` during the regular
    /// season; the preseason numbers its own legs.
    pub leg: Option<u8>,
}

impl State {
    /// The season as a number, for the calls that take one. `None` if Sleeper
    /// ever sends something that is not a year.
    pub fn season_year(&self) -> (r: Option<u16>)
        ensures
            r == parse_u16(self.season@),
    {
        parse_u16_str(self.season.as_str())
    }
}

/// `GET /v1/user/<username_or_id>` — one account.
#[derive(Debug, Clone)]
pub struct User {
    /// The stable id. Everything downstream keys off this, not the username.
    pub user_id: UserId,
    /// The login name. Changeable, and `None` on some legacy accounts.
    pub username: Option<String>,
    /// The name Sleeper shows. Usually equal to the username.
    pub display_name: String,
    /// A bare 32-character hash, not a url. See [`avatar_url`].
    pub avatar: Option<String>,
}

/// Where Sleeper serves avatars from.
pub open spec fn avatar_prefix() -> Seq<char> {
    "https://sleepercdn.com/avatars/"@
}

/// The url of the avatar whose hash is `hash`.
pub open spec fn avatar_url_of(hash: Seq<char>) -> Seq<char> {
    avatar_prefix() + hash
}

/// Turn a bare avatar hash into a url.
///
/// Sleeper has two avatar conventions at once: a top-level `avatar` is a bare
/// hash that has to be prefixed, while `metadata.avatar` is already a complete
/// url. Handing the wrong one to an image loader gets a 404, so the conversion
/// lives in exactly one place.
pub fn avatar_url(hash: &str) -> (r: String)
    ensures
        r@ == avatar_url_of(hash@),
{
    join2("https://sleepercdn.com/avatars/", hash)
}

/// The avatar url for an optional hash.
fn expanded_avatar(avatar: &Option<String>) -> (r: Option<String>)
    ensures
        r.is_some() == avatar.is_some(),
        r.is_some() ==> r->0@ == avatar_url_of(avatar->0@),
{
    match avatar {
        Some(hash) => Some(avatar_url(hash.as_str())),
        None => None,
    }
}

impl User {
    /// The full avatar url, or `None` for an account that never set one.
    pub fn avatar_url(&self) -> (r: Option<String>)
        ensures
            r.is_some() == self.avatar.is_some(),
            r.is_some() ==> r->0@ == avatar_url_of(self.avatar->0@),
    {
        expanded_avatar(&self.avatar)
    }
}

/// The few `league.settings` keys the app reads.
#[derive(Debug, Clone)]
pub struct LeagueSettings {
    /// The last week Sleeper has finished scoring. The only way to tell a week
    /// that has not kicked off from a week where everyone scored zero: an
    /// unplayed week returns a complete, well-formed payload of zeros.
    pub last_scored_leg: Option<u8>,
    /// The league's current week, which can lag the state's week by a few
    /// minutes at a week boundary.
    pub leg: Option<u8>,
    /// The first week this league scores.
    pub start_week: Option<u8>,
    /// The first week of the playoffs; from here the matchups are bracketed.
    pub playoff_week_start: Option<u8>,
    /// How many teams make the playoffs.
    pub playoff_teams: Option<u8>,
    /// Team count, duplicating the league's `total_rosters`.
    pub num_teams: Option<u8>,
}

impl Default for LeagueSettings {
    fn default() -> (r: Self)
        ensures
            r.last_scored_leg.is_none(),
            r.leg.is_none(),
            r.start_week.is_none(),
            r.playoff_week_start.is_none(),
            r.playoff_teams.is_none(),
            r.num_teams.is_none(),
    {
        LeagueSettings {
            last_scored_leg: None,
            leg: None,
            start_week: None,
            playoff_week_start: None,
            playoff_teams: None,
            num_teams: None,
        }
    }
}

/// `GET /v1/league/<id>/users` — one member of a league.
///
/// Distinct from [`User`]: this is an account *as seen inside a league*, which
/// is where the team name lives.
#[derive(Debug, Clone)]
pub struct LeagueUser {
    /// Joins to [`Roster::owner_id`].
    pub user_id: UserId,
    /// The account's global display name, the fallback when there is no team
    /// name.
    pub display_name: String,
    /// A bare avatar hash, as on [`User::avatar`].
    pub avatar: Option<String>,
    /// Per-league settings. The team name lives in here, not at the top level.
    pub metadata: LeagueUserMetadata,
}

/// The parts of a [`LeagueUser`]'s metadata worth keeping.
///
/// Sleeper puts notification preferences in the same map, and which keys are
/// present varies by member, so everything is optional.
#[derive(Debug, Clone)]
pub struct LeagueUserMetadata {
    /// What this manager called their team in this league. Absent for anyone
    /// who never set one.
    pub team_name: Option<String>,
    /// A custom avatar, already a **complete url** — unlike
    /// [`LeagueUser::avatar`], which is a bare hash.
    pub avatar: Option<String>,
}

impl Default for LeagueUserMetadata {
    fn default() -> (r: Self)
        ensures
            r.team_name.is_none(),
            r.avatar.is_none(),
    {
        LeagueUserMetadata { team_name: None, avatar: None }
    }
}

/// What a league member is called: the team name if they set one that is not
/// blank, the display name otherwise.
pub open spec fn member_team_name(user: LeagueUser) -> Seq<char> {
    match user.metadata.team_name {
        Some(name) if !is_blank(name@) => name@,
        _ => user.display_name@,
    }
}

impl LeagueUser {
    /// What to print for this manager: their team name if they set one, their
    /// display name otherwise. The ui should never show a blank team.
    pub fn team_name(&self) -> (r: &str)
        ensures
            r@ == member_team_name(*self),
    {
        match &self.metadata.team_name {
            Some(name) => {
                if blank(name.as_str()) {
                    self.display_name.as_str()
                } else {
                    name.as_str()
                }
            },
            None => self.display_name.as_str(),
        }
    }

    /// The avatar to load: the custom url if there is one, otherwise the
    /// account avatar expanded from its hash.
    pub fn avatar_url(&self) -> (r: Option<String>)
        ensures
            r.is_some() == (self.metadata.avatar.is_some() || self.avatar.is_some()),
            self.metadata.avatar.is_some() ==> r->0@ == self.metadata.avatar->0@,
            self.metadata.avatar.is_none() && self.avatar.is_some() ==> r->0@ == avatar_url_of(
                self.avatar->0@,
            ),
    {
        match &self.metadata.avatar {
            Some(url) => Some(url.clone()),
            None => expanded_avatar(&self.avatar),
        }
    }
}

/// `GET /v1/league/<id>/rosters` — a team's season-long state.
///
/// For the current week's lineup read the matchup instead: a roster's
/// `starters` and the same week's matchup `starters` can disagree, and the
/// matchup is the live one.
#[derive(Debug, Clone)]
pub struct Roster {
    /// This roster's number within the league.
    pub roster_id: crate::sleeper::ids::RosterId,
    /// The manager who owns it. `None` for an orphaned team.
    pub owner_id: Option<UserId>,
    /// Everyone on the roster, starters and bench together, unordered.
    pub players: Vec<PlayerId>,
    /// The lineup, positionally parallel to the league's `roster_positions`.
    /// Can contain the empty-slot marker for a slot left open.
    pub starters: Vec<PlayerId>,
    /// Record and season totals.
    pub settings: RosterSettings,
}

/// A roster's record and season point totals.
///
/// The points are split across two integers: `fpts: 83` with
/// `fpts_decimal: 10` means 83.10. Sleeper does this to keep the numbers exact
/// over a json round trip.
#[derive(Debug, Clone, Copy, PartialEq, Eq, Structural)]
pub struct RosterSettings {
    /// Wins so far.
    pub wins: u32,
    /// Losses so far.
    pub losses: u32,
    /// Ties so far.
    pub ties: u32,
    /// Whole points scored this season.
    pub fpts: i64,
    /// Hundredths of a point scored this season.
    pub fpts_decimal: i64,
    /// Whole points scored against this roster.
    pub fpts_against: i64,
    /// Hundredths of a point scored against this roster.
    pub fpts_against_decimal: i64,
    /// Whole points the optimal lineup would have scored.
    pub ppts: i64,
    /// Hundredths of a point the optimal lineup would have scored.
    pub ppts_decimal: i64,
}

impl Default for RosterSettings {
    fn default() -> (r: Self)
        ensures
            r.wins == 0 && r.losses == 0 && r.ties == 0,
            r.fpts == 0 && r.fpts_decimal == 0,
            r.fpts_against == 0 && r.fpts_against_decimal == 0,
            r.ppts == 0 && r.ppts_decimal == 0,
    {
        RosterSettings {
            wins: 0,
            losses: 0,
            ties: 0,
            fpts: 0,
            fpts_decimal: 0,
            fpts_against: 0,
            fpts_against_decimal: 0,
            ppts: 0,
            ppts_decimal: 0,
        }
    }
}

/// A season record as the ui prints it: wins and losses, and the ties only
/// when there are some.
pub open spec fn record_text(wins: nat, losses: nat, ties: nat) -> Seq<char> {
    if ties == 0 {
        decimal(wins) + seq!['-'] + decimal(losses)
    } else {
        decimal(wins) + seq!['-'] + decimal(losses) + seq!['-'] + decimal(ties)
    }
}

impl RosterSettings {
    /// The record as a ui prints it: `"1-0"`, or `"1-0-1"` when there are ties.
    pub fn record(&self) -> (r: String)
        ensures
            r@ == record_text(self.wins as nat, self.losses as nat, self.ties as nat),
    {
        let mut text = decimal_string(self.wins as u64);
        push_char(&mut text, '-');
        push_decimal(&mut text, self.losses as u64);
        if self.ties != 0 {
            push_char(&mut text, '-');
            push_decimal(&mut text, self.ties as u64);
        }
        text
    }
}

/// The player object embedded in a projection.
#[derive(Debug, Clone)]
pub struct ProjectedPlayer {
    /// Given name.
    pub first_name: Option<String>,
    /// Family name.
    pub last_name: Option<String>,
    /// Their listed position.
    pub position: Option<String>,
    /// Their nfl team, `None` for a free agent.
    pub team: Option<String>,
    /// `"Questionable"`, `"Out"` and so on; `None` when healthy.
    pub injury_status: Option<String>,
    /// Seasons played. `0` for a rookie.
    pub years_exp: Option<i32>,
}

/// One entry of `GET /v1/players/nfl`, trimmed from Sleeper's 53 fields to the
/// ones a scoreboard renders.
///
/// Nearly everything is optional because team defenses are not shaped like
/// players: a `DEF` entry has **nine** keys where a person has fifty-three,
/// and the rest are absent rather than null. In particular there is no
/// `full_name` on a defense — see [`Player::name`].
#[derive(Debug, Clone)]
pub struct Player {
    /// Digits for a person, a team abbreviation for a defense.
    pub player_id: PlayerId,
    /// Given name; `"Buffalo"` for the Bills defense.
    pub first_name: Option<String>,
    /// Family name; `"Bills"` for the Bills defense.
    pub last_name: Option<String>,
    /// Their listed position, including `"DEF"`.
    pub position: Option<String>,
    /// Their nfl team. `None` for a free agent.
    pub team: Option<String>,
    /// The positions they are eligible at, which is what a FLEX slot cares
    /// about.
    pub fantasy_positions: Vec<String>,
    /// `"Questionable"`, `"Doubtful"`, `"Out"`, `"IR"`, `"PUP"` and others;
    /// `None` when healthy. A string rather than an enum because Sleeper has
    /// added values over time.
    pub injury_status: Option<String>,
    /// Free text, and not always one word: `"Knee - Meniscus"`.
    pub injury_body_part: Option<String>,
    /// Roster status: `"Active"`, `"Inactive"`, `"Practice Squad"` and so on.
    pub status: Option<String>,
    /// Sleeper's `full_name`, which **defenses do not have**. Prefer
    /// [`Player::name`], which fills it in.
    pub full_name: Option<String>,
}

/// The position a team defense is listed at.
pub open spec fn defense_position() -> Seq<char> {
    "DEF"@
}

/// What follows a defense's nickname in its short name.
pub open spec fn defense_suffix() -> Seq<char> {
    " D/ST"@
}

/// Whether `player` is a team defense: listed at `DEF`, or eligible there.
pub open spec fn is_defense_spec(player: Player) -> bool {
    ||| opt_text(player.position) == defense_position() && player.position.is_some()
    ||| exists|i: int|
        0 <= i < player.fantasy_positions@.len() && #[trigger] player.fantasy_positions@[i]@
            == defense_position()
}

/// A player's full name: Sleeper's `full_name` when it has one, the first and
/// last names otherwise, and the id when there is nothing else to print.
pub open spec fn player_name(player: Player) -> Seq<char> {
    let full = trim(opt_text(player.full_name));
    let first = trim(opt_text(player.first_name));
    let last = trim(opt_text(player.last_name));
    if player.full_name.is_some() && full.len() > 0 {
        full
    } else if first.len() > 0 && last.len() > 0 {
        first + seq![' '] + last
    } else if last.len() > 0 {
        last
    } else if first.len() > 0 {
        first
    } else {
        player.player_id@
    }
}

/// A player's name at menu bar width: the initial and the last name for a
/// person, the nickname and `D/ST` for a defense.
pub open spec fn player_short_name(player: Player) -> Seq<char> {
    let first = trim(opt_text(player.first_name));
    let last = trim(opt_text(player.last_name));
    if is_defense_spec(player) {
        if last.len() == 0 {
            player.player_id@ + defense_suffix()
        } else {
            last + defense_suffix()
        }
    } else if first.len() > 0 && last.len() > 0 {
        seq![first[0], '.', ' '] + last
    } else if last.len() > 0 {
        last
    } else {
        player_name(player)
    }
}

impl Player {
    /// The player's full name, built from the parts when Sleeper did not send
    /// one — which is every team defense.
    pub fn name(&self) -> (r: String)
        ensures
            r@ == player_name(*self),
    {
        if let Some(full) = &self.full_name {
            let full = trim_str(full.as_str());
            if full.unicode_len() > 0 {
                return full.to_owned();
            }
        }
        let first = trim_str(opt_str(&self.first_name));
        let last = trim_str(opt_str(&self.last_name));
        let has_first = first.unicode_len() > 0;
        let has_last = last.unicode_len() > 0;
        if has_first && has_last {
            let mut text = first.to_owned();
            push_char(&mut text, ' ');
            text.append(last);
            text
        } else if has_last {
            last.to_owned()
        } else if has_first {
            first.to_owned()
        } else {
            // Nothing to build a name from, so show the id rather than a blank
            // row: an unnamed player is a bug worth seeing, not hiding.
            self.player_id.to_string()
        }
    }

    /// The name at menu bar width: `"J. Allen"`, or `"Bills D/ST"` for a
    /// defense, whose two names are a city and a nickname rather than a
    /// person's.
    pub fn short_name(&self) -> (r: String)
        ensures
            r@ == player_short_name(*self),
    {
        let last = trim_str(opt_str(&self.last_name));
        if self.is_defense() {
            return if last.unicode_len() == 0 {
                join2(self.player_id.as_str(), " D/ST")
            } else {
                join2(last, " D/ST")
            };
        }
        let first = trim_str(opt_str(&self.first_name));
        if first.unicode_len() > 0 && last.unicode_len() > 0 {
            let mut text = String::new();
            push_char(&mut text, first.get_char(0));
            push_char(&mut text, '.');
            push_char(&mut text, ' ');
            text.append(last);
            assert(text@ =~= seq![first@[0], '.', ' '] + last@);
            text
        } else if last.unicode_len() > 0 {
            last.to_owned()
        } else {
            self.name()
        }
    }

    /// Whether this is a team defense rather than a person.
    pub fn is_defense(&self) -> (r: bool)
        ensures
            r == is_defense_spec(*self),
    {
        if let Some(position) = &self.position {
            if str_eq(position.as_str(), "DEF") {
                return true;
            }
        }
        let mut i: usize = 0;
        while i < self.fantasy_positions.len()
            invariant
                i <= self.fantasy_positions@.len(),
                !(opt_text(self.position) == defense_position() && self.position.is_some()),
                forall|j: int|
                    0 <= j < i ==> #[trigger] self.fantasy_positions@[j]@ != defense_position(),
            decreases self.fantasy_positions@.len() - i,
        {
            if str_eq(self.fantasy_positions[i].as_str(), "DEF") {
                return true;
            }
            i += 1;
        }
        false
    }

    /// Whether the player carries an injury designation of any kind.
    pub fn is_injured(&self) -> (r: bool)
        ensures
            r == (self.injury_status.is_some() && !is_blank(self.injury_status->0@)),
    {
        match &self.injury_status {
            Some(status) => !blank(status.as_str()),
            None => false,
        }
    }
}

// ── Projections ──────────────────────────────────────────────────────────────

/// Whether a stat key is a points figure: `pts_half_ppr`, `pts_ppr`, ….
pub open spec fn is_points_key(key: Seq<char>) -> bool {
    "pts_"@.is_prefix_of(key)
}

/// Whether a projection's stat line is a real projection. The projections
/// endpoint returns every player on file at each position, and a filler
/// entry carries only an average draft position; anybody actually projected
/// has a points figure among the keys.
pub fn is_projected_stat_set(keys: &[String]) -> (r: bool)
    ensures
        r == exists|i: int| 0 <= i < keys@.len() && is_points_key(#[trigger] keys@[i]@),
{
    let mut i: usize = 0;
    while i < keys.len()
        invariant
            i <= keys@.len(),
            forall|k: int| 0 <= k < i ==> !is_points_key(#[trigger] keys@[k]@),
        decreases keys@.len() - i,
    {
        proof {
            reveal_strlit("pts_");
        }
        let key = keys[i].as_str();
        let found = key.unicode_len() >= 4 && key.get_char(0) == 'p' && key.get_char(1) == 't'
            && key.get_char(2) == 's' && key.get_char(3) == '_';
        if found {
            assert("pts_"@ =~= key@.subrange(0, 4));
            assert(is_points_key(keys@[i as int]@));
            return true;
        }
        proof {
            if is_points_key(keys@[i as int]@) {
                assert(key@[0] == "pts_"@[0]);
                assert(key@[1] == "pts_"@[1]);
                assert(key@[2] == "pts_"@[2]);
                assert(key@[3] == "pts_"@[3]);
            }
        }
        i += 1;
    }
    false
}

} // verus!
