//! Which request asks Sleeper for what, and what its answer means.
//!
//! Every endpoint is a plain `GET` against `https://api.sleeper.app`, public
//! and unauthenticated. The app sends the requests; this module says what
//! each one is — its path, its query, and the phrase a not-found names it by —
//! and how a status code is read, so that the rules are written once and
//! proved rather than spread through the transport code.
//!
//! Two of these are not on `docs.sleeper.com`: the projections call is the
//! endpoint Sleeper's own web client uses, with no compatibility promise, and
//! the player dictionary is documented but **expensive** — 14 MB, once a day.

use vstd::prelude::*;

use crate::sleeper::error::Error;
use crate::sleeper::ids::{position_name, LeagueId, Position, UserId};
use crate::text::{decimal, push_char, push_decimal};

verus! {

/// Where the api lives.
pub const DEFAULT_BASE_URL: &'static str = "https://api.sleeper.app";

/// `s` with every trailing `c` removed.
pub open spec fn trim_end_char(s: Seq<char>, c: char) -> Seq<char>
    decreases s.len(),
{
    if s.len() > 0 && s.last() == c {
        trim_end_char(s.drop_last(), c)
    } else {
        s
    }
}

/// The base url a client is pointed at: what it was given, with any trailing
/// slash removed, since a trailing slash here would produce `//v1/...`, which
/// some servers answer and some do not.
pub fn base_url_from(base_url: &str) -> (r: String)
    ensures
        r@ == trim_end_char(base_url@, '/'),
{
    let v = crate::text::chars_of(base_url);
    let mut hi = v.len();
    proof {
        assert(v@.subrange(0, v@.len() as int) =~= v@);
    }
    while hi > 0 && v[hi - 1] == '/'
        invariant
            hi <= v@.len(),
            v@ == base_url@,
            trim_end_char(base_url@, '/') == trim_end_char(v@.subrange(0, hi as int), '/'),
        decreases hi,
    {
        proof {
            assert(v@.subrange(0, hi as int).drop_last() =~= v@.subrange(0, hi - 1));
        }
        hi -= 1;
    }
    proof {
        assert(v@.subrange(0, v@.len() as int) =~= v@);
    }
    base_url.substring_char(0, hi).to_owned()
}

/// One request the app makes of Sleeper.
#[derive(Debug, Clone)]
pub enum Request {
    /// `GET /v1/state/nfl` — the current week and season.
    NflState,
    /// `GET /v1/user/<username_or_id>` — resolve an account.
    User(String),
    /// `GET /v1/user/<id>/leagues/nfl/<season>` — every league an account is
    /// in for one season.
    Leagues(UserId, u16),
    /// `GET /v1/league/<id>` — one league's configuration.
    League(LeagueId),
    /// `GET /v1/league/<id>/users` — the league's members.
    LeagueUsers(LeagueId),
    /// `GET /v1/league/<id>/rosters` — season records and roster contents.
    Rosters(LeagueId),
    /// `GET /v1/league/<id>/matchups/<week>` — the live scoreboard.
    Matchups(LeagueId, u8),
    /// `GET /projections/nfl/<season>/<week>` — **undocumented**.
    Projections {
        /// The season projected.
        season: u16,
        /// The week projected.
        week: u8,
        /// The positions asked for.
        positions: Vec<Position>,
    },
    /// `GET /v1/players/nfl` — **expensive**: about 12,200 players and 14 MB.
    Players,
}

/// A request's path.
pub open spec fn request_path(request: Request) -> Seq<char> {
    match request {
        Request::NflState => "/v1/state/nfl"@,
        Request::User(name) => "/v1/user/"@ + name@,
        Request::Leagues(user_id, season) => "/v1/user/"@ + user_id@ + "/leagues/nfl/"@ + decimal(
            season as nat,
        ),
        Request::League(league_id) => "/v1/league/"@ + league_id@,
        Request::LeagueUsers(league_id) => "/v1/league/"@ + league_id@ + "/users"@,
        Request::Rosters(league_id) => "/v1/league/"@ + league_id@ + "/rosters"@,
        Request::Matchups(league_id, week) => "/v1/league/"@ + league_id@ + "/matchups/"@ + decimal(
            week as nat,
        ),
        Request::Projections { season, week, .. } => "/projections/nfl/"@ + decimal(season as nat)
            + seq!['/'] + decimal(week as nat),
        Request::Players => "/v1/players/nfl"@,
    }
}

/// What a not-found on a request is a not-found of, phrased for a message.
pub open spec fn request_subject(request: Request) -> Seq<char> {
    match request {
        Request::NflState => "nfl state"@,
        Request::User(name) => "user \""@ + name@ + "\""@,
        Request::Leagues(user_id, _) => "leagues for user "@ + user_id@,
        Request::League(league_id) => "league "@ + league_id@,
        Request::LeagueUsers(league_id) => "users for league "@ + league_id@,
        Request::Rosters(league_id) => "rosters for league "@ + league_id@,
        Request::Matchups(league_id, week) => "matchups for league "@ + league_id@ + " week "@
            + decimal(week as nat),
        Request::Projections { season, week, .. } => "projections for "@ + decimal(season as nat)
            + " week "@ + decimal(week as nat),
        Request::Players => "the player dictionary"@,
    }
}

/// A request's query, as `(name, value)` views.
pub open spec fn request_query(request: Request) -> Seq<(Seq<char>, Seq<char>)> {
    match request {
        Request::Projections { positions, .. } => seq![("season_type"@, "regular"@)] + positions@.map_values(
            |p: Position| ("position[]"@, position_name(p)),
        ) + seq![("order_by"@, "pts_half_ppr"@)],
        _ => Seq::empty(),
    }
}

/// The views of a query's pairs.
pub open spec fn query_view(query: Seq<(&'static str, String)>) -> Seq<(Seq<char>, Seq<char>)> {
    query.map_values(|pair: (&'static str, String)| (pair.0@, pair.1@))
}

impl Request {
    /// The request path, e.g. `/v1/league/<id>/matchups/2`.
    pub fn path(&self) -> (r: String)
        ensures
            r@ == request_path(*self),
    {
        match self {
            Request::NflState => "/v1/state/nfl".to_owned(),
            Request::User(name) => crate::text::join2("/v1/user/", name.as_str()),
            Request::Leagues(user_id, season) => {
                let mut text = crate::text::join3("/v1/user/", user_id.as_str(), "/leagues/nfl/");
                push_decimal(&mut text, *season as u64);
                text
            },
            Request::League(league_id) => crate::text::join2("/v1/league/", league_id.as_str()),
            Request::LeagueUsers(league_id) => crate::text::join3(
                "/v1/league/",
                league_id.as_str(),
                "/users",
            ),
            Request::Rosters(league_id) => crate::text::join3(
                "/v1/league/",
                league_id.as_str(),
                "/rosters",
            ),
            Request::Matchups(league_id, week) => {
                let mut text = crate::text::join3(
                    "/v1/league/",
                    league_id.as_str(),
                    "/matchups/",
                );
                push_decimal(&mut text, *week as u64);
                text
            },
            Request::Projections { season, week, .. } => {
                let mut text = "/projections/nfl/".to_owned();
                push_decimal(&mut text, *season as u64);
                push_char(&mut text, '/');
                push_decimal(&mut text, *week as u64);
                text
            },
            Request::Players => "/v1/players/nfl".to_owned(),
        }
    }

    /// What this request is for, as a not-found names it: `user "someone"`.
    pub fn subject(&self) -> (r: String)
        ensures
            r@ == request_subject(*self),
    {
        match self {
            Request::NflState => "nfl state".to_owned(),
            Request::User(name) => crate::text::join3("user \"", name.as_str(), "\""),
            Request::Leagues(user_id, _) => crate::text::join2(
                "leagues for user ",
                user_id.as_str(),
            ),
            Request::League(league_id) => crate::text::join2("league ", league_id.as_str()),
            Request::LeagueUsers(league_id) => crate::text::join2(
                "users for league ",
                league_id.as_str(),
            ),
            Request::Rosters(league_id) => crate::text::join2(
                "rosters for league ",
                league_id.as_str(),
            ),
            Request::Matchups(league_id, week) => {
                let mut text = crate::text::join3(
                    "matchups for league ",
                    league_id.as_str(),
                    " week ",
                );
                push_decimal(&mut text, *week as u64);
                text
            },
            Request::Projections { season, week, .. } => {
                let mut text = "projections for ".to_owned();
                push_decimal(&mut text, *season as u64);
                text.append(" week ");
                push_decimal(&mut text, *week as u64);
                text
            },
            Request::Players => "the player dictionary".to_owned(),
        }
    }

    /// The query string, one `(name, value)` pair at a time.
    ///
    /// Only the projections call has one: `season_type=regular`, then
    /// `position[]` once per position — brackets and all; the transport
    /// percent-encodes them — then `order_by=pts_half_ppr`, the only value
    /// the endpoint actually sorts by. It answers 200 and ignores anything it
    /// does not recognise, with no error to notice.
    pub fn query(&self) -> (r: Vec<(&'static str, String)>)
        ensures
            query_view(r@) == request_query(*self),
    {
        let mut query: Vec<(&'static str, String)> = Vec::new();
        match self {
            Request::Projections { positions, .. } => {
                query.push(("season_type", "regular".to_owned()));
                let mut i: usize = 0;
                while i < positions.len()
                    invariant
                        i <= positions@.len(),
                        query_view(query@) == seq![("season_type"@, "regular"@)]
                            + positions@.take(i as int).map_values(
                            |p: Position| ("position[]"@, position_name(p)),
                        ),
                    decreases positions@.len() - i,
                {
                    let ghost before = query_view(query@);
                    let name = positions[i].as_str().to_owned();
                    query.push(("position[]", name));
                    assert(query_view(query@) =~= before.push(("position[]"@, position_name(positions@[i as int]))));
                    i += 1;
                    assert(positions@.take(i as int).map_values(
                        |p: Position| ("position[]"@, position_name(p)),
                    ) =~= positions@.take(i - 1).map_values(
                        |p: Position| ("position[]"@, position_name(p)),
                    ).push(("position[]"@, position_name(positions@[i - 1]))));
                    assert(query_view(query@) =~= seq![("season_type"@, "regular"@)]
                        + positions@.take(i as int).map_values(
                        |p: Position| ("position[]"@, position_name(p)),
                    ));
                }
                assert(positions@.take(positions@.len() as int) =~= positions@);
                query.push(("order_by", "pts_half_ppr".to_owned()));
                assert(query_view(query@) =~= request_query(*self));
            },
            _ => {
                assert(query_view(query@) =~= request_query(*self));
            },
        }
        query
    }
}

/// A trimmed base url ends in something other than a slash, or is empty.
proof fn lemma_trimmed_base(s: Seq<char>)
    ensures
        trim_end_char(s, '/').len() == 0 || trim_end_char(s, '/').last() != '/',
        trim_end_char(trim_end_char(s, '/'), '/') == trim_end_char(s, '/'),
    decreases s.len(),
{
    if s.len() > 0 && s.last() == '/' {
        lemma_trimmed_base(s.drop_last());
    }
}

/// A base url and a request path meet at exactly one slash: the base, once
/// trimmed, never ends in one and trimming it again changes nothing, and
/// every path starts with one. So `https://host/` and `https://host` reach
/// the same url, and neither produces `//v1/...`.
pub proof fn urls_join_at_one_slash(base_url: Seq<char>, request: Request)
    ensures
        trim_end_char(base_url, '/').len() == 0 || trim_end_char(base_url, '/').last() != '/',
        trim_end_char(trim_end_char(base_url, '/'), '/') == trim_end_char(base_url, '/'),
        request_path(request).len() > 0,
        request_path(request)[0] == '/',
{
    lemma_trimmed_base(base_url);
    reveal_strlit("/v1/state/nfl");
    reveal_strlit("/v1/user/");
    reveal_strlit("/v1/league/");
    reveal_strlit("/projections/nfl/");
    reveal_strlit("/v1/players/nfl");
    match request {
        Request::User(name) => {
            assert(request_path(request)[0] == "/v1/user/"@[0]);
        },
        Request::Leagues(user_id, season) => {
            assert(request_path(request)[0] == "/v1/user/"@[0]);
        },
        Request::League(league_id) => {
            assert(request_path(request)[0] == "/v1/league/"@[0]);
        },
        Request::LeagueUsers(league_id) => {
            assert(request_path(request)[0] == "/v1/league/"@[0]);
        },
        Request::Rosters(league_id) => {
            assert(request_path(request)[0] == "/v1/league/"@[0]);
        },
        Request::Matchups(league_id, week) => {
            assert(request_path(request)[0] == "/v1/league/"@[0]);
        },
        Request::Projections { season, week, .. } => {
            assert(request_path(request)[0] == "/projections/nfl/"@[0]);
        },
        _ => {},
    }
}

/// A matchups request asks for the week it was made with: its path is the
/// league's matchups path, `/v1/league/<id>/matchups/`, followed by digits
/// that read back as exactly that week. So two weeks of one league never
/// share a path, and the week is recovered from the last segment.
pub proof fn a_matchups_path_names_its_week(league_id: LeagueId, week: u8, other: u8)
    ensures
        ({
            let path = request_path(Request::Matchups(league_id, week));
            let base = "/v1/league/"@ + league_id@ + "/matchups/"@;
            &&& path.len() > base.len()
            &&& path.take(base.len() as int) == base
            &&& crate::text::all_digits(path.skip(base.len() as int))
            &&& crate::text::digits_value(path.skip(base.len() as int)) == week
        }),
        request_path(Request::Matchups(league_id, week)) == request_path(
            Request::Matchups(league_id, other),
        ) ==> week == other,
{
    let base = "/v1/league/"@ + league_id@ + "/matchups/"@;
    let path = request_path(Request::Matchups(league_id, week));
    crate::text::decimal_reads_back(week as nat);
    crate::text::decimal_reads_back(other as nat);
    assert(path == base + decimal(week as nat));
    assert(path.take(base.len() as int) =~= base);
    assert(path.skip(base.len() as int) =~= decimal(week as nat));
    let path2 = request_path(Request::Matchups(league_id, other));
    if path == path2 {
        assert(path2 == base + decimal(other as nat));
        assert(path2.skip(base.len() as int) =~= decimal(other as nat));
    }
}

/// Whether a status code is a success: `200..=299`.
pub open spec fn is_success(code: u16) -> bool {
    200 <= code <= 299
}

/// What a status code means for a request to `path`: a body to decode
/// (`Ok(true)`), nothing there (`Ok(false)`, a 404, which every caller turns
/// into a not-found with a phrase of its own), or a failure.
pub open spec fn status_outcome(code: u16, path: Seq<char>) -> Result<bool, (u16, Seq<char>)> {
    if code == 404 {
        Ok(false)
    } else if !is_success(code) {
        Err((code, path))
    } else {
        Ok(true)
    }
}

/// Read a response's status: `Ok(true)` when there is a body to decode,
/// `Ok(false)` for a 404, and [`Error::Status`] for anything else that is
/// not a success.
pub fn check_status(code: u16, path: &str) -> (r: Result<bool, Error>)
    ensures
        match status_outcome(code, path@) {
            Ok(present) => r == Ok::<bool, Error>(present),
            Err((c, p)) => (r matches Err(Error::Status { code: got, endpoint }) && got == c
                && endpoint@ == p),
        },
{
    if code == 404 {
        Ok(false)
    } else if !(200 <= code && code <= 299) {
        Err(Error::Status { code, endpoint: path.to_owned() })
    } else {
        Ok(true)
    }
}

/// A decoded answer, with the absence — a 404 or a `null` body — turned into
/// [`Error::NotFound`] naming `what`.
pub fn required<T>(answer: Option<T>, what: String) -> (r: Result<T, Error>)
    ensures
        answer is Some ==> r == Ok::<T, Error>(answer->0),
        answer is None ==> (r matches Err(Error::NotFound { what: w }) && w == what),
{
    match answer {
        Some(value) => Ok(value),
        None => Err(Error::NotFound { what }),
    }
}

} // verus!
