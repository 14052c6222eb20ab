//! Sleeper's id spaces, one type each.
//!
//! `player_id`, `league_id` and `user_id` are quoted digit strings and
//! `roster_id` is a plain integer, and all four are passed to different
//! endpoints in the same function body. A type per space makes mixing them a
//! compile error instead of a 404.

use vstd::prelude::*;
use vstd::string::*;

use crate::text::{decimal, decimal_string};

verus! {

/// The value Sleeper puts in `starters` for a lineup slot nobody filled. It
/// looks like a player id and is not one: it is never in `players` and never a
/// key in `players_points`.
pub const EMPTY_STARTER: &'static str = "0";

/// A player's id in `/v1/players/nfl`. Digits for a person (`"4984"`), a team
/// abbreviation for a defense (`"BUF"`).
#[derive(Debug, PartialEq, Eq, PartialOrd, Ord, Hash)]
pub struct PlayerId(pub String);

/// A league's id. Dynasty leagues chain year to year through
/// `previous_league_id`, so this changes every season.
#[derive(Debug, PartialEq, Eq, PartialOrd, Ord, Hash)]
pub struct LeagueId(pub String);

/// An account's id. Stable forever, unlike the username, which is why the app
/// resolves a username once and stores this.
#[derive(Debug, PartialEq, Eq, PartialOrd, Ord, Hash)]
pub struct UserId(pub String);

impl View for PlayerId {
    type V = Seq<char>;

    open spec fn view(&self) -> Seq<char> {
        self.0@
    }
}

impl View for LeagueId {
    type V = Seq<char>;

    open spec fn view(&self) -> Seq<char> {
        self.0@
    }
}

impl View for UserId {
    type V = Seq<char>;

    open spec fn view(&self) -> Seq<char> {
        self.0@
    }
}

impl Clone for PlayerId {
    fn clone(&self) -> (r: Self)
        ensures
            r == *self,
    {
        PlayerId(self.0.clone())
    }
}

impl Clone for LeagueId {
    fn clone(&self) -> (r: Self)
        ensures
            r == *self,
    {
        LeagueId(self.0.clone())
    }
}

impl Clone for UserId {
    fn clone(&self) -> (r: Self)
        ensures
            r == *self,
    {
        UserId(self.0.clone())
    }
}

impl PlayerId {
    /// An id spelled `text`.
    pub fn new(text: &str) -> (r: Self)
        ensures
            r@ == text@,
    {
        PlayerId(text.to_owned())
    }

    /// The id as Sleeper spells it, for building a url.
    pub fn as_str(&self) -> (r: &str)
        ensures
            r@ == self@,
    {
        self.0.as_str()
    }

    /// The id as Sleeper spells it, as a new string.
    pub fn to_string(&self) -> (r: String)
        ensures
            r@ == self@,
    {
        self.0.clone()
    }

    /// Whether the two ids are the same id.
    pub fn same(&self, other: &PlayerId) -> (r: bool)
        ensures
            r == (self@ == other@),
    {
        self.0 == other.0
    }

    /// Whether this is [`EMPTY_STARTER`] rather than a real player. Looking
    /// one of these up in the player dictionary always misses, so the ui has
    /// to check before it renders a row.
    pub fn is_empty_slot(&self) -> (r: bool)
        ensures
            r == (self@ == EMPTY_STARTER@),
    {
        proof {
            reveal_strlit("0");
        }
        let text = self.0.as_str();
        if text.unicode_len() == 1 && text.get_char(0) == '0' {
            assert(self@ =~= EMPTY_STARTER@);
            true
        } else {
            false
        }
    }
}

impl LeagueId {
    /// An id spelled `text`.
    pub fn new(text: &str) -> (r: Self)
        ensures
            r@ == text@,
    {
        LeagueId(text.to_owned())
    }

    /// The id as Sleeper spells it, for building a url.
    pub fn as_str(&self) -> (r: &str)
        ensures
            r@ == self@,
    {
        self.0.as_str()
    }

    /// The id as Sleeper spells it, as a new string.
    pub fn to_string(&self) -> (r: String)
        ensures
            r@ == self@,
    {
        self.0.clone()
    }

    /// Whether the two ids are the same id.
    pub fn same(&self, other: &LeagueId) -> (r: bool)
        ensures
            r == (self@ == other@),
    {
        self.0 == other.0
    }
}

impl UserId {
    /// An id spelled `text`.
    pub fn new(text: &str) -> (r: Self)
        ensures
            r@ == text@,
    {
        UserId(text.to_owned())
    }

    /// The id as Sleeper spells it, for building a url.
    pub fn as_str(&self) -> (r: &str)
        ensures
            r@ == self@,
    {
        self.0.as_str()
    }

    /// The id as Sleeper spells it, as a new string.
    pub fn to_string(&self) -> (r: String)
        ensures
            r@ == self@,
    {
        self.0.clone()
    }

    /// Whether the two ids are the same id.
    pub fn same(&self, other: &UserId) -> (r: bool)
        ensures
            r == (self@ == other@),
    {
        self.0 == other.0
    }
}

impl<'a> From<&'a str> for PlayerId {
    fn from(value: &'a str) -> (r: Self)
        ensures
            r@ == value@,
    {
        PlayerId(value.to_owned())
    }
}

impl<'a> vstd::std_specs::convert::FromSpecImpl<&'a str> for PlayerId {
    open spec fn obeys_from_spec() -> bool {
        false
    }

    open spec fn from_spec(v: &'a str) -> Self {
        choose|r: PlayerId| r@ == v@
    }
}

impl From<String> for PlayerId {
    fn from(value: String) -> (r: Self) {
        PlayerId(value)
    }
}

impl vstd::std_specs::convert::FromSpecImpl<String> for PlayerId {
    open spec fn obeys_from_spec() -> bool {
        true
    }

    open spec fn from_spec(v: String) -> Self {
        PlayerId(v)
    }
}

impl<'a> From<&'a str> for LeagueId {
    fn from(value: &'a str) -> (r: Self)
        ensures
            r@ == value@,
    {
        LeagueId(value.to_owned())
    }
}

impl<'a> vstd::std_specs::convert::FromSpecImpl<&'a str> for LeagueId {
    open spec fn obeys_from_spec() -> bool {
        false
    }

    open spec fn from_spec(v: &'a str) -> Self {
        choose|r: LeagueId| r@ == v@
    }
}

impl From<String> for LeagueId {
    fn from(value: String) -> (r: Self) {
        LeagueId(value)
    }
}

impl vstd::std_specs::convert::FromSpecImpl<String> for LeagueId {
    open spec fn obeys_from_spec() -> bool {
        true
    }

    open spec fn from_spec(v: String) -> Self {
        LeagueId(v)
    }
}

impl<'a> From<&'a str> for UserId {
    fn from(value: &'a str) -> (r: Self)
        ensures
            r@ == value@,
    {
        UserId(value.to_owned())
    }
}

impl<'a> vstd::std_specs::convert::FromSpecImpl<&'a str> for UserId {
    open spec fn obeys_from_spec() -> bool {
        false
    }

    open spec fn from_spec(v: &'a str) -> Self {
        choose|r: UserId| r@ == v@
    }
}

impl From<String> for UserId {
    fn from(value: String) -> (r: Self) {
        UserId(value)
    }
}

impl vstd::std_specs::convert::FromSpecImpl<String> for UserId {
    open spec fn obeys_from_spec() -> bool {
        true
    }

    open spec fn from_spec(v: String) -> Self {
        UserId(v)
    }
}

/// A roster's id **within one league**: `1..=total_rosters`, and an integer
/// rather than a string. Two different leagues both have a roster 1.
#[derive(Debug, Clone, Copy, PartialEq, Eq, Structural, PartialOrd, Ord, Hash)]
pub struct RosterId(pub u32);

impl RosterId {
    /// The id in decimal, as Sleeper and the ui print it.
    pub fn to_string(&self) -> (r: String)
        ensures
            r@ == decimal(self.0 as nat),
    {
        decimal_string(self.0 as u64)
    }
}

impl From<u32> for RosterId {
    fn from(value: u32) -> (r: Self) {
        RosterId(value)
    }
}

impl vstd::std_specs::convert::FromSpecImpl<u32> for RosterId {
    open spec fn obeys_from_spec() -> bool {
        true
    }

    open spec fn from_spec(v: u32) -> Self {
        RosterId(v)
    }
}

/// A fantasy position, as the projections endpoint spells it in `position[]`.
#[derive(Debug, Clone, Copy, PartialEq, Eq, Structural, Hash)]
pub enum Position {
    /// Quarterback.
    QB,
    /// Running back.
    RB,
    /// Wide receiver.
    WR,
    /// Tight end.
    TE,
    /// Kicker.
    K,
    /// Team defense and special teams.
    DEF,
}

/// How a position is spelled on the wire, which is also how it is displayed.
pub open spec fn position_name(position: Position) -> Seq<char> {
    match position {
        Position::QB => "QB"@,
        Position::RB => "RB"@,
        Position::WR => "WR"@,
        Position::TE => "TE"@,
        Position::K => "K"@,
        Position::DEF => "DEF"@,
    }
}

impl Position {
    /// The wire spelling, which is also the display spelling.
    pub fn as_str(&self) -> (r: &'static str)
        ensures
            r@ == position_name(*self),
    {
        match self {
            Position::QB => "QB",
            Position::RB => "RB",
            Position::WR => "WR",
            Position::TE => "TE",
            Position::K => "K",
            Position::DEF => "DEF",
        }
    }

    /// Every position a starting lineup can hold, which is what a week's
    /// projections call asks for.
    pub const ALL: [Position; 6] = [
        Position::QB,
        Position::RB,
        Position::WR,
        Position::TE,
        Position::K,
        Position::DEF,
    ];
}

} // verus!
