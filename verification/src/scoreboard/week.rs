//! Where a week is, which a payload of zeros cannot say on its own.

use vstd::prelude::*;

verus! {

/// Where a week is, which a payload of zeros cannot say on its own.
///
/// Sleeper answers a week that has not kicked off with a complete, well-formed
/// response full of zeros — identical to a week in which everybody scored
/// nothing. This is how the two are told apart, and it is the only reason the
/// ui can caption an empty scoreboard correctly.
#[derive(Debug, Clone, Copy, PartialEq, Eq, Structural)]
pub enum WeekState {
    /// Games are being played and the numbers are moving.
    InProgress,
    /// Kickoff has not happened. Every score is zero because there is nothing
    /// to score yet.
    NotStarted,
    /// The league has finished scoring this week; the numbers are settled.
    Final,
    /// No opponent this week. Common in playoff brackets with an odd number of
    /// teams, and in the weeks a league sits out.
    Bye,
    /// The league scheduled no game for this roster at all — a league that is
    /// not pairing teams this week, or one that has not started.
    NoMatchup,
}

/// The caption printed under a matchup in each state.
pub open spec fn caption_of(state: WeekState) -> Option<Seq<char>> {
    match state {
        WeekState::InProgress => None,
        WeekState::NotStarted => Some("Not started"@),
        WeekState::Final => Some("Final"@),
        WeekState::Bye => Some("Bye"@),
        WeekState::NoMatchup => Some("No matchup"@),
    }
}

impl WeekState {
    /// The caption the popover prints under a matchup, or `None` for a week in
    /// progress, where the scores say it better than a word would.
    pub fn caption(&self) -> (r: Option<&'static str>)
        ensures
            r.is_some() == caption_of(*self).is_some(),
            r.is_some() ==> r->0@ == caption_of(*self)->0,
    {
        match self {
            WeekState::InProgress => None,
            WeekState::NotStarted => Some("Not started"),
            WeekState::Final => Some("Final"),
            WeekState::Bye => Some("Bye"),
            WeekState::NoMatchup => Some("No matchup"),
        }
    }
}

/// Where a week is, from the league's clock and the game.
pub open spec fn state_of(week: u8, last_scored_leg: Option<u8>, scoreless_game: Option<bool>) -> WeekState {
    match scoreless_game {
        None => WeekState::Bye,
        Some(scoreless) => if last_scored_leg is Some && last_scored_leg->0 >= week {
            WeekState::Final
        } else if scoreless {
            WeekState::NotStarted
        } else {
            WeekState::InProgress
        },
    }
}

/// Where a week is, given the league's own clock and the game.
///
/// `scoreless_game` is `None` when there is no opponent, and otherwise whether
/// both sides are on zero. The order of the checks is the point.
///
/// A bye is decided first, because "there is no opponent" is the most specific
/// thing that can be true about a week and it stays true whether the games
/// have been played or not.
///
/// `Final` comes next, from `last_scored_leg`: the league says which week it
/// has finished scoring, and that is the only trustworthy signal. Everything
/// else about a finished week looks exactly like a week in progress.
///
/// `NotStarted` is last before the default, and it is why it cannot come
/// first: a week of zeros that the league has already scored is a week where
/// both managers were shut out, not a week that has not kicked off.
pub fn week_state(week: u8, last_scored_leg: Option<u8>, scoreless_game: Option<bool>) -> (r: WeekState)
    ensures
        r == state_of(week, last_scored_leg, scoreless_game),
{
    let Some(scoreless) = scoreless_game else {
        return WeekState::Bye;
    };
    if let Some(scored) = last_scored_leg {
        if scored >= week {
            return WeekState::Final;
        }
    }
    if scoreless {
        return WeekState::NotStarted;
    }
    WeekState::InProgress
}

/// A week with no opponent is a bye whatever else is true of it; a week the
/// league has scored is final whatever the scores; and only an unscored week
/// of zeros is one that has not started.
pub proof fn week_state_precedence(week: u8, last_scored_leg: Option<u8>, scoreless_game: Option<bool>)
    ensures
        scoreless_game is None ==> state_of(week, last_scored_leg, scoreless_game) == WeekState::Bye,
        scoreless_game is Some && last_scored_leg is Some && last_scored_leg->0 >= week ==> state_of(
            week,
            last_scored_leg,
            scoreless_game,
        ) == WeekState::Final,
        state_of(week, last_scored_leg, scoreless_game) == WeekState::NotStarted <==> (
        scoreless_game == Some(true) && !(last_scored_leg is Some && last_scored_leg->0 >= week)),
{
}

/// Where a league's week is for the user's roster: `NoMatchup` when the
/// league scheduled that roster nothing at all — no pairing, not even a bye —
/// and otherwise [`week_state`] over the pairing (`None` for a pairing with
/// nobody on the other side, else whether both sides are on zero).
pub open spec fn card_state_of(week: u8, last_scored_leg: Option<u8>, pairing: Option<Option<bool>>) -> WeekState {
    match pairing {
        None => WeekState::NoMatchup,
        Some(scoreless_game) => state_of(week, last_scored_leg, scoreless_game),
    }
}

/// The state a league's card shows.
pub fn card_state(week: u8, last_scored_leg: Option<u8>, pairing: Option<Option<bool>>) -> (r: WeekState)
    ensures
        r == card_state_of(week, last_scored_leg, pairing),
{
    match pairing {
        None => WeekState::NoMatchup,
        Some(scoreless_game) => week_state(week, last_scored_leg, scoreless_game),
    }
}

/// A card's state, case by case: a roster the league scheduled nothing for
/// has no matchup; a pairing with nobody opposite is a bye whatever the
/// league has scored; a week the league has scored up to (its
/// `last_scored_leg` at or past the week) is final, whatever the scores; and
/// an unscored week is not started while both sides are on zero and in
/// progress otherwise.
pub proof fn a_card_is_final_once_its_week_is_scored(
    week: u8,
    last_scored_leg: Option<u8>,
    pairing: Option<Option<bool>>,
)
    ensures
        pairing is None ==> card_state_of(week, last_scored_leg, pairing) == WeekState::NoMatchup,
        pairing == Some(None::<bool>) ==> card_state_of(week, last_scored_leg, pairing)
            == WeekState::Bye,
        (pairing matches Some(Some(_)) && last_scored_leg is Some && last_scored_leg->0 >= week)
            ==> card_state_of(week, last_scored_leg, pairing) == WeekState::Final,
        (pairing == Some(Some(true)) && !(last_scored_leg is Some && last_scored_leg->0 >= week))
            ==> card_state_of(week, last_scored_leg, pairing) == WeekState::NotStarted,
        (pairing == Some(Some(false)) && !(last_scored_leg is Some && last_scored_leg->0 >= week))
            ==> card_state_of(week, last_scored_leg, pairing) == WeekState::InProgress,
        pairing is Some ==> card_state_of(week, last_scored_leg, pairing) == state_of(
            week,
            last_scored_leg,
            pairing->0,
        ),
{
}

} // verus!
