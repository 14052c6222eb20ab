//! When to fetch, and what a fetch does to what is on screen.
//!
//! The refresh loop is the app's: it owns the timer, the background thread
//! and the network. The decisions it makes along the way are here, each one a
//! function from what the loop knows to what it should do:
//!
//! - **Sixty seconds is a floor, not a preference.** A poll or a popover open
//!   within [`MIN_FETCH_GAP_SECONDS`] of the last fetch reuses what is on
//!   screen; only the user asking (a forced refresh) skips the gap, and
//!   nothing skips a fetch that is already out.
//! - **A failed fetch never blanks the ui.** The last good week stays where it
//!   is, and the failure is recorded beside it.
//! - **A new username is a new account.** The week on screen belongs to the
//!   old one, so it is dropped and a fetch starts at once.

use vstd::prelude::*;

use crate::settings::{usable_username, Settings, MIN_FETCH_GAP_SECONDS};
use crate::text::str_eq;

verus! {

/// Whether a fetch should start: there is a username to fetch with, none is
/// already out, and either the user asked or the last one started at least
/// the cdn's cache window ago (or there has not been one).
pub open spec fn fetch_is_due(
    configured: bool,
    in_flight: bool,
    forced: bool,
    seconds_since_last: Option<u64>,
) -> bool {
    &&& configured
    &&& !in_flight
    &&& (forced || match seconds_since_last {
        Some(seconds) => seconds >= MIN_FETCH_GAP_SECONDS,
        None => true,
    })
}

/// Whether to start a fetch now. `seconds_since_last` is the whole seconds
/// since the last fetch started, or `None` if none has.
///
/// With no username there is nothing to ask for, which is not an error — it
/// is the state the app ships in. A fetch that arrives while one is out is
/// dropped rather than queued: the next tick picks the new numbers up anyway,
/// and two overlapping fetches would race to write the same week.
pub fn fetch_due(configured: bool, in_flight: bool, forced: bool, seconds_since_last: Option<u64>) -> (r:
    bool)
    ensures
        r == fetch_is_due(configured, in_flight, forced, seconds_since_last),
{
    if !configured || in_flight {
        return false;
    }
    if forced {
        return true;
    }
    match seconds_since_last {
        Some(seconds) => seconds >= MIN_FETCH_GAP_SECONDS,
        None => true,
    }
}

/// Forcing a refresh skips the cdn's window and nothing else: a forced fetch
/// is refused exactly when there is no username or one is already out, and
/// an unforced one within the window never starts.
pub proof fn forcing_skips_only_the_gap(
    configured: bool,
    in_flight: bool,
    seconds_since_last: Option<u64>,
)
    ensures
        fetch_is_due(configured, in_flight, true, seconds_since_last) <==> (configured
            && !in_flight),
        fetch_is_due(configured, in_flight, false, seconds_since_last) ==> fetch_is_due(
            configured,
            in_flight,
            true,
            seconds_since_last,
        ),
        (seconds_since_last matches Some(s) && s < MIN_FETCH_GAP_SECONDS) ==> !fetch_is_due(
            configured,
            in_flight,
            false,
            seconds_since_last,
        ),
{
}

/// Whether new settings name a different account than the old ones, going by
/// the usable username of each: a change of spacing is not a new account.
pub fn username_changed(old: &Settings, new: &Settings) -> (r: bool)
    ensures
        r == (usable_username(old.sleeper_username) != usable_username(new.sleeper_username)),
{
    match (old.username(), new.username()) {
        (Some(a), Some(b)) => !str_eq(a, b),
        (None, None) => false,
        _ => true,
    }
}

/// What the notice line says: the fetch's complaint or, when the fetch has
/// nothing to say, the config file's. An error that is keeping the scores off
/// the screen is the more urgent of the two and owns the line while it lasts.
pub fn current_notice(fetch_error: Option<String>, settings_note: Option<String>) -> (r: Option<
    String,
>)
    ensures
        r == if fetch_error is Some {
            fetch_error
        } else {
            settings_note
        },
{
    match fetch_error {
        Some(error) => Some(error),
        None => settings_note,
    }
}

/// The week after one fetch's outcome.
pub open spec fn fetched<S>(week: Week<S>, outcome: Result<S, String>) -> Week<S> {
    match outcome {
        Ok(snapshot) => Week { snapshot: Some(snapshot), error: None },
        Err(message) => Week { snapshot: week.snapshot, error: Some(message) },
    }
}

/// The week after a run of fetches, oldest outcome first.
pub open spec fn after_all<S>(week: Week<S>, outcomes: Seq<Result<S, String>>) -> Week<S>
    decreases outcomes.len(),
{
    if outcomes.len() == 0 {
        week
    } else {
        fetched(after_all(week, outcomes.drop_last()), outcomes.last())
    }
}

/// How long a cached player dictionary is good for, in seconds: Sleeper asks
/// for the dictionary once a day, and a day is the cadence that respects it.
pub const PLAYER_INDEX_TTL_SECONDS: u64 = 86_400;

/// Whether a cached file is young enough to use: its age is known and it was
/// written less than `ttl` ago, so a file just written is stale for a ttl of
/// zero. A file whose age cannot be read — missing, or written by a clock that
/// has since gone backwards — counts as stale, which is the safe way to be
/// wrong: it is refetched. Ages are in nanoseconds, which is exact for any
/// duration.
pub fn is_fresh(age_nanos: Option<u128>, ttl_nanos: u128) -> (r: bool)
    ensures
        r == (age_nanos is Some && age_nanos->0 < ttl_nanos),
{
    match age_nanos {
        Some(age) => age < ttl_nanos,
        None => false,
    }
}

/// Everything a fetch writes and the views read: the last week that landed
/// and what the last fetch failed with, already phrased for the popover.
#[derive(Debug)]
pub struct Week<S> {
    /// The last week that landed, kept across a failed fetch.
    pub snapshot: Option<S>,
    /// What the last fetch failed with.
    pub error: Option<String>,
}

impl<S> Week<S> {
    /// Nothing fetched yet and nothing failed.
    pub fn empty() -> (r: Self)
        ensures
            r.snapshot is None,
            r.error is None,
    {
        Week { snapshot: None, error: None }
    }

    /// The week a launch starts from: the cached one, if any, with nothing
    /// failed yet.
    pub fn from_cache(snapshot: Option<S>) -> (r: Self)
        ensures
            r.snapshot == snapshot,
            r.error is None,
    {
        Week { snapshot, error: None }
    }

    /// What a fetch leaves behind: a new week replaces the old one and clears
    /// the failure; a failure is recorded and the old week stays up.
    pub fn after_fetch(self, outcome: Result<S, String>) -> (r: Self)
        ensures
            r == fetched(self, outcome),
    {
        match outcome {
            Ok(fetched) => Week { snapshot: Some(fetched), error: None },
            Err(message) => Week { snapshot: self.snapshot, error: Some(message) },
        }
    }

    /// Throw away everything fetched under the previous username: scores
    /// belong to one account, and a popover that kept showing the old
    /// leagues while the new ones loaded would be showing somebody else's
    /// week.
    pub fn invalidate(self) -> (r: Self)
        ensures
            r.snapshot is None,
            r.error is None,
    {
        Week { snapshot: None, error: None }
    }

    /// Whether the numbers on screen are from a fetch that has since failed:
    /// they stay up, one shade back, under a line saying when they are from.
    pub fn is_stale(&self) -> (r: bool)
        ensures
            r == (self.error is Some && self.snapshot is Some),
    {
        self.error.is_some() && self.snapshot.is_some()
    }
}

/// A failed fetch never blanks the screen: after any run of failed fetches
/// the week on screen is the one that was there before them, marked with the
/// last failure; and once a fetch lands, its week is the one on screen and
/// the failure is gone.
pub proof fn a_failure_keeps_the_week_on_screen<S>(week: Week<S>, outcomes: Seq<Result<S, String>>)
    ensures
        (forall|i: int| 0 <= i < outcomes.len() ==> (#[trigger] outcomes[i]) is Err) ==> after_all(
            week,
            outcomes,
        ).snapshot == week.snapshot,
        (forall|i: int| 0 <= i < outcomes.len() ==> (#[trigger] outcomes[i]) is Err) && outcomes.len()
            > 0 ==> after_all(week, outcomes).error == Some(outcomes.last()->Err_0),
        outcomes.len() > 0 && outcomes.last() is Ok ==> after_all(week, outcomes).snapshot == Some(
            outcomes.last()->Ok_0,
        ) && after_all(week, outcomes).error is None,
    decreases outcomes.len(),
{
    if outcomes.len() > 0 {
        let rest = outcomes.drop_last();
        a_failure_keeps_the_week_on_screen(week, rest);
        if forall|i: int| 0 <= i < outcomes.len() ==> (#[trigger] outcomes[i]) is Err {
            assert forall|i: int| 0 <= i < rest.len() implies (#[trigger] rest[i]) is Err by {
                assert(rest[i] == outcomes[i]);
            }
            assert(outcomes[outcomes.len() - 1] is Err);
        }
    }
}

} // verus!
