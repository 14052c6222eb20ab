//! What can go wrong building a snapshot.
//!
//! Almost everything is Sleeper's to fail, so most of this enum is a wrapper.
//! The two cases added here are the ones that are not failures of the api at
//! all — the api answered correctly, and the correct answer was "no". An
//! unknown username comes back as HTTP 200 with a `null` body, and an account
//! with no leagues comes back as HTTP 200 with `[]`. Both are things the user
//! typed wrong or a season that has not rolled over yet, and both need a
//! sentence the popover can print at somebody rather than a status code.

use vstd::prelude::*;

use crate::sleeper::error::{error_text, transient, Error as SleeperError};
use crate::text::{decimal, join3};

verus! {

/// Anything that can fail between a username and a snapshot.
#[derive(Debug)]
pub enum Error {
    /// The api call itself failed, or its payload did not decode.
    Sleeper(SleeperError),
    /// Sleeper has no account by that name. Distinct from a transport failure
    /// and from an empty league list, because it is the one of the three the
    /// user can fix by retyping.
    UnknownUsername {
        /// What was typed, quoted back so the message names it.
        username: String,
    },
    /// The account exists and is in no leagues this season. Normal in the
    /// offseason before Sleeper rolls dynasty leagues over, and normal for an
    /// account that has never played.
    NoLeagues {
        /// The season asked for.
        season: u16,
    },
}

/// Whether a snapshot failure is worth trying again shortly: only Sleeper's
/// own transient failures are.
pub open spec fn snapshot_transient(error: Error) -> bool {
    match error {
        Error::Sleeper(inner) => transient(inner),
        Error::UnknownUsername { .. } => false,
        Error::NoLeagues { .. } => false,
    }
}

/// The sentence a snapshot failure reads as. A wrapped Sleeper error keeps its
/// own words, with no prefix added on the way through.
pub open spec fn snapshot_error_text(error: Error) -> Seq<char> {
    match error {
        Error::Sleeper(inner) => error_text(inner),
        Error::UnknownUsername { username } => "no sleeper account named \""@ + username@ + "\""@,
        Error::NoLeagues { season } => "that account is not in any leagues for the "@ + decimal(
            season as nat,
        ) + " season"@,
    }
}


impl Error {
    /// Whether this is worth trying again shortly.
    ///
    /// The refresh loop backs off on a transient failure and keeps showing the
    /// cached snapshot; on anything else it stops and says why, because
    /// retrying a misspelled username every five minutes forever is not a
    /// recovery strategy.
    pub fn is_transient(&self) -> (r: bool)
        ensures
            r == snapshot_transient(*self),
    {
        match self {
            Error::Sleeper(error) => error.is_transient(),
            Error::UnknownUsername { .. } => false,
            Error::NoLeagues { .. } => false,
        }
    }

    /// The failure as a sentence the popover can print.
    pub fn to_string(&self) -> (r: String)
        ensures
            r@ == snapshot_error_text(*self),
    {
        match self {
            Error::Sleeper(error) => error.to_string(),
            Error::UnknownUsername { username } => join3(
                "no sleeper account named \"",
                username.as_str(),
                "\"",
            ),
            Error::NoLeagues { season } => {
                let mut text = "that account is not in any leagues for the ".to_owned();
                let number = crate::text::decimal_string(*season as u64);
                text.append(number.as_str());
                text.append(" season");
                text
            },
        }
    }

    /// What a failed lookup of `username` becomes. Sleeper answers an unknown
    /// username with a `null` body, which the client reports as a not-found;
    /// that is the user's typo, not Sleeper's failure.
    pub fn from_user_lookup(error: SleeperError, username: &str) -> (r: Error)
        ensures
            match error {
                SleeperError::NotFound { .. } => (r matches Error::UnknownUsername { username: u } && u@
                    == username@),
                _ => r == Error::Sleeper(error),
            },
    {
        match error {
            SleeperError::NotFound { .. } => Error::UnknownUsername { username: username.to_owned() },
            other => Error::Sleeper(other),
        }
    }
}

/// An account's league list, checked: an empty one is
/// [`Error::NoLeagues`] for the season asked about, because a snapshot of no
/// leagues is a scoreboard with nothing on it and the user should be told why.
pub fn require_leagues(league_count: usize, season: u16) -> (r: Result<(), Error>)
    ensures
        r is Ok == (league_count > 0),
        r is Err ==> r->Err_0 == (Error::NoLeagues { season }),
{
    if league_count == 0 {
        Err(Error::NoLeagues { season })
    } else {
        Ok(())
    }
}

impl From<SleeperError> for Error {
    fn from(error: SleeperError) -> (r: Self) {
        Error::Sleeper(error)
    }
}

impl vstd::std_specs::convert::FromSpecImpl<SleeperError> for Error {
    open spec fn obeys_from_spec() -> bool {
        true
    }

    open spec fn from_spec(v: SleeperError) -> Self {
        Error::Sleeper(v)
    }
}

} // verus!
