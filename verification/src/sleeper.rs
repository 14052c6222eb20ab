//! Sleeper's public read api, as plain values: the ids, the payloads a
//! scoring ui reads, the player dictionary, how a week's entries pair into
//! games, and which request asks for what.

pub mod endpoint;
pub mod error;
pub mod ids;
pub mod model;
pub mod pairing;
pub mod players;

pub use endpoint::{Request, DEFAULT_BASE_URL};
pub use error::Error;
pub use ids::{LeagueId, PlayerId, Position, RosterId, UserId, EMPTY_STARTER};
pub use model::{
    avatar_url, LeagueSettings, LeagueUser, LeagueUserMetadata, Player, ProjectedPlayer, Roster,
    RosterSettings, State, User,
};
pub use pairing::{pair_for_roster, pairs, starter_points, PairSlots};
pub use players::PlayerIndex;
