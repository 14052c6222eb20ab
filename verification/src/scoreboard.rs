//! The scoreboard's float-free half: what can go wrong building one, where a
//! week is, and whose team is whose.
//!
//! The scores, the projections and the win probability are floating point
//! and are the app's to compute; every decision that does not depend on the
//! value of a float is made here, on the ids and flags it depends on.

pub mod card;
pub mod clock;
pub mod error;
pub mod lineup;
pub mod week;

pub use clock::{now_unix, unix_timestamp};
pub use card::{closest_game_index, name_of, owned_roster, record_of, roster_with_id, team_names};
pub use error::{require_leagues, Error};
pub use lineup::{is_yet_to_play, lineup_slots, seat_label, yet_to_play, LineupSlot, SeatLabel};
pub use week::{card_state, week_state, WeekState};
