//! scorebar: the Sleeper fantasy football scoreboard, minus the drawing.
//!
//! The verified half of the project. Everything here works on plain values —
//! strings, integers, vectors — and states what it returns in a contract:
//!
//! - [`text`] is the handful of string rules the rest leans on: Unicode
//!   whitespace trimming, ASCII case folding, decimal numbers.
//! - [`sleeper`] is the read api's vocabulary: ids, payload models, the
//!   player index, how a week's matchups pair up, the endpoints and their
//!   errors.
//! - [`scoreboard`] is the view model's float-free half: where a week is,
//!   whose team is whose, and what can go wrong building a snapshot.
//! - [`settings`] is the user's choices and the rules that clamp them.
//! - [`captions`] is the text the popover and the detail window print.
//! - [`refresh`] is when to fetch, and what a fetch does to the screen.
//! - [`tabs`] is which league the detail window is showing.

pub mod captions;
pub mod refresh;
pub mod scoreboard;
pub mod settings;
pub mod sleeper;
pub mod tabs;
pub mod text;
