//! The handful of user settings, and the rules that keep them usable.
//!
//! scorebar works with no config at all: everything here has a default, and a
//! missing file is the normal case rather than an error. The one thing it
//! cannot guess is the Sleeper username, which is why that field is an
//! `Option` and why the popover asks for it when it is `None`.
//!
//! The file itself — `~/.config/scorebar/config.toml`, read once at startup
//! and rewritten whenever the popover's Settings section changes something —
//! is the app's to read and write. What is here is what a value means once it
//! is in hand: how a title is spelled and parsed, what a hand-edited file is
//! clamped to, and which username counts as set.

use std::time::Duration;

use vstd::prelude::*;

use crate::text::{
    blank, chars_of, eq_ignore_case, is_blank, same_ignoring_ascii_case, trim, trim_bounds,
    trim_end, trim_start, trim_str,
};

verus! {

/// The directory name scorebar uses under `~/.config` and under
/// `~/Library/Caches`. One constant so the two cannot drift apart.
pub const APP_DIR_NAME: &'static str = "scorebar";

/// What the menu bar item prints beside the scoreboard glyph.
#[derive(Debug, Clone, Copy, PartialEq, Eq, Structural)]
pub enum MenuBarTitle {
    /// The closest game's score line — `"65.44 – 104.32"`. The default,
    /// because the whole reason to put a fantasy score in the menu bar is the
    /// matchup that is still in doubt.
    ClosestGame,
    /// A record across every league, like `"2–1"`. What to show once the week
    /// is decided and the scores have stopped moving.
    Record,
    /// The glyph on its own. The narrowest the item gets, for a menu bar with
    /// no room left in it; the popover still carries everything.
    GlyphOnly,
}

impl Default for MenuBarTitle {
    fn default() -> (r: Self)
        ensures
            r == MenuBarTitle::ClosestGame,
    {
        MenuBarTitle::ClosestGame
    }
}

/// How each choice is spelled in the config file — plain lowercase words, so
/// the file stays something a person can edit.
pub open spec fn config_word(title: MenuBarTitle) -> Seq<char> {
    match title {
        MenuBarTitle::ClosestGame => "closest_game"@,
        MenuBarTitle::Record => "record"@,
        MenuBarTitle::GlyphOnly => "glyph_only"@,
    }
}

/// What a config value means: the trimmed value matched against the words
/// whatever its case, and the default for anything unrecognised.
pub open spec fn parse_title(value: Seq<char>) -> MenuBarTitle {
    let word = trim(value);
    if same_ignoring_ascii_case(word, "record"@) {
        MenuBarTitle::Record
    } else if same_ignoring_ascii_case(word, "glyph_only"@) {
        MenuBarTitle::GlyphOnly
    } else {
        MenuBarTitle::ClosestGame
    }
}

/// The label the Settings row shows for each choice.
pub open spec fn title_label(title: MenuBarTitle) -> Seq<char> {
    match title {
        MenuBarTitle::ClosestGame => "Closest game"@,
        MenuBarTitle::Record => "Record"@,
        MenuBarTitle::GlyphOnly => "Icon only"@,
    }
}

impl MenuBarTitle {
    /// How this choice is spelled in the config file.
    pub fn as_config_str(&self) -> (r: &'static str)
        ensures
            r@ == config_word(*self),
    {
        match self {
            MenuBarTitle::ClosestGame => "closest_game",
            MenuBarTitle::Record => "record",
            MenuBarTitle::GlyphOnly => "glyph_only",
        }
    }

    /// The other direction. Matched case-insensitively so a hand-edited
    /// `"Record"` still works, and anything unrecognised falls back to the
    /// default rather than refusing the file — a value this build has never
    /// heard of is most likely one a newer build wrote.
    pub fn parse(value: &str) -> (r: Self)
        ensures
            r == parse_title(value@),
    {
        let trimmed = trim_str(value);
        if eq_ignore_case(trimmed, "record") {
            MenuBarTitle::Record
        } else if eq_ignore_case(trimmed, "glyph_only") {
            MenuBarTitle::GlyphOnly
        } else {
            MenuBarTitle::ClosestGame
        }
    }

    /// Every choice, in the order the Settings section lists them.
    pub const ALL: [MenuBarTitle; 3] = [
        MenuBarTitle::ClosestGame,
        MenuBarTitle::Record,
        MenuBarTitle::GlyphOnly,
    ];

    /// The label the Settings row shows for this choice.
    pub fn label(&self) -> (r: &'static str)
        ensures
            r@ == title_label(*self),
    {
        match self {
            MenuBarTitle::ClosestGame => "Closest game",
            MenuBarTitle::Record => "Record",
            MenuBarTitle::GlyphOnly => "Icon only",
        }
    }
}

/// A word with no whitespace at either end is its own trim.
proof fn lemma_word_is_trimmed(s: Seq<char>)
    requires
        s.len() > 0,
        !crate::text::is_space(s[0]),
        !crate::text::is_space(s.last()),
    ensures
        trim(s) == s,
{
}

/// Every title reads back as itself from the word it is written as: what the
/// app writes to the config file, it reads back unchanged.
pub proof fn title_round_trips(title: MenuBarTitle)
    ensures
        parse_title(config_word(title)) == title,
{
    reveal_strlit("closest_game");
    reveal_strlit("record");
    reveal_strlit("glyph_only");
    let word = config_word(title);
    lemma_word_is_trimmed(word);
    assert(trim(word) == word);
    match title {
        MenuBarTitle::ClosestGame => {
            assert(!same_ignoring_ascii_case(word, "record"@));
            assert(!same_ignoring_ascii_case(word, "glyph_only"@));
        },
        MenuBarTitle::Record => {
            assert(same_ignoring_ascii_case(word, "record"@));
        },
        MenuBarTitle::GlyphOnly => {
            assert(!same_ignoring_ascii_case(word, "record"@));
            assert(same_ignoring_ascii_case(word, "glyph_only"@));
        },
    }
}

/// Everything the user can choose. Every field has a default, so a file with
/// one key in it is a valid file.
#[derive(Debug, Clone, PartialEq)]
pub struct Settings {
    /// The Sleeper username, which is the only thing scorebar needs from the
    /// user and the only thing it cannot default. Sleeper's read api is
    /// public — no key, no oauth — so a username is enough to find the
    /// leagues and everything after that is public league data.
    ///
    /// `None` until it is set, which is what the popover's "add your username"
    /// state is keyed off.
    pub sleeper_username: Option<String>,
    /// What the menu bar item prints beside the glyph.
    pub menu_bar_title: MenuBarTitle,
    /// How often the scores are refetched, in seconds.
    pub refresh_seconds: u64,
}

/// The default poll interval, in seconds.
///
/// Sleeper's cdn serves the live endpoints with `s-maxage=60`, so a refresh
/// faster than this re-reads Cloudflare's copy of the same numbers: it costs
/// requests and returns nothing new. Sixty seconds is the fastest cadence that
/// can actually see a change.
pub const DEFAULT_REFRESH_SECONDS: u64 = 60;

/// The floor a hand-edited file is clamped to. Below this the app is spending
/// requests on numbers the cdn has not refreshed yet; a `0` would be a refresh
/// loop with no delay in it at all.
pub const MIN_REFRESH_SECONDS: u64 = 15;

/// What goes at the top of a file the app writes, so whoever opens it knows
/// what it is and that the popover owns it.
pub const FILE_HEADER: &'static str = "# scorebar settings. Written by the Settings section; safe to edit by hand.
# menu_bar_title: \"closest_game\", \"record\", or \"glyph_only\".
# refresh_seconds: Sleeper's cdn caches these endpoints for 60 seconds, so
# anything faster refetches the same numbers.
";

impl Default for Settings {
    fn default() -> (r: Self)
        ensures
            r.sleeper_username is None,
            r.menu_bar_title == MenuBarTitle::ClosestGame,
            r.refresh_seconds == DEFAULT_REFRESH_SECONDS,
    {
        Settings {
            sleeper_username: None,
            menu_bar_title: MenuBarTitle::ClosestGame,
            refresh_seconds: DEFAULT_REFRESH_SECONDS,
        }
    }
}

/// The text of an optional string.
pub open spec fn opt_view(o: Option<String>) -> Option<Seq<char>> {
    match o {
        Some(s) => Some(s@),
        None => None,
    }
}

/// The username a setting holds once it is trimmed, or nothing when it is
/// missing or blank.
pub open spec fn usable_username(name: Option<String>) -> Option<Seq<char>> {
    match name {
        Some(n) => if is_blank(n@) {
            None
        } else {
            Some(trim(n@))
        },
        None => None,
    }
}

/// Whether `clamped` is `settings` pulled back into the range that works:
/// the refresh no faster than the floor, the username trimmed and dropped if
/// blank, and the title as it was.
pub open spec fn clamps_to(settings: Settings, clamped: Settings) -> bool {
    &&& clamped.refresh_seconds == if settings.refresh_seconds < MIN_REFRESH_SECONDS {
        MIN_REFRESH_SECONDS
    } else {
        settings.refresh_seconds
    }
    &&& opt_view(clamped.sleeper_username) == usable_username(settings.sleeper_username)
    &&& clamped.menu_bar_title == settings.menu_bar_title
}

/// What the standard library's `Duration::from_secs` returns for a number of
/// seconds.
pub uninterp spec fn duration_of_seconds(seconds: u64) -> Duration;

/// What the standard library's `Duration::as_secs` returns for a duration:
/// its whole seconds.
pub uninterp spec fn seconds_of(duration: Duration) -> u64;

/// A duration of `seconds` whole seconds, by `Duration::from_secs`. The
/// contract names the result, and says the one thing std documents of it
/// that callers use: its whole seconds are `seconds`.
#[verifier::external_body]
fn duration_from_secs(seconds: u64) -> (r: Duration)
    ensures
        r == duration_of_seconds(seconds),
        seconds_of(r) == seconds,
{
    Duration::from_secs(seconds)
}

/// The whole seconds of a duration, by `Duration::as_secs`. The contract
/// names the result and says nothing more of it.
#[verifier::external_body]
pub(crate) fn whole_seconds(duration: Duration) -> (r: u64)
    ensures
        r == seconds_of(duration),
{
    duration.as_secs()
}

/// The least time between two polls, in seconds. Sleeper's live endpoints
/// are served with `s-maxage=60`: asking again sooner spends a request to be
/// handed the same numbers, so the settings' interval is raised to this
/// whatever the file says.
pub const MIN_FETCH_GAP_SECONDS: u64 = 60;

/// The seconds the poll loop waits: the settings' interval, floored first at
/// [`MIN_REFRESH_SECONDS`] and then at [`MIN_FETCH_GAP_SECONDS`].
pub open spec fn poll_seconds(refresh_seconds: u64) -> u64 {
    if refresh_seconds < MIN_FETCH_GAP_SECONDS {
        MIN_FETCH_GAP_SECONDS
    } else {
        refresh_seconds
    }
}

/// How long the poll loop should wait before the next fetch: whatever the
/// settings ask for, never faster than [`MIN_FETCH_GAP_SECONDS`]. Read once
/// per tick, so a change made in the Settings section takes effect on the
/// next interval.
pub fn poll_interval(settings: &Settings) -> (r: Duration)
    ensures
        r == duration_of_seconds(poll_seconds(settings.refresh_seconds)),
        seconds_of(r) >= MIN_FETCH_GAP_SECONDS,
{
    let seconds = if settings.refresh_seconds < MIN_FETCH_GAP_SECONDS {
        MIN_FETCH_GAP_SECONDS
    } else {
        settings.refresh_seconds
    };
    duration_from_secs(seconds)
}

impl Settings {
    /// The same settings pulled back into the range that works, so a
    /// hand-edited file cannot produce a refresh loop with no delay in it or a
    /// username made of spaces.
    pub fn clamped(self) -> (r: Self)
        ensures
            clamps_to(self, r),
    {
        let refresh_seconds = if self.refresh_seconds < MIN_REFRESH_SECONDS {
            MIN_REFRESH_SECONDS
        } else {
            self.refresh_seconds
        };
        // `username = ""` is what a half-finished hand edit leaves behind, and
        // it has to read as "not set" rather than as a username Sleeper will
        // 404 on.
        let sleeper_username = match &self.sleeper_username {
            Some(name) => {
                if blank(name.as_str()) {
                    None
                } else {
                    Some(trim_str(name.as_str()).to_owned())
                }
            },
            None => None,
        };
        Settings { sleeper_username, menu_bar_title: self.menu_bar_title, refresh_seconds }
    }

    /// The username, if there is a usable one. Trimmed, because
    /// [`Self::clamped`] trims on load and the Settings field may not have
    /// been through it yet.
    pub fn username(&self) -> (r: Option<&str>)
        ensures
            r is Some == usable_username(self.sleeper_username) is Some,
            r is Some ==> r->0@ == usable_username(self.sleeper_username)->0,
    {
        match &self.sleeper_username {
            Some(name) => {
                if blank(name.as_str()) {
                    None
                } else {
                    Some(trim_str(name.as_str()))
                }
            },
            None => None,
        }
    }

    /// Whether scorebar has enough to fetch anything at all.
    pub fn is_configured(&self) -> (r: bool)
        ensures
            r == usable_username(self.sleeper_username) is Some,
    {
        self.username().is_some()
    }

    /// The poll interval as a duration, which is what the refresh loop wants:
    /// the setting, never faster than the floor.
    pub fn refresh_interval(&self) -> (r: Duration)
        ensures
            r == duration_of_seconds(
                if self.refresh_seconds < MIN_REFRESH_SECONDS {
                    MIN_REFRESH_SECONDS
                } else {
                    self.refresh_seconds
                },
            ),
            seconds_of(r) >= MIN_REFRESH_SECONDS,
    {
        let seconds = if self.refresh_seconds < MIN_REFRESH_SECONDS {
            MIN_REFRESH_SECONDS
        } else {
            self.refresh_seconds
        };
        duration_from_secs(seconds)
    }
}

/// A blank string's trim is empty, and a trim is never blank unless the
/// string was.
proof fn lemma_blank_of_trim(s: Seq<char>)
    ensures
        is_blank(trim(s)) == is_blank(s),
{
    crate::text::lemma_trim_idempotent(s);
}

/// Clamping settings that are already clamped changes nothing, and a clamped
/// setting's username is exactly the one the settings report as usable.
pub proof fn clamping_settles(settings: Settings, once: Settings, twice: Settings)
    requires
        clamps_to(settings, once),
        clamps_to(once, twice),
    ensures
        opt_view(twice.sleeper_username) == opt_view(once.sleeper_username),
        twice.refresh_seconds == once.refresh_seconds,
        twice.menu_bar_title == once.menu_bar_title,
        usable_username(once.sleeper_username) == opt_view(once.sleeper_username),
        once.refresh_seconds >= MIN_REFRESH_SECONDS,
{
    if let Some(name) = settings.sleeper_username {
        lemma_blank_of_trim(name@);
        crate::text::lemma_trim_idempotent(name@);
    }
}

/// TOML's parse errors are several lines with a caret diagram under them; the
/// notice line has room for the first one only.
pub open spec fn before_newline(s: Seq<char>) -> Seq<char>
    decreases s.len(),
{
    if s.len() == 0 || s[0] == '\n' {
        Seq::empty()
    } else {
        seq![s[0]] + before_newline(s.drop_first())
    }
}

/// The first line of a message, trimmed.
pub fn first_line(message: &str) -> (r: String)
    ensures
        r@ == trim(before_newline(message@)),
{
    let v = chars_of(message);
    let n = v.len();
    let mut k: usize = 0;
    proof {
        assert(v@.skip(0) =~= v@);
        assert(v@.subrange(0, 0) + before_newline(v@) =~= before_newline(v@));
    }
    while k < n && v[k] != '\n'
        invariant
            n == v@.len(),
            k <= n,
            v@ == message@,
            before_newline(v@) == v@.subrange(0, k as int) + before_newline(v@.skip(k as int)),
        decreases n - k,
    {
        proof {
            let rest = v@.skip(k as int);
            assert(rest.drop_first() =~= v@.skip(k + 1));
            assert(v@.subrange(0, k + 1) =~= v@.subrange(0, k as int) + seq![v@[k as int]]);
            assert(before_newline(v@) =~= v@.subrange(0, k + 1) + before_newline(v@.skip(k + 1)));
        }
        k += 1;
    }
    proof {
        assert(before_newline(v@.skip(k as int)) =~= Seq::<char>::empty());
        assert(before_newline(v@) =~= v@.subrange(0, k as int));
    }
    let line = message.substring_char(0, k);
    trim_str(line).to_owned()
}

/// The invented manager the preview fixture belongs to. Nothing here is a real
/// account.
pub const FIXTURE_USERNAME: &'static str = "example_manager";

/// The settings the preview fixture runs on: a username, so the preview shows
/// the scoreboard rather than the invitation, and defaults for the rest.
pub fn fixture_settings() -> (r: Settings)
    ensures
        opt_view(r.sleeper_username) == Some(FIXTURE_USERNAME@),
        r.menu_bar_title == MenuBarTitle::ClosestGame,
        r.refresh_seconds == DEFAULT_REFRESH_SECONDS,
{
    let defaults = Settings::default();
    Settings { sleeper_username: Some(FIXTURE_USERNAME.to_owned()), ..defaults }
}

} // verus!
