//! The words the popover, the detail window and the menu bar item print.
//!
//! Every line here is built from numbers and names the caller already has in
//! hand — the percentages and score texts are worked out from floats by the
//! app, and arrive here as integers and strings. What is decided here is the
//! shape of each line: what it says when there is nothing to say, when a part
//! is dropped, and how a name too long for its column is cut.

use vstd::prelude::*;

use crate::scoreboard::week::{caption_of, WeekState};
use crate::settings::MenuBarTitle;

use crate::text::{
    chars_of, decimal, is_space, join2, join3, push_decimal, replace_char, replace_char_str,
    str_eq, trim_end, trim_end_str,
};

verus! {

/// The name in the header before the first week lands, and in the Quit row.
pub const APP_NAME: &'static str = "Scorebar";

/// Where the "Open Sleeper" row goes: the league list, not one league, because
/// the popover cannot know which league the click was about.
pub const SLEEPER_URL: &'static str = "https://sleeper.com/leagues";

/// Under the username row: where the value is kept, in a path a person can
/// find. Written with a tilde rather than a home directory, which is both
/// shorter and the same on every machine.
pub const CONFIG_FILE_NOTE: &'static str = "Opens ~/.config/scorebar/config.toml";

/// Between two scores, and between two projections: an en dash with a space
/// either side, which is how a scoreline is set.
pub const SCORE_DASH: &'static str = " \u{2013} ";

/// Between a failure and when the numbers on screen are from.
pub const NOTICE_JOIN: &'static str = " \u{b7} ";

/// What stands in for the league blocks when there are none, one line per
/// thing to do next.
pub const NO_USERNAME_LINE: &'static str = "Add your Sleeper username below";
pub const LOADING_LINE: &'static str = "Checking your leagues\u{2026}";
pub const NO_SCORES_LINE: &'static str = "No scores yet";
pub const NO_LEAGUES_LINE: &'static str = "No leagues this season";

/// The refresh intervals the Settings section offers, in seconds, with the
/// labels it prints. One minute is the default and the cdn's own cache window;
/// the two longer ones are for a machine on a metered connection or a week
/// that has stopped moving.
pub const REFRESH_CHOICES: [(u64, &'static str); 3] = [
    (60, "1 minute"),
    (300, "5 minutes"),
    (900, "15 minutes"),
];

/// The intervals offered, shortest first.
pub open spec fn offered_refreshes() -> Seq<u64> {
    seq![60u64, 300u64, 900u64]
}

/// Whether `r` is the interval row that carries the tick for `seconds`: the
/// largest offer at or below it, or the shortest offer when every offer is
/// above it.
pub open spec fn ticks_for(seconds: u64, r: u64) -> bool {
    let offers = offered_refreshes();
    &&& offers.contains(r)
    &&& forall|i: int| 0 <= i < offers.len() && offers[i] <= seconds ==> offers[i] <= r
    &&& (r <= seconds || (r == offers[0] && forall|i: int|
        0 <= i < offers.len() ==> offers[i] > seconds))
}

/// Which interval row carries the checkmark. The offered intervals are a short
/// list and the file can hold anything, so the largest offered interval at or
/// below what is set gets the tick — a hand-edited `refresh_seconds = 120`
/// shows as "1 minute" rather than as nothing at all.
pub fn checked_refresh(seconds: u64) -> (r: u64)
    ensures
        ticks_for(seconds, r),
{
    let choices = REFRESH_CHOICES;
    let mut best: Option<u64> = None;
    let ghost mut at: int = 0;
    let mut i: usize = 0;
    while i < 3
        invariant
            i <= 3,
            choices@ == REFRESH_CHOICES@,
            forall|k: int| 0 <= k < 3 ==> choices@[k].0 == offered_refreshes()[k],
            match best {
                Some(b) => {
                    &&& b <= seconds
                    &&& 0 <= at < i
                    &&& offered_refreshes()[at] == b
                    &&& forall|k: int|
                        0 <= k < i && offered_refreshes()[k] <= seconds
                            ==> offered_refreshes()[k] <= b
                },
                None => forall|k: int| 0 <= k < i ==> offered_refreshes()[k] > seconds,
            },
        decreases 3 - i,
    {
        let offered = choices[i].0;
        if offered <= seconds {
            match best {
                Some(b) => {
                    if b < offered {
                        best = Some(offered);
                        proof {
                            at = i as int;
                        }
                    }
                },
                None => {
                    best = Some(offered);
                    proof {
                        at = i as int;
                    }
                },
            }
        }
        i += 1;
    }
    let ghost offers = offered_refreshes();
    match best {
        Some(b) => {
            assert(offers[at] == b);
            b
        },
        None => {
            assert(offers[0] == 60);
            choices[0].0
        },
    }
}

/// The interval rows always carry exactly one tick: whatever is set, one
/// offered interval is the ticked one and no other is; every offered interval
/// ticks itself; and every offer is at or above the settings' floor, so
/// picking one never needs clamping.
pub proof fn one_refresh_row_is_ticked(seconds: u64, a: u64, b: u64)
    ensures
        exists|r: u64| ticks_for(seconds, r),
        ticks_for(seconds, a) && ticks_for(seconds, b) ==> a == b,
        forall|i: int|
            0 <= i < offered_refreshes().len() ==> #[trigger] ticks_for(
                offered_refreshes()[i],
                offered_refreshes()[i],
            ),
        forall|i: int|
            0 <= i < offered_refreshes().len() ==> offered_refreshes()[i]
                >= crate::settings::MIN_REFRESH_SECONDS,
{
    let offers = offered_refreshes();
    assert(offers[0] == 60 && offers[1] == 300 && offers[2] == 900);
    let r: u64 = if seconds >= 900 {
        900
    } else if seconds >= 300 {
        300
    } else {
        60
    };
    assert(offers.contains(r)) by {
        if r == 900 {
            assert(offers[2] == r);
        } else if r == 300 {
            assert(offers[1] == r);
        } else {
            assert(offers[0] == r);
        }
    }
    assert(ticks_for(seconds, r));
    if ticks_for(seconds, a) && ticks_for(seconds, b) {
        assert(offers.contains(a) && offers.contains(b));
        let ia = choose|i: int| 0 <= i < offers.len() && offers[i] == a;
        let ib = choose|i: int| 0 <= i < offers.len() && offers[i] == b;
        assert(offers[ia] == a && offers[ib] == b);
    }
    assert forall|i: int| 0 <= i < offers.len() implies #[trigger] ticks_for(
        offers[i],
        offers[i],
    ) by {
        assert(offers.contains(offers[i]));
    }
}

/// The win probability as the popover prints it: `"96%"`.
pub fn percent_text(percent: u32) -> (r: String)
    ensures
        r@ == decimal(percent as nat) + "%"@,
{
    let mut r = String::new();
    push_decimal(&mut r, percent as u64);
    r.append("%");
    r
}

/// The centre column of the detail header's caption: `"96% win"`.
pub fn win_line(percent: u32) -> (r: String)
    ensures
        r@ == decimal(percent as nat) + "% win"@,
{
    let mut r = String::new();
    push_decimal(&mut r, percent as u64);
    r.append("% win");
    r
}

/// The header's left-hand side: the week, or — before the first snapshot,
/// when there is no week to name — the app's own name rather than "Week 0".
pub fn week_label(week: Option<u8>) -> (r: String)
    ensures
        r@ == match week {
            Some(w) => "Week "@ + decimal(w as nat),
            None => APP_NAME@,
        },
{
    match week {
        Some(w) => {
            let mut r = "Week ".to_owned();
            push_decimal(&mut r, w as u64);
            r
        },
        None => APP_NAME.to_owned(),
    }
}

/// A day of the week, for the header's right-hand side.
#[derive(Debug, Clone, Copy, PartialEq, Eq, Structural)]
pub enum Weekday {
    Mon,
    Tue,
    Wed,
    Thu,
    Fri,
    Sat,
    Sun,
}

/// How each day is spelled out.
pub open spec fn day_name(day: Weekday) -> Seq<char> {
    match day {
        Weekday::Mon => "Monday"@,
        Weekday::Tue => "Tuesday"@,
        Weekday::Wed => "Wednesday"@,
        Weekday::Thu => "Thursday"@,
        Weekday::Fri => "Friday"@,
        Weekday::Sat => "Saturday"@,
        Weekday::Sun => "Sunday"@,
    }
}

/// The header's right-hand side, spelled out rather than localised: the rest
/// of the popover is English, and a half-translated menu is worse than an
/// untranslated one.
pub fn day_label(day: Weekday) -> (r: &'static str)
    ensures
        r@ == day_name(day),
{
    match day {
        Weekday::Mon => "Monday",
        Weekday::Tue => "Tuesday",
        Weekday::Wed => "Wednesday",
        Weekday::Thu => "Thursday",
        Weekday::Fri => "Friday",
        Weekday::Sat => "Saturday",
        Weekday::Sun => "Sunday",
    }
}

/// The notice line: what the last fetch failed with and, when numbers from
/// an earlier fetch are still on screen, when those are from. No failure, no
/// notice — a healthy popover has nothing under its header.
pub fn notice_text(error: Option<&str>, moment: Option<&str>) -> (r: Option<String>)
    ensures
        r is Some == error is Some,
        r is Some ==> r->0@ == match moment {
            Some(m) => error->0@ + NOTICE_JOIN@ + m@,
            None => error->0@,
        },
{
    match error {
        None => None,
        Some(e) => match moment {
            Some(m) => Some(join3(e, NOTICE_JOIN, m)),
            None => Some(e.to_owned()),
        },
    }
}

/// What stands in for the league blocks when there are none, in the order
/// the causes are worth telling: no username, a fetch still out, a fetch that
/// failed (the notice above says what), and a season with no leagues in it.
pub fn empty_line(configured: bool, fetching: bool, failed: bool) -> (r: &'static str)
    ensures
        r@ == if !configured {
            NO_USERNAME_LINE@
        } else if fetching {
            LOADING_LINE@
        } else if failed {
            NO_SCORES_LINE@
        } else {
            NO_LEAGUES_LINE@
        },
{
    if !configured {
        NO_USERNAME_LINE
    } else if fetching {
        LOADING_LINE
    } else if failed {
        NO_SCORES_LINE
    } else {
        NO_LEAGUES_LINE
    }
}

/// The closest game as one line, `"118.44 – 79.02"`, or my score on its own
/// in a week with nobody on the other side.
pub fn score_line(mine: &str, theirs: Option<&str>) -> (r: String)
    ensures
        r@ == match theirs {
            Some(t) => mine@ + SCORE_DASH@ + t@,
            None => mine@,
        },
{
    match theirs {
        Some(t) => join3(mine, SCORE_DASH, t),
        None => mine.to_owned(),
    }
}

/// The projection caption under a league block: both projected finals, mine
/// first, in the same order as the scores above them.
pub fn projection_text(mine: &str, theirs: &str) -> (r: String)
    ensures
        r@ == "proj "@ + mine@ + SCORE_DASH@ + theirs@,
{
    let mut r = "proj ".to_owned();
    r.append(mine);
    r.append(SCORE_DASH);
    r.append(theirs);
    r
}

/// The line under one side of the detail header: `"proj 131.6 · 5 to play"`,
/// with the count dropped once everybody has played — "0 to play" is a
/// sentence about nothing.
pub fn projection_line(projected: &str, yet_to_play: u8) -> (r: String)
    ensures
        r@ == if yet_to_play == 0 {
            "proj "@ + projected@
        } else {
            "proj "@ + projected@ + NOTICE_JOIN@ + decimal(yet_to_play as nat) + " to play"@
        },
{
    let mut r = "proj ".to_owned();
    r.append(projected);
    if yet_to_play != 0 {
        r.append(NOTICE_JOIN);
        push_decimal(&mut r, yet_to_play as u64);
        r.append(" to play");
    }
    r
}

// ── Cutting names to a column ────────────────────────────────────────────────

/// How many characters of a league's name a title-bar tab holds.
pub const TAB_CHARS: usize = 22;

/// `text` cut to `max` characters: unchanged when it fits, and otherwise the
/// first `max - 1` characters with their trailing whitespace dropped and an
/// ellipsis after them.
pub open spec fn truncated(text: Seq<char>, max: nat) -> Seq<char> {
    if max == 0 {
        Seq::empty()
    } else if text.len() <= max {
        text
    } else {
        trim_end(text.take(max - 1)) + seq!['\u{2026}']
    }
}

/// Cut `text` to `max` characters, ending in an ellipsis when it had to cut.
///
/// Counted in characters, not bytes, so a name with an accent in it is cut in
/// the right place rather than panicking. The ellipsis is one character and
/// replaces the last one kept, so the result is never wider than the budget.
pub fn truncate(text: &str, max: usize) -> (r: String)
    ensures
        r@ == truncated(text@, max as nat),
{
    if max == 0 {
        return String::new();
    }
    let v = chars_of(text);
    if v.len() <= max {
        return text.to_owned();
    }
    let kept = text.substring_char(0, max - 1);
    assert(kept@ == text@.take(max - 1));
    let mut r = trim_end_str(kept).to_owned();
    crate::text::push_char(&mut r, '\u{2026}');
    r
}

/// A cut never makes a name wider than its budget: whatever `truncate`
/// returns has at most `max` characters, and a name that fits comes back as
/// it was.
pub proof fn truncation_fits_the_budget(text: Seq<char>, max: nat)
    ensures
        truncated(text, max).len() <= max,
        text.len() <= max ==> truncated(text, max) == text,
{
    if max > 0 && text.len() > max {
        crate::text::lemma_trim_end_result(text.take(max - 1));
    }
}

// ── Slot labels ──────────────────────────────────────────────────────────────

/// The printed label for a slot the league spells `position`: the handful of
/// slots whose printed name is a single word get it, and anything else keeps
/// its own word with the underscores turned into spaces.
pub open spec fn slot_word(position: Seq<char>) -> Seq<char> {
    if position == "SUPER_FLEX"@ {
        "SUPERFLEX"@
    } else if position == "WRRB_FLEX"@ {
        "FLEX"@
    } else if position == "REC_FLEX"@ {
        "REC FLEX"@
    } else if position == "IDP_FLEX"@ {
        "IDP"@
    } else if position == "DEF"@ || position == "DST"@ {
        "DST"@
    } else {
        replace_char(position, '_', ' ')
    }
}

/// The label printed between two players, from the league's own slot name.
///
/// Sleeper spells its slots in screaming snake case — `SUPER_FLEX`,
/// `REC_FLEX`, `IDP_FLEX` — which is a wire format, not a label. The
/// underscore goes, and the handful of slots whose printed name is a single
/// word get it. Anything unrecognised is passed through with its underscores
/// turned into spaces, so a league with a slot this list has never heard of
/// still gets its own word rather than a blank column.
pub fn slot_label(position: &str) -> (r: String)
    ensures
        r@ == slot_word(position@),
{
    if str_eq(position, "SUPER_FLEX") {
        "SUPERFLEX".to_owned()
    } else if str_eq(position, "WRRB_FLEX") {
        "FLEX".to_owned()
    } else if str_eq(position, "REC_FLEX") {
        "REC FLEX".to_owned()
    } else if str_eq(position, "IDP_FLEX") {
        "IDP".to_owned()
    } else if str_eq(position, "DEF") || str_eq(position, "DST") {
        "DST".to_owned()
    } else {
        replace_char_str(position, '_', ' ')
    }
}

/// No label is printed in wire format: whatever the league calls a slot, its
/// label has no underscore in it.
pub proof fn slot_labels_have_no_underscores(position: Seq<char>)
    ensures
        !slot_word(position).contains('_'),
{
    reveal_strlit("SUPERFLEX");
    reveal_strlit("FLEX");
    reveal_strlit("REC FLEX");
    reveal_strlit("IDP");
    reveal_strlit("DST");
    let w = slot_word(position);
    if w.contains('_') {
        let i = choose|i: int| 0 <= i < w.len() && w[i] == '_';
        assert(w[i] == '_');
    }
}

/// The entries of `roster_positions` that are not a starting slot. Sleeper
/// lists the starting lineup first and then pads with these.
pub open spec fn is_bench_word(position: Seq<char>) -> bool {
    position == "BN"@ || position == "IR"@ || position == "TAXI"@
}

/// Whether an entry in `roster_positions` is a slot somebody starts in.
pub fn is_starting_slot(position: &str) -> (r: bool)
    ensures
        r == !is_bench_word(position@),
{
    !(str_eq(position, "BN") || str_eq(position, "IR") || str_eq(position, "TAXI"))
}

/// The starting slots of `positions`, in the order they appear.
pub open spec fn starting_slots_of(positions: Seq<String>) -> Seq<Seq<char>>
    decreases positions.len(),
{
    if positions.len() == 0 {
        Seq::empty()
    } else if is_bench_word(positions.last()@) {
        starting_slots_of(positions.drop_last())
    } else {
        starting_slots_of(positions.drop_last()).push(positions.last()@)
    }
}

/// The league's lineup template with the bench, reserve and taxi entries
/// dropped: the slots a lineup row is drawn for, in the order the lineup is
/// submitted in. Row `i` pairs with each side's `i`-th starter.
pub fn starting_slots(positions: &[String]) -> (r: Vec<String>)
    ensures
        r@.map_values(|s: String| s@) == starting_slots_of(positions@),
{
    let mut r: Vec<String> = Vec::new();
    let mut i: usize = 0;
    while i < positions.len()
        invariant
            i <= positions@.len(),
            r@.map_values(|s: String| s@) == starting_slots_of(positions@.take(i as int)),
        decreases positions@.len() - i,
    {
        let position = &positions[i];
        proof {
            assert(positions@.take(i + 1).drop_last() =~= positions@.take(i as int));
            assert(positions@.take(i + 1).last() == positions@[i as int]);
        }
        if is_starting_slot(position.as_str()) {
            r.push(position.clone());
            assert(r@.map_values(|s: String| s@) =~= starting_slots_of(positions@.take(i as int)).push(
                positions@[i as int]@,
            ));
        }
        i += 1;
    }
    assert(positions@.take(positions@.len() as int) =~= positions@);
    r
}

// ── The week's record ────────────────────────────────────────────────────────

/// How one league's game stands from the user's side.
#[derive(Debug, Clone, Copy, PartialEq, Eq, Structural)]
pub enum Outcome {
    /// The user's score is the higher.
    Ahead,
    /// The opponent's is.
    Behind,
    /// Level.
    Level,
}

/// How many of `outcomes` are `o`; a league with nobody on the other side
/// (`None`) is no game and counts for nothing.
pub open spec fn tally(outcomes: Seq<Option<Outcome>>, o: Outcome) -> nat
    decreases outcomes.len(),
{
    if outcomes.len() == 0 {
        0
    } else {
        tally(outcomes.drop_last(), o) + if outcomes.last() == Some(o) {
            1nat
        } else {
            0nat
        }
    }
}

/// The record line for these counts: `"2–1"`, or `"2–1–1"` when a game is
/// level.
pub open spec fn record_line(wins: nat, losses: nat, ties: nat) -> Seq<char> {
    if ties > 0 {
        decimal(wins) + "\u{2013}"@ + decimal(losses) + "\u{2013}"@ + decimal(ties)
    } else {
        decimal(wins) + "\u{2013}"@ + decimal(losses)
    }
}

/// A league with nobody on the other side leaves the record as it was: a bye
/// is no game, won or lost.
pub proof fn a_bye_is_left_out_of_the_record(outcomes: Seq<Option<Outcome>>, o: Outcome)
    ensures
        tally(outcomes.push(None), o) == tally(outcomes, o),
        tally(outcomes.push(Some(o)), o) == tally(outcomes, o) + 1,
{
    assert(outcomes.push(None).drop_last() =~= outcomes);
    assert(outcomes.push(Some(o)).drop_last() =~= outcomes);
}

/// A tally never counts more leagues than there are.
proof fn lemma_tally_bounded(outcomes: Seq<Option<Outcome>>, o: Outcome)
    ensures
        tally(outcomes, o) <= outcomes.len(),
    decreases outcomes.len(),
{
    if outcomes.len() > 0 {
        lemma_tally_bounded(outcomes.drop_last(), o);
    }
}

/// How the week is going across every league: this week's wins, losses and
/// ties, not the season's — a line that stops moving once the games are
/// over. A league with nobody on the other side is not counted: there is no
/// game to be winning.
pub fn week_record(outcomes: &[Option<Outcome>]) -> (r: String)
    requires
        outcomes@.len() <= u32::MAX,
    ensures
        r@ == record_line(
            tally(outcomes@, Outcome::Ahead),
            tally(outcomes@, Outcome::Behind),
            tally(outcomes@, Outcome::Level),
        ),
{
    let mut wins: u32 = 0;
    let mut losses: u32 = 0;
    let mut ties: u32 = 0;
    let mut i: usize = 0;
    while i < outcomes.len()
        invariant
            i <= outcomes@.len() <= u32::MAX,
            wins == tally(outcomes@.take(i as int), Outcome::Ahead),
            losses == tally(outcomes@.take(i as int), Outcome::Behind),
            ties == tally(outcomes@.take(i as int), Outcome::Level),
        decreases outcomes@.len() - i,
    {
        let ghost before = outcomes@.take(i as int);
        let ghost after = outcomes@.take(i + 1);
        proof {
            assert(after.drop_last() =~= before);
            assert(after.last() == outcomes@[i as int]);
            lemma_tally_bounded(before, Outcome::Ahead);
            lemma_tally_bounded(before, Outcome::Behind);
            lemma_tally_bounded(before, Outcome::Level);
        }
        match outcomes[i] {
            Some(Outcome::Ahead) => wins += 1,
            Some(Outcome::Behind) => losses += 1,
            Some(Outcome::Level) => ties += 1,
            None => {},
        }
        i += 1;
    }
    assert(outcomes@.take(outcomes@.len() as int) =~= outcomes@);
    let mut r = String::new();
    push_decimal(&mut r, wins as u64);
    r.append("\u{2013}");
    push_decimal(&mut r, losses as u64);
    if ties > 0 {
        r.append("\u{2013}");
        push_decimal(&mut r, ties as u64);
    }
    r
}

// ── A week with nobody on the other side ────────────────────────────────────

/// What the detail header names in place of an opponent when there is none
/// and the week's state has no word of its own.
pub const NO_OPPONENT: &'static str = "No opponent";

/// What a popover block says when the week has no game in it and the state
/// has no word of its own.
pub const NO_GAME_CAPTION: &'static str = "No game";

/// The state's own word, or `fallback` when it has none.
pub open spec fn caption_or(state: WeekState, fallback: Seq<char>) -> Seq<char> {
    match caption_of(state) {
        Some(word) => word,
        None => fallback,
    }
}

/// The name on the opponent's line of the detail header: the opponent's
/// team, or — for a bye or an unpaired week, where there is no team to name —
/// what the week is, rather than a blank line pretending somebody is there.
pub fn opponent_caption(opponent: Option<&str>, state: WeekState) -> (r: String)
    ensures
        r@ == match opponent {
            Some(name) => name@,
            None => caption_or(state, NO_OPPONENT@),
        },
{
    match opponent {
        Some(name) => name.to_owned(),
        None => match state.caption() {
            Some(word) => word.to_owned(),
            None => NO_OPPONENT.to_owned(),
        },
    }
}

/// What a popover block with no game in it says beside the score.
pub fn no_game_caption(state: WeekState) -> (r: &'static str)
    ensures
        r@ == caption_or(state, NO_GAME_CAPTION@),
{
    match state.caption() {
        Some(word) => word,
        None => NO_GAME_CAPTION,
    }
}

// ── The menu bar item ────────────────────────────────────────────────────────

/// What the menu bar item draws.
#[derive(Debug, Clone, PartialEq, Eq)]
pub enum MenuBarState {
    /// Nothing to report: a faded glyph, which is what the system items do
    /// when they have nothing to say.
    Idle,
    /// Something to report, with the text beside the glyph — or none, when
    /// the user has asked for the glyph on its own.
    Live {
        /// The text beside the glyph.
        label: Option<String>,
    },
}

/// The label a title choice prints: the closest game's line, the week's
/// record, or nothing.
pub open spec fn label_for(
    title: MenuBarTitle,
    closest_line: Option<Seq<char>>,
    outcomes: Seq<Option<Outcome>>,
) -> Option<Seq<char>> {
    match title {
        MenuBarTitle::ClosestGame => closest_line,
        MenuBarTitle::Record => Some(
            record_line(
                tally(outcomes, Outcome::Ahead),
                tally(outcomes, Outcome::Behind),
                tally(outcomes, Outcome::Level),
            ),
        ),
        MenuBarTitle::GlyphOnly => None,
    }
}

/// Which label each title prints: the closest game's line under the closest
/// game, nothing under the glyph alone, and under the record always a line —
/// whatever the closest game's line is, or whether there is one — that opens
/// with the number of leagues being won, then an en dash. The record never
/// depends on the closest game.
pub proof fn each_title_prints_its_own_label(
    closest: Option<Seq<char>>,
    other_closest: Option<Seq<char>>,
    outcomes: Seq<Option<Outcome>>,
)
    ensures
        label_for(MenuBarTitle::ClosestGame, closest, outcomes) == closest,
        label_for(MenuBarTitle::GlyphOnly, closest, outcomes) is None,
        label_for(MenuBarTitle::Record, closest, outcomes) == label_for(
            MenuBarTitle::Record,
            other_closest,
            outcomes,
        ),
        label_for(MenuBarTitle::Record, closest, outcomes) is Some,
        ({
            let line = label_for(MenuBarTitle::Record, closest, outcomes)->0;
            let wins = decimal(tally(outcomes, Outcome::Ahead));
            &&& line.len() > wins.len()
            &&& line.take(wins.len() as int) == wins
            &&& line[wins.len() as int] == '\u{2013}'
        }),
{
    reveal_strlit("\u{2013}");
    let wins = decimal(tally(outcomes, Outcome::Ahead));
    let line = label_for(MenuBarTitle::Record, closest, outcomes)->0;
    let losses = decimal(tally(outcomes, Outcome::Behind));
    let ties = decimal(tally(outcomes, Outcome::Level));
    if tally(outcomes, Outcome::Level) > 0 {
        assert(line == wins + "\u{2013}"@ + losses + "\u{2013}"@ + ties);
    } else {
        assert(line == wins + "\u{2013}"@ + losses);
    }
    assert(line.take(wins.len() as int) =~= wins);
    assert(line[wins.len() as int] == "\u{2013}"@[0]);
}

/// The view of an optional string.
pub open spec fn line_view(line: Option<String>) -> Option<Seq<char>> {
    match line {
        Some(text) => Some(text@),
        None => None,
    }
}

/// What the menu bar item draws for a week and the user's choice of title.
///
/// `league_count` is `None` when no week has landed yet. No week, or a week
/// with no leagues in it, is [`MenuBarState::Idle`]: an account whose leagues
/// all dropped out must not draw an empty score line. Everything else is
/// [`MenuBarState::Live`], the glyph-only choice included, because the item
/// has something to report and the user has merely asked it not to print the
/// numbers. `closest_line` is the closest game's score line, and `outcomes`
/// is how each league's game stands, for the record.
pub fn menu_bar_state_for(
    league_count: Option<usize>,
    title: MenuBarTitle,
    closest_line: Option<String>,
    outcomes: &[Option<Outcome>],
) -> (r: MenuBarState)
    requires
        outcomes@.len() <= u32::MAX,
    ensures
        (league_count is None || league_count == Some(0usize)) ==> r == MenuBarState::Idle,
        (league_count is Some && league_count != Some(0usize)) ==> (r matches MenuBarState::Live {
            label,
        } && line_view(label) == label_for(title, line_view(closest_line), outcomes@)),
{
    match league_count {
        None => MenuBarState::Idle,
        Some(count) => {
            if count == 0 {
                MenuBarState::Idle
            } else {
                let label = match title {
                    MenuBarTitle::ClosestGame => closest_line,
                    MenuBarTitle::Record => Some(week_record(outcomes)),
                    MenuBarTitle::GlyphOnly => None,
                };
                MenuBarState::Live { label }
            }
        },
    }
}

} // verus!
