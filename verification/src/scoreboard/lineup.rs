//! Who in a lineup still has points to come.
//!
//! The matchups payload gives a starter's score and nothing else, so a player
//! who has not kicked off yet and a player who finished his game with zero
//! look the same: both are on zero. The app reads that off the score and
//! hands it here as a flag; what is decided here is what the flag means for a
//! slot, and how many such starters a side reports.

use vstd::prelude::*;

use crate::captions::{starting_slots, starting_slots_of};
use crate::sleeper::ids::{PlayerId, EMPTY_STARTER};
use crate::sleeper::model::player_short_name;
use crate::sleeper::players::PlayerIndex;
use crate::text::{opt_str, opt_text};

verus! {

/// Whether a starter on `player` whose score is zero (`scoreless`) still has
/// points to come: every starter on zero does, except the empty-slot marker,
/// which is not a player and has nothing coming from it, ever.
pub open spec fn still_to_play(player: Seq<char>, scoreless: bool) -> bool {
    scoreless && player != EMPTY_STARTER@
}

/// Whether a starter still has points to come.
///
/// An approximation, and a deliberate one: a genuine zero is treated as a
/// player yet to play, which inflates the projection slightly until the week
/// is scored. The week's state is what keeps the ui honest in the two cases
/// where that would read badly — before kickoff and after the final whistle.
pub fn is_yet_to_play(player: &PlayerId, scoreless: bool) -> (r: bool)
    ensures
        r == still_to_play(player@, scoreless),
{
    scoreless && !player.is_empty_slot()
}

/// How many of `starters` are still to play.
pub open spec fn count_still_to_play(starters: Seq<(PlayerId, bool)>) -> nat
    decreases starters.len(),
{
    if starters.len() == 0 {
        0
    } else {
        count_still_to_play(starters.drop_last()) + if still_to_play(
            starters.last().0@,
            starters.last().1,
        ) {
            1nat
        } else {
            0nat
        }
    }
}

/// The count of starters still to play adds up over a lineup: nobody in an
/// empty lineup, one or none for a single starter according to whether he is
/// still to play, and a lineup split anywhere counts the sum of its two parts.
/// So every starter is counted, in any slot, and the count never exceeds the
/// lineup's length.
pub proof fn every_starter_still_to_play_is_counted(
    front: Seq<(PlayerId, bool)>,
    back: Seq<(PlayerId, bool)>,
    starter: (PlayerId, bool),
)
    ensures
        count_still_to_play(Seq::empty()) == 0,
        count_still_to_play(seq![starter]) == if still_to_play(starter.0@, starter.1) {
            1nat
        } else {
            0nat
        },
        count_still_to_play(front + back) == count_still_to_play(front) + count_still_to_play(back),
        count_still_to_play(front) <= front.len(),
    decreases back.len(),
{
    assert(seq![starter].drop_last() =~= Seq::<(PlayerId, bool)>::empty());
    if back.len() == 0 {
        assert(front + back =~= front);
    } else {
        every_starter_still_to_play_is_counted(front, back.drop_last(), starter);
        assert((front + back).drop_last() =~= front + back.drop_last());
        assert((front + back).last() == back.last());
    }
    lemma_count_bounded(front);
}

/// No more starters are still to play than there are starters.
proof fn lemma_count_bounded(starters: Seq<(PlayerId, bool)>)
    ensures
        count_still_to_play(starters) <= starters.len(),
    decreases starters.len(),
{
    if starters.len() > 0 {
        lemma_count_bounded(starters.drop_last());
    }
}

/// How many of a side's starters have not scored yet, saturating at
/// `u8::MAX`, which no lineup reaches: the number is drawn as "5 to play" and
/// a lineup is a dozen slots.
pub fn yet_to_play(starters: &[(PlayerId, bool)]) -> (r: u8)
    ensures
        r == if count_still_to_play(starters@) < u8::MAX {
            count_still_to_play(starters@)
        } else {
            u8::MAX as nat
        },
{
    let mut count: u8 = 0;
    let mut i: usize = 0;
    while i < starters.len()
        invariant
            i <= starters@.len(),
            count == if count_still_to_play(starters@.take(i as int)) < u8::MAX {
                count_still_to_play(starters@.take(i as int))
            } else {
                u8::MAX as nat
            },
        decreases starters@.len() - i,
    {
        proof {
            let after = starters@.take(i + 1);
            assert(after.drop_last() =~= starters@.take(i as int));
            assert(after.last() == starters@[i as int]);
        }
        let (player, scoreless) = &starters[i];
        if is_yet_to_play(player, *scoreless) && count < u8::MAX {
            count += 1;
        }
        i += 1;
    }
    assert(starters@.take(starters@.len() as int) =~= starters@);
    count
}

// ── Rows of a lineup ─────────────────────────────────────────────────────────

/// Whether a side has a player in starting slot `slot`: a side with fewer
/// starters than slots — a bye, or a lineup submitted short — has nobody
/// there, and neither does a slot holding the empty-slot marker.
pub open spec fn seated(starters: Seq<PlayerId>, slot: int) -> bool {
    0 <= slot < starters.len() && starters[slot]@ != EMPTY_STARTER@
}

/// One starting slot of a lineup, and whether each side has somebody in it.
/// The row's number is the slot's number among the starting slots, and is
/// the index of both sides' starter for it.
#[derive(Debug, Clone, PartialEq, Eq)]
pub struct LineupSlot {
    /// The slot as the league spells it: `"QB"`, `"SUPER_FLEX"`.
    pub position: String,
    /// Whether the user has a player in it.
    pub mine: bool,
    /// Whether the opponent has a player in it.
    pub theirs: bool,
}

/// The rows of a league's lineup: its starting slots in lineup order, with
/// the bench dropped, each marked with which sides have a player in it. A
/// side short of starters leaves its half of the later rows empty rather than
/// shifting everything up.
pub fn lineup_slots(positions: &[String], mine: &[PlayerId], theirs: &[PlayerId]) -> (r: Vec<
    LineupSlot,
>)
    ensures
        r@.len() == starting_slots_of(positions@).len(),
        forall|i: int|
            0 <= i < r@.len() ==> {
                &&& (#[trigger] r@[i]).position@ == starting_slots_of(positions@)[i]
                &&& r@[i].mine == seated(mine@, i)
                &&& r@[i].theirs == seated(theirs@, i)
            },
{
    let slots = starting_slots(positions);
    let ghost wanted = starting_slots_of(positions@);
    proof {
        assert(slots@.map_values(|s: String| s@).len() == slots@.len());
    }
    let mut rows: Vec<LineupSlot> = Vec::new();
    let mut i: usize = 0;
    while i < slots.len()
        invariant
            i <= slots@.len(),
            slots@.map_values(|s: String| s@) == wanted,
            rows@.len() == i,
            forall|k: int|
                0 <= k < i ==> {
                    &&& (#[trigger] rows@[k]).position@ == wanted[k]
                    &&& rows@[k].mine == seated(mine@, k)
                    &&& rows@[k].theirs == seated(theirs@, k)
                },
        decreases slots@.len() - i,
    {
        proof {
            assert(slots@.map_values(|s: String| s@)[i as int] == slots@[i as int]@);
        }
        let mine_here = i < mine.len() && !mine[i].is_empty_slot();
        let theirs_here = i < theirs.len() && !theirs[i].is_empty_slot();
        rows.push(LineupSlot { position: slots[i].clone(), mine: mine_here, theirs: theirs_here });
        i += 1;
    }
    rows
}

/// What a lineup row prints for one player beside the score: the name, the
/// NFL team, and the injury designation.
#[derive(Debug, Clone, PartialEq, Eq)]
pub struct SeatLabel {
    /// The name at column width, `"J. Player"`, or the raw id when the
    /// dictionary has no entry for it or there is no dictionary.
    pub name: String,
    /// The NFL team abbreviation, or empty.
    pub team: String,
    /// The injury designation, or empty.
    pub status: String,
}

/// The dictionary entry for `player`, when there is a dictionary and it has
/// one.
pub open spec fn entry_of(
    index: Option<Map<Seq<char>, crate::sleeper::model::Player>>,
    player: Seq<char>,
) -> Option<crate::sleeper::model::Player> {
    match index {
        Some(players) => if players.contains_key(player) {
            Some(players[player])
        } else {
            None
        },
        None => None,
    }
}

/// The index's view, when there is an index.
pub open spec fn index_view(index: Option<&PlayerIndex>) -> Option<
    Map<Seq<char>, crate::sleeper::model::Player>,
> {
    match index {
        Some(ix) => Some(ix@),
        None => None,
    }
}

/// The label for one starter, or `None` for the empty-slot marker, which is
/// not a player: a manager who left a flex open gets a blank half, not a row
/// named `"0"`. Without a dictionary, or with one that does not know the id,
/// the row prints the id: losing the names must not cost the row.
pub fn seat_label(player: &PlayerId, index: Option<&PlayerIndex>) -> (r: Option<SeatLabel>)
    ensures
        r is None <==> player@ == EMPTY_STARTER@,
        r is Some ==> {
            let entry = entry_of(index_view(index), player@);
            &&& r->0.name@ == match entry {
                Some(p) => player_short_name(p),
                None => player@,
            }
            &&& r->0.team@ == match entry {
                Some(p) => opt_text(p.team),
                None => Seq::empty(),
            }
            &&& r->0.status@ == match entry {
                Some(p) => opt_text(p.injury_status),
                None => Seq::empty(),
            }
        },
{
    if player.is_empty_slot() {
        return None;
    }
    let entry = match index {
        Some(ix) => ix.get(player),
        None => None,
    };
    let name = match index {
        Some(ix) => ix.short_name(player),
        None => player.to_string(),
    };
    match entry {
        Some(p) => Some(
            SeatLabel {
                name,
                team: opt_str(&p.team).to_owned(),
                status: opt_str(&p.injury_status).to_owned(),
            },
        ),
        None => {
            proof {
                reveal_strlit("");
            }
            Some(SeatLabel { name, team: "".to_owned(), status: "".to_owned() })
        },
    }
}

} // verus!
