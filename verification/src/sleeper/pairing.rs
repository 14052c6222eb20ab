//! Putting a week's matchup entries back together into games.
//!
//! Sleeper sends one entry per roster, so a twelve-team league's week is
//! twelve objects matched on `matchup_id`. What decides a pairing is only the
//! two ids on each entry — whose roster it is and which game it is in — so the
//! grouping is done here on those, by position: a pairing names the entries
//! it joins by their index in the week. The entries themselves (and the points
//! on them) stay where they are.
//!
//! The rules, from the payloads observed:
//!
//! - Entries sharing a `matchup_id` are one game, taken two at a time in the
//!   order they arrived; a third entry with the same id starts a pairing of
//!   its own rather than vanishing.
//! - An entry with no `matchup_id` is unpaired. Two such entries are two byes,
//!   not one game.
//! - Games come out in the order their first entry arrived.

use vstd::prelude::*;

use crate::sleeper::ids::{PlayerId, RosterId};

verus! {

/// One pairing, by the positions of its entries in the week.
#[derive(Debug, Clone, Copy, PartialEq, Eq, Structural)]
pub struct PairSlots {
    /// The id both sides share, or `None` when the entry had no `matchup_id`.
    pub matchup_id: Option<u32>,
    /// Where one side is. For [`pair_for_roster`] this is always the roster
    /// asked for.
    pub home: usize,
    /// Where the other side is, when there is one.
    pub away: Option<usize>,
}

/// The matchup ids of a week's entries, in order.
pub open spec fn keys(entries: Seq<(RosterId, Option<u32>)>) -> Seq<Option<u32>> {
    entries.map_values(|e: (RosterId, Option<u32>)| e.1)
}

/// Whether the entry at `j` belongs to the same game as the entry at `i`: it
/// is that entry, or it carries the same `matchup_id` and the id is not null.
pub open spec fn same_game(ids: Seq<Option<u32>>, i: int, j: int) -> bool {
    j == i || (ids[i] is Some && ids[j] == ids[i])
}

/// Whether the entry at `i` is the first of its game.
pub open spec fn is_leader(ids: Seq<Option<u32>>, i: int) -> bool {
    ids[i] is None || forall|k: int| 0 <= k < i ==> #[trigger] ids[k] != ids[i]
}

/// The positions, from `lo` on, of the entries in the same game as `i`.
pub open spec fn members_from(ids: Seq<Option<u32>>, i: int, lo: int) -> Seq<usize>
    decreases ids.len() - lo,
{
    if lo < 0 || lo >= ids.len() {
        Seq::empty()
    } else if same_game(ids, i, lo) {
        seq![lo as usize] + members_from(ids, i, lo + 1)
    } else {
        members_from(ids, i, lo + 1)
    }
}

/// The members of one game, two at a time, in order.
pub open spec fn chunk(id: Option<u32>, members: Seq<usize>) -> Seq<PairSlots>
    decreases members.len(),
{
    if members.len() == 0 {
        Seq::empty()
    } else if members.len() == 1 {
        seq![PairSlots { matchup_id: id, home: members[0], away: None }]
    } else {
        seq![PairSlots { matchup_id: id, home: members[0], away: Some(members[1]) }] + chunk(
            id,
            members.skip(2),
        )
    }
}

/// The pairings of the game the entry at `i` leads, or nothing if it does
/// not lead one.
pub open spec fn game_at(ids: Seq<Option<u32>>, i: int) -> Seq<PairSlots> {
    if is_leader(ids, i) {
        chunk(ids[i], members_from(ids, i, i))
    } else {
        Seq::empty()
    }
}

/// The pairings of every game led by one of the first `n` entries, games in
/// the order their leaders arrived.
pub open spec fn pairs_upto(ids: Seq<Option<u32>>, n: int) -> Seq<PairSlots>
    decreases n,
{
    if n <= 0 {
        Seq::empty()
    } else {
        pairs_upto(ids, n - 1) + game_at(ids, n - 1)
    }
}

/// A week's pairings.
pub open spec fn pairs_of(ids: Seq<Option<u32>>) -> Seq<PairSlots> {
    pairs_upto(ids, ids.len() as int)
}

/// Whether two matchup ids are equal.
fn same_key(a: Option<u32>, b: Option<u32>) -> (r: bool)
    ensures
        r == (a == b),
{
    match (a, b) {
        (Some(x), Some(y)) => x == y,
        (None, None) => true,
        _ => false,
    }
}

/// Whether the entry at `i` is the first of its game.
fn leads(entries: &[(RosterId, Option<u32>)], i: usize) -> (r: bool)
    requires
        i < entries@.len(),
    ensures
        r == is_leader(keys(entries@), i as int),
{
    let ghost ids = keys(entries@);
    let key = entries[i].1;
    if key.is_none() {
        return true;
    }
    let mut k: usize = 0;
    while k < i
        invariant
            i < entries@.len(),
            ids == keys(entries@),
            key == ids[i as int],
            key is Some,
            k <= i,
            forall|m: int| 0 <= m < k ==> #[trigger] ids[m] != ids[i as int],
        decreases i - k,
    {
        if same_key(entries[k].1, key) {
            assert(ids[k as int] == ids[i as int]);
            return false;
        }
        k += 1;
    }
    true
}

/// The positions of the entries in the same game as `i`, in order.
fn members(entries: &[(RosterId, Option<u32>)], i: usize) -> (r: Vec<usize>)
    requires
        i < entries@.len(),
    ensures
        r@ == members_from(keys(entries@), i as int, i as int),
{
    let ghost ids = keys(entries@);
    let n = entries.len();
    let key = entries[i].1;
    let mut found: Vec<usize> = Vec::new();
    let mut j: usize = i;
    while j < n
        invariant
            n == entries@.len(),
            ids == keys(entries@),
            i < n,
            i <= j <= n,
            key == ids[i as int],
            members_from(ids, i as int, i as int) == found@ + members_from(ids, i as int, j as int),
        decreases n - j,
    {
        let joins = j == i || (key.is_some() && same_key(entries[j].1, key));
        assert(joins == same_game(ids, i as int, j as int));
        if joins {
            found.push(j);
        }
        j += 1;
        assert(members_from(ids, i as int, i as int) =~= found@ + members_from(
            ids,
            i as int,
            j as int,
        ));
    }
    assert(found@ + members_from(ids, i as int, n as int) =~= found@);
    found
}

/// Append the pairings of one game, its members two at a time.
fn push_chunks(out: &mut Vec<PairSlots>, id: Option<u32>, members: &Vec<usize>)
    ensures
        final(out)@ == old(out)@ + chunk(id, members@),
{
    let n = members.len();
    let mut k: usize = 0;
    assert(members@.skip(0) =~= members@);
    while k < n
        invariant
            n == members@.len(),
            k <= n,
            old(out)@ + chunk(id, members@) == out@ + chunk(id, members@.skip(k as int)),
        decreases n - k,
    {
        let ghost rest = members@.skip(k as int);
        if k + 1 < n {
            out.push(PairSlots { matchup_id: id, home: members[k], away: Some(members[k + 1]) });
            assert(rest.skip(2) =~= members@.skip(k + 2));
            k += 2;
        } else {
            out.push(PairSlots { matchup_id: id, home: members[k], away: None });
            k += 1;
        }
        assert(old(out)@ + chunk(id, members@) =~= out@ + chunk(id, members@.skip(k as int)));
    }
    assert(out@ + chunk(id, members@.skip(n as int)) =~= out@);
}

/// Group a week's entries — each one's roster and `matchup_id` — into
/// head-to-head pairings.
///
/// Entries keep the order they arrived in, and anything that cannot be paired
/// — a bye, an odd team out, a null `matchup_id` — comes back as a pairing
/// with no `away` rather than being dropped.
pub fn pairs(entries: &[(RosterId, Option<u32>)]) -> (r: Vec<PairSlots>)
    ensures
        r@ == pairs_of(keys(entries@)),
        in_bounds(r@, entries@.len() as int),
{
    let ghost ids = keys(entries@);
    let n = entries.len();
    let mut out: Vec<PairSlots> = Vec::new();
    let mut i: usize = 0;
    while i < n
        invariant
            n == entries@.len(),
            ids == keys(entries@),
            i <= n,
            out@ == pairs_upto(ids, i as int),
        decreases n - i,
    {
        if leads(entries, i) {
            let found = members(entries, i);
            push_chunks(&mut out, entries[i].1, &found);
        }
        i += 1;
        assert(out@ =~= pairs_upto(ids, i as int));
    }
    proof {
        lemma_pairs_in_bounds(ids, n as int);
    }
    out
}

/// The pairing an entry's roster is in, turned so that roster is `home`.
pub open spec fn oriented(
    pair: PairSlots,
    entries: Seq<(RosterId, Option<u32>)>,
    roster_id: RosterId,
) -> Option<PairSlots> {
    if entries[pair.home as int].0 == roster_id {
        Some(pair)
    } else if pair.away is Some && entries[pair.away->0 as int].0 == roster_id {
        Some(PairSlots { matchup_id: pair.matchup_id, home: pair.away->0, away: Some(pair.home) })
    } else {
        None
    }
}

/// Whether a pairing's sides lie within a week of `n` entries.
pub open spec fn fits(pair: PairSlots, n: int) -> bool {
    pair.home < n && (pair.away is Some ==> pair.away->0 < n)
}

/// The side of `pair` facing `roster_id`'s, as an entry's position: the
/// other side when the roster is in the pairing, and nothing when it is not
/// or has nobody to face.
pub open spec fn opponent_slot(
    pair: PairSlots,
    entries: Seq<(RosterId, Option<u32>)>,
    roster_id: RosterId,
) -> Option<usize> {
    if entries[pair.home as int].0 == roster_id {
        pair.away
    } else if pair.away is Some && entries[pair.away->0 as int].0 == roster_id {
        Some(pair.home)
    } else {
        None
    }
}

impl PairSlots {
    /// Whether this pairing involves the given roster.
    pub fn contains(&self, entries: &[(RosterId, Option<u32>)], roster_id: RosterId) -> (r: bool)
        requires
            fits(*self, entries@.len() as int),
        ensures
            r == (entries@[self.home as int].0 == roster_id || (self.away is Some
                && entries@[self.away->0 as int].0 == roster_id)),
    {
        entries[self.home].0 == roster_id || match self.away {
            Some(away) => entries[away].0 == roster_id,
            None => false,
        }
    }

    /// The other side of the game from the given roster. `None` if that
    /// roster is not in this pairing, or has no opponent.
    pub fn opponent_of(&self, entries: &[(RosterId, Option<u32>)], roster_id: RosterId) -> (r:
        Option<usize>)
        requires
            fits(*self, entries@.len() as int),
        ensures
            r == opponent_slot(*self, entries@, roster_id),
    {
        if entries[self.home].0 == roster_id {
            self.away
        } else {
            match self.away {
                Some(away) => if entries[away].0 == roster_id {
                    Some(self.home)
                } else {
                    None
                },
                None => None,
            }
        }
    }
}

/// A roster's opponent is the other side of its game, whichever side the
/// roster is on: for a pairing of two different rosters, asking from either
/// end gives the other end, and turning the pairing round changes nothing.
/// A roster not in the pairing, or alone in it, has no opponent.
pub proof fn the_opponent_is_the_other_side(
    pair: PairSlots,
    entries: Seq<(RosterId, Option<u32>)>,
    roster_id: RosterId,
)
    requires
        fits(pair, entries.len() as int),
    ensures
        pair.away is Some && entries[pair.home as int].0 == roster_id && entries[pair.away->0 as int].0
            != roster_id ==> opponent_slot(pair, entries, roster_id) == pair.away,
        pair.away is Some && entries[pair.away->0 as int].0 == roster_id && entries[pair.home as int].0
            != roster_id ==> opponent_slot(pair, entries, roster_id) == Some(pair.home),
        pair.away is Some && entries[pair.home as int].0 != entries[pair.away->0 as int].0
            ==> opponent_slot(pair, entries, roster_id) == opponent_slot(
            PairSlots { matchup_id: pair.matchup_id, home: pair.away->0, away: Some(pair.home) },
            entries,
            roster_id,
        ),
        opponent_slot(pair, entries, roster_id) is Some ==> {
            let x = opponent_slot(pair, entries, roster_id)->0;
            ||| (entries[pair.home as int].0 == roster_id && pair.away == Some(x))
            ||| (pair.away is Some && entries[pair.away->0 as int].0 == roster_id && x == pair.home)
        },
        pair.away is None ==> opponent_slot(pair, entries, roster_id) is None,
{
}

/// The first of `pairs` that has `roster_id` in it, turned toward it.
pub open spec fn find_oriented(
    pairs: Seq<PairSlots>,
    entries: Seq<(RosterId, Option<u32>)>,
    roster_id: RosterId,
) -> Option<PairSlots>
    decreases pairs.len(),
{
    if pairs.len() == 0 {
        None
    } else {
        match oriented(pairs[0], entries, roster_id) {
            Some(found) => Some(found),
            None => find_oriented(pairs.drop_first(), entries, roster_id),
        }
    }
}

/// Every pairing names entries that exist.
pub open spec fn in_bounds(pairs: Seq<PairSlots>, n: int) -> bool {
    forall|p: int|
        0 <= p < pairs.len() ==> {
            &&& (#[trigger] pairs[p]).home < n
            &&& pairs[p].away is Some ==> pairs[p].away->0 < n
        }
}

/// The entries a game is made of all exist.
proof fn lemma_members_in_bounds(ids: Seq<Option<u32>>, i: int, lo: int)
    ensures
        forall|k: int|
            0 <= k < members_from(ids, i, lo).len() ==> #[trigger] members_from(ids, i, lo)[k]
                < ids.len(),
    decreases ids.len() - lo,
{
    if lo < 0 || lo >= ids.len() {
    } else {
        lemma_members_in_bounds(ids, i, lo + 1);
        let rest = members_from(ids, i, lo + 1);
        if same_game(ids, i, lo) {
            assert forall|k: int|
                0 <= k < members_from(ids, i, lo).len() implies #[trigger] members_from(
                ids,
                i,
                lo,
            )[k] < ids.len() by {
                if k > 0 {
                    assert(members_from(ids, i, lo)[k] == rest[k - 1]);
                }
            }
        }
    }
}

/// Taking members two at a time names only members.
proof fn lemma_chunk_in_bounds(id: Option<u32>, members: Seq<usize>, n: int)
    requires
        forall|k: int| 0 <= k < members.len() ==> #[trigger] members[k] < n,
    ensures
        in_bounds(chunk(id, members), n),
    decreases members.len(),
{
    if members.len() >= 2 {
        let rest = members.skip(2);
        assert forall|k: int| 0 <= k < rest.len() implies #[trigger] rest[k] < n by {
            assert(rest[k] == members[k + 2]);
        }
        lemma_chunk_in_bounds(id, rest, n);
        let c = chunk(id, members);
        assert forall|p: int| 0 <= p < c.len() implies {
            &&& (#[trigger] c[p]).home < n
            &&& c[p].away is Some ==> c[p].away->0 < n
        } by {
            if p > 0 {
                assert(c[p] == chunk(id, rest)[p - 1]);
            }
        }
    }
}

/// Every pairing of the week names entries of the week.
pub proof fn lemma_pairs_in_bounds(ids: Seq<Option<u32>>, upto: int)
    requires
        upto <= ids.len(),
    ensures
        in_bounds(pairs_upto(ids, upto), ids.len() as int),
    decreases upto,
{
    if upto > 0 {
        lemma_pairs_in_bounds(ids, upto - 1);
        let before = pairs_upto(ids, upto - 1);
        let here = game_at(ids, upto - 1);
        if is_leader(ids, upto - 1) {
            lemma_members_in_bounds(ids, upto - 1, upto - 1);
            lemma_chunk_in_bounds(ids[upto - 1], members_from(ids, upto - 1, upto - 1), ids.len() as int);
        }
        let all = pairs_upto(ids, upto);
        assert forall|p: int| 0 <= p < all.len() implies {
            &&& (#[trigger] all[p]).home < ids.len()
            &&& all[p].away is Some ==> all[p].away->0 < ids.len()
        } by {
            if p < before.len() {
                assert(all[p] == before[p]);
            } else {
                assert(all[p] == here[p - before.len()]);
            }
        }
    }
}

/// The pairing containing one roster, oriented so that roster is `home`.
///
/// The orientation is the point: the app always draws the user's team on the
/// left, and a margin should be positive when they are winning.
pub fn pair_for_roster(entries: &[(RosterId, Option<u32>)], roster_id: RosterId) -> (r: Option<
    PairSlots,
>)
    ensures
        r == find_oriented(pairs_of(keys(entries@)), entries@, roster_id),
        r is Some ==> fits(r->0, entries@.len() as int),
{
    let all = pairs(entries);
    proof {
        lemma_pairs_in_bounds(keys(entries@), entries@.len() as int);
    }
    let n = all.len();
    let mut p: usize = 0;
    assert(all@.skip(0) =~= all@);
    while p < n
        invariant
            n == all@.len(),
            p <= n,
            all@ == pairs_of(keys(entries@)),
            in_bounds(all@, entries@.len() as int),
            find_oriented(all@, entries@, roster_id) == find_oriented(
                all@.skip(p as int),
                entries@,
                roster_id,
            ),
        decreases n - p,
    {
        let pair = all[p];
        assert(all@.skip(p as int)[0] == pair);
        assert(all@.skip(p as int).drop_first() =~= all@.skip(p + 1));
        if entries[pair.home].0 == roster_id {
            return Some(pair);
        }
        if let Some(away) = pair.away {
            if entries[away].0 == roster_id {
                return Some(PairSlots { matchup_id: pair.matchup_id, home: away, away: Some(pair.home) });
            }
        }
        p += 1;
    }
    None
}

/// Whether a pairing has the entry at `x` on either side.
pub open spec fn mentions(pair: PairSlots, x: int) -> bool {
    pair.home == x || (pair.away is Some && pair.away->0 == x)
}

/// What a game's member list is: everything in it is in the week, is in the
/// game, comes at or after `lo` and in increasing order, and nothing in the
/// game from `lo` on is missing.
proof fn lemma_members_props(ids: Seq<Option<u32>>, i: int, lo: int)
    requires
        ids.len() <= usize::MAX,
        0 <= i < ids.len(),
        0 <= lo,
    ensures
        forall|k: int|
            0 <= k < members_from(ids, i, lo).len() ==> {
                &&& lo <= #[trigger] members_from(ids, i, lo)[k] < ids.len()
                &&& same_game(ids, i, members_from(ids, i, lo)[k] as int)
            },
        forall|a: int, b: int|
            0 <= a < b < members_from(ids, i, lo).len() ==> #[trigger] members_from(ids, i, lo)[a]
                < #[trigger] members_from(ids, i, lo)[b],
        forall|x: int|
            lo <= x < ids.len() && same_game(ids, i, x) ==> exists|k: int|
                0 <= k < members_from(ids, i, lo).len() && #[trigger] members_from(ids, i, lo)[k]
                    == x,
    decreases ids.len() - lo,
{
    let ms = members_from(ids, i, lo);
    if lo >= ids.len() {
    } else {
        lemma_members_props(ids, i, lo + 1);
        let rest = members_from(ids, i, lo + 1);
        if same_game(ids, i, lo) {
            assert(ms == seq![lo as usize] + rest);
            assert forall|k: int| 0 <= k < ms.len() implies {
                &&& lo <= #[trigger] ms[k] < ids.len()
                &&& same_game(ids, i, ms[k] as int)
            } by {
                if k > 0 {
                    assert(ms[k] == rest[k - 1]);
                }
            }
            assert forall|a: int, b: int| 0 <= a < b < ms.len() implies #[trigger] ms[a]
                < #[trigger] ms[b] by {
                assert(ms[b] == rest[b - 1]);
                if a > 0 {
                    assert(ms[a] == rest[a - 1]);
                }
            }
            assert forall|x: int| lo <= x < ids.len() && same_game(ids, i, x) implies exists|
                k: int,
            | 0 <= k < ms.len() && #[trigger] ms[k] == x by {
                if x == lo {
                    assert(ms[0] == x);
                } else {
                    let k = choose|k: int| 0 <= k < rest.len() && #[trigger] rest[k] == x;
                    assert(ms[k + 1] == x);
                }
            }
        } else {
            assert(ms == rest);
        }
    }
}

/// What taking a game's members two at a time gives: pairings with the game's
/// id, naming only members, naming every member, and naming each one once.
proof fn lemma_chunk_props(id: Option<u32>, ms: Seq<usize>)
    requires
        forall|a: int, b: int| 0 <= a < b < ms.len() ==> #[trigger] ms[a] < #[trigger] ms[b],
    ensures
        forall|p: int| 0 <= p < chunk(id, ms).len() ==> (#[trigger] chunk(id, ms)[p]).matchup_id
            == id,
        forall|p: int, x: int|
            0 <= p < chunk(id, ms).len() && #[trigger] mentions(chunk(id, ms)[p], x) ==> exists|
                k: int,
            | 0 <= k < ms.len() && #[trigger] ms[k] == x,
        forall|p1: int, p2: int, x: int|
            0 <= p1 < chunk(id, ms).len() && 0 <= p2 < chunk(id, ms).len() && #[trigger] mentions(chunk(id, ms)[p1], x) && #[trigger] mentions(chunk(id, ms)[p2], x) ==> p1 == p2,
        forall|p: int|
            0 <= p < chunk(id, ms).len() && (#[trigger] chunk(id, ms)[p]).away is Some ==> chunk(
                id,
                ms,
            )[p].away->0 != chunk(id, ms)[p].home,
    decreases ms.len(),
{
    let c = chunk(id, ms);
    if ms.len() == 0 {
    } else if ms.len() == 1 {
        assert forall|p: int, x: int| 0 <= p < c.len() && #[trigger] mentions(c[p], x) implies exists|
            k: int,
        | 0 <= k < ms.len() && #[trigger] ms[k] == x by {
            assert(ms[0] == x);
        }
    } else {
        let rest = ms.skip(2);
        assert forall|a: int, b: int| 0 <= a < b < rest.len() implies #[trigger] rest[a]
            < #[trigger] rest[b] by {
            assert(rest[a] == ms[a + 2]);
            assert(rest[b] == ms[b + 2]);
        }
        lemma_chunk_props(id, rest);
        let tail = chunk(id, rest);
        let first = PairSlots { matchup_id: id, home: ms[0], away: Some(ms[1]) };
        assert(c == seq![first] + tail);
        assert forall|p: int| 0 <= p < c.len() implies (#[trigger] c[p]).matchup_id == id by {
            if p > 0 {
                assert(c[p] == tail[p - 1]);
            }
        }
        assert forall|p: int, x: int| 0 <= p < c.len() && #[trigger] mentions(c[p], x) implies exists|
            k: int,
        | 0 <= k < ms.len() && #[trigger] ms[k] == x by {
            if p == 0 {
                if x == ms[0] {
                    assert(ms[0] == x);
                } else {
                    assert(ms[1] == x);
                }
            } else {
                assert(c[p] == tail[p - 1]);
                assert(mentions(tail[p - 1], x));
                let k = choose|k: int| 0 <= k < rest.len() && #[trigger] rest[k] == x;
                assert(ms[k + 2] == x);
            }
        }
        // Everything the rest of the chunks name comes after the first pair.
        assert forall|q: int, x: int| 0 <= q < tail.len() && #[trigger] mentions(tail[q], x) implies x
            > ms[1] by {
            let k = choose|k: int| 0 <= k < rest.len() && #[trigger] rest[k] == x;
            assert(rest[k] == ms[k + 2]);
        }
        assert forall|p1: int, p2: int, x: int|
            0 <= p1 < c.len() && 0 <= p2 < c.len() && #[trigger] mentions(c[p1], x) && #[trigger] mentions(c[p2], x) implies p1 == p2 by {
            if p1 > 0 {
                assert(c[p1] == tail[p1 - 1]);
            }
            if p2 > 0 {
                assert(c[p2] == tail[p2 - 1]);
            }
            if p1 > 0 && p2 > 0 {
                assert(mentions(tail[p1 - 1], x) && mentions(tail[p2 - 1], x));
            }
        }
        assert forall|p: int| 0 <= p < c.len() && (#[trigger] c[p]).away is Some implies c[p].away->0
            != c[p].home by {
            if p > 0 {
                assert(c[p] == tail[p - 1]);
            }
        }
    }
}

/// Where in a game's pairings its `k`-th member is named.
proof fn lemma_chunk_covers(id: Option<u32>, ms: Seq<usize>, k: int) -> (p: int)
    requires
        0 <= k < ms.len(),
    ensures
        0 <= p < chunk(id, ms).len(),
        mentions(chunk(id, ms)[p], ms[k] as int),
    decreases ms.len(),
{
    let c = chunk(id, ms);
    if ms.len() == 1 {
        0
    } else if k < 2 {
        assert(c == seq![PairSlots { matchup_id: id, home: ms[0], away: Some(ms[1]) }] + chunk(id, ms.skip(2)));
        assert(c[0].home == ms[0] && c[0].away == Some(ms[1]));
        0
    } else {
        let rest = ms.skip(2);
        let q = lemma_chunk_covers(id, rest, k - 2);
        assert(rest[k - 2] == ms[k]);
        assert(c == seq![PairSlots { matchup_id: id, home: ms[0], away: Some(ms[1]) }] + chunk(id, rest));
        assert(c[q + 1] == chunk(id, rest)[q]);
        q + 1
    }
}

/// Two leaders of games that share an entry are the same leader.
proof fn lemma_one_leader(ids: Seq<Option<u32>>, l1: int, l2: int, x: int)
    requires
        0 <= l1 < ids.len(),
        0 <= l2 < ids.len(),
        0 <= x < ids.len(),
        is_leader(ids, l1),
        is_leader(ids, l2),
        same_game(ids, l1, x),
        same_game(ids, l2, x),
    ensures
        l1 == l2,
{
    if ids[l1] is Some && ids[l2] is Some {
        assert(ids[x] == ids[l1]);
        assert(ids[x] == ids[l2]);
        if l1 < l2 {
            assert(ids[l1] != ids[l2]);
        } else if l2 < l1 {
            assert(ids[l2] != ids[l1]);
        }
    }
}

/// Every entry is in the game of some leader at or before it.
proof fn lemma_has_leader(ids: Seq<Option<u32>>, x: int)
    requires
        0 <= x < ids.len(),
    ensures
        exists|l: int| 0 <= l <= x && #[trigger] is_leader(ids, l) && same_game(ids, l, x),
    decreases x,
{
    if is_leader(ids, x) {
        assert(same_game(ids, x, x));
    } else {
        let k = choose|k: int| 0 <= k < x && #[trigger] ids[k] == ids[x];
        lemma_has_leader(ids, k);
        let l = choose|l: int| 0 <= l <= k && #[trigger] is_leader(ids, l) && same_game(ids, l, k);
        assert(same_game(ids, l, x));
    }
}

/// What the pairings of the games led by the first `u` entries are: each
/// pairing is one game's, every member of those games is named, nobody is
/// named twice, and the two sides of a pairing are different entries in the
/// same, non-null game.
proof fn lemma_pairs_upto_props(ids: Seq<Option<u32>>, u: int)
    requires
        ids.len() <= usize::MAX,
        0 <= u <= ids.len(),
    ensures
        forall|p: int, x: int|
            0 <= p < pairs_upto(ids, u).len() && #[trigger] mentions(pairs_upto(ids, u)[p], x)
                ==> exists|l: int| 0 <= l < u && #[trigger] is_leader(ids, l) && same_game(ids, l, x),
        forall|x: int, l: int|
            0 <= l < u && 0 <= x < ids.len() && is_leader(ids, l) && #[trigger] same_game(ids, l, x)
                ==> exists|p: int|
                0 <= p < pairs_upto(ids, u).len() && #[trigger] mentions(pairs_upto(ids, u)[p], x),
        forall|p1: int, p2: int, x: int|
            0 <= p1 < pairs_upto(ids, u).len() && 0 <= p2 < pairs_upto(ids, u).len() && #[trigger] mentions(pairs_upto(ids, u)[p1], x) && #[trigger] mentions(pairs_upto(ids, u)[p2], x) ==> p1 == p2,
        forall|p: int|
            0 <= p < pairs_upto(ids, u).len() ==> {
                let pair = #[trigger] pairs_upto(ids, u)[p];
                &&& pair.home < ids.len()
                &&& pair.matchup_id == ids[pair.home as int]
                &&& pair.away is Some ==> {
                    &&& pair.away->0 < ids.len()
                    &&& pair.away->0 != pair.home
                    &&& ids[pair.home as int] is Some
                    &&& ids[pair.away->0 as int] == ids[pair.home as int]
                }
            },
    decreases u,
{
    if u > 0 {
        lemma_pairs_upto_props(ids, u - 1);
        let before = pairs_upto(ids, u - 1);
        let here = game_at(ids, u - 1);
        let all = pairs_upto(ids, u);
        let l = u - 1;
        assert(all == before + here);
        if is_leader(ids, l) {
            lemma_members_props(ids, l, l);
            let ms = members_from(ids, l, l);
            lemma_chunk_props(ids[l], ms);
        }
        // Where each pairing of `all` comes from.
        assert forall|p: int, x: int|
            0 <= p < all.len() && #[trigger] mentions(all[p], x) implies exists|m: int|
            0 <= m < u && #[trigger] is_leader(ids, m) && same_game(ids, m, x) by {
            if p < before.len() {
                assert(all[p] == before[p]);
            } else {
                assert(all[p] == here[p - before.len()]);
                let ms = members_from(ids, l, l);
                assert(mentions(chunk(ids[l], ms)[p - before.len()], x));
                let k = choose|k: int| 0 <= k < ms.len() && #[trigger] ms[k] == x;
                assert(same_game(ids, l, ms[k] as int));
            }
        }
        assert forall|x: int, m: int|
            0 <= m < u && 0 <= x < ids.len() && is_leader(ids, m) && #[trigger] same_game(
                ids,
                m,
                x,
            ) implies exists|p: int| 0 <= p < all.len() && #[trigger] mentions(all[p], x) by {
            if m < u - 1 {
                let p = choose|p: int| 0 <= p < before.len() && #[trigger] mentions(before[p], x);
                assert(all[p] == before[p]);
            } else {
                let ms = members_from(ids, l, l);
                let k = choose|k: int| 0 <= k < ms.len() && #[trigger] ms[k] == x;
                let q = lemma_chunk_covers(ids[l], ms, k);
                assert(all[before.len() + q] == here[q]);
                assert(mentions(all[before.len() + q], x));
            }
        }
        assert forall|p1: int, p2: int, x: int|
            0 <= p1 < all.len() && 0 <= p2 < all.len() && #[trigger] mentions(all[p1], x)
                && #[trigger] mentions(all[p2], x) implies p1 == p2 by {
            let ms = members_from(ids, l, l);
            if p1 < before.len() && p2 < before.len() {
                assert(all[p1] == before[p1] && all[p2] == before[p2]);
            } else if p1 >= before.len() && p2 >= before.len() {
                assert(all[p1] == here[p1 - before.len()] && all[p2] == here[p2 - before.len()]);
                assert(mentions(chunk(ids[l], ms)[p1 - before.len()], x));
                assert(mentions(chunk(ids[l], ms)[p2 - before.len()], x));
            } else {
                let (pb, ph) = if p1 < before.len() {
                    (p1, p2)
                } else {
                    (p2, p1)
                };
                assert(all[pb] == before[pb]);
                assert(all[ph] == here[ph - before.len()]);
                assert(mentions(before[pb], x));
                let m = choose|m: int|
                    0 <= m < u - 1 && #[trigger] is_leader(ids, m) && same_game(ids, m, x);
                assert(mentions(chunk(ids[l], ms)[ph - before.len()], x));
                let k = choose|k: int| 0 <= k < ms.len() && #[trigger] ms[k] == x;
                assert(same_game(ids, l, ms[k] as int));
                lemma_one_leader(ids, m, l, x);
            }
        }
        assert forall|p: int| 0 <= p < all.len() implies {
            let pair = #[trigger] all[p];
            &&& pair.home < ids.len()
            &&& pair.matchup_id == ids[pair.home as int]
            &&& pair.away is Some ==> {
                &&& pair.away->0 < ids.len()
                &&& pair.away->0 != pair.home
                &&& ids[pair.home as int] is Some
                &&& ids[pair.away->0 as int] == ids[pair.home as int]
            }
        } by {
            if p < before.len() {
                assert(all[p] == before[p]);
            } else {
                let ms = members_from(ids, l, l);
                let c = chunk(ids[l], ms);
                let q = p - before.len();
                assert(all[p] == c[q]);
                let pair = c[q];
                assert(mentions(pair, pair.home as int));
                let kh = choose|k: int| 0 <= k < ms.len() && #[trigger] ms[k] == pair.home;
                assert(same_game(ids, l, ms[kh] as int));
                if pair.away is Some {
                    assert(mentions(pair, pair.away->0 as int));
                    let ka = choose|k: int| 0 <= k < ms.len() && #[trigger] ms[k] == pair.away->0;
                    assert(same_game(ids, l, ms[ka] as int));
                }
            }
        }
    }
}

/// The pairing that has the entry at `x` on one of its sides.
pub open spec fn pairing_of(all: Seq<PairSlots>, x: int) -> int {
    choose|p: int| 0 <= p < all.len() && #[trigger] mentions(all[p], x)
}

/// Every entry of a week is in exactly one pairing, on one side of it: the
/// pairing never drops a roster, never names one twice, and never pairs an
/// entry with itself. Both sides of a pairing carry the same, non-null
/// `matchup_id`, which is the one the pairing reports; an entry with no
/// `matchup_id` is always alone.
pub proof fn pairing_keeps_every_entry_once(entries: Seq<(RosterId, Option<u32>)>)
    requires
        entries.len() <= usize::MAX,
    ensures
        ({
            let ids = keys(entries);
            let all = pairs_of(ids);
            &&& forall|x: int|
                0 <= x < entries.len() ==> {
                    &&& 0 <= #[trigger] pairing_of(all, x) < all.len()
                    &&& mentions(all[pairing_of(all, x)], x)
                }
            &&& forall|p1: int, p2: int, x: int|
                0 <= p1 < all.len() && 0 <= p2 < all.len() && #[trigger] mentions(all[p1], x) && #[trigger] mentions(all[p2], x) ==> p1 == p2
            &&& forall|p: int|
                0 <= p < all.len() ==> {
                    let pair = #[trigger] all[p];
                    &&& pair.home < entries.len()
                    &&& pair.matchup_id == entries[pair.home as int].1
                    &&& pair.away is Some ==> {
                        &&& pair.away->0 < entries.len()
                        &&& pair.away->0 != pair.home
                        &&& entries[pair.home as int].1 is Some
                        &&& entries[pair.away->0 as int].1 == entries[pair.home as int].1
                    }
                }
        }),
{
    let ids = keys(entries);
    let n = ids.len() as int;
    lemma_pairs_upto_props(ids, n);
    let all = pairs_of(ids);
    assert forall|x: int| 0 <= x < entries.len() implies {
        &&& 0 <= #[trigger] pairing_of(all, x) < all.len()
        &&& mentions(all[pairing_of(all, x)], x)
    } by {
        assert(0 <= x < ids.len());
        lemma_has_leader(ids, x);
        let l = choose|l: int| 0 <= l <= x && #[trigger] is_leader(ids, l) && same_game(ids, l, x);
        assert(is_leader(ids, l) && same_game(ids, l, x) && 0 <= l < n);
    }
    assert forall|p: int| 0 <= p < all.len() implies {
        let pair = #[trigger] all[p];
        &&& pair.home < entries.len()
        &&& pair.matchup_id == entries[pair.home as int].1
        &&& pair.away is Some ==> {
            &&& pair.away->0 < entries.len()
            &&& pair.away->0 != pair.home
            &&& entries[pair.home as int].1 is Some
            &&& entries[pair.away->0 as int].1 == entries[pair.home as int].1
        }
    } by {
        let pair = all[p];
        assert(ids[pair.home as int] == entries[pair.home as int].1);
        if pair.away is Some {
            assert(ids[pair.away->0 as int] == entries[pair.away->0 as int].1);
        }
    }
}

/// Searching pairings for a roster finds something exactly when some pairing
/// has it, and what it finds is that pairing turned toward it.
proof fn lemma_find_oriented(
    pairs: Seq<PairSlots>,
    entries: Seq<(RosterId, Option<u32>)>,
    roster_id: RosterId,
)
    ensures
        find_oriented(pairs, entries, roster_id) is Some <==> exists|p: int|
            0 <= p < pairs.len() && (#[trigger] oriented(pairs[p], entries, roster_id)) is Some,
        find_oriented(pairs, entries, roster_id) is Some ==> exists|p: int|
            0 <= p < pairs.len() && find_oriented(pairs, entries, roster_id) == #[trigger] oriented(
                pairs[p],
                entries,
                roster_id,
            ),
    decreases pairs.len(),
{
    if pairs.len() > 0 {
        let rest = pairs.drop_first();
        lemma_find_oriented(rest, entries, roster_id);
        if oriented(pairs[0], entries, roster_id) is None {
            if exists|p: int| 0 <= p < pairs.len() && (#[trigger] oriented(pairs[p], entries, roster_id)) is Some {
                let p = choose|p: int| 0 <= p < pairs.len() && (#[trigger] oriented(pairs[p], entries, roster_id)) is Some;
                assert(rest[p - 1] == pairs[p]);
                assert(oriented(rest[p - 1], entries, roster_id) is Some);
            }
            if find_oriented(rest, entries, roster_id) is Some {
                let q = choose|q: int| 0 <= q < rest.len() && find_oriented(rest, entries, roster_id) == #[trigger] oriented(rest[q], entries, roster_id);
                assert(rest[q] == pairs[q + 1]);
                assert(find_oriented(pairs, entries, roster_id) == oriented(pairs[q + 1], entries, roster_id));
            }
        } else {
            assert(find_oriented(pairs, entries, roster_id) == oriented(pairs[0], entries, roster_id));
        }
    }
}

/// The pairing for a roster is found whenever that roster is in the week,
/// and it always has the roster asked for on the home side, so the user's
/// team is drawn on the left and a margin is positive when they are winning.
/// Its other side, if any, is a different entry of the same game.
pub proof fn the_roster_asked_for_is_home(entries: Seq<(RosterId, Option<u32>)>, roster_id: RosterId)
    requires
        entries.len() <= usize::MAX,
    ensures
        ({
            let found = find_oriented(pairs_of(keys(entries)), entries, roster_id);
            &&& found is Some <==> exists|i: int| 0 <= i < entries.len() && (#[trigger] entries[i]).0 == roster_id
            &&& found is Some ==> {
                let pair = found->0;
                &&& fits(pair, entries.len() as int)
                &&& entries[pair.home as int].0 == roster_id
                &&& pair.matchup_id == entries[pair.home as int].1
                &&& pair.away is Some ==> {
                    &&& pair.away->0 != pair.home
                    &&& entries[pair.home as int].1 is Some
                    &&& entries[pair.away->0 as int].1 == entries[pair.home as int].1
                }
            }
        }),
{
    let ids = keys(entries);
    let all = pairs_of(ids);
    pairing_keeps_every_entry_once(entries);
    lemma_find_oriented(all, entries, roster_id);
    let found = find_oriented(all, entries, roster_id);
    if exists|i: int| 0 <= i < entries.len() && (#[trigger] entries[i]).0 == roster_id {
        let i = choose|i: int| 0 <= i < entries.len() && (#[trigger] entries[i]).0 == roster_id;
        let p = pairing_of(all, i);
        assert(0 <= p < all.len() && mentions(all[p], i));
        assert(oriented(all[p], entries, roster_id) is Some);
    }
    if found is Some {
        let p = choose|p: int| 0 <= p < all.len() && found == #[trigger] oriented(all[p], entries, roster_id);
        let pair = all[p];
        assert(pair.home < entries.len());
        if entries[pair.home as int].0 == roster_id {
            assert(found->0 == pair);
        } else {
            assert(pair.away is Some);
            assert(entries[pair.away->0 as int].0 == roster_id);
            assert(found->0.home == pair.away->0);
        }
        let h = found->0.home as int;
        assert(0 <= h < entries.len() && entries[h].0 == roster_id);
    }
}

/// A lineup as `(player, points)` in slot order: each starter with the points
/// at the same position, or `absent` where the points run out.
pub open spec fn aligned<T>(starters: Seq<PlayerId>, points: Seq<T>, absent: T) -> Seq<(PlayerId, T)> {
    Seq::new(
        starters.len(),
        |i: int| (starters[i], if i < points.len() { points[i] } else { absent }),
    )
}

/// The lineup as `(player, points)` in slot order, ready to zip against the
/// league's `roster_positions` for the slot labels.
///
/// Walks `starters` rather than zipping the two lists, because they can be
/// different lengths — an empty slot has shown up as a missing entry in
/// `starters_points` rather than a zero — and a plain zip would silently
/// truncate the lineup, shifting every slot label after the gap. A starter
/// with no matching points entry is reported as `absent`. Extra points past
/// the end of `starters` are dropped: with no player to attach them to there
/// is no row to put them on.
pub fn starter_points<T: Copy>(starters: &Vec<PlayerId>, starters_points: &Vec<T>, absent: T) -> (r:
    Vec<(PlayerId, T)>)
    ensures
        r@ == aligned(starters@, starters_points@, absent),
{
    let mut out: Vec<(PlayerId, T)> = Vec::new();
    let mut i: usize = 0;
    while i < starters.len()
        invariant
            i <= starters@.len(),
            out@ == aligned(starters@, starters_points@, absent).take(i as int),
        decreases starters@.len() - i,
    {
        let points = if i < starters_points.len() {
            starters_points[i]
        } else {
            absent
        };
        out.push((starters[i].clone(), points));
        i += 1;
        assert(out@ =~= aligned(starters@, starters_points@, absent).take(i as int));
    }
    assert(aligned(starters@, starters_points@, absent).take(starters@.len() as int) =~= aligned(
        starters@,
        starters_points@,
        absent,
    ));
    out
}

} // verus!
