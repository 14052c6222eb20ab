//! The player dictionary, which is the only way to turn an id into a name.
//!
//! `GET /v1/players/nfl` is a single json object of about 12,200 entries and
//! 14 MB uncompressed, keyed by player id. There is no per-player endpoint and
//! no way to ask for a subset, so an app that wants to print `"J. Allen"` next
//! to `"4984"` has to take the whole thing — and then, since a user's leagues
//! touch a few hundred of those players, narrow it with
//! [`PlayerIndex::retain`] before caching it.
//!
//! The index is a list of `(id, player)` entries with no id twice, which is
//! what the json object is. Its meaning is the map from each id to its
//! player; the order of the entries means nothing.

use vstd::prelude::*;

use crate::sleeper::ids::PlayerId;
use crate::sleeper::model::{player_name, player_short_name, Player};

verus! {

/// The player an id maps to in a list of entries: the last entry with that
/// id, as when the entries are inserted into a map one after another.
pub open spec fn lookup(entries: Seq<(PlayerId, Player)>, id: Seq<char>) -> Option<Player>
    decreases entries.len(),
{
    if entries.len() == 0 {
        None
    } else if entries.last().0@ == id {
        Some(entries.last().1)
    } else {
        lookup(entries.drop_last(), id)
    }
}

/// The map a list of entries describes.
pub open spec fn map_of(entries: Seq<(PlayerId, Player)>) -> Map<Seq<char>, Player> {
    Map::new(|id: Seq<char>| lookup(entries, id) is Some, |id: Seq<char>| lookup(entries, id)->0)
}

/// Whether no id appears in two entries.
pub open spec fn distinct_ids(entries: Seq<(PlayerId, Player)>) -> bool {
    forall|i: int, j: int|
        0 <= i < j < entries.len() ==> #[trigger] entries[i].0@ != #[trigger] entries[j].0@
}

/// Whether `keep` holds the id `id`.
pub open spec fn keeps(keep: Seq<PlayerId>, id: Seq<char>) -> bool {
    exists|k: int| 0 <= k < keep.len() && #[trigger] keep[k]@ == id
}

/// The entries whose id is in `keep`, in their order.
pub open spec fn retained(entries: Seq<(PlayerId, Player)>, keep: Seq<PlayerId>) -> Seq<
    (PlayerId, Player),
>
    decreases entries.len(),
{
    if entries.len() == 0 {
        Seq::empty()
    } else if keeps(keep, entries.last().0@) {
        retained(entries.drop_last(), keep).push(entries.last())
    } else {
        retained(entries.drop_last(), keep)
    }
}

/// What the name helpers print for the empty-slot marker: a dash.
pub open spec fn empty_slot_text() -> Seq<char> {
    "\u{2014}"@
}

/// Every player Sleeper knows about, by id.
#[derive(Debug)]
pub struct PlayerIndex {
    players: Vec<(PlayerId, Player)>,
}

/// With no id twice, an id's player is the one entry that has it.
proof fn lemma_lookup_distinct(entries: Seq<(PlayerId, Player)>, id: Seq<char>)
    requires
        distinct_ids(entries),
    ensures
        forall|i: int|
            0 <= i < entries.len() && #[trigger] entries[i].0@ == id ==> lookup(entries, id) == Some(
                entries[i].1,
            ),
        (forall|i: int| 0 <= i < entries.len() ==> #[trigger] entries[i].0@ != id) ==> lookup(
            entries,
            id,
        ) is None,
    decreases entries.len(),
{
    if entries.len() > 0 {
        let rest = entries.drop_last();
        assert forall|i: int, j: int| 0 <= i < j < rest.len() implies #[trigger] rest[i].0@
            != #[trigger] rest[j].0@ by {
            assert(rest[i] == entries[i] && rest[j] == entries[j]);
        }
        lemma_lookup_distinct(rest, id);
        assert forall|i: int|
            0 <= i < entries.len() && #[trigger] entries[i].0@ == id implies lookup(
            entries,
            id,
        ) == Some(entries[i].1) by {
            if i < entries.len() - 1 {
                assert(rest[i] == entries[i]);
                assert(entries[i].0@ != entries[entries.len() - 1].0@);
            }
        }
        if forall|i: int| 0 <= i < entries.len() ==> #[trigger] entries[i].0@ != id {
            assert forall|i: int| 0 <= i < rest.len() implies #[trigger] rest[i].0@ != id by {
                assert(rest[i] == entries[i]);
            }
            assert(entries[entries.len() - 1].0@ != id);
        }
    }
}

/// Looking an id up in the first `j + 1` entries finds entry `j` if it has
/// the id, and whatever the first `j` entries gave otherwise.
proof fn lemma_lookup_take(entries: Seq<(PlayerId, Player)>, j: int, id: Seq<char>)
    requires
        0 <= j < entries.len(),
    ensures
        lookup(entries.take(j + 1), id) == if entries[j].0@ == id {
            Some(entries[j].1)
        } else {
            lookup(entries.take(j), id)
        },
{
    assert(entries.take(j + 1).drop_last() =~= entries.take(j));
}

/// Keeping the entries in `keep` keeps exactly their ids, each once.
proof fn lemma_retained(entries: Seq<(PlayerId, Player)>, keep: Seq<PlayerId>)
    requires
        distinct_ids(entries),
    ensures
        distinct_ids(retained(entries, keep)),
        forall|i: int|
            #![trigger retained(entries, keep)[i]]
            0 <= i < retained(entries, keep).len() ==> exists|j: int|
                0 <= j < entries.len() && #[trigger] entries[j] == retained(entries, keep)[i],
        forall|id: Seq<char>|
            #[trigger] lookup(retained(entries, keep), id) == if keeps(keep, id) {
                lookup(entries, id)
            } else {
                None
            },
    decreases entries.len(),
{
    if entries.len() > 0 {
        let rest = entries.drop_last();
        let last = entries.last();
        assert forall|i: int, j: int| 0 <= i < j < rest.len() implies #[trigger] rest[i].0@
            != #[trigger] rest[j].0@ by {
            assert(rest[i] == entries[i] && rest[j] == entries[j]);
        }
        lemma_retained(rest, keep);
        let r = retained(rest, keep);
        assert forall|i: int| 0 <= i < r.len() implies #[trigger] r[i].0@ != last.0@ by {
            let j = choose|j: int| 0 <= j < rest.len() && #[trigger] rest[j] == r[i];
            assert(rest[j] == entries[j]);
            assert(entries[j].0@ != entries[entries.len() - 1].0@);
        }
        let out = retained(entries, keep);
        if keeps(keep, last.0@) {
            assert(out == r.push(last));
            assert forall|i: int, j: int| 0 <= i < j < out.len() implies #[trigger] out[i].0@
                != #[trigger] out[j].0@ by {
                if j < r.len() {
                    assert(out[i] == r[i] && out[j] == r[j]);
                } else {
                    assert(out[i] == r[i]);
                }
            }
            assert forall|i: int| #![trigger out[i]] 0 <= i < out.len() implies exists|j: int|
                0 <= j < entries.len() && #[trigger] entries[j] == out[i] by {
                if i < r.len() {
                    let j = choose|j: int| 0 <= j < rest.len() && #[trigger] rest[j] == r[i];
                    assert(entries[j] == rest[j]);
                    assert(out[i] == r[i]);
                } else {
                    assert(entries[entries.len() - 1] == out[i]);
                }
            }
            assert forall|id: Seq<char>| #[trigger]
                lookup(out, id) == if keeps(keep, id) {
                    lookup(entries, id)
                } else {
                    None
                } by {
                assert(out.drop_last() =~= r);
                assert(lookup(r, id) == if keeps(keep, id) {
                    lookup(rest, id)
                } else {
                    None
                });
            }
        } else {
            assert(out == r);
            assert forall|i: int| #![trigger out[i]] 0 <= i < out.len() implies exists|j: int|
                0 <= j < entries.len() && #[trigger] entries[j] == out[i] by {
                let j = choose|j: int| 0 <= j < rest.len() && #[trigger] rest[j] == r[i];
                assert(entries[j] == rest[j]);
            }
            assert forall|id: Seq<char>| #[trigger]
                lookup(out, id) == if keeps(keep, id) {
                    lookup(entries, id)
                } else {
                    None
                } by {
                assert(lookup(r, id) == if keeps(keep, id) {
                    lookup(rest, id)
                } else {
                    None
                });
                if id == last.0@ {
                    assert(!keeps(keep, id));
                }
            }
        }
    }
}

impl View for PlayerIndex {
    type V = Map<Seq<char>, Player>;

    /// Each id's player.
    closed spec fn view(&self) -> Map<Seq<char>, Player> {
        map_of(self.players@)
    }
}

impl PlayerIndex {
    /// No id is in two entries.
    #[verifier::type_invariant]
    spec fn well_formed(self) -> bool {
        distinct_ids(self.players@)
    }

    /// The entries, each id once.
    pub closed spec fn entries(self) -> Seq<(PlayerId, Player)> {
        self.players@
    }

    /// Build an index from decoded entries, as a map is built from them: an
    /// id that comes twice keeps the later player.
    pub fn new(players: Vec<(PlayerId, Player)>) -> (r: Self)
        ensures
            r@ == map_of(players@),
    {
        let mut kept: Vec<(PlayerId, Player)> = Vec::new();
        let mut input = players;
        let ghost given = input@;
        // Entries are taken from the back, so each one is placed unless a
        // later entry already holds its id.
        while input.len() > 0
            invariant
                input@ == given.take(input@.len() as int),
                input@.len() <= given.len(),
                distinct_ids(kept@),
                forall|id: Seq<char>|
                    #![trigger lookup(given, id)]
                    lookup(given, id) == match lookup(kept@, id) {
                        Some(p) => Some(p),
                        None => lookup(input@, id),
                    },
            decreases input@.len(),
        {
            let ghost before = input@;
            let entry = input.pop().unwrap();
            let ghost j = input@.len() as int;
            proof {
                assert(before == given.take(j + 1));
                assert(input@ =~= given.take(j));
                assert(entry == given[j]);
            }
            let mut seen = false;
            let mut k: usize = 0;
            while k < kept.len()
                invariant
                    k <= kept@.len(),
                    seen == exists|m: int| 0 <= m < k && #[trigger] kept@[m].0@ == entry.0@,
                decreases kept@.len() - k,
            {
                if kept[k].0.same(&entry.0) {
                    seen = true;
                }
                k += 1;
            }
            proof {
                lemma_lookup_distinct(kept@, entry.0@);
            }
            let ghost old_kept = kept@;
            if !seen {
                kept.push(entry);
                proof {
                    assert forall|i: int, m: int| 0 <= i < m < kept@.len() implies #[trigger] kept@[i].0@
                        != #[trigger] kept@[m].0@ by {
                        if m == kept@.len() - 1 {
                            assert(kept@[i] == old_kept[i]);
                        } else {
                            assert(kept@[i] == old_kept[i] && kept@[m] == old_kept[m]);
                        }
                    }
                    lemma_lookup_distinct(kept@, entry.0@);
                    assert forall|id: Seq<char>| #![trigger lookup(given, id)]
                        lookup(given, id) == match lookup(kept@, id) {
                            Some(p) => Some(p),
                            None => lookup(input@, id),
                        } by {
                        lemma_lookup_take(given, j, id);
                        assert(kept@.drop_last() =~= old_kept);
                        assert(lookup(before, id) == lookup(given.take(j + 1), id));
                    }
                }
            } else {
                proof {
                    assert forall|id: Seq<char>| #![trigger lookup(given, id)]
                        lookup(given, id) == match lookup(kept@, id) {
                            Some(p) => Some(p),
                            None => lookup(input@, id),
                        } by {
                        lemma_lookup_take(given, j, id);
                        assert(lookup(before, id) == lookup(given.take(j + 1), id));
                        if id == entry.0@ {
                            let m = choose|m: int| 0 <= m < kept@.len() && #[trigger] kept@[m].0@ == entry.0@;
                            lemma_lookup_distinct(kept@, id);
                        }
                    }
                }
            }
        }
        proof {
            assert forall|id: Seq<char>| #![trigger lookup(given, id)]
                lookup(given, id) == lookup(kept@, id) by {
                assert(input@.len() == 0);
            }
            assert(map_of(kept@) =~= map_of(given));
        }
        PlayerIndex { players: kept }
    }

    /// One player, if the dictionary has them.
    pub fn get(&self, player_id: &PlayerId) -> (r: Option<&Player>)
        ensures
            r.is_some() == self@.contains_key(player_id@),
            r.is_some() ==> *r->0 == self@[player_id@],
    {
        proof {
            use_type_invariant(self);
            lemma_lookup_distinct(self.players@, player_id@);
        }
        let mut i: usize = 0;
        while i < self.players.len()
            invariant
                i <= self.players@.len(),
                distinct_ids(self.players@),
                forall|m: int| 0 <= m < i ==> #[trigger] self.players@[m].0@ != player_id@,
            decreases self.players@.len() - i,
        {
            if self.players[i].0.same(player_id) {
                proof {
                    lemma_lookup_distinct(self.players@, player_id@);
                    assert(lookup(self.players@, player_id@) == Some(self.players@[i as int].1));
                }
                return Some(&self.players[i].1);
            }
            i += 1;
        }
        proof {
            assert(lookup(self.players@, player_id@) is None);
        }
        None
    }

    /// The name to print for an id, at menu bar width: `"J. Allen"`, or
    /// `"Bills D/ST"` for a team defense.
    ///
    /// Returns the raw id for anything not in the dictionary, and a dash for
    /// the `"0"` an empty lineup slot holds. A missing player is a stale
    /// cache, not a crash: Sleeper adds rookies mid-week.
    pub fn short_name(&self, player_id: &PlayerId) -> (r: String)
        ensures
            r@ == if player_id@ == crate::sleeper::ids::EMPTY_STARTER@ {
                empty_slot_text()
            } else if self@.contains_key(player_id@) {
                player_short_name(self@[player_id@])
            } else {
                player_id@
            },
    {
        if player_id.is_empty_slot() {
            return "\u{2014}".to_owned();
        }
        match self.get(player_id) {
            Some(player) => player.short_name(),
            None => player_id.to_string(),
        }
    }

    /// The full name for an id, under the same fallback rules as
    /// [`Self::short_name`].
    pub fn name(&self, player_id: &PlayerId) -> (r: String)
        ensures
            r@ == if player_id@ == crate::sleeper::ids::EMPTY_STARTER@ {
                empty_slot_text()
            } else if self@.contains_key(player_id@) {
                player_name(self@[player_id@])
            } else {
                player_id@
            },
    {
        if player_id.is_empty_slot() {
            return "\u{2014}".to_owned();
        }
        match self.get(player_id) {
            Some(player) => player.name(),
            None => player_id.to_string(),
        }
    }

    /// How many players the index holds.
    pub fn len(&self) -> (r: usize)
        ensures
            r == self@.dom().len(),
    {
        proof {
            use_type_invariant(self);
            lemma_distinct_len(self.players@);
        }
        self.players.len()
    }

    /// Whether the index is empty, which for a fetched one means something
    /// went wrong upstream.
    pub fn is_empty(&self) -> (r: bool)
        ensures
            r == (self@.dom().len() == 0),
    {
        proof {
            use_type_invariant(self);
            lemma_distinct_len(self.players@);
        }
        self.players.len() == 0
    }

    /// Every entry, in no particular order: each id of the index once, with
    /// its player.
    pub fn iter(&self) -> (r: std::slice::Iter<'_, (PlayerId, Player)>)
        ensures
            vstd::std_specs::iter::IteratorSpec::remaining(&r) == self.entries().as_ref(),
            self.entries().len() == self@.dom().len(),
            distinct_ids(self.entries()),
            forall|i: int|
                0 <= i < self.entries().len() ==> {
                    &&& self@.contains_key(#[trigger] self.entries()[i].0@)
                    &&& self@[self.entries()[i].0@] == self.entries()[i].1
                },
    {
        proof {
            use_type_invariant(self);
            lemma_distinct_len(self.players@);
            assert forall|i: int| 0 <= i < self.entries().len() implies {
                &&& self@.contains_key(#[trigger] self.entries()[i].0@)
                &&& self@[self.entries()[i].0@] == self.entries()[i].1
            } by {
                lemma_lookup_distinct(self.players@, self.players@[i].0@);
            }
        }
        self.players.as_slice().iter()
    }

    /// Drop everyone not in `keep`.
    ///
    /// A user's leagues touch a few hundred players out of twelve thousand.
    /// Narrowing the index to the ids actually on a roster before caching it
    /// takes the file down by an order of magnitude.
    pub fn retain(&mut self, keep: &[PlayerId])
        ensures
            final(self)@ == old(self)@.restrict(Set::new(|id: Seq<char>| keeps(keep@, id))),
    {
        proof {
            use_type_invariant(&*self);
        }
        let ghost given = self.players@;
        let mut players: Vec<(PlayerId, Player)> = Vec::new();
        std::mem::swap(&mut players, &mut self.players);
        let mut i: usize = 0;
        let mut j: usize = 0;
        proof {
            assert(given.take(0) =~= Seq::<(PlayerId, Player)>::empty());
            assert(given.skip(0) =~= given);
        }
        let total = players.len();
        assert(given.len() == total);
        while i < players.len()
            invariant
                given.len() <= usize::MAX,
                j <= given.len(),
                players@ == retained(given.take(j as int), keep@) + given.skip(j as int),
                i == retained(given.take(j as int), keep@).len(),
            decreases players@.len() - i,
        {
            let ghost done = retained(given.take(j as int), keep@);
            assert(j < given.len());
            proof {
                assert(players@[i as int] == given[j as int]);
                assert(given.take(j + 1).drop_last() =~= given.take(j as int));
            }
            let mut wanted = false;
            let mut k: usize = 0;
            while k < keep.len()
                invariant
                    k <= keep@.len(),
                    i < players@.len(),
                    wanted == exists|m: int| 0 <= m < k && #[trigger] keep@[m]@ == players@[i as int].0@,
                decreases keep@.len() - k,
            {
                if keep[k].same(&players[i].0) {
                    wanted = true;
                }
                k += 1;
            }
            if wanted {
                i += 1;
                j += 1;
                proof {
                    assert(retained(given.take(j as int), keep@) == done.push(given[j - 1]));
                    assert(players@ =~= retained(given.take(j as int), keep@) + given.skip(j as int));
                }
            } else {
                players.remove(i);
                j += 1;
                proof {
                    assert(retained(given.take(j as int), keep@) == done);
                    assert(players@ =~= retained(given.take(j as int), keep@) + given.skip(j as int));
                }
            }
        }
        proof {
            assert(given.take(j as int).len() == j);
            assert(j == given.len()) by {
                assert(players@.len() == i + given.skip(j as int).len());
            }
            assert(given.take(j as int) =~= given);
            assert(players@ =~= retained(given, keep@));
            lemma_retained(given, keep@);
            assert(map_of(players@) =~= map_of(given).restrict(Set::new(|id: Seq<char>| keeps(keep@, id))));
        }
        self.players = players;
    }
}

/// With no id twice, there are as many ids as entries.
proof fn lemma_distinct_len(entries: Seq<(PlayerId, Player)>)
    requires
        distinct_ids(entries),
    ensures
        map_of(entries).dom().finite(),
        map_of(entries).dom().len() == entries.len(),
    decreases entries.len(),
{
    if entries.len() == 0 {
        assert(map_of(entries).dom() =~= Set::empty());
    } else {
        let rest = entries.drop_last();
        assert forall|i: int, j: int| 0 <= i < j < rest.len() implies #[trigger] rest[i].0@
            != #[trigger] rest[j].0@ by {
            assert(rest[i] == entries[i] && rest[j] == entries[j]);
        }
        lemma_distinct_len(rest);
        let key = entries.last().0@;
        lemma_lookup_distinct(rest, key);
        assert forall|i: int| 0 <= i < rest.len() implies #[trigger] rest[i].0@ != key by {
            assert(rest[i] == entries[i]);
        }
        assert(map_of(entries).dom() =~= map_of(rest).dom().insert(key));
        assert(!map_of(rest).dom().contains(key));
    }
}

} // verus!
