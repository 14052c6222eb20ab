//! Whose team is whose: the joins a league card is built on.
//!
//! A roster carries an `owner_id` and nothing else, and the only place a team
//! name lives is the league's member list, so every name on a card is a join.
//! These are those joins, and the fallbacks for when one side of them is
//! missing.

use vstd::prelude::*;

use crate::sleeper::ids::{RosterId, UserId};
use crate::sleeper::model::{member_team_name, record_text, LeagueUser, Roster};
use crate::text::{decimal, push_decimal};

verus! {

/// The name each member goes by, in member order.
pub open spec fn names_of(members: Seq<LeagueUser>) -> Seq<(Seq<char>, Seq<char>)> {
    members.map_values(|m: LeagueUser| (m.user_id@, member_team_name(m)))
}

/// The name a join of `names` gives `user`: the last entry for that user, as
/// when the names are collected into a map.
pub open spec fn name_lookup(names: Seq<(Seq<char>, Seq<char>)>, user: Seq<char>) -> Option<Seq<char>>
    decreases names.len(),
{
    if names.len() == 0 {
        None
    } else if names.last().0 == user {
        Some(names.last().1)
    } else {
        name_lookup(names.drop_last(), user)
    }
}

/// Team name per manager, for joining rosters to the only place names live.
pub fn team_names(members: &[LeagueUser]) -> (r: Vec<(UserId, String)>)
    ensures
        r@.map_values(|e: (UserId, String)| (e.0@, e.1@)) == names_of(members@),
{
    let mut names: Vec<(UserId, String)> = Vec::new();
    let mut i: usize = 0;
    while i < members.len()
        invariant
            i <= members@.len(),
            names@.len() == i,
            names@.map_values(|e: (UserId, String)| (e.0@, e.1@)) == names_of(members@.take(i as int)),
        decreases members@.len() - i,
    {
        let member = &members[i];
        let ghost before = names@;
        names.push((member.user_id.clone(), member.team_name().to_owned()));
        proof {
            assert(members@.take(i + 1) =~= members@.take(i as int).push(members@[i as int]));
            assert(names@ =~= before.push(names@[i as int]));
            assert(names@.map_values(|e: (UserId, String)| (e.0@, e.1@)) =~= before.map_values(
                |e: (UserId, String)| (e.0@, e.1@),
            ).push((members@[i as int].user_id@, member_team_name(members@[i as int]))));
        }
        i += 1;
        assert(names@.map_values(|e: (UserId, String)| (e.0@, e.1@)) =~= names_of(
            members@.take(i as int),
        ));
    }
    assert(members@.take(members@.len() as int) =~= members@);
    names
}

/// What a roster is called when nobody's name can be joined to it.
pub open spec fn unnamed_roster(roster_id: RosterId) -> Seq<char> {
    "Roster "@ + decimal(roster_id.0 as nat)
}

/// The name printed for a roster: its owner's team name when the roster has
/// an owner in `names`, and `Roster <id>` otherwise.
pub open spec fn roster_name(
    names: Seq<(Seq<char>, Seq<char>)>,
    roster: Option<Roster>,
    roster_id: RosterId,
) -> Seq<char> {
    match roster {
        Some(r) => match r.owner_id {
            Some(owner) => match name_lookup(names, owner@) {
                Some(name) => name,
                None => unnamed_roster(roster_id),
            },
            None => unnamed_roster(roster_id),
        },
        None => unnamed_roster(roster_id),
    }
}

/// The name to print for a roster, from the joined names.
pub fn name_of(names: &[(UserId, String)], roster: Option<&Roster>, roster_id: RosterId) -> (r: String)
    ensures
        r@ == roster_name(
            names@.map_values(|e: (UserId, String)| (e.0@, e.1@)),
            match roster {
                Some(r) => Some(*r),
                None => None,
            },
            roster_id,
        ),
{
    let ghost view = names@.map_values(|e: (UserId, String)| (e.0@, e.1@));
    if let Some(found) = roster {
        if let Some(owner) = &found.owner_id {
            let mut i = names.len();
            proof {
                assert(view.take(view.len() as int) =~= view);
            }
            while i > 0
                invariant
                    i <= names@.len(),
                    roster == Some(found),
                    found.owner_id is Some && found.owner_id->0@ == owner@,
                    view == names@.map_values(|e: (UserId, String)| (e.0@, e.1@)),
                    name_lookup(view, owner@) == name_lookup(view.take(i as int), owner@),
                decreases i,
            {
                proof {
                    assert(view.take(i as int).drop_last() =~= view.take(i - 1));
                }
                if names[i - 1].0.same(owner) {
                    proof {
                        assert(view.take(i as int).last() == view[i - 1]);
                        assert(view[i - 1] == (names@[i - 1].0@, names@[i - 1].1@));
                        assert(view.take(i as int).last().0 == owner@);
                        assert(name_lookup(view, owner@) == Some(names@[i - 1].1@));
                    }
                    return names[i - 1].1.clone();
                }
                i -= 1;
            }
        }
    }
    let mut text = "Roster ".to_owned();
    push_decimal(&mut text, roster_id.0 as u64);
    text
}

/// The record printed for a roster, or `0-0` when there is no roster to read
/// one from.
pub fn record_of(roster: Option<&Roster>) -> (r: String)
    ensures
        r@ == match roster {
            Some(r) => record_text(r.settings.wins as nat, r.settings.losses as nat, r.settings.ties as nat),
            None => record_text(0, 0, 0),
        },
{
    match roster {
        Some(roster) => roster.settings.record(),
        None => crate::sleeper::model::RosterSettings::default().record(),
    }
}

/// Whether `roster` is owned by `user`.
pub open spec fn owned_by(roster: Roster, user: Seq<char>) -> bool {
    roster.owner_id is Some && roster.owner_id->0@ == user
}

/// The first roster in `rosters` that `user_id` owns, by position.
pub fn owned_roster(rosters: &[Roster], user_id: &UserId) -> (r: Option<usize>)
    ensures
        r is Some ==> r->0 < rosters@.len() && owned_by(rosters@[r->0 as int], user_id@),
        r is Some ==> forall|k: int| 0 <= k < r->0 ==> !owned_by(#[trigger] rosters@[k], user_id@),
        r is None ==> forall|k: int| 0 <= k < rosters@.len() ==> !owned_by(#[trigger] rosters@[k], user_id@),
{
    let mut i: usize = 0;
    while i < rosters.len()
        invariant
            i <= rosters@.len(),
            forall|k: int| 0 <= k < i ==> !owned_by(#[trigger] rosters@[k], user_id@),
        decreases rosters@.len() - i,
    {
        if let Some(owner) = &rosters[i].owner_id {
            if owner.same(user_id) {
                return Some(i);
            }
        }
        i += 1;
    }
    None
}

/// The first roster in `rosters` with the id `roster_id`, by position.
pub fn roster_with_id(rosters: &[Roster], roster_id: RosterId) -> (r: Option<usize>)
    ensures
        r is Some ==> r->0 < rosters@.len() && rosters@[r->0 as int].roster_id == roster_id,
        r is Some ==> forall|k: int| 0 <= k < r->0 ==> (#[trigger] rosters@[k]).roster_id != roster_id,
        r is None ==> forall|k: int| 0 <= k < rosters@.len() ==> (#[trigger] rosters@[k]).roster_id != roster_id,
{
    let mut i: usize = 0;
    while i < rosters.len()
        invariant
            i <= rosters@.len(),
            forall|k: int| 0 <= k < i ==> (#[trigger] rosters@[k]).roster_id != roster_id,
        decreases rosters@.len() - i,
    {
        if rosters[i].roster_id == roster_id {
            return Some(i);
        }
        i += 1;
    }
    None
}

/// The league whose game is closest to even, by each league's distance from
/// an even game (smaller is closer, in any order-preserving encoding): the
/// first of the closest, so an exact tie keeps the user's own league order.
/// `None` for a manager with no leagues.
pub fn closest_game_index(distances: &[u32]) -> (r: Option<usize>)
    ensures
        r is None <==> distances@.len() == 0,
        r is Some ==> {
            let best = r->0 as int;
            &&& best < distances@.len()
            &&& forall|j: int| 0 <= j < distances@.len() ==> distances@[best] <= #[trigger] distances@[j]
            &&& forall|j: int| 0 <= j < best ==> #[trigger] distances@[j] > distances@[best]
        },
{
    if distances.len() == 0 {
        return None;
    }
    let mut best: usize = 0;
    let mut i: usize = 1;
    while i < distances.len()
        invariant
            0 <= best < i <= distances@.len(),
            forall|j: int| 0 <= j < i ==> distances@[best as int] <= #[trigger] distances@[j],
            forall|j: int| 0 <= j < best ==> #[trigger] distances@[j] > distances@[best as int],
        decreases distances@.len() - i,
    {
        if distances[i] < distances[best] {
            best = i;
        }
        i += 1;
    }
    Some(best)
}

} // verus!
