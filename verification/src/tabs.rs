//! Which league the detail window is showing.
//!
//! The window has one tab per league, in the user's own Sleeper order, and
//! one of them is on screen. A refresh replaces the leagues under it, a click
//! or an arrow key moves between them, and the popover opens the window on
//! whichever league was clicked. All of that is a list of league ids and one
//! index into it; the rules are here, so the drawing never has to ask whether
//! its index is still good.

use vstd::prelude::*;

use crate::sleeper::ids::LeagueId;

verus! {

/// The league ids as text.
pub open spec fn id_views(ids: Seq<LeagueId>) -> Seq<Seq<char>> {
    ids.map_values(|id: LeagueId| id@)
}

/// Whether a tab position is good for `count` leagues: on one of them, or
/// the first position when there are none.
pub open spec fn valid_tab(active: int, count: int) -> bool {
    (count == 0 && active == 0) || (0 <= active < count)
}

/// Whether `at` is the first position of `id` in `ids`.
pub open spec fn first_at(ids: Seq<Seq<char>>, id: Seq<char>, at: int) -> bool {
    &&& 0 <= at < ids.len()
    &&& ids[at] == id
    &&& forall|k: int| 0 <= k < at ==> ids[k] != id
}

/// Whether `ids` has `id` anywhere.
pub open spec fn has_id(ids: Seq<Seq<char>>, id: Seq<char>) -> bool {
    exists|k: int| 0 <= k < ids.len() && ids[k] == id
}

/// The tab one step along from `active` among `count` tabs, wrapping round at
/// either end; with fewer than two tabs there is nowhere to go.
pub open spec fn stepped(active: int, count: int, forward: bool) -> int {
    if count < 2 {
        active
    } else if forward {
        (active + 1) % count
    } else {
        (active + count - 1) % count
    }
}

/// The leagues a detail window has, and the one on screen.
#[derive(Debug)]
pub struct LeagueTabs {
    ids: Vec<LeagueId>,
    active: usize,
}

impl View for LeagueTabs {
    type V = (Seq<Seq<char>>, int);

    /// The league ids in tab order, and the position of the one on screen.
    closed spec fn view(&self) -> (Seq<Seq<char>>, int) {
        (id_views(self.ids@), self.active as int)
    }
}

/// The first position of `id` in `ids`, if it is there.
fn index_of(ids: &Vec<LeagueId>, id: &LeagueId) -> (r: Option<usize>)
    ensures
        r is Some ==> first_at(id_views(ids@), id@, r->0 as int),
        r is None ==> !has_id(id_views(ids@), id@),
{
    let ghost views = id_views(ids@);
    let mut i: usize = 0;
    while i < ids.len()
        invariant
            i <= ids@.len(),
            views == id_views(ids@),
            forall|k: int| 0 <= k < i ==> views[k] != id@,
        decreases ids@.len() - i,
    {
        if ids[i].same(id) {
            assert(views[i as int] == ids@[i as int]@);
            return Some(i);
        }
        i += 1;
    }
    None
}

impl LeagueTabs {
    /// A tab position never points past the leagues.
    #[verifier::type_invariant]
    spec fn well_formed(self) -> bool {
        valid_tab(self.active as int, self.ids@.len() as int)
    }

    /// Tabs over `ids`, opened on position `active`. An out-of-range position
    /// lands on the first league rather than on nothing: a refresh that
    /// dropped the league asked for is not a reason to show an empty window.
    pub fn new(ids: Vec<LeagueId>, active: usize) -> (r: Self)
        ensures
            r@.0 == id_views(ids@),
            r@.1 == if active < ids@.len() {
                active as int
            } else {
                0
            },
            valid_tab(r@.1, r@.0.len() as int),
    {
        let active = if active < ids.len() {
            active
        } else {
            0
        };
        LeagueTabs { ids, active }
    }

    /// Tabs over `ids`, opened on `league_id` — what the popover has in hand —
    /// or on the first league if it is not among them.
    pub fn for_league(ids: Vec<LeagueId>, league_id: &LeagueId) -> (r: Self)
        ensures
            r@.0 == id_views(ids@),
            has_id(r@.0, league_id@) ==> first_at(r@.0, league_id@, r@.1),
            !has_id(r@.0, league_id@) ==> r@.1 == 0,
            valid_tab(r@.1, r@.0.len() as int),
    {
        let active = match index_of(&ids, league_id) {
            Some(at) => at,
            None => 0,
        };
        LeagueTabs::new(ids, active)
    }

    /// The position of the league on screen, or `None` when there are no
    /// leagues at all.
    pub fn active(&self) -> (r: Option<usize>)
        ensures
            r is None <==> self@.0.len() == 0,
            r is Some ==> r->0 as int == self@.1 && self@.1 < self@.0.len(),
    {
        proof {
            use_type_invariant(self);
        }
        if self.ids.len() == 0 {
            None
        } else {
            Some(self.active)
        }
    }

    /// The id of the league on screen.
    pub fn active_league(&self) -> (r: Option<&LeagueId>)
        ensures
            r is None <==> self@.0.len() == 0,
            r is Some ==> r->0@ == self@.0[self@.1],
    {
        proof {
            use_type_invariant(self);
        }
        if self.ids.len() == 0 {
            None
        } else {
            Some(&self.ids[self.active])
        }
    }

    /// Replace the leagues after a refresh, keeping the tab the user is
    /// looking at. By id, not by position: the order can change between
    /// fetches, and a window that silently swaps to another league while
    /// somebody is reading it is worse than one that falls back to the first
    /// tab.
    pub fn set_leagues(&mut self, ids: Vec<LeagueId>)
        ensures
            final(self)@.0 == id_views(ids@),
            old(self)@.0.len() > 0 && has_id(final(self)@.0, old(self)@.0[old(self)@.1]) ==> first_at(
                final(self)@.0,
                old(self)@.0[old(self)@.1],
                final(self)@.1,
            ),
            !(old(self)@.0.len() > 0 && has_id(final(self)@.0, old(self)@.0[old(self)@.1]))
                ==> final(self)@.1 == 0,
            valid_tab(final(self)@.1, final(self)@.0.len() as int),
    {
        proof {
            use_type_invariant(&*self);
        }
        let found = if self.ids.len() == 0 {
            None
        } else {
            index_of(&ids, &self.ids[self.active])
        };
        let active = match found {
            Some(at) => at,
            None => 0,
        };
        *self = LeagueTabs { ids, active };
    }

    /// Switch to the tab at `index`; an index past the last tab changes
    /// nothing.
    pub fn select(&mut self, index: usize)
        ensures
            final(self)@.0 == old(self)@.0,
            final(self)@.1 == if index < old(self)@.0.len() {
                index as int
            } else {
                old(self)@.1
            },
            valid_tab(final(self)@.1, final(self)@.0.len() as int),
    {
        proof {
            use_type_invariant(&*self);
        }
        if index < self.ids.len() {
            self.active = index;
        }
    }

    /// Switch to a league by id. Does nothing if this window is not showing
    /// that league.
    pub fn show_league(&mut self, league_id: &LeagueId)
        ensures
            final(self)@.0 == old(self)@.0,
            has_id(old(self)@.0, league_id@) ==> first_at(old(self)@.0, league_id@, final(self)@.1),
            !has_id(old(self)@.0, league_id@) ==> final(self)@.1 == old(self)@.1,
            valid_tab(final(self)@.1, final(self)@.0.len() as int),
    {
        proof {
            use_type_invariant(&*self);
        }
        if let Some(index) = index_of(&self.ids, league_id) {
            self.select(index);
        }
    }

    /// Walk the tabs, wrapping round at either end: four tabs in a row are a
    /// ring, and a right arrow that stops dead on the last one feels broken.
    pub fn step(&mut self, forward: bool)
        ensures
            final(self)@.0 == old(self)@.0,
            final(self)@.1 == stepped(old(self)@.1, old(self)@.0.len() as int, forward),
            valid_tab(final(self)@.1, final(self)@.0.len() as int),
    {
        proof {
            use_type_invariant(&*self);
        }
        let count = self.ids.len();
        if count < 2 {
            return;
        }
        let next = if forward {
            if self.active + 1 == count {
                0
            } else {
                self.active + 1
            }
        } else {
            if self.active == 0 {
                count - 1
            } else {
                self.active - 1
            }
        };
        proof {
            lemma_ring_step(self.active as int, count as int);
        }
        self.select(next);
    }
}

/// A step round a ring of `count` tabs, worked out without the modulo.
proof fn lemma_ring_step(active: int, count: int)
    requires
        count >= 2,
        0 <= active < count,
    ensures
        stepped(active, count, true) == if active + 1 == count {
            0
        } else {
            active + 1
        },
        stepped(active, count, false) == if active == 0 {
            count - 1
        } else {
            active - 1
        },
{
    if active + 1 == count {
        assert((active + 1) % count == 0) by (nonlinear_arith)
            requires
                active + 1 == count,
                count >= 2,
        ;
    } else {
        assert((active + 1) % count == active + 1) by (nonlinear_arith)
            requires
                0 <= active + 1 < count,
        ;
    }
    if active == 0 {
        assert((active + count - 1) % count == count - 1) by (nonlinear_arith)
            requires
                active == 0,
                count >= 2,
        ;
    } else {
        assert((active + count - 1) % count == active - 1) by (nonlinear_arith)
            requires
                1 <= active < count,
        ;
    }
}

/// Tabs are a ring: a step always lands on a tab, and a step back undoes a
/// step forward — and the other way round — from any tab.
pub proof fn a_step_back_undoes_a_step_forward(active: int, count: int)
    requires
        valid_tab(active, count),
    ensures
        valid_tab(stepped(active, count, true), count),
        valid_tab(stepped(active, count, false), count),
        stepped(stepped(active, count, true), count, false) == active,
        stepped(stepped(active, count, false), count, true) == active,
{
    if count >= 2 {
        lemma_ring_step(active, count);
        lemma_ring_step(stepped(active, count, true), count);
        lemma_ring_step(stepped(active, count, false), count);
    }
}

} // verus!
