//! The directional decision policy: chase the nearest agent that can be
//! tagged, or run from the nearest pursuer.

use crate::action::Action;
use crate::agents::agent::{stays_on_field, Agent, Player};
use crate::chance::Chance;
use crate::geometry::{distance_sq, distance_squared, Point};
use crate::parameters::TagParams;
use crate::ranking::{lowest, rank_le};
use crate::tag_environment::TagEnvironment;
use rand::rngs::StdRng;
use vstd::prelude::*;

verus! {

/// An agent that runs from those that are "it" and towards those that are not.
#[derive(Debug, Clone, Copy, PartialEq, Eq, Structural)]
pub struct DirectionalAgent {
    pub player: Player,
}

/// What an agent looks for on the field.
#[derive(Debug, Clone, Copy, PartialEq, Eq, Structural)]
pub enum Quest {
    /// Somebody to tag.
    Chase,
    /// Somebody to run from.
    Flee,
}

/// Whether `other` is what `me` looks for: as a chaser, one that it goes
/// for; as one that flees, an agent that is "it" and was not tagged last by
/// `me`.
pub open spec fn spec_wanted(me: Player, quest: Quest, other: Player) -> bool {
    match quest {
        Quest::Chase => me.spec_can_tag(other),
        Quest::Flee => other.is_it && other.last_tagged != me.id,
    }
}

/// The rank of the agent at place `i` of the roster, as seen from `me`.
pub open spec fn rank_of(me: Player, roster: Seq<Player>, i: int) -> (u128, usize) {
    (distance_sq(me.position, roster[i].position) as u128, i as usize)
}

/// Whether the agent at place `k` is the nearest of those that `me` looks
/// for; of several at the same distance, the first of the roster.
pub open spec fn is_nearest(me: Player, roster: Seq<Player>, quest: Quest, k: int) -> bool {
    &&& 0 <= k < roster.len()
    &&& spec_wanted(me, quest, roster[k])
    &&& forall|j: int|
        0 <= j < roster.len() && spec_wanted(me, quest, #[trigger] roster[j]) ==> rank_le(
            rank_of(me, roster, k),
            rank_of(me, roster, j),
        )
}

/// The place of the nearest agent that `me` looks for, if there is one.
pub open spec fn spec_nearest(me: Player, roster: Seq<Player>, quest: Quest) -> Option<int> {
    if exists|k: int| is_nearest(me, roster, quest, k) {
        Some(choose|k: int| is_nearest(me, roster, quest, k))
    } else {
        None
    }
}

/// At most one agent is the nearest.
pub proof fn lemma_nearest_unique(me: Player, roster: Seq<Player>, quest: Quest, k1: int, k2: int)
    requires
        roster.len() <= usize::MAX,
        is_nearest(me, roster, quest, k1),
        is_nearest(me, roster, quest, k2),
    ensures
        k1 == k2,
{
}

/// Whether `other` is what `me` looks for.
pub fn wanted(me: &Player, quest: Quest, other: Player) -> (r: bool)
    ensures
        r == spec_wanted(*me, quest, other),
{
    match quest {
        Quest::Chase => me.can_tag(other),
        Quest::Flee => other.is_it && other.last_tagged != me.id,
    }
}

/// Finds the nearest agent of the roster that `me` looks for.
pub fn nearest(me: &Player, roster: &Vec<Player>, quest: Quest) -> (found: Option<usize>)
    ensures
        found matches Some(k) ==> is_nearest(*me, roster@, quest, k as int),
        found is None ==> forall|j: int|
            0 <= j < roster@.len() ==> !spec_wanted(*me, quest, #[trigger] roster@[j]),
        found matches Some(k) ==> spec_nearest(*me, roster@, quest) == Some(k as int),
        found is None ==> spec_nearest(*me, roster@, quest) is None,
{
    let mut ranks: Vec<(u128, usize)> = Vec::new();
    let mut i: usize = 0;
    while i < roster.len()
        invariant
            0 <= i <= roster@.len(),
            forall|m: int|
                0 <= m < ranks@.len() ==> (#[trigger] ranks@[m]).1 < i && spec_wanted(
                    *me,
                    quest,
                    roster@[ranks@[m].1 as int],
                ) && ranks@[m] == rank_of(*me, roster@, ranks@[m].1 as int),
            forall|j: int|
                0 <= j < i && spec_wanted(*me, quest, #[trigger] roster@[j]) ==> ranks@.contains(
                    rank_of(*me, roster@, j),
                ),
        decreases roster@.len() - i,
    {
        if wanted(me, quest, roster[i]) {
            let d: u128 = distance_squared(me.position, roster[i].position);
            let ghost before = ranks@;
            ranks.push((d, i));
            proof {
                assert(ranks@[before.len() as int] == rank_of(*me, roster@, i as int));
                assert forall|j: int|
                    0 <= j < i + 1 && spec_wanted(
                        *me,
                        quest,
                        #[trigger] roster@[j],
                    ) implies ranks@.contains(rank_of(*me, roster@, j)) by {
                    if j < i {
                        let m = choose|m: int|
                            0 <= m < before.len() && before[m] == rank_of(*me, roster@, j);
                        assert(ranks@[m] == rank_of(*me, roster@, j));
                    }
                }
            }
        }
        i = i + 1;
    }
    match lowest(ranks) {
        None => {
            None
        },
        Some(r) => {
            proof {
                assert(is_nearest(*me, roster@, quest, r.1 as int));
                lemma_nearest_unique(
                    *me,
                    roster@,
                    quest,
                    r.1 as int,
                    choose|k: int| is_nearest(*me, roster@, quest, k),
                );
            }
            Some(r.1)
        },
    }
}

impl DirectionalAgent {
    /// Whether `me` goes for `other` and has it within reach.
    pub open spec fn spec_catchable(me: Player, other: Player) -> bool {
        me.spec_can_tag(other) && me.spec_in_reach(other)
    }

    /// The place of the first agent at or after `from` that `me` can catch;
    /// the length of the roster where there is none.
    pub open spec fn first_catch(me: Player, roster: Seq<Player>, from: int) -> int
        decreases roster.len() - from,
    {
        if from >= roster.len() {
            roster.len() as int
        } else if Self::spec_catchable(me, roster[from]) {
            from
        } else {
            Self::first_catch(me, roster, from + 1)
        }
    }

    /// `first_catch` is the least place from `from` on whose agent `me` can catch.
    pub proof fn lemma_first_catch(me: Player, roster: Seq<Player>, from: int)
        requires
            0 <= from <= roster.len(),
        ensures
            from <= Self::first_catch(me, roster, from) <= roster.len(),
            Self::first_catch(me, roster, from) < roster.len() ==> Self::spec_catchable(
                me,
                roster[Self::first_catch(me, roster, from)],
            ),
            forall|j: int|
                from <= j < Self::first_catch(me, roster, from) ==> !Self::spec_catchable(
                    me,
                    #[trigger] roster[j],
                ),
        decreases roster.len() - from,
    {
        if from < roster.len() && !Self::spec_catchable(me, roster[from]) {
            Self::lemma_first_catch(me, roster, from + 1);
        }
    }

    /// What a tag attempt on `other` comes to: the tag where it lands, a
    /// random move where it misses.
    pub open spec fn spec_tag(me: Player, other: Player, max_width: int, max_height: int, chance: Chance) -> Action {
        if chance.hit {
            Action::Tag(other.id)
        } else {
            me.spec_random_move(max_width, max_height, chance.wander)
        }
    }

    /// What the directional policy decides on a roster walked in the given
    /// order. An agent that is "it" attempts to tag the first one that it
    /// can catch; with nobody to catch, it steps towards the nearest one
    /// that it goes for, or, with nobody to go for, towards whoever heads the
    /// roster. Any other agent steps away from the nearest pursuer, and
    /// moves at random where there is none.
    pub open spec fn spec_decide(
        me: Player,
        roster: Seq<Player>,
        max_width: int,
        max_height: int,
        chance: Chance,
    ) -> Action {
        if me.is_it {
            if Self::first_catch(me, roster, 0) < roster.len() {
                Self::spec_tag(me, roster[Self::first_catch(me, roster, 0)], max_width, max_height, chance)
            } else {
                match spec_nearest(me, roster, Quest::Chase) {
                    Some(k) => me.spec_move_towards(roster[k], max_width, max_height, chance),
                    None => if roster.len() > 0 {
                        me.spec_move_towards(roster[0], max_width, max_height, chance)
                    } else {
                        me.spec_random_move(max_width, max_height, chance.wander)
                    },
                }
            }
        } else {
            match spec_nearest(me, roster, Quest::Flee) {
                Some(k) => me.spec_move_away(roster[k], max_width, max_height, chance),
                None => me.spec_random_move(max_width, max_height, chance.wander),
            }
        }
    }

    /// A tag attempt on `other`: the tag where it lands, a random move where
    /// it misses.
    pub fn tag(&self, other: Player, max_width: i32, max_height: i32, chance: &Chance) -> (a: Action)
        ensures
            a == Self::spec_tag(self.player, other, max_width as int, max_height as int, *chance),
            max_width >= 0 && max_height >= 0 ==> stays_on_field(a, max_width as int, max_height as int),
    {
        if chance.hit {
            Action::Tag(other.id)
        } else {
            self.player.random_move(max_width, max_height, chance.wander)
        }
    }

    /// The directional policy, on a roster walked in the given order.
    pub fn decide(&self, roster: &Vec<Player>, max_width: i32, max_height: i32, chance: &Chance) -> (a:
        Action)
        requires
            chance.wf(),
        ensures
            a == Self::spec_decide(self.player, roster@, max_width as int, max_height as int, *chance),
            a matches Action::Tag(t) ==> self.player.is_it && chance.hit && exists|i: int|
                0 <= i < roster@.len() && (#[trigger] roster@[i]).id == t && Self::spec_catchable(
                    self.player,
                    roster@[i],
                ),
            max_width >= 0 && max_height >= 0 ==> stays_on_field(a, max_width as int, max_height as int),
    {
        if self.player.is_it {
            let mut i: usize = 0;
            while i < roster.len()
                invariant
                    self.player.is_it,
                    0 <= i <= roster@.len(),
                    Self::first_catch(self.player, roster@, 0) == Self::first_catch(
                        self.player,
                        roster@,
                        i as int,
                    ),
                decreases roster@.len() - i,
            {
                if self.player.can_tag(roster[i]) && self.player.in_reach(roster[i]) {
                    return self.tag(roster[i], max_width, max_height, chance);
                }
                i = i + 1;
            }
            match nearest(&self.player, roster, Quest::Chase) {
                Some(k) => self.player.move_towards(roster[k], max_width, max_height, chance),
                None => if roster.len() > 0 {
                    self.player.move_towards(roster[0], max_width, max_height, chance)
                } else {
                    self.player.random_move(max_width, max_height, chance.wander)
                },
            }
        } else {
            match nearest(&self.player, roster, Quest::Flee) {
                Some(k) => self.player.move_away(roster[k], max_width, max_height, chance),
                None => self.player.random_move(max_width, max_height, chance.wander),
            }
        }
    }
}

impl Agent for DirectionalAgent {
    open spec fn state(&self) -> Player {
        self.player
    }

    open spec fn policy(&self, roster: Seq<Player>, max_width: int, max_height: int, chance: Chance) -> Action {
        Self::spec_decide(self.player, roster, max_width, max_height, chance)
    }

    fn act(&self, env: &TagEnvironment, chance: &Chance) -> (a: Action)
        ensures
            a matches Action::Tag(t) ==> self.player.is_it && chance.hit && Self::spec_catchable(
                self.player,
                env@.agents[t],
            ),
    {
        let roster = env.roster();
        let a = self.decide(&roster, env.width(), env.height(), chance);
        assert(a == self.policy(roster@, env@.width, env@.height, *chance));
        a
    }

    fn create(id: usize, params: TagParams, rng: &mut StdRng) -> (agent: DirectionalAgent) {
        DirectionalAgent { player: Player::create(id, params, rng) }
    }

    fn update(&mut self, position: &Point) {
        self.player.update(position)
    }

    fn player(&self) -> (p: Player) {
        self.player
    }

    fn tag(&mut self, by: usize) {
        self.player.tag(by)
    }

    fn untag(&mut self) {
        self.player.untag()
    }
}

} // verus!
