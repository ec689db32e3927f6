//! The state of an agent, how it moves, and the default decision policy.

use crate::action::Action;
use crate::chance::{draw_point, Chance, Wander};
use crate::geometry::{
    clip, distance_sq, distance_squared, floor_sqrt, isqrt, scale, spec_advance, spec_clip,
    spec_retreat, spec_scale, spec_stride, stride, Point,
};
use crate::parameters::TagParams;
use crate::tag_environment::{is_roster, TagEnvironment};
use rand::rngs::StdRng;
use vstd::prelude::*;

verus! {

/// An agent playing tag.
#[derive(Debug, Clone, Copy, PartialEq, Eq, Structural)]
pub struct Player {
    /// Its identity, which never changes.
    pub id: usize,
    /// Whether it is "it".
    pub is_it: bool,
    /// Who tagged it last; itself, as long as nobody has.
    pub last_tagged: usize,
    /// Where it stands.
    pub position: Point,
    /// Its longest move in one tick.
    pub speed: u32,
    /// The distance within which it can tag.
    pub reach: u32,
}

/// Whether a place lies on a field of the given size.
pub open spec fn on_field(p: Point, width: int, height: int) -> bool {
    0 <= p.x <= width && 0 <= p.y <= height
}

/// Whether an action, if it is a move, ends on the field.
pub open spec fn stays_on_field(a: Action, width: int, height: int) -> bool {
    a matches Action::Move(p) ==> on_field(p, width, height)
}

/// The offset used for a step: the true one, or the jitter where it is zero.
pub open spec fn spec_offset(delta: int, jitter: int) -> int {
    if delta == 0 {
        jitter
    } else {
        delta
    }
}

impl Player {
    /// Whether `other` stands within this agent's reach.
    pub open spec fn spec_in_reach(&self, other: Player) -> bool {
        distance_sq(self.position, other.position) <= self.reach * self.reach
    }

    /// Whether `other` stands within this agent's reach.
    pub fn in_reach(&self, other: Player) -> (r: bool)
        ensures
            r == self.spec_in_reach(other),
    {
        let d: u128 = distance_squared(self.position, other.position);
        let reach: u128 = self.reach as u128;
        assert(reach * reach <= 0xFFFF_FFFF * 0xFFFF_FFFF) by (nonlinear_arith)
            requires
                0 <= reach <= 0xFFFF_FFFF,
        ;
        d <= reach * reach
    }

    /// The Euclidean distance between two agents, rounded down to a whole
    /// number of grid steps.
    pub fn distance(&self, other: Player) -> (d: u64)
        ensures
            d == floor_sqrt(distance_sq(self.position, other.position)),
    {
        isqrt(distance_squared(self.position, other.position))
    }

    /// Where a random move leads: `wander`, a point of the unit disc, is
    /// stretched by the speed, added to the position and clipped to the
    /// field.
    pub open spec fn spec_random_move(&self, max_width: int, max_height: int, wander: Wander) -> Action {
        Action::Move(
            Point {
                x: spec_clip(self.position.x + spec_scale(wander.x as int, self.speed as int), max_width) as i32,
                y: spec_clip(self.position.y + spec_scale(wander.y as int, self.speed as int), max_height) as i32,
            },
        )
    }

    /// A move in the direction and over the share of the speed that `wander` gives.
    pub fn random_move(&self, max_width: i32, max_height: i32, wander: Wander) -> (a: Action)
        ensures
            a == self.spec_random_move(max_width as int, max_height as int, wander),
            max_width >= 0 && max_height >= 0 ==> stays_on_field(a, max_width as int, max_height as int),
    {
        let x: i64 = self.position.x as i64 + scale(wander.x, self.speed);
        let y: i64 = self.position.y as i64 + scale(wander.y, self.speed);
        Action::Move(Point { x: clip(x, max_width), y: clip(y, max_height) })
    }

    /// Where a full step towards `other` leads. An offset of exactly zero
    /// gives no direction: the jitter stands in for it.
    pub open spec fn spec_move_towards(
        &self,
        other: Player,
        max_width: int,
        max_height: int,
        chance: Chance,
    ) -> Action {
        let dx = spec_offset(other.position.x - self.position.x, chance.jitter_x as int);
        let dy = spec_offset(other.position.y - self.position.y, chance.jitter_y as int);
        Action::Move(
            Point {
                x: spec_clip(
                    spec_advance(self.position.x as int, dx, spec_stride(self.speed as int, dx, dy)),
                    max_width,
                ) as i32,
                y: spec_clip(
                    spec_advance(self.position.y as int, dy, spec_stride(self.speed as int, dy, dx)),
                    max_height,
                ) as i32,
            },
        )
    }

    /// Where a full step away from `other` leads.
    pub open spec fn spec_move_away(
        &self,
        other: Player,
        max_width: int,
        max_height: int,
        chance: Chance,
    ) -> Action {
        let dx = spec_offset(other.position.x - self.position.x, chance.jitter_x as int);
        let dy = spec_offset(other.position.y - self.position.y, chance.jitter_y as int);
        Action::Move(
            Point {
                x: spec_clip(
                    spec_retreat(self.position.x as int, dx, spec_stride(self.speed as int, dx, dy)),
                    max_width,
                ) as i32,
                y: spec_clip(
                    spec_retreat(self.position.y as int, dy, spec_stride(self.speed as int, dy, dx)),
                    max_height,
                ) as i32,
            },
        )
    }

    /// The offset to `to` along one axis, with the jitter in place of zero.
    fn offset(from: i32, to: i32, jitter: i32) -> (d: i64)
        requires
            jitter != 0,
        ensures
            d == spec_offset(to - from, jitter as int),
            d != 0,
            -0xFFFF_FFFF <= d <= 0xFFFF_FFFF,
    {
        let delta: i64 = to as i64 - from as i64;
        if delta == 0 {
            jitter as i64
        } else {
            delta
        }
    }

    /// A step of full speed straight towards `other`, clipped to the field.
    pub fn move_towards(&self, other: Player, max_width: i32, max_height: i32, chance: &Chance) -> (a:
        Action)
        requires
            chance.wf(),
        ensures
            a == self.spec_move_towards(other, max_width as int, max_height as int, *chance),
            max_width >= 0 && max_height >= 0 ==> stays_on_field(a, max_width as int, max_height as int),
    {
        let dx: i64 = Self::offset(self.position.x, other.position.x, chance.jitter_x);
        let dy: i64 = Self::offset(self.position.y, other.position.y, chance.jitter_y);
        let sx: i64 = stride(self.speed, dx, dy) as i64;
        let sy: i64 = stride(self.speed, dy, dx) as i64;
        let x: i64 = if dx < 0 {
            self.position.x as i64 - sx
        } else {
            self.position.x as i64 + sx
        };
        let y: i64 = if dy < 0 {
            self.position.y as i64 - sy
        } else {
            self.position.y as i64 + sy
        };
        Action::Move(Point { x: clip(x, max_width), y: clip(y, max_height) })
    }

    /// A step of full speed straight away from `other`, clipped to the field.
    pub fn move_away(&self, other: Player, max_width: i32, max_height: i32, chance: &Chance) -> (a:
        Action)
        requires
            chance.wf(),
        ensures
            a == self.spec_move_away(other, max_width as int, max_height as int, *chance),
            max_width >= 0 && max_height >= 0 ==> stays_on_field(a, max_width as int, max_height as int),
    {
        let dx: i64 = Self::offset(self.position.x, other.position.x, chance.jitter_x);
        let dy: i64 = Self::offset(self.position.y, other.position.y, chance.jitter_y);
        let sx: i64 = stride(self.speed, dx, dy) as i64;
        let sy: i64 = stride(self.speed, dy, dx) as i64;
        let x: i64 = if dx < 0 {
            self.position.x as i64 + sx
        } else {
            self.position.x as i64 - sx
        };
        let y: i64 = if dy < 0 {
            self.position.y as i64 + sy
        } else {
            self.position.y as i64 - sy
        };
        Action::Move(Point { x: clip(x, max_width), y: clip(y, max_height) })
    }
}

impl Player {
    /// Whether this agent, under the default policy, may tag `other`: one
    /// that is not "it", is not the agent itself, is not the one that
    /// tagged it last, and stands within its reach.
    pub open spec fn spec_eligible(&self, other: Player) -> bool {
        &&& !other.is_it
        &&& other.id != self.id
        &&& other.id != self.last_tagged
        &&& self.spec_in_reach(other)
    }

    /// Whether this agent, under the default policy, may tag `other`.
    pub fn eligible(&self, other: Player) -> (r: bool)
        ensures
            r == self.spec_eligible(other),
    {
        !other.is_it && other.id != self.id && other.id != self.last_tagged && self.in_reach(other)
    }

    /// The index of the first agent at or after `from` that this one may
    /// tag; the length of the roster where there is none.
    pub open spec fn first_eligible(&self, roster: Seq<Player>, from: int) -> int
        decreases roster.len() - from,
    {
        if from >= roster.len() {
            roster.len() as int
        } else if self.spec_eligible(roster[from]) {
            from
        } else {
            self.first_eligible(roster, from + 1)
        }
    }

    /// What the default policy decides on a roster walked in the given
    /// order: an agent that is "it" tags the first one that it may tag;
    /// any other, and one that finds nobody, moves at random.
    pub open spec fn spec_decide(
        &self,
        roster: Seq<Player>,
        max_width: int,
        max_height: int,
        chance: Chance,
    ) -> Action {
        if self.is_it && self.first_eligible(roster, 0) < roster.len() {
            Action::Tag(roster[self.first_eligible(roster, 0)].id)
        } else {
            self.spec_random_move(max_width, max_height, chance.wander)
        }
    }

    /// `first_eligible` is the least index from `from` on whose agent may
    /// be tagged.
    pub proof fn lemma_first_eligible(&self, roster: Seq<Player>, from: int)
        requires
            0 <= from <= roster.len(),
        ensures
            from <= self.first_eligible(roster, from) <= roster.len(),
            self.first_eligible(roster, from) < roster.len() ==> self.spec_eligible(
                roster[self.first_eligible(roster, from)],
            ),
            forall|j: int|
                from <= j < self.first_eligible(roster, from) ==> !self.spec_eligible(
                    #[trigger] roster[j],
                ),
        decreases roster.len() - from,
    {
        if from < roster.len() && !self.spec_eligible(roster[from]) {
            self.lemma_first_eligible(roster, from + 1);
        }
    }

    /// The default policy, on a roster walked in the given order.
    pub fn decide(&self, roster: &Vec<Player>, max_width: i32, max_height: i32, chance: &Chance) -> (a:
        Action)
        ensures
            a == self.spec_decide(roster@, max_width as int, max_height as int, *chance),
            a != Action::Tag(self.last_tagged),
            a != Action::Tag(self.id),
            a matches Action::Tag(t) ==> self.is_it && exists|i: int|
                0 <= i < roster@.len() && (#[trigger] roster@[i]).id == t && self.spec_eligible(
                    roster@[i],
                ),
            max_width >= 0 && max_height >= 0 ==> stays_on_field(a, max_width as int, max_height as int),
    {
        if self.is_it {
            let mut i: usize = 0;
            while i < roster.len()
                invariant
                    self.is_it,
                    0 <= i <= roster@.len(),
                    self.first_eligible(roster@, 0) == self.first_eligible(roster@, i as int),
                decreases roster@.len() - i,
            {
                if self.eligible(roster[i]) {
                    return Action::Tag(roster[i].id);
                }
                i = i + 1;
            }
        }
        self.random_move(max_width, max_height, chance.wander)
    }
}

impl Player {
    /// Whether this is an agent as it enters the game under `params`: not
    /// "it", tagged by nobody but itself, and somewhere on the field.
    pub open spec fn spawned(&self, id: usize, params: TagParams) -> bool {
        &&& self.id == id
        &&& !self.is_it
        &&& self.last_tagged == id
        &&& self.speed == params.speed
        &&& self.reach == params.proximity
        &&& 0 <= self.position.x < params.width
        &&& 0 <= self.position.y < params.height
    }

}

/// `player` after it was tagged by `by`.
pub open spec fn tagged(player: Player, by: usize) -> Player {
    Player { is_it: true, last_tagged: by, ..player }
}

/// `player` after it tagged somebody else.
pub open spec fn untagged(player: Player) -> Player {
    Player { is_it: false, ..player }
}

/// `player` at another place.
pub open spec fn moved(player: Player, position: Point) -> Player {
    Player { position, ..player }
}

/// What every decision policy offers to the game.
pub trait Agent: Sized {
    /// The state that the policy decides on.
    spec fn state(&self) -> Player;

    /// What the policy decides on a roster walked in the given order.
    spec fn policy(&self, roster: Seq<Player>, max_width: int, max_height: int, chance: Chance) -> Action;

    /// Decides on one action from the field as it is now. The agents are
    /// read in the order in which the table happens to be walked.
    fn act(&self, env: &TagEnvironment, chance: &Chance) -> (a: Action)
        requires
            env@.wf(),
            chance.wf(),
        ensures
            exists|roster: Seq<Player>|
                is_roster(roster, env@.agents) && a == #[trigger] self.policy(
                    roster,
                    env@.width,
                    env@.height,
                    *chance,
                ),
            env@.width >= 0 && env@.height >= 0 ==> stays_on_field(a, env@.width, env@.height),
            a matches Action::Tag(t) ==> env@.agents.contains_key(t) && t != self.state().id
                && !env@.agents[t].is_it,
    ;

    /// A new agent at a place drawn from the field, each grid point alike likely.
    fn create(id: usize, params: TagParams, rng: &mut StdRng) -> (agent: Self)
        requires
            params.width > 0,
            params.height > 0,
        ensures
            agent.state().spawned(id, params),
    ;

    /// Puts the agent at another place.
    fn update(&mut self, position: &Point)
        ensures
            final(self).state() == moved(old(self).state(), *position),
    ;

    /// The state of the agent.
    fn player(&self) -> (p: Player)
        ensures
            p == self.state(),
    ;

    /// Marks the agent as "it", tagged by `by`.
    fn tag(&mut self, by: usize)
        ensures
            final(self).state() == tagged(old(self).state(), by),
    ;

    /// Takes the mark "it" from the agent. Who tagged it last stays on record.
    fn untag(&mut self)
        ensures
            final(self).state() == untagged(old(self).state()),
    ;
}

impl Agent for Player {
    open spec fn state(&self) -> Player {
        *self
    }

    open spec fn policy(&self, roster: Seq<Player>, max_width: int, max_height: int, chance: Chance) -> Action {
        self.spec_decide(roster, max_width, max_height, chance)
    }

    fn act(&self, env: &TagEnvironment, chance: &Chance) -> (a: Action)
        ensures
            a != Action::Tag(self.last_tagged),
            a matches Action::Tag(t) ==> self.is_it && self.spec_eligible(env@.agents[t]),
    {
        let roster = env.roster();
        let a = self.decide(&roster, env.width(), env.height(), chance);
        assert(a == self.policy(roster@, env@.width, env@.height, *chance));
        a
    }

    fn create(id: usize, params: TagParams, rng: &mut StdRng) -> (agent: Player) {
        Player {
            id,
            is_it: false,
            last_tagged: id,
            position: draw_point(rng, params.width, params.height),
            speed: params.speed,
            reach: params.proximity,
        }
    }

    fn update(&mut self, position: &Point) {
        self.position = *position;
    }

    fn player(&self) -> (p: Player) {
        *self
    }

    fn tag(&mut self, by: usize) {
        self.is_it = true;
        self.last_tagged = by;
    }

    fn untag(&mut self) {
        self.is_it = false;
    }
}

impl Player {
    /// Whether this agent, as a chaser, goes for `other`: one that is not
    /// "it", is not the agent itself, and was not tagged last by it.
    pub open spec fn spec_can_tag(&self, other: Player) -> bool {
        &&& !other.is_it
        &&& other.id != self.id
        &&& other.last_tagged != self.id
    }

    /// Whether this agent, as a chaser, goes for `other`.
    pub fn can_tag(&self, other: Player) -> (r: bool)
        ensures
            r == self.spec_can_tag(other),
    {
        !other.is_it && other.id != self.id && other.last_tagged != self.id
    }
}

} // verus!
