//! The shared state of a game of tag, and how actions change it.

use crate::action::Action;
use crate::agents::agent::{moved, on_field, stays_on_field, tagged, untagged, Agent, Player};
use crate::chance::draw_index;
use crate::environment::Environment;
use crate::parameters::{ConfigError, TagParams};
use crate::table::{
    is_walk, table_clear, table_entries, table_get, table_insert, table_len, table_new, table_walk,
};
use dashmap::DashMap;
use rand::rngs::StdRng;
use std::collections::hash_map::RandomState;
use std::collections::HashSet;
use vstd::prelude::*;
use vstd::std_specs::hash::*;

verus! {

broadcast use vstd::std_specs::hash::group_hash_axioms;

/// The state of the field: the agents by id, the ids of those that are
/// "it", and the size of the field.
pub struct TagEnvironment {
    pub(crate) agents: DashMap<usize, Player, RandomState>,
    pub(crate) width: i32,
    pub(crate) height: i32,
    pub(crate) it: HashSet<usize>,
    pub(crate) show_numbers: bool,
}

/// What a [`TagEnvironment`] holds, as mathematics.
pub struct EnvView {
    /// The agents by id.
    pub agents: Map<usize, Player>,
    /// The ids of the agents that are "it".
    pub it: Set<usize>,
    /// The width of the field.
    pub width: int,
    /// The height of the field.
    pub height: int,
    /// Whether the rendered agents are numbered.
    pub show_numbers: bool,
}

impl EnvView {
    /// The table is finite, every agent is filed under its own id, and the
    /// set of those that are "it" holds exactly the ids of the agents
    /// marked so.
    pub open spec fn wf(self) -> bool {
        &&& self.agents.dom().finite()
        &&& forall|id: usize| #[trigger]
            self.agents.contains_key(id) ==> self.agents[id].id == id
        &&& forall|id: usize| #[trigger]
            self.it.contains(id) <==> self.agents.contains_key(id) && self.agents[id].is_it
    }

    /// The ids of the agents that are marked "it".
    pub open spec fn marked(self) -> Set<usize> {
        self.agents.dom().filter(|id: usize| self.agents[id].is_it)
    }

    /// Every agent stands on the field.
    pub open spec fn in_bounds(self) -> bool {
        forall|id: usize| #[trigger]
            self.agents.contains_key(id) ==> on_field(self.agents[id].position, self.width, self.height)
    }

    /// The ids in use are exactly those below `n`.
    pub open spec fn dense(self, n: int) -> bool {
        forall|id: usize| #[trigger] self.agents.contains_key(id) <==> id < n
    }

    /// Whether the actor, and the target of a tag, are agents of this state.
    pub open spec fn admits(self, actor: usize, action: Action) -> bool {
        &&& self.agents.contains_key(actor)
        &&& action matches Action::Tag(target) ==> self.agents.contains_key(target)
    }

    /// Whether a tag of `target` would succeed now: nobody has claimed it yet.
    pub open spec fn can_claim(self, target: usize) -> bool {
        !self.it.contains(target)
    }

    /// The state after `actor` has tagged `target`.
    pub open spec fn after_tag(self, actor: usize, target: usize) -> EnvView {
        let released = self.agents.insert(actor, untagged(self.agents[actor]));
        EnvView {
            agents: released.insert(target, tagged(released[target], actor)),
            it: self.it.remove(actor).insert(target),
            ..self
        }
    }

    /// The state after one action of `actor`. A tag of an agent that is
    /// "it" already changes nothing; a move is taken as it is.
    pub open spec fn step(self, actor: usize, action: Action) -> EnvView {
        match action {
            Action::Tag(target) => if self.can_claim(target) {
                self.after_tag(actor, target)
            } else {
                self
            },
            Action::Move(position) => EnvView {
                agents: self.agents.insert(actor, moved(self.agents[actor], position)),
                ..self
            },
        }
    }

    /// The state after the first `n` actions, the action at each index
    /// being that of the agent with that id, in ascending order.
    pub open spec fn run(self, actions: Seq<Action>, n: int) -> EnvView
        decreases n,
    {
        if n <= 0 {
            self
        } else {
            self.run(actions, n - 1).step((n - 1) as usize, actions[n - 1])
        }
    }

    /// Whether each of the first `n` actions is admitted.
    pub open spec fn admits_all(self, actions: Seq<Action>, n: int) -> bool {
        forall|i: int| 0 <= i < n ==> self.admits(i as usize, #[trigger] actions[i])
    }
}

/// A step keeps a well-formed state well-formed, and leaves the ids and the
/// field as they are.
pub proof fn lemma_step_wf(s: EnvView, actor: usize, action: Action)
    requires
        s.wf(),
        s.admits(actor, action),
    ensures
        s.step(actor, action).wf(),
        s.step(actor, action).agents.dom() == s.agents.dom(),
        s.step(actor, action).width == s.width,
        s.step(actor, action).height == s.height,
        s.step(actor, action).show_numbers == s.show_numbers,
{
}

impl View for TagEnvironment {
    type V = EnvView;

    closed spec fn view(&self) -> EnvView {
        EnvView {
            agents: table_entries(self.agents),
            it: self.it@,
            width: self.width as int,
            height: self.height as int,
            show_numbers: self.show_numbers,
        }
    }
}

impl TagEnvironment {
    /// An empty field of the given size.
    pub fn new(width: i32, height: i32, show_numbers: bool) -> (env: TagEnvironment)
        ensures
            env@.wf(),
            env@.agents == Map::<usize, Player>::empty(),
            env@.it == Set::<usize>::empty(),
            env@.width == width,
            env@.height == height,
            env@.show_numbers == show_numbers,
    {
        TagEnvironment { agents: table_new(), width, height, it: HashSet::new(), show_numbers }
    }

    /// The width of the field.
    pub fn width(&self) -> (w: i32)
        ensures
            w == self@.width,
    {
        self.width
    }

    /// The height of the field.
    pub fn height(&self) -> (h: i32)
        ensures
            h == self@.height,
    {
        self.height
    }

    /// Whether the rendered agents are numbered.
    pub fn show_numbers(&self) -> (b: bool)
        ensures
            b == self@.show_numbers,
    {
        self.show_numbers
    }

    /// The number of agents.
    pub fn agent_count(&self) -> (n: usize)
        ensures
            n == self@.agents.dom().len(),
    {
        table_len(&self.agents)
    }

    /// The agent with the given id, if there is one.
    pub fn agent(&self, id: usize) -> (found: Option<Player>)
        ensures
            found == (if self@.agents.contains_key(id) {
                Some(self@.agents[id])
            } else {
                None
            }),
    {
        table_get(&self.agents, id)
    }

    /// The number of agents that are "it".
    pub fn it_count(&self) -> (n: usize)
        requires
            self@.wf(),
        ensures
            n == self@.it.len(),
            n == self@.marked().len(),
    {
        proof {
            assert(self@.it =~= self@.marked());
        }
        self.it.len()
    }

    /// Whether the agent with the given id is "it".
    pub fn is_it(&self, id: usize) -> (b: bool)
        ensures
            b == self@.it.contains(id),
    {
        self.it.contains(&id)
    }
}

/// Running a list of admitted actions keeps a well-formed state
/// well-formed, and leaves the ids and the field as they are.
pub proof fn lemma_run_wf(s: EnvView, actions: Seq<Action>, n: int)
    requires
        s.wf(),
        0 <= n <= actions.len(),
        s.admits_all(actions, n),
    ensures
        s.run(actions, n).wf(),
        s.run(actions, n).agents.dom() == s.agents.dom(),
        s.run(actions, n).width == s.width,
        s.run(actions, n).height == s.height,
        s.run(actions, n).show_numbers == s.show_numbers,
    decreases n,
{
    if n > 0 {
        lemma_run_wf(s, actions, n - 1);
        lemma_step_wf(s.run(actions, n - 1), (n - 1) as usize, actions[n - 1]);
    }
}

/// A step whose move, if it is one, ends on the field keeps every agent on
/// the field.
pub proof fn lemma_step_in_bounds(s: EnvView, actor: usize, action: Action)
    requires
        s.wf(),
        s.admits(actor, action),
        s.in_bounds(),
        stays_on_field(action, s.width, s.height),
    ensures
        s.step(actor, action).in_bounds(),
{
    lemma_step_wf(s, actor, action);
}

/// Running actions whose moves all end on the field keeps every agent on
/// the field.
pub proof fn lemma_run_in_bounds(s: EnvView, actions: Seq<Action>, n: int)
    requires
        s.wf(),
        0 <= n <= actions.len(),
        s.admits_all(actions, n),
        s.in_bounds(),
        forall|i: int| 0 <= i < n ==> stays_on_field(#[trigger] actions[i], s.width, s.height),
    ensures
        s.run(actions, n).in_bounds(),
    decreases n,
{
    if n > 0 {
        lemma_run_in_bounds(s, actions, n - 1);
        lemma_run_wf(s, actions, n - 1);
        lemma_step_in_bounds(s.run(actions, n - 1), (n - 1) as usize, actions[n - 1]);
    }
}

/// In a well-formed state the set of those that are "it" is the set of the
/// agents marked so: as many ids are in the one as agents carry the mark.
pub proof fn lemma_it_is_marked(s: EnvView)
    requires
        s.wf(),
    ensures
        s.it == s.marked(),
        s.it.len() == s.marked().len(),
        s.it.finite(),
{
    s.agents.dom().lemma_len_filter(|id: usize| s.agents[id].is_it);
}

/// Once `x` is "it" it stays so while the actions from `from` up to `to`
/// are applied, unless `x` itself acts among them and its tag succeeds.
pub proof fn lemma_stays_it(s: EnvView, actions: Seq<Action>, from: int, to: int, x: usize)
    requires
        s.wf(),
        0 <= from <= to <= actions.len() <= usize::MAX,
        s.admits_all(actions, to),
        s.run(actions, from).it.contains(x),
        from <= x < to ==> !(actions[x as int] matches Action::Tag(y) && s.run(actions, x as int).can_claim(
            y,
        )),
    ensures
        s.run(actions, to).it.contains(x),
    decreases to - from,
{
    if from < to {
        lemma_stays_it(s, actions, from, to - 1, x);
    }
}

/// Of two tags of one target in one list of actions, the one of the lower
/// id is applied first and the other one changes nothing: after the first,
/// the target is "it", by that tag if nobody had claimed it before, and
/// the second finds the state as it leaves it. This holds as long as the
/// target, where its own turn lies between the two, does not pass the mark
/// on by a tag of its own.
pub proof fn lemma_lower_id_wins(s: EnvView, actions: Seq<Action>, i: int, j: int, x: usize)
    requires
        s.wf(),
        0 <= i < j < actions.len() <= usize::MAX,
        s.admits_all(actions, actions.len() as int),
        actions[i] == Action::Tag(x),
        actions[j] == Action::Tag(x),
        i < x < j ==> !(actions[x as int] matches Action::Tag(y) && s.run(actions, x as int).can_claim(y)),
    ensures
        s.run(actions, i).can_claim(x) ==> s.run(actions, i + 1) == s.run(actions, i).after_tag(i as usize, x),
        !s.run(actions, i).can_claim(x) ==> s.run(actions, i + 1) == s.run(actions, i),
        s.run(actions, i + 1).it.contains(x),
        s.run(actions, j + 1) == s.run(actions, j),
{
    lemma_stays_it(s, actions, i + 1, j, x);
}

impl EnvView {
    /// What holds of a state right after it was set up under `params`: the
    /// agents have the ids below their number, each stands somewhere on the
    /// field with nobody but itself as its last tagger, and as many of them
    /// are "it" as the configuration asks for.
    pub open spec fn freshly_set(self, params: TagParams) -> bool {
        &&& self.wf()
        &&& self.in_bounds()
        &&& self.dense(params.num_players as int)
        &&& self.agents.dom().len() == params.num_players
        &&& self.it.len() == params.num_it
        &&& self.width == params.width
        &&& self.height == params.height
        &&& self.show_numbers == params.numbered
        &&& forall|id: usize| #[trigger]
            self.agents.contains_key(id) ==> untagged(self.agents[id]).spawned(id, params)
    }
}

/// A state right after it was set up holds as many agents as the
/// configuration asks for, as many of them in the set of those that are
/// "it", and as many marked so.
pub proof fn lemma_fresh_counts(s: EnvView, params: TagParams)
    requires
        s.freshly_set(params),
    ensures
        s.agents.dom().len() == params.num_players,
        s.it.len() == params.num_it,
        s.marked().len() == params.num_it,
{
    lemma_it_is_marked(s);
}

impl TagEnvironment {
    /// Marks as many agents as the configuration asks for, all distinct and
    /// every choice of them alike likely, as "it".
    fn pick_it(&mut self, params: TagParams, rng: &mut StdRng)
        requires
            params.valid(),
            old(self)@.wf(),
            old(self)@.dense(params.num_players as int),
            old(self)@.agents.dom().len() == params.num_players,
            old(self)@.it == Set::<usize>::empty(),
            old(self)@.width == params.width,
            old(self)@.height == params.height,
            old(self)@.show_numbers == params.numbered,
            forall|id: usize| #[trigger]
                old(self)@.agents.contains_key(id) ==> old(self)@.agents[id].spawned(id, params),
        ensures
            final(self)@.freshly_set(params),
    {
        let n: usize = params.num_players;
        let mut pool: Vec<usize> = Vec::new();
        let mut k: usize = 0;
        while k < n
            invariant
                k <= n,
                pool@.len() == k,
                forall|i: int| 0 <= i < k ==> pool@[i] == i,
            decreases n - k,
        {
            pool.push(k);
            k = k + 1;
        }
        let mut picked: usize = 0;
        while picked < params.num_it
            invariant
                params.valid(),
                n == params.num_players,
                picked <= params.num_it,
                pool@.len() == n,
                forall|i: int| 0 <= i < n ==> #[trigger] pool@[i] < n,
                forall|i: int, j: int| 0 <= i < j < n ==> pool@[i] != pool@[j],
                self@.wf(),
                self@.dense(n as int),
                self@.agents.dom().len() == n,
                self@.it.finite(),
                self@.it.len() == picked,
                forall|id: usize|
                    self@.it.contains(id) <==> exists|i: int| 0 <= i < picked && #[trigger] pool@[i] == id,
                self@.width == params.width,
                self@.height == params.height,
                self@.show_numbers == params.numbered,
                forall|id: usize| #[trigger]
                    self@.agents.contains_key(id) ==> untagged(self@.agents[id]).spawned(id, params),
            decreases params.num_it - picked,
        {
            let j: usize = draw_index(rng, picked, n);
            let a: usize = pool[picked];
            let b: usize = pool[j];
            let ghost before = pool@;
            pool.set(picked, b);
            pool.set(j, a);
            let chosen: usize = pool[picked];
            let mut agent = self.agent(chosen).unwrap();
            agent.tag(chosen);
            let ghost prior = self@;
            self.add_agent(agent);
            assert forall|id: usize|
                self@.it.contains(id) <==> exists|i: int|
                    0 <= i < picked + 1 && #[trigger] pool@[i] == id by {
                if id != chosen && prior.it.contains(id) {
                    let i = choose|i: int| 0 <= i < picked && #[trigger] before[i] == id;
                    assert(pool@[i] == id);
                }
            }
            picked = picked + 1;
        }
    }
}

/// Whether `roster` lists every agent of the table exactly once.
pub open spec fn is_roster(roster: Seq<Player>, agents: Map<usize, Player>) -> bool {
    &&& forall|i: int|
        0 <= i < roster.len() ==> agents.contains_key((#[trigger] roster[i]).id) && agents[roster[i].id]
            == roster[i]
    &&& forall|i: int, j: int|
        0 <= i < j < roster.len() ==> (#[trigger] roster[i]).id != (#[trigger] roster[j]).id
    &&& forall|id: usize| #[trigger]
        agents.contains_key(id) ==> exists|i: int| 0 <= i < roster.len() && (#[trigger] roster[i]).id == id
}

impl TagEnvironment {
    /// The agents as they are now, each once, in the order in which the
    /// table happens to be walked.
    pub fn roster(&self) -> (roster: Vec<Player>)
        requires
            self@.wf(),
        ensures
            is_roster(roster@, self@.agents),
    {
        let walk = table_walk(&self.agents);
        let mut roster: Vec<Player> = Vec::new();
        let mut i: usize = 0;
        while i < walk.len()
            invariant
                0 <= i <= walk@.len(),
                self@.wf(),
                is_walk(walk@, self@.agents),
                roster@.len() == i,
                forall|m: int| 0 <= m < i ==> #[trigger] roster@[m] == walk@[m].1,
            decreases walk@.len() - i,
        {
            roster.push(walk[i].1);
            i = i + 1;
        }
        proof {
            let agents = self@.agents;
            assert forall|id: usize| #[trigger] agents.contains_key(id) implies exists|m: int|
                0 <= m < roster@.len() && (#[trigger] roster@[m]).id == id by {
                let m = choose|m: int| 0 <= m < walk@.len() && (#[trigger] walk@[m]).0 == id;
                assert(roster@[m].id == id);
            }
        }
        roster
    }
}

impl Environment<Action, Player> for TagEnvironment {
    open spec fn ready(&self) -> bool {
        self@.wf()
    }

    open spec fn accepts(&self, agent: usize, action: Action) -> bool {
        self@.admits(agent, action)
    }

    open spec fn accepts_all(&self, actions: Seq<Action>) -> bool {
        self@.admits_all(actions, actions.len() as int)
    }

    /// Sets the field up anew under `params`: as many agents as it asks
    /// for, each at a place drawn from the field, and as many of them "it".
    /// A configuration with a fault is turned down before anything changes.
    fn reset(&mut self, params: TagParams, rng: &mut StdRng) -> (r: Result<(), ConfigError>)
        ensures
            r == params.spec_validate(),
            r is Err ==> final(self)@ == old(self)@,
            r is Ok ==> final(self)@.freshly_set(params),
    {
        match params.validate() {
            Err(fault) => {
                return Err(fault);
            },
            Ok(_) => {},
        }
        self.show_numbers = params.numbered;
        self.width = params.width;
        self.height = params.height;
        table_clear(&mut self.agents);
        self.it.clear();
        let n: usize = params.num_players;
        let mut id: usize = 0;
        while id < n
            invariant
                params.valid(),
                n == params.num_players,
                id <= n,
                self@.wf(),
                self@.dense(id as int),
                self@.agents.dom().len() == id,
                self@.it == Set::<usize>::empty(),
                self@.width == params.width,
                self@.height == params.height,
                self@.show_numbers == params.numbered,
                forall|k: usize| #[trigger]
                    self@.agents.contains_key(k) ==> self@.agents[k].spawned(k, params),
            decreases n - id,
        {
            let agent = Player::create(id, params, rng);
            self.add_agent(agent);
            id = id + 1;
        }
        self.pick_it(params, rng);
        Ok(())
    }

    /// Files an agent under its id, in place of the one that was there, and
    /// brings the set of those that are "it" in line with its mark.
    fn add_agent(&mut self, agent: Player)
        ensures
            final(self)@.wf(),
            final(self)@.agents == old(self)@.agents.insert(agent.id, agent),
            final(self)@.it == (if agent.is_it {
                old(self)@.it.insert(agent.id)
            } else {
                old(self)@.it.remove(agent.id)
            }),
            final(self)@.width == old(self)@.width,
            final(self)@.height == old(self)@.height,
            final(self)@.show_numbers == old(self)@.show_numbers,
            final(self)@.agents.dom().len() == old(self)@.agents.dom().len() + (if old(self)@.agents.contains_key(
                agent.id,
            ) {
                0int
            } else {
                1int
            }),
    {
        let _ = table_insert(&mut self.agents, agent.id, agent);
        if agent.is_it {
            self.it.insert(agent.id);
        } else {
            self.it.remove(&agent.id);
        }
        proof {
            let before = old(self)@;
            let after = self@;
            assert forall|id: usize| #[trigger]
                after.it.contains(id) <==> after.agents.contains_key(id) && after.agents[id].is_it by {
                if id != agent.id {
                    assert(before.it.contains(id) <==> before.agents.contains_key(id)
                        && before.agents[id].is_it);
                }
            }
        }
    }

    /// Applies one action of the agent `agent`.
    fn step(&mut self, agent: usize, action: &Action)
        ensures
            final(self)@ == old(self)@.step(agent, *action),
            final(self)@.wf(),
    {
        proof {
            lemma_step_wf(self@, agent, *action);
        }
        match action {
            Action::Tag(other) => {
                if self.it.insert(*other) {
                    let mut actor = table_get(&self.agents, agent).unwrap();
                    actor.untag();
                    let _ = table_insert(&mut self.agents, agent, actor);
                    let mut target = table_get(&self.agents, *other).unwrap();
                    target.tag(agent);
                    let _ = table_insert(&mut self.agents, *other, target);
                    if agent != *other {
                        self.it.remove(&agent);
                    }
                    assert(self@.it =~= old(self)@.step(agent, *action).it);
                } else {
                    assert(self@.it =~= old(self)@.it);
                }
            },
            Action::Move(position) => {
                let mut actor = table_get(&self.agents, agent).unwrap();
                actor.update(position);
                let _ = table_insert(&mut self.agents, agent, actor);
            },
        }
    }

    /// Applies the actions one after the other, in ascending order of the
    /// agents' ids: the action at each index is that of the agent with that
    /// id. Of two tags of one target, the one of the lower id is applied
    /// first.
    fn step_all(&mut self, actions: Vec<Action>)
        ensures
            final(self)@ == old(self)@.run(actions@, actions@.len() as int),
            final(self)@.wf(),
    {
        let mut index: usize = 0;
        while index < actions.len()
            invariant
                0 <= index <= actions@.len(),
                old(self)@.wf(),
                old(self)@.admits_all(actions@, actions@.len() as int),
                self@ == old(self)@.run(actions@, index as int),
                self@.wf(),
            decreases actions@.len() - index,
        {
            proof {
                lemma_run_wf(old(self)@, actions@, index as int);
            }
            self.step(index, &actions[index]);
            index = index + 1;
        }
    }
}

} // verus!
