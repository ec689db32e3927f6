//! The simulation: a configuration, the field, and the ticks that drive it.
//!
//! A tick has two phases. In the first every agent decides on one action
//! from the field as it stands; in the second the actions are applied, one
//! after the other, in ascending order of the agents' ids.

use crate::action::Action;
use crate::agents::agent::{stays_on_field, Agent, Player};
use crate::agents::basic_directional::DirectionalAgent;
use crate::chance::{Chance, Compass};
use crate::geometry::Point;
use crate::environment::Environment;
use crate::parameters::{AgentType, ConfigError, TagParams};
use crate::tag_environment::{
    is_roster, lemma_run_in_bounds, lemma_run_wf, EnvView, TagEnvironment,
};
use rand::rngs::StdRng;
use std::time::Instant;
use vstd::prelude::*;

verus! {

/// `std::time::Instant`, carried as it is: nothing is known of the moment.
#[verifier::external_type_specification]
#[verifier::external_body]
pub struct ExInstant(Instant);

/// What the surroundings of a simulation may ask of it.
#[derive(Debug, Clone, Copy)]
pub enum Message {
    /// The clock has struck, at the given instant.
    Tick(Instant),
    /// Run if halted, halt if running.
    TogglePlayback,
    /// Advance by one tick.
    Next,
    /// Set the field up anew.
    Reset,
}

/// A game of tag in progress.
pub struct Simulation {
    pub(crate) parameters: TagParams,
    pub(crate) environment: TagEnvironment,
    pub(crate) is_running: bool,
    pub(crate) rng: StdRng,
    pub(crate) compass: Compass,
}

/// What a [`Simulation`] holds, as mathematics.
pub struct SimView {
    /// The configuration that the field was set up under.
    pub parameters: TagParams,
    /// The field.
    pub env: EnvView,
    /// Whether the simulation is meant to go on by itself.
    pub is_running: bool,
    /// The directions that a random move may take.
    pub headings: Seq<Point>,
}

/// What an agent in state `me` decides under the policy `kind`.
pub open spec fn spec_policy(
    kind: AgentType,
    me: Player,
    roster: Seq<Player>,
    max_width: int,
    max_height: int,
    chance: Chance,
) -> Action {
    match kind {
        AgentType::Default => me.spec_decide(roster, max_width, max_height, chance),
        AgentType::BasicDirectional => DirectionalAgent::spec_decide(
            me,
            roster,
            max_width,
            max_height,
            chance,
        ),
    }
}

/// Whether `action` is what the agent `id` decides on the field `env` under
/// the policy `kind`, for `chance` and for some order in which the agents
/// are read.
pub open spec fn is_decision(env: EnvView, kind: AgentType, id: int, chance: Chance, action: Action) -> bool {
    exists|roster: Seq<Player>|
        is_roster(roster, env.agents) && action == #[trigger] spec_policy(
            kind,
            env.agents[id as usize],
            roster,
            env.width,
            env.height,
            chance,
        )
}

/// Whether `actions` holds, for each agent in the order of the ids, what it
/// decides on the field `env` for its share of `chances`.
pub open spec fn is_turn(env: EnvView, kind: AgentType, chances: Seq<Chance>, actions: Seq<Action>) -> bool {
    &&& actions.len() == chances.len()
    &&& forall|i: int|
        0 <= i < actions.len() ==> is_decision(env, kind, i, chances[i], #[trigger] actions[i])
}

/// Whether each of `chances` can be drawn with the given headings.
pub open spec fn all_drawn_from(chances: Seq<Chance>, headings: Seq<Point>) -> bool {
    forall|i: int| 0 <= i < chances.len() ==> (#[trigger] chances[i]).drawn_from(headings)
}

/// Whether one tick under the policy `kind` can lead from `before` to
/// `after`: every agent of `before` decides on it, for what it draws with
/// the given headings, and the actions, applied in ascending order of the
/// ids, give `after`.
pub open spec fn is_tick(kind: AgentType, headings: Seq<Point>, before: EnvView, after: EnvView) -> bool {
    exists|chances: Seq<Chance>, actions: Seq<Action>|
        #![trigger is_turn(before, kind, chances, actions)]
        {
            &&& chances.len() == before.agents.dom().len()
            &&& all_drawn_from(chances, headings)
            &&& is_turn(before, kind, chances, actions)
            &&& after == before.run(actions, actions.len() as int)
        }
}

/// Whether `trail` holds the states of a run of ticks under the policy
/// `kind`, from `first` to `last`, each state one tick after the one before.
pub open spec fn is_trail(
    kind: AgentType,
    headings: Seq<Point>,
    first: EnvView,
    last: EnvView,
    trail: Seq<EnvView>,
) -> bool {
    &&& trail.len() > 0
    &&& trail[0] == first
    &&& trail[trail.len() - 1] == last
    &&& forall|i: int|
        0 <= i < trail.len() - 1 ==> is_tick(kind, headings, #[trigger] trail[i], trail[i + 1])
}

/// Whether `n` ticks under the policy `kind` can lead from `first` to `last`.
pub open spec fn ticks_apart(kind: AgentType, headings: Seq<Point>, first: EnvView, last: EnvView, n: nat) -> bool {
    exists|trail: Seq<EnvView>|
        trail.len() == n + 1 && #[trigger] is_trail(kind, headings, first, last, trail)
}

impl SimView {
    /// The configuration is sound, and the field is consistent, holds the
    /// agents that the configuration asks for, each of them on the field.
    pub open spec fn wf(self) -> bool {
        &&& self.parameters.valid()
        &&& self.env.wf()
        &&& self.env.in_bounds()
        &&& self.env.dense(self.parameters.num_players as int)
        &&& self.env.agents.dom().len() == self.parameters.num_players
        &&& self.env.width == self.parameters.width
        &&& self.env.height == self.parameters.height
    }
}

impl View for Simulation {
    type V = SimView;

    closed spec fn view(&self) -> SimView {
        SimView {
            parameters: self.parameters,
            env: self.environment@,
            is_running: self.is_running,
            headings: self.compass.headings@,
        }
    }
}

impl Simulation {
    /// A simulation set up under `parameters`, halted. The generator gives
    /// every random draw from here on; the compass gives the directions of
    /// random moves. A configuration with a fault is turned down.
    pub fn new(parameters: TagParams, rng: StdRng, compass: Compass) -> (r: Result<Simulation, ConfigError>)
        ensures
            match r {
                Ok(sim) => {
                    &&& parameters.spec_validate() is Ok
                    &&& sim@.wf()
                    &&& sim@.parameters == parameters
                    &&& sim@.env.freshly_set(parameters)
                    &&& sim@.headings == compass.headings@
                    &&& !sim@.is_running
                },
                Err(fault) => parameters.spec_validate() == Err::<(), ConfigError>(fault),
            },
    {
        let mut rng = rng;
        let mut environment = TagEnvironment::new(parameters.width, parameters.height, parameters.numbered);
        match environment.reset(parameters, &mut rng) {
            Err(fault) => Err(fault),
            Ok(_) => Ok(Simulation { parameters, environment, is_running: false, rng, compass }),
        }
    }

    /// The configuration that the field was set up under.
    pub fn parameters(&self) -> (p: TagParams)
        ensures
            p == self@.parameters,
    {
        self.parameters
    }

    /// The field.
    pub fn environment(&self) -> (env: &TagEnvironment)
        ensures
            env@ == self@.env,
    {
        &self.environment
    }

    /// Whether the simulation is meant to go on by itself.
    pub fn is_running(&self) -> (b: bool)
        ensures
            b == self@.is_running,
    {
        self.is_running
    }

    /// Halts the simulation. The field stays as it is.
    pub fn stop(&mut self)
        ensures
            final(self)@ == (SimView { is_running: false, ..old(self)@ }),
    {
        self.is_running = false;
    }

    /// Draws, for each agent, what its next decision may consume of chance.
    pub fn draw_chances(&mut self) -> (chances: Vec<Chance>)
        ensures
            final(self)@ == old(self)@,
            chances@.len() == old(self)@.parameters.num_players,
            all_drawn_from(chances@, old(self)@.headings),
    {
        let n: usize = self.parameters.num_players;
        let mut chances: Vec<Chance> = Vec::new();
        let mut i: usize = 0;
        while i < n
            invariant
                i <= n,
                n == self@.parameters.num_players,
                self@ == old(self)@,
                chances@.len() == i,
                all_drawn_from(chances@, self@.headings),
            decreases n - i,
        {
            let chance = Chance::draw(&mut self.rng, &self.compass);
            chances.push(chance);
            i = i + 1;
        }
        chances
    }

    /// The first phase of a tick: every agent, in the order of the ids,
    /// decides on one action from the field as it stands. Nothing changes.
    pub fn decide_all(&self, chances: &Vec<Chance>) -> (actions: Vec<Action>)
        requires
            self@.wf(),
            chances@.len() == self@.parameters.num_players,
            forall|i: int| 0 <= i < chances@.len() ==> (#[trigger] chances@[i]).wf(),
        ensures
            is_turn(self@.env, self@.parameters.agent_type, chances@, actions@),
            self@.env.admits_all(actions@, actions@.len() as int),
            forall|i: int|
                0 <= i < actions@.len() ==> stays_on_field(
                    #[trigger] actions@[i],
                    self@.env.width,
                    self@.env.height,
                ),
    {
        let n: usize = self.parameters.num_players;
        let kind = self.parameters.agent_type;
        let mut actions: Vec<Action> = Vec::new();
        let mut id: usize = 0;
        while id < n
            invariant
                id <= n,
                n == self@.parameters.num_players,
                kind == self@.parameters.agent_type,
                self@.wf(),
                chances@.len() == n,
                forall|i: int| 0 <= i < chances@.len() ==> (#[trigger] chances@[i]).wf(),
                actions@.len() == id,
                forall|i: int|
                    0 <= i < id ==> is_decision(self@.env, kind, i, chances@[i], #[trigger] actions@[i]),
                self@.env.admits_all(actions@, id as int),
                forall|i: int|
                    0 <= i < id ==> stays_on_field(
                        #[trigger] actions@[i],
                        self@.env.width,
                        self@.env.height,
                    ),
            decreases n - id,
        {
            let me: Player = self.environment.agent(id).unwrap();
            let action = match kind {
                AgentType::Default => {
                    let action = me.act(&self.environment, &chances[id]);
                    proof {
                        let roster = choose|roster: Seq<Player>|
                            is_roster(roster, self@.env.agents) && action == #[trigger] me.policy(
                                roster,
                                self@.env.width,
                                self@.env.height,
                                chances@[id as int],
                            );
                        assert(action == spec_policy(
                            kind,
                            self@.env.agents[id],
                            roster,
                            self@.env.width,
                            self@.env.height,
                            chances@[id as int],
                        ));
                    }
                    action
                },
                AgentType::BasicDirectional => {
                    let agent = DirectionalAgent { player: me };
                    let action = agent.act(&self.environment, &chances[id]);
                    proof {
                        let roster = choose|roster: Seq<Player>|
                            is_roster(roster, self@.env.agents) && action == #[trigger] agent.policy(
                                roster,
                                self@.env.width,
                                self@.env.height,
                                chances@[id as int],
                            );
                        assert(action == spec_policy(
                            kind,
                            self@.env.agents[id],
                            roster,
                            self@.env.width,
                            self@.env.height,
                            chances@[id as int],
                        ));
                    }
                    action
                },
            };
            actions.push(action);
            id = id + 1;
        }
        actions
    }

    /// One tick: every agent decides from the field as it stands, then the
    /// actions are applied in ascending order of the ids.
    pub fn step(&mut self)
        requires
            old(self)@.wf(),
        ensures
            final(self)@.wf(),
            final(self)@.parameters == old(self)@.parameters,
            final(self)@.is_running == old(self)@.is_running,
            final(self)@.headings == old(self)@.headings,
            is_tick(
                old(self)@.parameters.agent_type,
                old(self)@.headings,
                old(self)@.env,
                final(self)@.env,
            ),
    {
        let chances = self.draw_chances();
        let actions = self.decide_all(&chances);
        proof {
            lemma_run_wf(self@.env, actions@, actions@.len() as int);
            lemma_run_in_bounds(self@.env, actions@, actions@.len() as int);
        }
        self.environment.step_all(actions);
    }
}

impl Simulation {
    /// Runs the simulation. With a number of ticks it runs that many and
    /// halts. Without one it only marks the simulation as running: the
    /// ticks are then the caller's to give, one `Message::Tick` each, for
    /// as long as it finds the simulation running.
    pub fn run_headless(&mut self, num_steps: Option<u128>)
        requires
            old(self)@.wf(),
        ensures
            final(self)@.wf(),
            final(self)@.parameters == old(self)@.parameters,
            final(self)@.headings == old(self)@.headings,
            final(self)@.is_running == (num_steps is None),
            num_steps is None ==> final(self)@.env == old(self)@.env,
            num_steps matches Some(n) ==> ticks_apart(
                old(self)@.parameters.agent_type,
                old(self)@.headings,
                old(self)@.env,
                final(self)@.env,
                n as nat,
            ),
    {
        self.is_running = true;
        match num_steps {
            None => {},
            Some(steps) => {
                let mut done: u128 = 0;
                let ghost mut trail: Seq<EnvView> = seq![self@.env];
                while done < steps
                    invariant
                        done <= steps,
                        self@.wf(),
                        self@.parameters == old(self)@.parameters,
                        self@.headings == old(self)@.headings,
                        trail.len() == done + 1,
                        is_trail(
                            old(self)@.parameters.agent_type,
                            old(self)@.headings,
                            old(self)@.env,
                            self@.env,
                            trail,
                        ),
                    decreases steps - done,
                {
                    self.step();
                    done = done + 1;
                    proof {
                        trail = trail.push(self@.env);
                    }
                }
                self.is_running = false;
            },
        }
    }

    /// The time from one tick of the clock to the next, in milliseconds,
    /// while the simulation is running: ten for every full fifty agents.
    pub fn tick_millis(&self) -> (interval: Option<u64>)
        ensures
            interval == (if self@.is_running {
                Some(((self@.parameters.num_players / 50) * 10) as u64)
            } else {
                None
            }),
    {
        if self.is_running {
            Some(((self.parameters.num_players / 50) * 10) as u64)
        } else {
            None
        }
    }

    /// Takes one message: a tick of the clock or a request for the next
    /// tick advances the field by one tick, a toggle halts or resumes, and
    /// a reset sets the field up anew under the same configuration.
    pub fn update(&mut self, message: Message)
        requires
            old(self)@.wf(),
        ensures
            final(self)@.wf(),
            final(self)@.parameters == old(self)@.parameters,
            final(self)@.headings == old(self)@.headings,
            match message {
                Message::Tick(_) | Message::Next => {
                    &&& final(self)@.is_running == old(self)@.is_running
                    &&& is_tick(
                        old(self)@.parameters.agent_type,
                        old(self)@.headings,
                        old(self)@.env,
                        final(self)@.env,
                    )
                },
                Message::TogglePlayback => {
                    &&& final(self)@.is_running == !old(self)@.is_running
                    &&& final(self)@.env == old(self)@.env
                },
                Message::Reset => {
                    &&& final(self)@.is_running == old(self)@.is_running
                    &&& final(self)@.env.freshly_set(old(self)@.parameters)
                },
            },
    {
        match message {
            Message::Tick(_) | Message::Next => {
                self.step();
            },
            Message::TogglePlayback => {
                self.is_running = !self.is_running;
            },
            Message::Reset => {
                let _ = self.environment.reset(self.parameters, &mut self.rng);
            },
        }
    }
}

} // verus!
