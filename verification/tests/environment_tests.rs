use rand::rngs::StdRng;
use rand::SeedableRng;
use tag_simulator::action::Action;
use tag_simulator::action::Action::{Move, Tag};
use tag_simulator::agents::agent::{Agent, Player};
use tag_simulator::chance::{Chance, Wander};
use tag_simulator::environment::Environment;
use tag_simulator::geometry::{Point, UNIT};
use tag_simulator::parameters::{default_params, AgentType, ConfigError, TagParams};
use tag_simulator::tag_environment::TagEnvironment;

fn still() -> Chance {
    Chance { wander: Wander { x: 0, y: 0 }, hit: true, jitter_x: 1, jitter_y: 1 }
}

fn player(id: usize, is_it: bool, x: i32, y: i32) -> Player {
    Player { id, is_it, last_tagged: id, position: Point { x, y }, speed: 2000, reach: 2000 }
}

fn base_env() -> TagEnvironment {
    let mut env = TagEnvironment::new(2 * UNIT, 2 * UNIT, false);
    env.add_agent(player(0, true, 0, 0));
    env.add_agent(player(1, false, 500, 500));
    env.add_agent(player(2, false, 1000, 1000));
    env
}

fn marked(env: &TagEnvironment) -> usize {
    env.roster().iter().filter(|agent| agent.is_it).count()
}

#[test]
fn can_setup_env() {
    let mut env = base_env();
    assert_eq!(3, env.agent_count());
    let agent2_dupe = Player {
        id: 2,
        is_it: true,
        last_tagged: 1,
        position: Point { x: 1500, y: 1000 },
        speed: 1000,
        reach: 2000,
    };
    env.add_agent(agent2_dupe);
    assert_eq!(3, env.agent_count());
    assert_eq!(agent2_dupe, env.agent(2).unwrap());
    let mut rng = StdRng::seed_from_u64(2);
    assert_eq!(env.reset(default_params(), &mut rng), Ok(()));
    assert_eq!(default_params().num_players, env.agent_count());
}

#[test]
fn updates_properly() {
    let mut env = base_env();
    let mut actions: Vec<Action> = Vec::with_capacity(env.agent_count());
    for agent in 0..env.agent_count() {
        actions.insert(agent, env.agent(agent).unwrap().act(&env, &still()));
    }
    env.step_all(actions);
    assert_ne!(true, env.agent(0).unwrap().is_it);
}

#[test]
fn multiple_tag_same() {
    let mut env = base_env();
    let act = Tag(2);
    env.step(1, &act);
    assert_eq!(2, env.it_count());
    env.step(0, &act);
    assert_eq!(2, env.it_count());
}

#[test]
fn a_new_field_is_empty() {
    let env = TagEnvironment::new(7, 9, true);
    assert_eq!(env.width(), 7);
    assert_eq!(env.height(), 9);
    assert!(env.show_numbers());
    assert_eq!(env.agent_count(), 0);
    assert_eq!(env.it_count(), 0);
    assert_eq!(env.agent(0), None);
    assert!(env.roster().is_empty());
}

#[test]
fn add_agent_keeps_the_marks_in_step() {
    let mut env = base_env();
    assert_eq!(env.it_count(), 1);
    assert!(env.is_it(0));
    assert!(!env.is_it(1));
    env.add_agent(player(1, true, 0, 0));
    assert!(env.is_it(1));
    assert_eq!(env.it_count(), 2);
    assert_eq!(marked(&env), 2);
    env.add_agent(player(0, false, 0, 0));
    assert!(!env.is_it(0));
    assert_eq!(env.it_count(), 1);
    assert_eq!(marked(&env), 1);
    assert_eq!(env.agent_count(), 3);
    env.add_agent(player(9, false, 0, 0));
    assert_eq!(env.agent_count(), 4);
    assert_eq!(env.agent(9), Some(player(9, false, 0, 0)));
}

#[test]
fn a_tag_hands_the_mark_on() {
    let mut env = base_env();
    env.step(0, &Tag(1));
    assert_eq!(env.agent(0), Some(player(0, false, 0, 0)));
    assert_eq!(env.agent(1), Some(Player { is_it: true, last_tagged: 0, ..player(1, false, 500, 500) }));
    assert_eq!(env.agent(2), Some(player(2, false, 1000, 1000)));
    assert!(!env.is_it(0));
    assert!(env.is_it(1));
    assert_eq!(env.it_count(), 1);
    assert_eq!(marked(&env), 1);
}

#[test]
fn a_tag_of_one_that_is_it_changes_nothing() {
    let mut env = base_env();
    env.step(1, &Tag(0));
    assert_eq!(env.agent(0), Some(player(0, true, 0, 0)));
    assert_eq!(env.agent(1), Some(player(1, false, 500, 500)));
    assert_eq!(env.it_count(), 1);
}

#[test]
fn a_tag_of_oneself_leaves_one_it() {
    let mut env = base_env();
    env.step(1, &Tag(1));
    assert_eq!(env.agent(1), Some(Player { is_it: true, last_tagged: 1, ..player(1, false, 500, 500) }));
    assert!(env.is_it(1));
    assert_eq!(env.it_count(), 2);
    assert_eq!(marked(&env), 2);
}

#[test]
fn a_move_is_taken_as_it_is() {
    let mut env = base_env();
    env.step(2, &Move(Point { x: -40, y: 9_000_000 }));
    assert_eq!(env.agent(2), Some(player(2, false, -40, 9_000_000)));
    assert_eq!(env.agent(1), Some(player(1, false, 500, 500)));
    assert_eq!(env.it_count(), 1);
}

#[test]
fn of_two_tags_of_one_target_the_lower_id_wins() {
    let mut env = base_env();
    env.add_agent(player(1, true, 500, 500));
    let before = env.it_count();
    env.step_all(vec![Tag(2), Tag(2), Move(Point { x: 1, y: 1 })]);
    assert_eq!(env.agent(2), Some(Player { is_it: true, last_tagged: 0, ..player(2, false, 1, 1) }));
    assert!(!env.agent(0).unwrap().is_it);
    assert!(env.agent(1).unwrap().is_it);
    assert_eq!(env.it_count(), before);
    assert_eq!(marked(&env), before);
}

#[test]
fn a_target_that_passes_the_mark_on_can_be_tagged_again() {
    let mut env = base_env();
    env.add_agent(player(3, false, 1500, 1500));
    env.step_all(vec![Tag(1), Tag(3), Tag(1), Move(Point { x: 7, y: 7 })]);
    assert_eq!(env.agent(1), Some(Player { is_it: true, last_tagged: 2, ..player(1, false, 500, 500) }));
    assert_eq!(env.agent(3), Some(Player { is_it: true, last_tagged: 1, ..player(3, false, 7, 7) }));
    assert_eq!(env.it_count(), 2);
    assert_eq!(marked(&env), 2);
}

#[test]
fn actions_are_applied_in_ascending_order_of_the_ids() {
    let mut env = base_env();
    env.step_all(vec![Tag(1), Tag(2), Tag(0)]);
    assert_eq!(env.agent(0), Some(Player { is_it: true, last_tagged: 2, ..player(0, false, 0, 0) }));
    assert_eq!(env.agent(1), Some(Player { is_it: false, last_tagged: 0, ..player(1, false, 500, 500) }));
    assert_eq!(env.agent(2), Some(Player { is_it: false, last_tagged: 1, ..player(2, false, 1000, 1000) }));
    assert_eq!(env.it_count(), 1);
    env.step_all(Vec::new());
    assert_eq!(env.it_count(), 1);
}

#[test]
fn reset_gives_the_agents_and_the_marks_asked_for() {
    let mut env = base_env();
    let params = TagParams {
        speed: 10 * UNIT as u32,
        proximity: 2 * UNIT as u32,
        width: 100 * UNIT,
        height: 50 * UNIT,
        num_players: 40,
        num_it: 7,
        agent_type: AgentType::BasicDirectional,
        numbered: true,
    };
    for seed in 0..20 {
        let mut rng = StdRng::seed_from_u64(seed);
        assert_eq!(env.reset(params, &mut rng), Ok(()));
        assert_eq!(env.agent_count(), 40);
        assert_eq!(env.it_count(), 7);
        assert_eq!(marked(&env), 7);
        assert_eq!(env.width(), 100 * UNIT);
        assert_eq!(env.height(), 50 * UNIT);
        assert!(env.show_numbers());
        for id in 0..40 {
            let agent = env.agent(id).unwrap();
            assert_eq!(agent.id, id);
            assert_eq!(agent.last_tagged, id);
            assert_eq!(agent.is_it, env.is_it(id));
            assert_eq!(agent.speed, params.speed);
            assert_eq!(agent.reach, params.proximity);
            assert!(0 <= agent.position.x && agent.position.x < params.width);
            assert!(0 <= agent.position.y && agent.position.y < params.height);
        }
        assert_eq!(env.agent(40), None);
    }
}

#[test]
fn reset_clears_the_field_first() {
    let mut env = base_env();
    env.add_agent(player(99, true, 0, 0));
    assert_eq!(env.agent_count(), 4);
    let mut rng = StdRng::seed_from_u64(5);
    assert_eq!(env.reset(default_params(), &mut rng), Ok(()));
    assert_eq!(env.agent_count(), 50);
    assert_eq!(env.agent(99), None);
    assert!(!env.is_it(99));
    assert_eq!(env.it_count(), 1);
}

#[test]
fn reset_can_mark_everyone() {
    let mut env = TagEnvironment::new(1, 1, false);
    let params = TagParams { num_players: 6, num_it: 6, ..default_params() };
    let mut rng = StdRng::seed_from_u64(4);
    assert_eq!(env.reset(params, &mut rng), Ok(()));
    assert_eq!(env.it_count(), 6);
    assert_eq!(marked(&env), 6);
}

#[test]
fn reset_turns_a_faulty_configuration_down_and_changes_nothing() {
    let mut env = base_env();
    let mut rng = StdRng::seed_from_u64(4);
    let good = default_params();
    let faults = [
        (TagParams { speed: 0, ..good }, ConfigError::NoSpeed),
        (TagParams { width: 0, ..good }, ConfigError::NoWidth),
        (TagParams { height: -1, ..good }, ConfigError::NoHeight),
        (TagParams { num_players: 0, ..good }, ConfigError::NoPlayers),
        (TagParams { num_it: 0, ..good }, ConfigError::NoIt),
        (TagParams { num_it: 51, ..good }, ConfigError::TooManyIt),
    ];
    for (params, fault) in faults {
        assert_eq!(params.validate(), Err(fault));
        assert_eq!(env.reset(params, &mut rng), Err(fault));
        assert_eq!(env.agent_count(), 3);
        assert_eq!(env.it_count(), 1);
        assert_eq!(env.width(), 2 * UNIT);
        assert_eq!(env.agent(1), Some(player(1, false, 500, 500)));
    }
    assert_eq!(good.validate(), Ok(()));
    assert_eq!(TagParams { proximity: 0, ..good }.validate(), Ok(()));
}

#[test]
fn the_roster_lists_every_agent_once() {
    let env = base_env();
    let mut ids: Vec<usize> = env.roster().iter().map(|agent| agent.id).collect();
    ids.sort();
    assert_eq!(ids, vec![0, 1, 2]);
    for agent in env.roster() {
        assert_eq!(env.agent(agent.id), Some(agent));
    }
}
