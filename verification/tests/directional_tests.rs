use rand::rngs::StdRng;
use rand::SeedableRng;
use tag_simulator::action::Action::{Move, Tag};
use tag_simulator::agents::agent::{Agent, Player};
use tag_simulator::agents::basic_directional::{nearest, wanted, DirectionalAgent, Quest};
use tag_simulator::chance::{Chance, Compass, Wander};
use tag_simulator::environment::Environment;
use tag_simulator::geometry::{Point, UNIT};
use tag_simulator::parameters::default_params;
use tag_simulator::tag_environment::TagEnvironment;

fn chance(hit: bool) -> Chance {
    Chance { wander: Wander { x: 1000, y: 0 }, hit, jitter_x: 1, jitter_y: 1 }
}

fn player(id: usize, is_it: bool, x: i32, y: i32, speed: u32, reach: u32) -> Player {
    Player { id, is_it, last_tagged: id, position: Point { x, y }, speed, reach }
}

fn base_env() -> TagEnvironment {
    let mut env = TagEnvironment::new(2 * UNIT, 2 * UNIT, false);
    env.add_agent(player(0, false, 0, 0, 2000, 2000));
    env.add_agent(player(1, true, 500, 500, 2000, 2000));
    env
}

#[test]
fn tag_zero() {
    let env = base_env();
    let agent = DirectionalAgent { player: env.agent(1).unwrap() };
    let compass = Compass { headings: vec![Point { x: 1000, y: 0 }] };
    let mut rng = StdRng::seed_from_u64(1);
    let mut passed = false;
    for _ in 0..10 {
        let action = agent.act(&env, &Chance::draw(&mut rng, &compass));
        if action.eq(&Tag(0)) {
            passed = true;
            break;
        }
    }
    assert!(passed);
}

#[test]
fn a_tag_that_misses_becomes_a_random_move() {
    let env = base_env();
    let agent = DirectionalAgent { player: env.agent(1).unwrap() };
    assert_eq!(agent.act(&env, &chance(true)), Tag(0));
    assert_eq!(agent.act(&env, &chance(false)), Move(Point { x: 2000, y: 500 }));
    let other = player(7, false, 0, 0, 1, 1);
    assert_eq!(agent.tag(other, 2000, 2000, &chance(true)), Tag(7));
    assert_eq!(agent.tag(other, 2000, 2000, &chance(false)), Move(Point { x: 2000, y: 500 }));
}

#[test]
fn the_chaser_catches_the_first_in_reach_not_the_nearest() {
    let me = DirectionalAgent { player: player(0, true, 0, 0, 1000, 2000) };
    let roster = vec![
        me.player,
        player(1, false, 9000, 0, 1, 1),
        player(2, false, 1500, 0, 1, 1),
        player(3, false, 100, 0, 1, 1),
    ];
    assert_eq!(me.decide(&roster, 10_000, 10_000, &chance(true)), Tag(2));
}

#[test]
fn the_chaser_steps_towards_the_nearest_it_goes_for() {
    let me = DirectionalAgent { player: player(0, true, 5000, 5000, 1000, 100) };
    let roster = vec![
        player(1, true, 5000, 5200, 1, 1),
        Player { last_tagged: 0, ..player(2, false, 5000, 5300, 1, 1) },
        me.player,
        player(3, false, 8000, 9000, 1, 1),
        player(4, false, 2000, 1000, 1, 1),
        player(5, false, 5000, 9000, 1, 1),
    ];
    assert_eq!(nearest(&me.player, &roster, Quest::Chase), Some(5));
    assert_eq!(me.decide(&roster, 10_000, 10_000, &chance(true)), Move(Point { x: 5000, y: 5999 }));
    let tie = vec![me.player, player(3, false, 8000, 9000, 1, 1), player(4, false, 2000, 1000, 1, 1)];
    assert_eq!(nearest(&me.player, &tie, Quest::Chase), Some(1));
    assert_eq!(me.decide(&tie, 10_000, 10_000, &chance(true)), Move(Point { x: 5600, y: 5800 }));
}

#[test]
fn with_nobody_to_go_for_the_chaser_heads_for_the_head_of_the_roster() {
    let me = DirectionalAgent { player: player(0, true, 5000, 5000, 1000, 100) };
    let roster = vec![player(1, true, 8000, 9000, 1, 1), me.player];
    assert_eq!(nearest(&me.player, &roster, Quest::Chase), None);
    assert_eq!(me.decide(&roster, 10_000, 10_000, &chance(true)), Move(Point { x: 5600, y: 5800 }));
    assert_eq!(me.decide(&Vec::new(), 10_000, 10_000, &chance(true)), Move(Point { x: 6000, y: 5000 }));
}

#[test]
fn the_one_that_flees_steps_away_from_the_nearest_pursuer() {
    let me = DirectionalAgent { player: player(0, false, 5000, 5000, 1000, 100) };
    let roster = vec![
        player(1, false, 5000, 5100, 1, 1),
        player(2, true, 2000, 1000, 1, 1),
        Player { last_tagged: 0, ..player(3, true, 5000, 5001, 1, 1) },
        player(4, true, 8000, 9000, 1, 1),
        me.player,
    ];
    assert_eq!(nearest(&me.player, &roster, Quest::Flee), Some(1));
    assert_eq!(me.decide(&roster, 10_000, 10_000, &chance(true)), Move(Point { x: 5600, y: 5800 }));
    let calm = vec![me.player, player(1, false, 5000, 5100, 1, 1)];
    assert_eq!(me.decide(&calm, 10_000, 10_000, &chance(true)), Move(Point { x: 6000, y: 5000 }));
}

#[test]
fn what_an_agent_looks_for() {
    let me = player(0, true, 0, 0, 1, 1);
    assert!(wanted(&me, Quest::Chase, player(1, false, 0, 0, 1, 1)));
    assert!(!wanted(&me, Quest::Chase, player(1, true, 0, 0, 1, 1)));
    assert!(!wanted(&me, Quest::Chase, player(0, false, 0, 0, 1, 1)));
    assert!(!wanted(&me, Quest::Chase, Player { last_tagged: 0, ..player(1, false, 0, 0, 1, 1) }));
    assert!(wanted(&me, Quest::Flee, player(1, true, 0, 0, 1, 1)));
    assert!(!wanted(&me, Quest::Flee, player(1, false, 0, 0, 1, 1)));
    assert!(!wanted(&me, Quest::Flee, Player { last_tagged: 0, ..player(1, true, 0, 0, 1, 1) }));
    assert!(me.can_tag(player(1, false, 0, 0, 1, 1)));
    assert!(!me.can_tag(player(0, false, 0, 0, 1, 1)));
}

#[test]
fn a_directional_agent_wraps_a_player() {
    let params = default_params();
    let mut rng = StdRng::seed_from_u64(5);
    let mut agent = DirectionalAgent::create(3, params, &mut rng);
    assert_eq!(agent.player().id, 3);
    assert!(0 <= agent.player.position.x && agent.player.position.x < params.width);
    Agent::tag(&mut agent, 8);
    assert!(agent.player.is_it);
    assert_eq!(agent.player.last_tagged, 8);
    agent.untag();
    assert!(!agent.player.is_it);
    assert_eq!(agent.player.last_tagged, 8);
    agent.update(&Point { x: 1, y: 2 });
    assert_eq!(agent.player().position, Point { x: 1, y: 2 });
}
