use rand::rngs::StdRng;
use std::cmp::Ordering;
use rand::SeedableRng;
use tag_simulator::chance::{draw_index, draw_point, wander_along, Chance, Compass, Wander, TAG_HITS, TAG_TRIES};
use tag_simulator::geometry::{scale, Point, UNIT};
use tag_simulator::ranking::{lowest, rank_order};

fn compass() -> Compass {
    let mut headings = Vec::new();
    for degree in 0..360 {
        let angle = (degree as f64).to_radians();
        headings.push(Point {
            x: (UNIT as f64 * angle.cos()).round() as i32,
            y: (UNIT as f64 * angle.sin()).round() as i32,
        });
    }
    Compass { headings }
}

#[test]
fn draws_stay_in_their_ranges() {
    let mut rng = StdRng::seed_from_u64(9);
    for _ in 0..500 {
        let p = draw_point(&mut rng, 7, 3);
        assert!(0 <= p.x && p.x < 7 && 0 <= p.y && p.y < 3);
        let i = draw_index(&mut rng, 4, 9);
        assert!(4 <= i && i < 9);
    }
    assert_eq!(draw_point(&mut rng, 1, 1), Point { x: 0, y: 0 });
    assert_eq!(draw_index(&mut rng, 6, 7), 6);
}

#[test]
fn draws_reach_every_value_of_the_range() {
    let mut rng = StdRng::seed_from_u64(10);
    let mut seen = [false; 5];
    for _ in 0..500 {
        seen[draw_index(&mut rng, 0, 5)] = true;
    }
    assert_eq!(seen, [true; 5]);
}

#[test]
fn a_chance_is_well_formed() {
    let mut rng = StdRng::seed_from_u64(12);
    let compass = compass();
    let mut hits = 0;
    for _ in 0..2000 {
        let chance = Chance::draw(&mut rng, &compass);
        assert!(0 < chance.jitter_x && chance.jitter_x < UNIT);
        assert!(0 < chance.jitter_y && chance.jitter_y < UNIT);
        let w = chance.wander;
        assert!((w.x as i64) * (w.x as i64) + (w.y as i64) * (w.y as i64) <= 1_002_001);
        if chance.hit {
            hits += 1;
        }
    }
    assert!(1500 < hits && hits < 1700);
    assert_eq!((TAG_HITS, TAG_TRIES), (4, 5));
}

#[test]
fn without_headings_a_random_move_stays() {
    let mut rng = StdRng::seed_from_u64(13);
    let none = Compass { headings: Vec::new() };
    assert_eq!(none.draw_wander(&mut rng), Wander { x: 0, y: 0 });
    assert_eq!(Chance::draw(&mut rng, &none).wander, Wander { x: 0, y: 0 });
}

#[test]
fn a_wander_follows_its_heading() {
    let mut rng = StdRng::seed_from_u64(14);
    let east = Compass { headings: vec![Point { x: 1000, y: 0 }] };
    for _ in 0..200 {
        let w = east.draw_wander(&mut rng);
        assert!(0 <= w.x && w.x <= 1000);
        assert_eq!(w.y, 0);
    }
}

#[test]
fn the_radius_is_the_sum_of_two_draws_folded_back_at_one() {
    let heading = Point { x: 600, y: -800 };
    assert_eq!(wander_along(heading, 0, 0), Wander { x: 0, y: 0 });
    assert_eq!(wander_along(heading, 200, 300), Wander { x: 300, y: -400 });
    assert_eq!(wander_along(heading, 500, 500), Wander { x: 600, y: -800 });
    assert_eq!(wander_along(heading, 600, 900), Wander { x: 300, y: -400 });
    assert_eq!(wander_along(heading, 999, 999), Wander { x: 1, y: -1 });
    assert_eq!(wander_along(Point { x: i32::MIN, y: i32::MAX }, 500, 500), Wander { x: i32::MIN, y: i32::MAX });
}

#[test]
fn scale_rounds_towards_zero() {
    assert_eq!(scale(1999, 500), 999);
    assert_eq!(scale(-1999, 500), -999);
    assert_eq!(scale(0, u32::MAX), 0);
    assert_eq!(scale(1, 999), 0);
    assert_eq!(scale(-1, 999), 0);
    assert_eq!(scale(i32::MIN, u32::MAX), -9223372034707292);
    assert_eq!(scale(i32::MAX, u32::MAX), 9223372030412324);
}

#[test]
fn the_lowest_rank_is_the_nearest_and_then_the_first() {
    assert_eq!(lowest(Vec::new()), None);
    assert_eq!(lowest(vec![(5, 0)]), Some((5, 0)));
    assert_eq!(lowest(vec![(9, 0), (4, 3), (7, 1), (4, 2), (u128::MAX, 4)]), Some((4, 2)));
    assert_eq!(lowest(vec![(4, 3), (4, 2), (4, 9)]), Some((4, 2)));
}

#[test]
fn ranks_are_ordered_by_distance_and_then_by_place() {
    assert_eq!(rank_order(&(1, 9), &(2, 0)), Ordering::Less);
    assert_eq!(rank_order(&(2, 0), &(1, 9)), Ordering::Greater);
    assert_eq!(rank_order(&(2, 0), &(2, 1)), Ordering::Less);
    assert_eq!(rank_order(&(2, 1), &(2, 0)), Ordering::Greater);
    assert_eq!(rank_order(&(2, 1), &(2, 1)), Ordering::Equal);
}
