use ant_colony::ant::Ant;
use ant_colony::env::{find_food_within, Env, RADIUS, TTL};
use ant_colony::geom::{Pt, ONE, PI_FP};

fn pt(x: i64, y: i64) -> Pt {
    Pt { x, y }
}

#[test]
fn pickup_at_exact_radius_boundary() {
    // A food point at distance exactly the search radius is within reach;
    // one a single fixed-point step farther is not.
    let loc = pt(0, 0);
    let at_radius = vec![pt(RADIUS, 0)];
    assert_eq!(find_food_within(&at_radius, loc, RADIUS), Some(0));
    let just_outside = vec![pt(RADIUS + 1, 0)];
    assert_eq!(find_food_within(&just_outside, loc, RADIUS), None);
}

#[test]
fn find_food_takes_first_match() {
    let loc = pt(0, 0);
    let food = vec![pt(40 * ONE, 0), pt(3 * ONE, 0), pt(2 * ONE, 0)];
    assert_eq!(find_food_within(&food, loc, RADIUS), Some(1));
}

#[test]
fn environment_accessors() {
    let ants = vec![Ant::new(ONE, ONE, 50 * ONE, 50 * ONE, 1)];
    let food = vec![pt(30 * ONE, 30 * ONE)];
    let env = Env::new(ants, food, pt(40 * ONE, 40 * ONE), 50, 50, true);
    assert_eq!(env.get_ants().len(), 1);
    assert_eq!(env.get_food().len(), 1);
    assert_eq!(env.get_home().x, 40 * ONE);
    assert_eq!(env.get_home().y, 40 * ONE);
    assert_eq!(env.max_ttl, TTL);
}

#[test]
fn scenario_pickup_then_turn_home() {
    // One agent at the origin, food right under it, home at (40, 40): after
    // the first tick the agent carries the food and the food list is empty;
    // at its next permitted re-orientation its heading is the bearing toward
    // home, a quarter turn (the counter was reset by the pickup, so that
    // happens on the very next tick).
    let ants = vec![Ant::new(0, 0, 50 * ONE, 50 * ONE, 11)];
    let food = vec![pt(0, 0)];
    let home = pt(40 * ONE, 40 * ONE);
    let mut env = Env::new(ants, food, home, 50, 50, true);
    env.do_step();
    assert_eq!(env.get_food().len(), 0);
    assert!(env.get_ants()[0].is_carry_food());
    env.do_step();
    let h = env.get_ants()[0].get_heading();
    let quarter_turn = PI_FP / 4;
    assert!((h - quarter_turn).abs() < 200, "heading {} not near {}", h, quarter_turn);
    // The trail sign it left points the opposite way, back toward the food.
    let signs = env.food_signs.query_window(pt(0, 0), 3);
    assert_eq!(signs.len(), 1);
    assert_eq!(signs[0].ttl, TTL - 1);
}

#[test]
fn stop_on_pickup_ends_tick_early() {
    // Two agents, each with food in reach. With the early-exit policy only
    // the first pickup happens in the tick; without it both do.
    let seeds = [21u64, 22u64];
    let build = |stop: bool| -> Env {
        let ants = vec![
            Ant::new(5 * ONE, 5 * ONE, 60 * ONE, 60 * ONE, seeds[0]),
            Ant::new(40 * ONE, 40 * ONE, 60 * ONE, 60 * ONE, seeds[1]),
        ];
        let food = vec![pt(5 * ONE, 5 * ONE), pt(40 * ONE, 40 * ONE)];
        Env::new(ants, food, pt(55 * ONE, 55 * ONE), 60, 60, stop)
    };
    let mut early = build(true);
    early.do_step();
    assert_eq!(early.get_food().len(), 1);
    assert!(early.get_ants()[0].is_carry_food());
    assert!(!early.get_ants()[1].is_carry_food());
    let mut full = build(false);
    full.do_step();
    assert_eq!(full.get_food().len(), 0);
    assert!(full.get_ants()[0].is_carry_food());
    assert!(full.get_ants()[1].is_carry_food());
}

#[test]
fn delivery_at_home_drops_food_flag() {
    // An agent already at home with food in hand delivers it: the flag is
    // cleared during the next tick, right after it leaves its sign.
    let home = pt(10 * ONE, 10 * ONE);
    let ants = vec![Ant::new(10 * ONE, 10 * ONE, 50 * ONE, 50 * ONE, 31)];
    let food = vec![pt(10 * ONE, 10 * ONE)];
    let mut env = Env::new(ants, food, home, 50, 50, true);
    env.do_step();
    assert!(env.get_ants()[0].is_carry_food());
    env.do_step();
    assert!(!env.get_ants()[0].is_carry_food());
    let signs = env.food_signs.query_window(home, 2);
    assert_eq!(signs.len(), 1);
}

#[test]
fn signs_decay_every_tick() {
    // With no agents at all, a tick only ages the grid.
    let mut env = Env::new(Vec::new(), Vec::new(), pt(ONE, ONE), 20, 20, true);
    env.food_signs.deposit(ant_colony::grid::Sign {
        location: pt(3 * ONE, 3 * ONE),
        heading: 5,
        ttl: 2,
    });
    env.do_step();
    let once = env.food_signs.query_window(pt(3 * ONE, 3 * ONE), 2);
    assert_eq!(once.len(), 1);
    assert_eq!(once[0].ttl, 1);
    env.do_step();
    assert_eq!(env.food_signs.query_window(pt(3 * ONE, 3 * ONE), 2).len(), 0);
}
