use ant_colony::ant::{Ant, CONST_STEP, MIN_VELOCITY, RANDOM_CHANCE};
use ant_colony::geom::{ONE, TWO_PI_FP};
use rand::Rng;
use rand::SeedableRng;

// 1.5 and 2.5 units, and a 45-by-45-unit arena, in Q16.16.
const X0: i64 = 98304;
const Y0: i64 = 163840;
const ARENA: i64 = 45 * ONE;

#[test]
fn constructor_x() {
    let a = Ant::new(X0, Y0, ARENA, ARENA, 45);
    assert_eq!(a.get_x(), X0);
}

#[test]
fn constructor_y() {
    let a = Ant::new(X0, Y0, ARENA, ARENA, 45);
    assert_eq!(a.get_y(), Y0);
}

#[test]
fn constructor_heading() {
    let a = Ant::new(X0, Y0, ARENA, ARENA, 45);
    let h = a.get_heading();
    assert!(0 <= h && h < TWO_PI_FP);
}

#[test]
fn constructor_initilize_without_food() {
    let a = Ant::new(X0, Y0, ARENA, ARENA, 45);
    assert_eq!(a.is_carry_food(), false);
}

#[test]
fn constructor_velocity_in_band() {
    for seed in 0..16u64 {
        let a = Ant::new(X0, Y0, ARENA, ARENA, seed);
        let v = a.get_velocity();
        assert!(MIN_VELOCITY <= v && v < MIN_VELOCITY + ONE);
    }
}

#[test]
fn seeds_draw_different_headings() {
    let a = Ant::new(X0, Y0, ARENA, ARENA, 1);
    let b = Ant::new(X0, Y0, ARENA, ARENA, 2);
    assert_ne!(a.get_heading(), b.get_heading());
}

#[test]
fn blind_steps_stay_inside_arena() {
    let mut a = Ant::new(0, 0, ARENA, ARENA, 9);
    for _ in 0..500 {
        a.do_blind_step();
        let x = a.get_x();
        let y = a.get_y();
        assert!(0 <= x && x <= ARENA - ONE);
        assert!(0 <= y && y <= ARENA - ONE);
        let h = a.get_heading();
        assert!(0 <= h && h < TWO_PI_FP);
    }
}

#[test]
fn heading_gate_opens_at_counter_zero() {
    let mut a = Ant::new(20 * ONE, 20 * ONE, ARENA, ARENA, 3);
    let h0 = a.get_heading();
    let target: i64 = if h0 == 12345 { 23456 } else { 12345 };
    let x0 = a.get_x();
    let y0 = a.get_y();
    // Fresh agent: counter is 0, so a differing target is adopted with no move.
    a.step_heading(target);
    assert_eq!(a.get_heading(), target);
    assert_eq!(a.get_x(), x0);
    assert_eq!(a.get_y(), y0);
    // Same target again: no heading difference, so the agent steps blindly.
    a.step_heading(target);
    assert!(a.get_x() != x0 || a.get_y() != y0);
}

#[test]
fn heading_gate_closed_until_interval() {
    let mut a = Ant::new(20 * ONE, 20 * ONE, ARENA, ARENA, 4);
    let h0 = a.get_heading();
    let target: i64 = if h0 == 12345 { 23456 } else { 12345 };
    a.step_heading(target);
    assert_eq!(a.get_heading(), target);
    // One blind step raises the counter to 1: re-orienting is blocked now.
    a.do_blind_step();
    let target2: i64 = if a.get_heading() == 333 { 444 } else { 333 };
    let x1 = a.get_x();
    let y1 = a.get_y();
    a.step_heading(target2);
    // The agent moved instead of turning to the target.
    assert!(a.get_x() != x1 || a.get_y() != y1);
    // After the full gate interval of steps, the counter is back at 0.
    let mut b = Ant::new(20 * ONE, 20 * ONE, ARENA, ARENA, 5);
    for _ in 0..CONST_STEP {
        b.do_blind_step();
    }
    let target3: i64 = if b.get_heading() == 777 { 888 } else { 777 };
    let bx = b.get_x();
    let by = b.get_y();
    b.step_heading(target3);
    assert_eq!(b.get_heading(), target3);
    assert_eq!(b.get_x(), bx);
    assert_eq!(b.get_y(), by);
}

#[test]
fn set_carry_food_resets_gate() {
    let mut a = Ant::new(20 * ONE, 20 * ONE, ARENA, ARENA, 6);
    a.do_blind_step();
    a.set_carry_food(true);
    assert!(a.is_carry_food());
    // The reset counter permits re-orienting at once.
    let target: i64 = if a.get_heading() == 1000 { 2000 } else { 1000 };
    a.step_heading(target);
    assert_eq!(a.get_heading(), target);
    a.set_carry_food(false);
    assert!(!a.is_carry_food());
}

#[test]
fn blind_step_matches_trig() {
    // Replays the agent's own generator stream and recomputes the step with
    // the trigonometry crate directly; fails if the trig calls were not the
    // real cosine and sine of the heading.
    let seed: u64 = 7;
    let w: i64 = 1000 * ONE;
    let mut a = Ant::new(500 * ONE, 400 * ONE, w, w, seed);
    let h0 = a.get_heading();
    let v = a.get_velocity();
    let mut rng = rand::rngs::StdRng::seed_from_u64(seed);
    let hd: u64 = rng.gen_range(0..TWO_PI_FP as u64);
    let vd: u64 = rng.gen_range(0..ONE as u64);
    assert_eq!(hd as i64, h0);
    assert_eq!(vd as i64 + MIN_VELOCITY, v);
    let r1: u64 = rng.gen_range(0..ONE as u64);
    let mut h = h0;
    if (r1 as i64) < RANDOM_CHANCE {
        let r2: u64 = rng.gen_range(0..ONE as u64);
        h = h + r2 as i64;
        if h >= TWO_PI_FP {
            h -= TWO_PI_FP;
        }
    }
    let scale = |c: i64, v: i64| -> i64 {
        if c >= 0 {
            ((c as u64 * v as u64) / ONE as u64) as i64
        } else {
            -((((-c) as u64) * v as u64 / ONE as u64) as i64)
        }
    };
    let c = cordic::cos(fixed::types::I48F16::from_bits(h)).to_bits();
    let ex = 500 * ONE + scale(c, v);
    let s = cordic::sin(fixed::types::I48F16::from_bits(h)).to_bits();
    let ey = 400 * ONE + scale(s, v);
    a.do_blind_step();
    assert_eq!(a.get_x(), ex);
    assert_eq!(a.get_y(), ey);
}
