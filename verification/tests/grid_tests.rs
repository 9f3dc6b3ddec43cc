use ant_colony::geom::{Pt, ONE};
use ant_colony::grid::{Sign, SignGrid};

fn pt(x: i64, y: i64) -> Pt {
    Pt { x, y }
}

#[test]
fn deposit_then_query_round_trip() {
    let mut g = SignGrid::new(50, 50);
    let loc = pt(2 * ONE + ONE / 2, 3 * ONE + ONE / 2);
    g.deposit(Sign { location: loc, heading: 100, ttl: 5 });
    let out = g.query_window(loc, 15);
    assert_eq!(out.len(), 1);
    assert_eq!(out[0].location, loc);
    assert_eq!(out[0].heading, 100);
    assert_eq!(out[0].ttl, 5);
}

#[test]
fn query_window_misses_far_cells() {
    let mut g = SignGrid::new(50, 50);
    g.deposit(Sign { location: pt(40 * ONE, 40 * ONE), heading: 7, ttl: 9 });
    // A window of 15 cells around the origin ends before cell 40.
    let out = g.query_window(pt(0, 0), 15);
    assert_eq!(out.len(), 0);
    // One around the sign's own cell sees it.
    let out2 = g.query_window(pt(39 * ONE, 41 * ONE), 15);
    assert_eq!(out2.len(), 1);
}

#[test]
fn query_window_clips_at_edges() {
    let mut g = SignGrid::new(10, 10);
    g.deposit(Sign { location: pt(9 * ONE, 0), heading: 1, ttl: 2 });
    g.deposit(Sign { location: pt(0, 9 * ONE), heading: 2, ttl: 2 });
    let out = g.query_window(pt(0, 0), 200);
    assert_eq!(out.len(), 2);
}

#[test]
fn sign_decays_for_exactly_its_ttl() {
    // Deposited with ttl = 3: still queryable after each of 2 further decays,
    // gone on the third.
    let mut g = SignGrid::new(20, 20);
    let loc = pt(5 * ONE, 5 * ONE);
    g.deposit(Sign { location: loc, heading: 42, ttl: 3 });
    assert_eq!(g.query_window(loc, 2).len(), 1);
    g.decay_all();
    let a = g.query_window(loc, 2);
    assert_eq!(a.len(), 1);
    assert_eq!(a[0].ttl, 2);
    g.decay_all();
    let b = g.query_window(loc, 2);
    assert_eq!(b.len(), 1);
    assert_eq!(b[0].ttl, 1);
    g.decay_all();
    assert_eq!(g.query_window(loc, 2).len(), 0);
}

#[test]
fn decay_keeps_other_signs_in_order() {
    let mut g = SignGrid::new(20, 20);
    let loc = pt(4 * ONE, 4 * ONE);
    g.deposit(Sign { location: loc, heading: 1, ttl: 1 });
    g.deposit(Sign { location: loc, heading: 2, ttl: 5 });
    g.deposit(Sign { location: loc, heading: 3, ttl: 4 });
    g.decay_all();
    let out = g.query_window(loc, 1);
    assert_eq!(out.len(), 2);
    assert_eq!(out[0].heading, 2);
    assert_eq!(out[0].ttl, 4);
    assert_eq!(out[1].heading, 3);
    assert_eq!(out[1].ttl, 3);
}
