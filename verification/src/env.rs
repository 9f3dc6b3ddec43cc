//! The environment: the agent population, the remaining food, the home point
//! and the sign grid, advanced one discrete tick at a time.
//!
//! `do_step` is the sole mutator after construction. It walks the agents in
//! order, lets each deposit, deliver, pick up, follow a sign or wander, and
//! then decays the whole grid exactly once.

use vstd::prelude::*;
use crate::geom::{
    Pt, ONE, PI_FP, TWO_PI_FP, MAX_COORD_FP, bounded_pt, spec_dist_sq, spec_pos_angle,
    spec_add_angle, distance_sq, pos_angle, add_angle,
};
use crate::trig::{atan2_units, atan2_fp};
use crate::ant::{Ant, step_heading_rel, wander_rel};
use crate::grid::{Sign, SignGrid, MAX_DIM, decay_seq, window_of};

verus! {

/// How many ticks a freshly deposited sign lives.
pub const TTL: u16 = 350;

/// How far, in Q16.16 units, an agent can grab food or see a sign (15.0).
pub const RADIUS: i64 = 983040;

/// Whether a point lies within `radius` of `loc`, decided on squared
/// distances, so the comparison is exact: a point at distance equal to the
/// radius is within, one any farther is not.
pub open spec fn within_radius(loc: Pt, p: Pt, radius: int) -> bool {
    spec_dist_sq(loc, p) <= radius * radius
}

/// The simulation state.
pub struct Env {
    pub ants: Vec<Ant>,
    pub food: Vec<Pt>,
    pub home: Pt,
    pub food_signs: SignGrid,
    pub radius: i64,
    pub max_ttl: u16,
    pub stop_on_pickup: bool,
}

impl Env {
    /// The environment's invariant: a well formed grid, well formed agents
    /// clamped strictly inside the grid's area, and bounded food and home
    /// coordinates.
    pub open spec fn wf(&self) -> bool {
        &&& self.food_signs.wf()
        &&& forall|i: int|
            0 <= i < self.ants@.len() ==> {
                let a = #[trigger] self.ants@[i];
                &&& a.wf()
                &&& a.max_x < self.food_signs.width * (ONE as int)
                &&& a.max_y < self.food_signs.height * (ONE as int)
            }
        &&& forall|i: int| 0 <= i < self.food@.len() ==> bounded_pt(#[trigger] self.food@[i])
        &&& bounded_pt(self.home)
        &&& 1 <= self.radius <= MAX_COORD_FP
        &&& self.max_ttl >= 1
    }

    /// Builds the environment from scenario data: the agent batch, the food
    /// points, the single home point, the arena size in whole units, and the
    /// policy flag saying whether a food pickup ends the tick early for the
    /// remaining agents.
    pub fn new(
        ants: Vec<Ant>,
        food: Vec<Pt>,
        home: Pt,
        width: usize,
        height: usize,
        stop_on_pickup: bool,
    ) -> (e: Env)
        requires
            1 <= width <= MAX_DIM,
            1 <= height <= MAX_DIM,
            forall|i: int|
                0 <= i < ants@.len() ==> {
                    let a = #[trigger] ants@[i];
                    &&& a.wf()
                    &&& a.max_x < width * (ONE as int)
                    &&& a.max_y < height * (ONE as int)
                },
            forall|i: int| 0 <= i < food@.len() ==> bounded_pt(#[trigger] food@[i]),
            bounded_pt(home),
        ensures
            e.wf(),
            e.ants@ == ants@,
            e.food@ == food@,
            e.home == home,
            e.radius == RADIUS,
            e.max_ttl == TTL,
            e.stop_on_pickup == stop_on_pickup,
            e.food_signs.width == width,
            e.food_signs.height == height,
            forall|r: int, c: int|
                0 <= r < height && 0 <= c < width ==> (
                #[trigger] e.food_signs.cells@[r]@[c])@.len() == 0,
    {
        Env {
            ants,
            food,
            home,
            food_signs: SignGrid::new(width, height),
            radius: RADIUS,
            max_ttl: TTL,
            stop_on_pickup,
        }
    }

    pub fn get_ants(&self) -> (r: &Vec<Ant>)
        ensures
            r@ == self.ants@,
    {
        &self.ants
    }

    pub fn get_food(&self) -> (r: &Vec<Pt>)
        ensures
            r@ == self.food@,
    {
        &self.food
    }

    pub fn get_home(&self) -> (r: &Pt)
        ensures
            r == self.home,
    {
        &self.home
    }
}

/// The first food point within the search radius of `loc`, if any: the exact
/// distance check, first match in collection order.
pub fn find_food_within(food: &Vec<Pt>, loc: Pt, radius: i64) -> (r: Option<usize>)
    requires
        bounded_pt(loc),
        0 <= radius <= MAX_COORD_FP,
        forall|i: int| 0 <= i < food@.len() ==> bounded_pt(#[trigger] food@[i]),
    ensures
        match r {
            Some(i) => {
                &&& 0 <= i < food@.len()
                &&& within_radius(loc, food@[i as int], radius as int)
                &&& forall|j: int|
                    0 <= j < i ==> !within_radius(loc, #[trigger] food@[j], radius as int)
            },
            None => forall|j: int|
                0 <= j < food@.len() ==> !within_radius(loc, #[trigger] food@[j], radius as int),
        },
{
    let rsq: i64 = square_radius(radius);
    let mut i: usize = 0;
    while i < food.len()
        invariant
            i <= food@.len(),
            bounded_pt(loc),
            0 <= radius <= MAX_COORD_FP,
            rsq == (radius as int) * (radius as int),
            forall|k: int| 0 <= k < food@.len() ==> bounded_pt(#[trigger] food@[k]),
            forall|j: int| 0 <= j < i ==> !within_radius(loc, #[trigger] food@[j], radius as int),
        decreases food@.len() - i,
    {
        if distance_sq(loc, food[i]) <= rsq {
            return Some(i);
        }
        i += 1;
    }
    None
}

/// The first candidate sign within the search radius of `loc`, if any: the
/// exact distance check applied to the grid's coarse candidates, first match
/// in the candidates' order.
pub fn find_sign_within(cands: &Vec<Sign>, loc: Pt, radius: i64) -> (r: Option<usize>)
    requires
        bounded_pt(loc),
        0 <= radius <= MAX_COORD_FP,
        forall|i: int| 0 <= i < cands@.len() ==> bounded_pt((#[trigger] cands@[i]).location),
    ensures
        match r {
            Some(i) => {
                &&& 0 <= i < cands@.len()
                &&& within_radius(loc, cands@[i as int].location, radius as int)
                &&& forall|j: int|
                    0 <= j < i ==> !within_radius(
                        loc,
                        (#[trigger] cands@[j]).location,
                        radius as int,
                    )
            },
            None => forall|j: int|
                0 <= j < cands@.len() ==> !within_radius(
                    loc,
                    (#[trigger] cands@[j]).location,
                    radius as int,
                ),
        },
{
    let rsq: i64 = square_radius(radius);
    let mut i: usize = 0;
    while i < cands.len()
        invariant
            i <= cands@.len(),
            bounded_pt(loc),
            0 <= radius <= MAX_COORD_FP,
            rsq == (radius as int) * (radius as int),
            forall|k: int| 0 <= k < cands@.len() ==> bounded_pt((#[trigger] cands@[k]).location),
            forall|j: int|
                0 <= j < i ==> !within_radius(loc, (#[trigger] cands@[j]).location, radius as int),
        decreases cands@.len() - i,
    {
        if distance_sq(loc, cands[i].location) <= rsq {
            return Some(i);
        }
        i += 1;
    }
    None
}

/// The index of the first food point within the search radius, if any.
pub open spec fn first_food_within(food: Seq<Pt>, loc: Pt, radius: int) -> Option<int>
    decreases food.len(),
{
    if food.len() == 0 {
        None
    } else if within_radius(loc, food[0], radius) {
        Some(0int)
    } else {
        match first_food_within(food.drop_first(), loc, radius) {
            Some(j) => Some(j + 1),
            None => None,
        }
    }
}

/// The index of the first candidate sign within the search radius, if any.
pub open spec fn first_sign_within(cands: Seq<Sign>, loc: Pt, radius: int) -> Option<int>
    decreases cands.len(),
{
    if cands.len() == 0 {
        None
    } else if within_radius(loc, cands[0].location, radius) {
        Some(0int)
    } else {
        match first_sign_within(cands.drop_first(), loc, radius) {
            Some(j) => Some(j + 1),
            None => None,
        }
    }
}

/// A first match in collection order is what `first_food_within` names.
proof fn lemma_first_food_some(food: Seq<Pt>, loc: Pt, radius: int, i: int)
    requires
        0 <= i < food.len(),
        within_radius(loc, food[i], radius),
        forall|j: int| 0 <= j < i ==> !within_radius(loc, #[trigger] food[j], radius),
    ensures
        first_food_within(food, loc, radius) == Some(i),
    decreases i,
{
    if i == 0 {
    } else {
        assert(!within_radius(loc, food[0], radius));
        assert(food.drop_first()[i - 1] == food[i]);
        assert forall|j: int| 0 <= j < i - 1 implies !within_radius(
            loc,
            #[trigger] food.drop_first()[j],
            radius,
        ) by {
            assert(food.drop_first()[j] == food[j + 1]);
        }
        lemma_first_food_some(food.drop_first(), loc, radius, i - 1);
    }
}

/// No point in reach, no first match.
proof fn lemma_first_food_none(food: Seq<Pt>, loc: Pt, radius: int)
    requires
        forall|j: int| 0 <= j < food.len() ==> !within_radius(loc, #[trigger] food[j], radius),
    ensures
        first_food_within(food, loc, radius) == None::<int>,
    decreases food.len(),
{
    if food.len() == 0 {
    } else {
        assert forall|j: int| 0 <= j < food.drop_first().len() implies !within_radius(
            loc,
            #[trigger] food.drop_first()[j],
            radius,
        ) by {
            assert(food.drop_first()[j] == food[j + 1]);
        }
        lemma_first_food_none(food.drop_first(), loc, radius);
    }
}

/// A first candidate in reach is what `first_sign_within` names.
proof fn lemma_first_sign_some(cands: Seq<Sign>, loc: Pt, radius: int, i: int)
    requires
        0 <= i < cands.len(),
        within_radius(loc, cands[i].location, radius),
        forall|j: int| 0 <= j < i ==> !within_radius(loc, (#[trigger] cands[j]).location, radius),
    ensures
        first_sign_within(cands, loc, radius) == Some(i),
    decreases i,
{
    if i == 0 {
    } else {
        assert(!within_radius(loc, cands[0].location, radius));
        assert(cands.drop_first()[i - 1] == cands[i]);
        assert forall|j: int| 0 <= j < i - 1 implies !within_radius(
            loc,
            (#[trigger] cands.drop_first()[j]).location,
            radius,
        ) by {
            assert(cands.drop_first()[j] == cands[j + 1]);
        }
        lemma_first_sign_some(cands.drop_first(), loc, radius, i - 1);
    }
}

/// No candidate in reach, no first match.
proof fn lemma_first_sign_none(cands: Seq<Sign>, loc: Pt, radius: int)
    requires
        forall|j: int|
            0 <= j < cands.len() ==> !within_radius(loc, (#[trigger] cands[j]).location, radius),
    ensures
        first_sign_within(cands, loc, radius) == None::<int>,
    decreases cands.len(),
{
    if cands.len() == 0 {
    } else {
        assert forall|j: int| 0 <= j < cands.drop_first().len() implies !within_radius(
            loc,
            (#[trigger] cands.drop_first()[j]).location,
            radius,
        ) by {
            assert(cands.drop_first()[j] == cands[j + 1]);
        }
        lemma_first_sign_none(cands.drop_first(), loc, radius);
    }
}

/// What any processing branch leaves untouched on an agent: position,
/// heading, speed and arena bounds.
pub open spec fn agent_frame_eq(a: Ant, b: Ant) -> bool {
    &&& b.location == a.location
    &&& b.heading == a.heading
    &&& b.velocity == a.velocity
    &&& b.max_x == a.max_x
    &&& b.max_y == a.max_y
}

/// What a tick never changes: home, the two thresholds, the policy flag,
/// the grid's shape and the population size.
pub open spec fn env_frame_eq(pre: Env, post: Env) -> bool {
    &&& post.home == pre.home
    &&& post.radius == pre.radius
    &&& post.max_ttl == pre.max_ttl
    &&& post.stop_on_pickup == pre.stop_on_pickup
    &&& post.food_signs.width == pre.food_signs.width
    &&& post.food_signs.height == pre.food_signs.height
    &&& post.ants@.len() == pre.ants@.len()
}

/// How processing the agent at index `i` transforms the environment. A
/// carrier first leaves a sign at its location whose heading is its own
/// reversed, then delivers (flag cleared, counter reset, no motion) exactly
/// when home is within the search radius, else is steered toward home under
/// the heading-gate relation. A forager takes the first food point in exact
/// reach, removing just that point and resetting its counter; with none, it
/// turns toward the first window candidate in exact reach, or wanders. No
/// other agent changes.
pub open spec fn agent_step_rel(pre: Env, i: int, post: Env) -> bool {
    let a = pre.ants@[i];
    let loc = a.location;
    &&& env_frame_eq(pre, post)
    &&& forall|j: int| 0 <= j < pre.ants@.len() && j != i ==> post.ants@[j] == pre.ants@[j]
    &&& if a.carry_food {
        let s = Sign {
            location: loc,
            heading: spec_add_angle(a.heading as int, PI_FP as int) as i64,
            ttl: pre.max_ttl,
        };
        &&& SignGrid::deposit_post(pre.food_signs, s, post.food_signs)
        &&& post.food@ == pre.food@
        &&& if within_radius(loc, pre.home, pre.radius as int) {
            &&& agent_frame_eq(a, post.ants@[i])
            &&& post.ants@[i].carry_food == false
            &&& post.ants@[i].steps == 0
        } else {
            step_heading_rel(
                a,
                spec_pos_angle(atan2_units(pre.home.y - loc.y, pre.home.x - loc.x)),
                post.ants@[i],
            )
        }
    } else {
        match first_food_within(pre.food@, loc, pre.radius as int) {
            Some(fi) => {
                &&& post.food@ == pre.food@.remove(fi)
                &&& post.food_signs == pre.food_signs
                &&& agent_frame_eq(a, post.ants@[i])
                &&& post.ants@[i].carry_food == true
                &&& post.ants@[i].steps == 0
            },
            None => {
                let cands = window_of(pre.food_signs, loc, (pre.radius as int) / (ONE as int));
                &&& post.food@ == pre.food@
                &&& post.food_signs == pre.food_signs
                &&& match first_sign_within(cands, loc, pre.radius as int) {
                    Some(si) => step_heading_rel(a, cands[si].heading as int, post.ants@[i]),
                    None => wander_rel(a, post.ants@[i]),
                }
            },
        }
    }
}

/// A forager with food in exact reach: under the early-exit policy its
/// pickup ends the tick's agent loop.
pub open spec fn pickup_here(e: Env, i: int) -> bool {
    &&& !e.ants@[i].carry_food
    &&& first_food_within(e.food@, e.ants@[i].location, e.radius as int) != None::<int>
}

/// The tick's closing decay: everything equal but every cell aged once.
pub open spec fn decay_post(pre: Env, post: Env) -> bool {
    &&& env_frame_eq(pre, post)
    &&& post.ants@ == pre.ants@
    &&& post.food@ == pre.food@
    &&& forall|r: int, c: int|
        0 <= r < pre.food_signs.height && 0 <= c < pre.food_signs.width ==> (
        #[trigger] post.food_signs.cells@[r]@[c])@ == decay_seq(pre.food_signs.cells@[r]@[c]@)
}

/// One whole tick, witnessed by its chain of intermediate states: `tr[k]`
/// is the environment when agent `k` was reached, each consecutive pair is
/// that agent's processing, the chain covers every agent unless a pickup
/// under the early-exit policy cut it short, and the final state is the last
/// chain state with the grid decayed exactly once.
pub open spec fn tick_trace(tr: Seq<Env>, pre: Env, post: Env) -> bool {
    &&& tr.len() >= 1
    &&& tr.len() <= pre.ants@.len() + 1
    &&& tr[0] == pre
    &&& forall|k: int| 0 <= k < tr.len() - 1 ==> #[trigger] agent_step_rel(tr[k], k, tr[k + 1])
    &&& (tr.len() == pre.ants@.len() + 1 || (pre.stop_on_pickup && tr.len() >= 2 && pickup_here(
        tr[tr.len() - 2],
        tr.len() - 2,
    )))
    &&& decay_post(tr[tr.len() - 1], post)
}

/// The squared search radius, used for exact distance comparisons.
pub fn square_radius(radius: i64) -> (r: i64)
    requires
        0 <= radius <= MAX_COORD_FP,
    ensures
        r == (radius as int) * (radius as int),
{
    proof {
        assert((radius as int) * (radius as int) <= (MAX_COORD_FP as int) * (
        MAX_COORD_FP as int)) by (nonlinear_arith)
            requires
                0 <= radius <= MAX_COORD_FP,
        ;
    }
    radius * radius
}

/// The bearing from `loc` toward `home`: the arctangent of the coordinate
/// differences, brought into the non-negative heading range.
pub fn bearing_to_home(loc: Pt, home: Pt) -> (r: i64)
    requires
        bounded_pt(loc),
        bounded_pt(home),
    ensures
        r == spec_pos_angle(atan2_units(home.y - loc.y, home.x - loc.x)),
        0 <= r < TWO_PI_FP,
{
    let dy: i64 = home.y - loc.y;
    let dx: i64 = home.x - loc.x;
    pos_angle(atan2_fp(dy, dx))
}

impl Env {
    /// One discrete simulation tick. For each agent in order: a food carrier
    /// drops a sign pointing back the way it came, then either delivers (at
    /// home) or steers toward home; a forager grabs the first food point in
    /// reach (ending the tick early for the rest, if the policy flag says
    /// so), else follows the first sign in exact reach among the grid's
    /// window candidates, else wanders. Afterwards every sign decays once.
    pub fn do_step(&mut self)
        requires
            old(self).wf(),
        ensures
            final(self).wf(),
            final(self).ants@.len() == old(self).ants@.len(),
            final(self).home == old(self).home,
            final(self).radius == old(self).radius,
            final(self).max_ttl == old(self).max_ttl,
            final(self).stop_on_pickup == old(self).stop_on_pickup,
            final(self).food_signs.width == old(self).food_signs.width,
            final(self).food_signs.height == old(self).food_signs.height,
            final(self).food@.len() <= old(self).food@.len(),
            old(self).stop_on_pickup ==> final(self).food@.len() + 1 >= old(self).food@.len(),
            forall|p: Pt| final(self).food@.contains(p) ==> old(self).food@.contains(p),
            (forall|i: int|
                0 <= i < old(self).ants@.len() ==> !(#[trigger] old(self).ants@[i]).carry_food)
                ==> forall|r: int, c: int|
                0 <= r < old(self).food_signs.height && 0 <= c < old(self).food_signs.width ==> (
                #[trigger] final(self).food_signs.cells@[r]@[c])@ == decay_seq(
                    old(self).food_signs.cells@[r]@[c]@,
                ),
            exists|tr: Seq<Env>| #[trigger] tick_trace(tr, *old(self), *final(self)),
    {
        let n: usize = self.ants.len();
        let rsq: i64 = square_radius(self.radius);
        let cell_radius: usize = cells_of(self.radius);
        let ghost mut tr: Seq<Env> = seq![*old(self)];
        let mut i: usize = 0;
        while i < n
            invariant_except_break
                self.stop_on_pickup ==> self.food@.len() == old(self).food@.len(),
                forall|j: int| i <= j < n ==> self.ants@[j] == old(self).ants@[j],
                tr.len() == i + 1,
                tr[0] == *old(self),
                tr[i as int] == *self,
                forall|k: int| 0 <= k < i ==> #[trigger] agent_step_rel(tr[k], k, tr[k + 1]),
            invariant
                self.wf(),
                i <= n,
                self.ants@.len() == n,
                rsq == (self.radius as int) * (self.radius as int),
                cell_radius <= MAX_DIM,
                cell_radius == (self.radius as int) / (ONE as int),
                self.home == old(self).home,
                self.radius == old(self).radius,
                self.max_ttl == old(self).max_ttl,
                self.stop_on_pickup == old(self).stop_on_pickup,
                self.food_signs.width == old(self).food_signs.width,
                self.food_signs.height == old(self).food_signs.height,
                self.food@.len() <= old(self).food@.len(),
                forall|p: Pt| self.food@.contains(p) ==> old(self).food@.contains(p),
                (forall|j: int|
                    0 <= j < n ==> !(#[trigger] old(self).ants@[j]).carry_food)
                    ==> self.food_signs == old(self).food_signs,
            ensures
                self.wf(),
                self.ants@.len() == n,
                self.home == old(self).home,
                self.radius == old(self).radius,
                self.max_ttl == old(self).max_ttl,
                self.stop_on_pickup == old(self).stop_on_pickup,
                self.food_signs.width == old(self).food_signs.width,
                self.food_signs.height == old(self).food_signs.height,
                self.food@.len() <= old(self).food@.len(),
                self.stop_on_pickup ==> self.food@.len() + 1 >= old(self).food@.len(),
                forall|p: Pt| self.food@.contains(p) ==> old(self).food@.contains(p),
                (forall|j: int|
                    0 <= j < n ==> !(#[trigger] old(self).ants@[j]).carry_food)
                    ==> self.food_signs == old(self).food_signs,
                1 <= tr.len() <= n + 1,
                tr[0] == *old(self),
                tr[tr.len() - 1] == *self,
                forall|k: int|
                    0 <= k < tr.len() - 1 ==> #[trigger] agent_step_rel(tr[k], k, tr[k + 1]),
                tr.len() == n + 1 || (self.stop_on_pickup && tr.len() >= 2 && pickup_here(
                    tr[tr.len() - 2],
                    tr.len() - 2,
                )),
            decreases n - i,
        {
            let ghost pre_env: Env = *self;
            let ant_loc: Pt = self.ants[i].get_location();
            let ant_heading: i64 = self.ants[i].get_heading();
            if self.ants[i].is_carry_food() {
                let rev: i64 = add_angle(ant_heading, PI_FP);
                let ttl: u16 = self.max_ttl;
                self.food_signs.deposit(Sign { location: ant_loc, heading: rev, ttl });
                if distance_sq(ant_loc, self.home) <= rsq {
                    let a = &mut self.ants[i];
                    a.set_carry_food(false);
                } else {
                    let b: i64 = bearing_to_home(ant_loc, self.home);
                    let a = &mut self.ants[i];
                    a.step_heading(b);
                }
            } else {
                let eaten: Option<usize> = find_food_within(&self.food, ant_loc, self.radius);
                match eaten {
                    Some(fi) => {
                        {
                            let a = &mut self.ants[i];
                            a.set_carry_food(true);
                        }
                        let ghost pre_food: Seq<Pt> = self.food@;
                        self.food.remove(fi);
                        proof {
                            lemma_remove_keeps_membership(pre_food, fi as int);
                            lemma_first_food_some(
                                pre_env.food@,
                                ant_loc,
                                self.radius as int,
                                fi as int,
                            );
                        }
                        if self.stop_on_pickup {
                            proof {
                                assert(agent_step_rel(pre_env, i as int, *self));
                                tr = tr.push(*self);
                            }
                            break ;
                        }
                    },
                    None => {
                        proof {
                            lemma_first_food_none(pre_env.food@, ant_loc, self.radius as int);
                        }
                        let cands: Vec<Sign> = self.food_signs.query_window(ant_loc, cell_radius);
                        let followed: Option<usize> = find_sign_within(
                            &cands,
                            ant_loc,
                            self.radius,
                        );
                        match followed {
                            Some(si) => {
                                proof {
                                    lemma_first_sign_some(
                                        cands@,
                                        ant_loc,
                                        self.radius as int,
                                        si as int,
                                    );
                                }
                                let h: i64 = cands[si].heading;
                                let a = &mut self.ants[i];
                                a.step_heading(h);
                            },
                            None => {
                                proof {
                                    lemma_first_sign_none(cands@, ant_loc, self.radius as int);
                                }
                                let a = &mut self.ants[i];
                                a.do_blind_step();
                            },
                        }
                    },
                }
            }
            proof {
                assert(agent_step_rel(pre_env, i as int, *self));
                tr = tr.push(*self);
            }
            i += 1;
        }
        self.food_signs.decay_all();
        proof {
            assert(decay_post(tr[tr.len() - 1], *self));
            assert(tick_trace(tr, *old(self), *self));
        }
    }
}

/// How many whole cells the search radius spans.
pub fn cells_of(radius: i64) -> (r: usize)
    requires
        0 <= radius <= MAX_COORD_FP,
    ensures
        r <= MAX_DIM,
        r == (radius as int) / (ONE as int),
{
    proof {
        assert((radius as int) / (ONE as int) <= MAX_DIM) by (nonlinear_arith)
            requires
                0 <= radius <= MAX_COORD_FP,
                MAX_COORD_FP == 536870912,
                ONE == 65536,
                MAX_DIM == 8192,
        ;
    }
    ((radius as u64) / (ONE as u64)) as usize
}

/// Removing one element never adds a member: everything the shorter food
/// list holds, the longer one held.
proof fn lemma_remove_keeps_membership(s: Seq<Pt>, i: int)
    requires
        0 <= i < s.len(),
    ensures
        forall|p: Pt| s.remove(i).contains(p) ==> s.contains(p),
{
    assert forall|p: Pt| s.remove(i).contains(p) implies s.contains(p) by {
        let j = choose|j: int| 0 <= j < s.remove(i).len() && s.remove(i)[j] == p;
        if j < i {
            assert(s[j] == p);
        } else {
            assert(s[j + 1] == p);
        }
    }
}

} // verus!
