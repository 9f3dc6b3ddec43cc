//! One foraging agent: position, heading, fixed speed, food flag and a step
//! counter that gates how often guidance may change the heading.
//!
//! All coordinates and angles are Q16.16 fixed point (see `geom`). Each agent
//! owns an explicitly seeded random generator, so runs are reproducible; the
//! contracts quantify over the drawn values, so everything stated holds for
//! every draw.

use vstd::prelude::*;
use crate::geom::{Pt, ONE, PI_FP, TWO_PI_FP, MAX_COORD_FP, spec_add_angle, add_angle};
use crate::trig::{cos_units, sin_units, cos_fp, sin_fp};
use crate::randsrc::{rng_from_seed, rng_below};

verus! {

/// Out of one unit, the chance that an unguided step first jitters the
/// heading (0.05 in Q16.16).
pub const RANDOM_CHANCE: i64 = 3277;

/// The heading gate interval: how many steps between permitted re-orientations.
pub const CONST_STEP: usize = 25;

/// The least speed an agent can be created with (1.1 in Q16.16); the drawn
/// speed lies in `[MIN_VELOCITY, MIN_VELOCITY + ONE)`.
pub const MIN_VELOCITY: i64 = 72090;

/// One ant of the colony.
pub struct Ant {
    pub location: Pt,
    pub heading: i64,
    pub velocity: i64,
    pub carry_food: bool,
    pub max_x: i64,
    pub max_y: i64,
    pub steps: usize,
    pub rng: rand::rngs::StdRng,
}

/// The heading after the optional random jitter of an unguided step: if the
/// first draw falls under `RANDOM_CHANCE`, the second draw (a value under one
/// radian) is added to the heading.
pub open spec fn spec_jittered(h: int, r1: int, r2: int) -> int {
    if r1 < RANDOM_CHANCE {
        spec_add_angle(h, r2)
    } else {
        h
    }
}

/// A velocity scaled by a direction component, both Q16.16: the product taken
/// down by one scale factor, rounded toward zero as machine division does.
pub open spec fn spec_scaled_step(c: int, v: int) -> int {
    if c >= 0 {
        (c * v) / (ONE as int)
    } else {
        -(((-c) * v) / (ONE as int))
    }
}

/// A tentative coordinate pushed back into `[0, max]`.
pub open spec fn spec_clamp(t: int, max: int) -> int {
    if t < 0 {
        0
    } else if t > max {
        max
    } else {
        t
    }
}

/// Whether a tentative coordinate left `[0, max]`, so that the step reverses
/// the travel direction.
pub open spec fn spec_reflected(t: int, max: int) -> bool {
    t < 0 || t > max
}

/// How one unguided step transforms an agent, given the two values `r1`, `r2`
/// that its generator drew (each under `ONE`). Both tentative coordinates
/// follow from the same post-jitter heading; each axis is then clamped on
/// its own, and each boundary hit reverses the heading for the steps to
/// come (two hits in one step add a full turn and cancel).
pub open spec fn blind_step_rel(pre: Ant, r1: int, r2: int, post: Ant) -> bool {
    let h1 = spec_jittered(pre.heading as int, r1, r2);
    let tx = pre.location.x + spec_scaled_step(cos_units(h1), pre.velocity as int);
    let ty = pre.location.y + spec_scaled_step(sin_units(h1), pre.velocity as int);
    let h2 = if spec_reflected(tx, pre.max_x as int) {
        spec_add_angle(h1, PI_FP as int)
    } else {
        h1
    };
    let h3 = if spec_reflected(ty, pre.max_y as int) {
        spec_add_angle(h2, PI_FP as int)
    } else {
        h2
    };
    &&& post.location.x == spec_clamp(tx, pre.max_x as int)
    &&& post.location.y == spec_clamp(ty, pre.max_y as int)
    &&& post.heading == h3
    &&& post.steps == if pre.steps + 1 == CONST_STEP {
        0int
    } else {
        pre.steps + 1
    }
    &&& post.carry_food == pre.carry_food
    &&& post.velocity == pre.velocity
    &&& post.max_x == pre.max_x
    &&& post.max_y == pre.max_y
}

/// An unguided step for some pair of drawn values: what the caller of
/// `do_blind_step` knows, whatever the generator gave.
pub open spec fn wander_rel(pre: Ant, post: Ant) -> bool {
    exists|r1: int, r2: int| 0 <= r1 < ONE && 0 <= r2 < ONE && blind_step_rel(pre, r1, r2, post)
}

/// What guided motion does with a target heading `dir`: adopted verbatim,
/// with nothing else changed, exactly when it differs from the current
/// heading and the step counter stands at a multiple of the heading-gate
/// interval; otherwise an unguided step.
pub open spec fn step_heading_rel(pre: Ant, dir: int, post: Ant) -> bool {
    if dir != pre.heading && pre.steps % CONST_STEP == 0 {
        &&& post.heading == dir
        &&& post.location == pre.location
        &&& post.steps == pre.steps
        &&& post.carry_food == pre.carry_food
        &&& post.velocity == pre.velocity
        &&& post.max_x == pre.max_x
        &&& post.max_y == pre.max_y
    } else {
        wander_rel(pre, post)
    }
}

impl Ant {
    /// The agent's invariant: clamped location, normalized heading, a speed
    /// in the drawn band, and a reduced step counter.
    pub open spec fn wf(&self) -> bool {
        &&& 0 <= self.location.x <= self.max_x
        &&& 0 <= self.location.y <= self.max_y
        &&& 0 <= self.max_x <= MAX_COORD_FP
        &&& 0 <= self.max_y <= MAX_COORD_FP
        &&& 0 <= self.heading < TWO_PI_FP
        &&& MIN_VELOCITY <= self.velocity < MIN_VELOCITY + ONE
        &&& self.steps < CONST_STEP
    }

    /// Creates an agent at `(x, y)` in an arena of `max_x` by `max_y` units,
    /// whose last unit-wide row and column form a hard wall: positions are
    /// clamped to `[0, max_x - ONE] x [0, max_y - ONE]`. Heading and velocity
    /// are drawn from the generator the seed determines.
    pub fn new(x: i64, y: i64, max_x: i64, max_y: i64, seed: u64) -> (a: Ant)
        requires
            ONE <= max_x <= MAX_COORD_FP,
            ONE <= max_y <= MAX_COORD_FP,
            0 <= x <= max_x - ONE,
            0 <= y <= max_y - ONE,
        ensures
            a.wf(),
            a.location == (Pt { x, y }),
            a.carry_food == false,
            a.steps == 0,
            a.max_x == max_x - ONE,
            a.max_y == max_y - ONE,
    {
        let mut rng = rng_from_seed(seed);
        let heading: i64 = rng_below(&mut rng, TWO_PI_FP as u64) as i64;
        let vel_extra: i64 = rng_below(&mut rng, ONE as u64) as i64;
        Ant {
            location: Pt { x, y },
            heading,
            velocity: MIN_VELOCITY + vel_extra,
            carry_food: false,
            max_x: max_x - ONE,
            max_y: max_y - ONE,
            steps: 0,
            rng,
        }
    }

    /// One unguided step: perhaps jitter the heading, advance one velocity
    /// along it, clamp each axis to the arena (reversing direction on a hit),
    /// and count the step. The location always lands back inside the arena,
    /// whatever the generator drew.
    pub fn do_blind_step(&mut self)
        requires
            old(self).wf(),
        ensures
            final(self).wf(),
            0 <= final(self).location.x <= final(self).max_x,
            0 <= final(self).location.y <= final(self).max_y,
            0 <= final(self).heading < TWO_PI_FP,
            wander_rel(*old(self), *final(self)),
    {
        let r1: i64 = rng_below(&mut self.rng, ONE as u64) as i64;
        let mut r2: i64 = 0;
        if r1 < RANDOM_CHANCE {
            r2 = rng_below(&mut self.rng, ONE as u64) as i64;
            self.heading = add_angle(self.heading, r2);
        }
        let c: i64 = cos_fp(self.heading);
        let s: i64 = sin_fp(self.heading);
        let dx: i64 = scaled_step(c, self.velocity);
        let dy: i64 = scaled_step(s, self.velocity);
        let tx: i64 = self.location.x + dx;
        let ty: i64 = self.location.y + dy;
        let new_x: i64;
        if tx < 0 {
            new_x = 0;
            self.heading = add_angle(self.heading, PI_FP);
        } else if tx > self.max_x {
            new_x = self.max_x;
            self.heading = add_angle(self.heading, PI_FP);
        } else {
            new_x = tx;
        }
        let new_y: i64;
        if ty < 0 {
            new_y = 0;
            self.heading = add_angle(self.heading, PI_FP);
        } else if ty > self.max_y {
            new_y = self.max_y;
            self.heading = add_angle(self.heading, PI_FP);
        } else {
            new_y = ty;
        }
        self.steps = if self.steps + 1 == CONST_STEP {
            0
        } else {
            self.steps + 1
        };
        self.location = Pt { x: new_x, y: new_y };
        proof {
            assert(blind_step_rel(*old(self), r1 as int, r2 as int, *self));
        }
    }

    /// Guided motion under the heading gate: a differing target heading is
    /// adopted, with no movement this step, exactly when the step counter
    /// stands at a multiple of the heading-gate interval; otherwise the
    /// agent takes an unguided step and ignores the guidance.
    pub fn step_heading(&mut self, direction: i64)
        requires
            old(self).wf(),
            0 <= direction < TWO_PI_FP,
        ensures
            final(self).wf(),
            0 <= final(self).heading < TWO_PI_FP,
            step_heading_rel(*old(self), direction as int, *final(self)),
    {
        if direction != self.heading && self.steps % CONST_STEP == 0 {
            self.heading = direction;
        } else {
            self.do_blind_step();
        }
    }

    /// Toggles the food flag and resets the step counter, so the agent may
    /// re-orient at its very next guided step.
    pub fn set_carry_food(&mut self, is_carry: bool)
        requires
            old(self).wf(),
        ensures
            final(self).wf(),
            final(self).carry_food == is_carry,
            final(self).steps == 0,
            final(self).location == old(self).location,
            final(self).heading == old(self).heading,
            final(self).velocity == old(self).velocity,
            final(self).max_x == old(self).max_x,
            final(self).max_y == old(self).max_y,
    {
        self.steps = 0;
        self.carry_food = is_carry;
    }

    pub fn get_x(&self) -> (r: i64)
        ensures
            r == self.location.x,
    {
        self.location.x
    }

    pub fn get_y(&self) -> (r: i64)
        ensures
            r == self.location.y,
    {
        self.location.y
    }

    pub fn get_heading(&self) -> (r: i64)
        ensures
            r == self.heading,
    {
        self.heading
    }

    pub fn get_velocity(&self) -> (r: i64)
        ensures
            r == self.velocity,
    {
        self.velocity
    }

    pub fn is_carry_food(&self) -> (r: bool)
        ensures
            r == self.carry_food,
    {
        self.carry_food
    }

    pub fn get_location(&self) -> (r: Pt)
        ensures
            r == self.location,
    {
        self.location
    }
}

/// `spec_scaled_step`, executably: the magnitude is computed in unsigned
/// arithmetic and the sign put back, matching truncating division.
pub fn scaled_step(c: i64, v: i64) -> (r: i64)
    requires
        -2 * ONE <= c <= 2 * ONE,
        0 <= v <= 3 * ONE,
    ensures
        r == spec_scaled_step(c as int, v as int),
        -6 * ONE <= r <= 6 * ONE,
{
    let mag: u64 = if c >= 0 {
        c as u64
    } else {
        (-c) as u64
    };
    let vu: u64 = v as u64;
    proof {
        assert(mag * vu <= 131072 * 196608) by (nonlinear_arith)
            requires
                mag <= 131072,
                vu <= 196608,
        ;
    }
    let prod: u64 = mag * vu;
    let q: u64 = prod / (ONE as u64);
    proof {
        assert(q <= 6 * ONE) by (nonlinear_arith)
            requires
                q == prod / 65536,
                prod <= 131072 * 196608,
        ;
        if c >= 0 {
            assert(q == (c * v) / (ONE as int)) by (nonlinear_arith)
                requires
                    q == prod / 65536,
                    prod == mag * vu,
                    mag == c,
                    vu == v,
                    c >= 0,
                    v >= 0,
            ;
        } else {
            assert(q == ((-c) * v) / (ONE as int)) by (nonlinear_arith)
                requires
                    q == prod / 65536,
                    prod == mag * vu,
                    mag == -c,
                    vu == v,
                    c < 0,
                    v >= 0,
            ;
        }
    }
    if c >= 0 {
        q as i64
    } else {
        -(q as i64)
    }
}

} // verus!
