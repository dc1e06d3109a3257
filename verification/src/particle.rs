//! One simulated particle: position, velocity, acceleration and opacity,
//! each a fixed-point integer in micro-units, together with its one-tick
//! motion and fade update and the laws of its decay.
use vstd::prelude::*;

use vstd::arithmetic::power::pow;

use crate::world::World;
use crate::ALPHA_INIT;
use crate::ALPHA_MAX;
use crate::EXTENT;
use crate::POS_LIMIT;
use crate::RISE_ACC_MAX;
use crate::RISE_ACC_MIN;
use crate::RISE_VEL_MAX;
use crate::RISE_VEL_MIN;
use crate::SPEED_BUDGET;
use crate::rng;

verus! {

/// Magnitude of an integer.
pub open spec fn mag(x: int) -> int {
    if x >= 0 {
        x
    } else {
        -x
    }
}

/// One fade step of the opacity: multiplication by 995/1000, rounded down.
pub open spec fn fade(a: int) -> int {
    (a * 995) / 1000
}

/// One decay step of an acceleration component: multiplication by 7/10,
/// rounded toward zero.
pub open spec fn decay(a: int) -> int {
    if a >= 0 {
        (a * 7) / 10
    } else {
        -(((-a) * 7) / 10)
    }
}

/// Opacity after `k` fade steps.
pub open spec fn fade_iter(a: int, k: nat) -> int
    decreases k,
{
    if k == 0 {
        a
    } else {
        fade(fade_iter(a, (k - 1) as nat))
    }
}

/// An acceleration component after `k` decay steps.
pub open spec fn decay_iter(a: int, k: nat) -> int
    decreases k,
{
    if k == 0 {
        a
    } else {
        decay(decay_iter(a, (k - 1) as nat))
    }
}

/// An object in 2d space. `width` and `height` are its fixed rendering
/// extent; `alpha` is its opacity in micro-units, at most `ALPHA_MAX`.
#[derive(Clone, Copy, Debug)]
pub struct Particle {
    pub height: i64,
    pub width: i64,
    pub pos_x: i64,
    pub pos_y: i64,
    pub vel_x: i64,
    pub vel_y: i64,
    pub acc_x: i64,
    pub acc_y: i64,
    pub alpha: u64,
}

impl Particle {
    /// Well-formedness: opacity within range, and on each axis the speed
    /// budget `3*|velocity| + 10*|acceleration| <= SPEED_BUDGET`, which the
    /// update preserves and which caps the per-tick travel.
    pub open spec fn wf(self) -> bool {
        &&& self.alpha <= ALPHA_MAX
        &&& 3 * mag(self.vel_x as int) + 10 * mag(self.acc_x as int) <= SPEED_BUDGET
        &&& 3 * mag(self.vel_y as int) + 10 * mag(self.acc_y as int) <= SPEED_BUDGET
    }

    /// The state a particle has at the moment it is spawned into a world of
    /// the given bounds: at the bottom edge, somewhere along the width,
    /// rising with a random speed and acceleration, near-opaque.
    pub open spec fn just_spawned(self, width: i64, height: i64) -> bool {
        &&& self.height == EXTENT
        &&& self.width == EXTENT
        &&& 0 <= self.pos_x <= width
        &&& self.pos_y == height
        &&& self.vel_x == 0
        &&& RISE_VEL_MIN <= self.vel_y <= RISE_VEL_MAX
        &&& self.acc_x == 0
        &&& RISE_ACC_MIN <= self.acc_y <= RISE_ACC_MAX
        &&& self.alpha == ALPHA_INIT
    }

    /// Holds when this particle is the one-step update of some particle
    /// that was just spawned into a world of the given bounds.
    pub open spec fn spawn_stepped(self, width: i64, height: i64) -> bool {
        exists|q: Particle|
            #![trigger q.stepped()]
            q.just_spawned(width, height) && self == q.stepped()
    }

    /// The exact result of one `update` call: Euler integration of one tick,
    /// then geometric decay of acceleration and opacity.
    pub open spec fn stepped(self) -> Particle {
        Particle {
            height: self.height,
            width: self.width,
            pos_x: (self.pos_x + self.vel_x + self.acc_x) as i64,
            pos_y: (self.pos_y + self.vel_y + self.acc_y) as i64,
            vel_x: (self.vel_x + self.acc_x) as i64,
            vel_y: (self.vel_y + self.acc_y) as i64,
            acc_x: decay(self.acc_x as int) as i64,
            acc_y: decay(self.acc_y as int) as i64,
            alpha: fade(self.alpha as int) as u64,
        }
    }

    /// The particle after `k` consecutive `update` calls.
    pub open spec fn stepped_iter(self, k: nat) -> Particle
        decreases k,
    {
        if k == 0 {
            self
        } else {
            self.stepped_iter((k - 1) as nat).stepped()
        }
    }

    /// Spawns a particle at the bottom edge of the world, at a random
    /// horizontal position, with a random upward velocity and acceleration.
    pub fn new(world: &World) -> (p: Particle)
        requires
            world.bounds_ok(),
        ensures
            p.just_spawned(world.width, world.height),
            p.wf(),
    {
        let mut rng = rng::rng_new();
        // random x axis spawn point; the y axis spawn point is always the
        // bottom edge
        let x = rng::gen_in(&mut rng, 0, world.width);
        let y = world.height;

        let x_velocity: i64 = 0;
        // rise vertically over time
        let y_velocity = rng::gen_in(&mut rng, RISE_VEL_MIN, RISE_VEL_MAX);

        let x_acceleration: i64 = 0;
        // increase the speed of the rise over time
        let y_acceleration = rng::gen_in(&mut rng, RISE_ACC_MIN, RISE_ACC_MAX);

        Particle {
            height: EXTENT,
            width: EXTENT,
            pos_x: x,
            pos_y: y,
            vel_x: x_velocity,
            vel_y: y_velocity,
            acc_x: x_acceleration,
            acc_y: y_acceleration,
            alpha: ALPHA_INIT,
        }
    }

    /// Advances the particle by one tick: `velocity += acceleration`,
    /// `position += velocity`, then the acceleration decays by 7/10 and the
    /// opacity by 995/1000. The opacity never increases and the
    /// acceleration's magnitude never grows.
    pub fn update(&mut self)
        requires
            old(self).wf(),
            -POS_LIMIT <= old(self).pos_x <= POS_LIMIT,
            -POS_LIMIT <= old(self).pos_y <= POS_LIMIT,
        ensures
            *final(self) == old(self).stepped(),
            final(self).wf(),
            final(self).alpha <= old(self).alpha,
            mag(final(self).acc_x as int) <= mag(old(self).acc_x as int),
            mag(final(self).acc_y as int) <= mag(old(self).acc_y as int),
            mag(final(self).vel_x as int) <= SPEED_BUDGET / 3,
            mag(final(self).vel_y as int) <= SPEED_BUDGET / 3,
    {
        proof {
            lemma_fade_bounds(old(self).alpha as int);
            lemma_decay_bounds(old(self).acc_x as int);
            lemma_decay_bounds(old(self).acc_y as int);
        }
        // move the particle to its next position
        self.vel_x = self.vel_x + self.acc_x;
        self.vel_y = self.vel_y + self.acc_y;
        self.pos_x = self.pos_x + self.vel_x;
        self.pos_y = self.pos_y + self.vel_y;
        // slow down the particle's rate of increase as it travels
        self.acc_x = decay_step(self.acc_x);
        self.acc_y = decay_step(self.acc_y);
        // slowly make the particle more transparent
        self.alpha = self.alpha * 995 / 1000;
    }
}

/// One executable decay step, matching `decay`.
fn decay_step(a: i64) -> (r: i64)
    requires
        -1_000_000_000 <= a <= 1_000_000_000,
    ensures
        r == decay(a as int),
{
    if a >= 0 {
        a * 7 / 10
    } else {
        -((-a) * 7 / 10)
    }
}

/// One fade step keeps the opacity within `[0, x]` and loses at least the
/// exact 5/1000 share, up to rounding: `1000 * fade(x) <= 995 * x`.
pub proof fn lemma_fade_bounds(x: int)
    requires
        0 <= x,
    ensures
        0 <= fade(x) <= x,
        1000 * fade(x) <= 995 * x,
{
    vstd::arithmetic::div_mod::lemma_fundamental_div_mod(x * 995, 1000);
    vstd::arithmetic::div_mod::lemma_mod_bound(x * 995, 1000);
    assert(0 <= x * 995) by (nonlinear_arith)
        requires
            0 <= x,
    ;
}

/// One decay step never grows an acceleration component and shrinks its
/// magnitude to at most 7/10 of what it was: `10 * |decay(x)| <= 7 * |x|`.
pub proof fn lemma_decay_bounds(x: int)
    ensures
        mag(decay(x)) <= mag(x),
        10 * mag(decay(x)) <= 7 * mag(x),
{
    if x >= 0 {
        vstd::arithmetic::div_mod::lemma_fundamental_div_mod(x * 7, 10);
        vstd::arithmetic::div_mod::lemma_mod_bound(x * 7, 10);
        assert(0 <= x * 7) by (nonlinear_arith)
            requires
                0 <= x,
        ;
    } else {
        vstd::arithmetic::div_mod::lemma_fundamental_div_mod((-x) * 7, 10);
        vstd::arithmetic::div_mod::lemma_mod_bound((-x) * 7, 10);
        assert(0 <= (-x) * 7) by (nonlinear_arith)
            requires
                x < 0,
        ;
    }
}

/// A particle that is not already nearly transparent strictly fades: for
/// any opacity of at least 200 micro-units (0.0002), one fade step loses
/// at least one micro-unit. Together with monotonicity this makes the
/// visual lifecycle self-terminating: every particle sinks below the
/// invisibility threshold without an explicit time-to-live.
pub proof fn lemma_fade_strict(x: int)
    requires
        200 <= x,
    ensures
        fade(x) < x,
{
    lemma_fade_bounds(x);
}

/// Law tying repeated updates to the decay sequences: after `k` `update`
/// calls a particle's opacity is exactly the `k`-fold fade of where it
/// began, and each acceleration component is exactly the `k`-fold decay
/// of where it began. With the monotone and geometric laws below this
/// pins the whole decay behaviour of an entity over its lifetime.
pub proof fn lemma_updates_decay(p: Particle, k: nat)
    ensures
        p.stepped_iter(k).alpha == fade_iter(p.alpha as int, k),
        p.stepped_iter(k).acc_x as int == decay_iter(p.acc_x as int, k),
        p.stepped_iter(k).acc_y as int == decay_iter(p.acc_y as int, k),
    decreases k,
{
    if k > 0 {
        let km = (k - 1) as nat;
        lemma_updates_decay(p, km);
        let q = p.stepped_iter(km);
        lemma_alpha_monotone(p.alpha as int, km);
        lemma_fade_bounds(q.alpha as int);
        lemma_accel_monotone(p.acc_x as int, km);
        lemma_accel_monotone(p.acc_y as int, km);
        lemma_decay_bounds(q.acc_x as int);
        lemma_decay_bounds(q.acc_y as int);
    }
}

/// Law of opacity monotonicity: starting from any non-negative opacity,
/// the fade sequence an entity's `alpha` follows across repeated `update`
/// calls (one `fade` step per call) never increases and never leaves
/// `[0, a]`.
pub proof fn lemma_alpha_monotone(a: int, k: nat)
    requires
        0 <= a,
    ensures
        0 <= fade_iter(a, k) <= a,
        fade_iter(a, (k + 1) as nat) <= fade_iter(a, k),
    decreases k,
{
    if k == 0 {
        lemma_fade_bounds(a);
    } else {
        lemma_alpha_monotone(a, (k - 1) as nat);
        lemma_fade_bounds(fade_iter(a, (k - 1) as nat));
        lemma_fade_bounds(fade_iter(a, k));
    }
}

/// Law of geometric opacity decay: after `k` fade steps the opacity is
/// bounded by the exact geometric envelope `a * (995/1000)^k`, stated
/// without division as `fade_iter(a, k) * 1000^k <= a * 995^k`.
pub proof fn lemma_alpha_geometric(a: int, k: nat)
    requires
        0 <= a,
    ensures
        fade_iter(a, k) * pow(1000, k) <= a * pow(995, k),
    decreases k,
{
    if k == 0 {
        vstd::arithmetic::power::lemma_pow0(1000);
        vstd::arithmetic::power::lemma_pow0(995);
    } else {
        let km = (k - 1) as nat;
        lemma_alpha_geometric(a, km);
        lemma_alpha_monotone(a, km);
        let f = fade_iter(a, km);
        let g = fade_iter(a, k);
        lemma_fade_bounds(f);
        let p1000 = pow(1000, km);
        let p995 = pow(995, km);
        vstd::arithmetic::power::lemma_pow_positive(1000, km);
        vstd::arithmetic::power::lemma_pow_positive(995, km);
        assert(g * (1000 * p1000) <= a * (995 * p995)) by (nonlinear_arith)
            requires
                1000 * g <= 995 * f,
                f * p1000 <= a * p995,
                p1000 > 0,
                p995 > 0,
                0 <= f,
                0 <= a,
        ;
        vstd::arithmetic::power::lemma_pow1(1000);
        vstd::arithmetic::power::lemma_pow1(995);
        vstd::arithmetic::power::lemma_pow_adds(1000, 1, km);
        vstd::arithmetic::power::lemma_pow_adds(995, 1, km);
        assert(pow(1000, k) == 1000 * p1000);
        assert(pow(995, k) == 995 * p995);
    }
}

/// Law of acceleration decay, monotone part: the magnitude of an
/// acceleration component never grows across repeated `update` calls (one
/// `decay` step per call).
pub proof fn lemma_accel_monotone(a: int, k: nat)
    ensures
        mag(decay_iter(a, k)) <= mag(a),
        mag(decay_iter(a, (k + 1) as nat)) <= mag(decay_iter(a, k)),
    decreases k,
{
    if k == 0 {
        lemma_decay_bounds(a);
    } else {
        lemma_accel_monotone(a, (k - 1) as nat);
        lemma_decay_bounds(decay_iter(a, (k - 1) as nat));
        lemma_decay_bounds(decay_iter(a, k));
    }
}

/// Law of geometric acceleration decay: after `k` decay steps the
/// magnitude of an acceleration component is bounded by the exact
/// geometric envelope `|a| * (7/10)^k`, stated without division as
/// `|decay_iter(a, k)| * 10^k <= |a| * 7^k` - so the velocity converges
/// instead of diverging.
pub proof fn lemma_accel_geometric(a: int, k: nat)
    ensures
        mag(decay_iter(a, k)) * pow(10, k) <= mag(a) * pow(7, k),
    decreases k,
{
    if k == 0 {
        vstd::arithmetic::power::lemma_pow0(10);
        vstd::arithmetic::power::lemma_pow0(7);
    } else {
        let km = (k - 1) as nat;
        lemma_accel_geometric(a, km);
        lemma_accel_monotone(a, km);
        let f = mag(decay_iter(a, km));
        let g = mag(decay_iter(a, k));
        lemma_decay_bounds(decay_iter(a, km));
        let p10 = pow(10, km);
        let p7 = pow(7, km);
        vstd::arithmetic::power::lemma_pow_positive(10, km);
        vstd::arithmetic::power::lemma_pow_positive(7, km);
        assert(g * (10 * p10) <= mag(a) * (7 * p7)) by (nonlinear_arith)
            requires
                10 * g <= 7 * f,
                f * p10 <= mag(a) * p7,
                p10 > 0,
                p7 > 0,
                0 <= f,
                0 <= mag(a),
        ;
        vstd::arithmetic::power::lemma_pow1(10);
        vstd::arithmetic::power::lemma_pow1(7);
        vstd::arithmetic::power::lemma_pow_adds(10, 1, km);
        vstd::arithmetic::power::lemma_pow_adds(7, 1, km);
        assert(pow(10, k) == 10 * p10);
        assert(pow(7, k) == 7 * p7);
    }
}

} // verus!
