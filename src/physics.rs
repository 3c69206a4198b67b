//! Fixed-timestep simulation with a render-facing blend of the last two states.
//!
//! The simulation advances in whole steps of `dt` however irregularly it is
//! driven; the time not yet consumed by a step is kept in an accumulator, and
//! the presented state is blended between the two most recent simulation
//! states by how full that accumulator is.
use vstd::prelude::*;
use vstd::arithmetic::div_mod::*;
use vstd::arithmetic::mul::*;
use crate::fixed::{interpolate_scalar, lemma_fraction_shrinks, lerp, max, min, SECOND};

verus! {

/// Longest stretch of wall-clock time that one call may simulate.
pub const MAX_FRAME_TIME: u64 = 250_000;

/// A state that can be blended with an earlier one for presentation.
pub trait Interpolatable: Sized + Copy {
    /// The state `num / den` of the way from `previous` to `current`.
    spec fn blend(current: Self, num: int, den: int, previous: Self) -> Self;

    /// The state `alpha_num / alpha_den` of the way from `other` to `self`.
    fn interpolate(&self, alpha_num: u64, alpha_den: u64, other: &Self) -> (r: Self)
        requires
            alpha_den > 0,
            alpha_num <= alpha_den,
        ensures
            r == Self::blend(*self, alpha_num as int, alpha_den as int, *other),
    ;
}

/// A deterministic integration step: the state after `dt` more units of time,
/// starting at simulated time `t`.
pub trait StepFunction<T> {
    /// Whether the step function's own data is well formed.
    spec fn ready(&self) -> bool;

    /// Whether `state` is one the step function accepts; `next` keeps it so.
    spec fn valid(&self, state: T) -> bool;

    spec fn next(&self, state: T, t: int, dt: int) -> T;

    fn integrate(&self, state: &T, t: u64, dt: u64) -> (r: T)
        requires
            self.ready(),
            self.valid(*state),
            0 < dt <= SECOND,
        ensures
            r == self.next(*state, t as int, dt as int),
            self.valid(r),
    ;
}

impl Interpolatable for i64 {
    open spec fn blend(current: i64, num: int, den: int, previous: i64) -> i64 {
        lerp(previous as int, current as int, num, den) as i64
    }

    fn interpolate(&self, alpha_num: u64, alpha_den: u64, other: &i64) -> (r: i64) {
        interpolate_scalar(*other, *self, alpha_num, alpha_den)
    }
}

/// Wall-clock time simulated by a call at `now` after one at `last`.
pub open spec fn frame_time(last: int, now: int) -> int {
    min(max(now - last, 0), MAX_FRAME_TIME as int)
}

/// Number of steps a call at `now` takes, from the accumulator `acc` and the
/// time `last` of the previous call.
pub open spec fn steps_taken(acc: int, last: int, now: int, dt: int) -> int {
    (acc + frame_time(last, now)) / dt
}

/// The state after `n` steps of `f` from `s`, the first of them at time `t`.
pub open spec fn run_steps<T, F: StepFunction<T>>(f: F, s: T, t: int, dt: int, n: nat) -> T
    decreases n,
{
    if n == 0 {
        s
    } else {
        f.next(run_steps(f, s, t, dt, (n - 1) as nat), t + (n - 1) * dt, dt)
    }
}

pub struct Interpolator<T: Interpolatable> {
    /// Simulated time, a whole number of steps.
    pub t: u64,
    /// Length of one step.
    pub dt: u64,
    /// Wall-clock time of the latest call.
    pub current_time: u64,
    /// Wall-clock time not yet consumed by a step.
    pub accumulator: u64,
    pub previous_state: T,
    pub current_state: T,
    pub interpolated_state: T,
}

impl<T: Interpolatable> Interpolator<T> {
    pub open spec fn wf(&self) -> bool {
        &&& 0 < self.dt <= SECOND
        &&& self.accumulator < self.dt
        &&& self.t + self.accumulator <= self.current_time
    }

    /// `self` is what one call at `now` with step function `f` makes of `prev`.
    pub open spec fn advanced_from<F: StepFunction<T>>(self, prev: Self, now: u64, f: F) -> bool {
        let total = prev.accumulator + frame_time(prev.current_time as int, now as int);
        let n = steps_taken(prev.accumulator as int, prev.current_time as int, now as int, prev.dt as int);
        &&& self.wf()
        &&& self.dt == prev.dt
        &&& self.current_time == now
        &&& self.accumulator == total % prev.dt as int
        &&& self.t == prev.t + n * prev.dt
        &&& self.current_state == run_steps(f, prev.current_state, prev.t as int, prev.dt as int, n as nat)
        &&& n == 0 ==> self.previous_state == prev.previous_state
        &&& n > 0 ==> self.previous_state == run_steps(f, prev.current_state, prev.t as int, prev.dt as int, (n - 1) as nat)
        &&& self.interpolated_state == T::blend(self.current_state, self.accumulator as int, self.dt as int, self.previous_state)
    }

    /// An interpolator whose three states are `initial_state`, started at
    /// wall-clock time `now`.
    pub fn new(dt: u64, initial_state: T, now: u64) -> (r: Self)
        requires
            0 < dt <= SECOND,
        ensures
            r.wf(),
            r.t == 0,
            r.dt == dt,
            r.current_time == now,
            r.accumulator == 0,
            r.previous_state == initial_state,
            r.current_state == initial_state,
            r.interpolated_state == initial_state,
    {
        Interpolator {
            t: 0,
            dt,
            current_time: now,
            accumulator: 0,
            previous_state: initial_state,
            current_state: initial_state,
            interpolated_state: initial_state,
        }
    }

    pub fn get_latest_state(&self) -> (r: &T)
        ensures
            *r == self.current_state,
    {
        &self.current_state
    }

    pub fn get_latest_state_mut(&mut self) -> (r: &mut T)
        ensures
            *r == old(self).current_state,
            *final(self) == (Interpolator { current_state: *final(r), ..*old(self) }),
    {
        &mut self.current_state
    }

    pub fn get_interpolated_state(&self) -> (r: &T)
        ensures
            *r == self.interpolated_state,
    {
        &self.interpolated_state
    }

    /// Advances the simulation to wall-clock time `now` in whole steps of
    /// `integrate`, then blends the presented state.
    pub fn step<F: StepFunction<T>>(&mut self, now: u64, integrate: &F)
        requires
            old(self).wf(),
            now >= old(self).current_time,
            integrate.ready(),
            integrate.valid(old(self).current_state),
        ensures
            final(self).advanced_from(*old(self), now, *integrate),
            integrate.valid(final(self).current_state),
    {
        let ghost s0 = *self;
        let elapsed: u64 = now - self.current_time;
        let frame_time: u64 = if elapsed > MAX_FRAME_TIME {
            MAX_FRAME_TIME
        } else {
            elapsed
        };
        self.current_time = now;
        self.accumulator = self.accumulator + frame_time;
        let ghost total: int = self.accumulator as int;
        let ghost k: nat = 0;

        while self.accumulator >= self.dt
            invariant
                self.dt == s0.dt,
                0 < self.dt <= SECOND,
                self.current_time == now,
                integrate.ready(),
                integrate.valid(self.current_state),
                total == s0.accumulator + frame_time,
                s0.t + total <= now,
                self.t == s0.t + k * self.dt,
                self.accumulator + k * self.dt == total,
                self.current_state == run_steps(*integrate, s0.current_state, s0.t as int, s0.dt as int, k),
                k == 0 ==> self.previous_state == s0.previous_state,
                k > 0 ==> self.previous_state == run_steps(*integrate, s0.current_state, s0.t as int, s0.dt as int, (k - 1) as nat),
            decreases self.accumulator,
        {
            let next = integrate.integrate(&self.current_state, self.t, self.dt);
            self.previous_state = self.current_state;
            self.current_state = next;
            self.t = self.t + self.dt;
            self.accumulator = self.accumulator - self.dt;
            proof {
                lemma_mul_is_distributive_add_other_way(self.dt as int, k as int, 1);
                k = k + 1;
            }
        }
        proof {
            lemma_fundamental_div_mod_converse(total, self.dt as int, k as int, self.accumulator as int);
            lemma_mul_is_commutative(k as int, self.dt as int);
        }
        self.interpolated_state = self.current_state.interpolate(self.accumulator, self.dt, &self.previous_state);
    }
}

/// Rate at which the field of view converges on its target, per second.
pub const FOV_CONVERGENCE: u64 = 10;

/// Rate at which the camera height converges on its target, per second.
pub const CAMERA_HEIGHT_CONVERGENCE: u64 = 20;

/// Exponential convergence toward `target`: each step moves the value the
/// fraction `rate * dt` (at most all) of the way to the target.
pub struct Convergence {
    pub target: i64,
    /// Fraction of the remaining distance covered per second.
    pub rate: u64,
}

/// Fraction, in millionths, of the distance to the target covered in `dt`.
pub open spec fn convergence_fraction(rate: int, dt: int) -> int {
    min(rate * dt, SECOND as int)
}

impl StepFunction<i64> for Convergence {
    open spec fn ready(&self) -> bool {
        true
    }

    open spec fn valid(&self, state: i64) -> bool {
        true
    }

    open spec fn next(&self, state: i64, t: int, dt: int) -> i64 {
        lerp(state as int, self.target as int, convergence_fraction(self.rate as int, dt), SECOND as int) as i64
    }

    fn integrate(&self, state: &i64, t: u64, dt: u64) -> (r: i64) {
        proof {
            lemma_mul_upper_bound(self.rate as int, u64::MAX as int, dt as int, SECOND as int);
        }
        let product: u128 = self.rate as u128 * dt as u128;
        let fraction: u64 = if product > SECOND as u128 {
            SECOND
        } else {
            product as u64
        };
        interpolate_scalar(*state, self.target, fraction, SECOND)
    }
}

impl Interpolator<i64> {
    /// Advances the field of view (in micro-radians) toward `target_fov`.
    pub fn interpolate_fov(&mut self, now: u64, target_fov: i64)
        requires
            old(self).wf(),
            now >= old(self).current_time,
        ensures
            final(self).advanced_from(*old(self), now, Convergence { target: target_fov, rate: FOV_CONVERGENCE }),
    {
        self.step(now, &Convergence { target: target_fov, rate: FOV_CONVERGENCE });
    }

    /// Advances the camera height (in length units) toward `target_camera_height`.
    pub fn interpolate_camera_height(&mut self, now: u64, target_camera_height: i64)
        requires
            old(self).wf(),
            now >= old(self).current_time,
        ensures
            final(self).advanced_from(
                *old(self),
                now,
                Convergence { target: target_camera_height, rate: CAMERA_HEIGHT_CONVERGENCE },
            ),
    {
        self.step(now, &Convergence { target: target_camera_height, rate: CAMERA_HEIGHT_CONVERGENCE });
    }
}

/// Wall-clock time that calls at each of `nows`, after one at `last`, hand to the simulation.
pub open spec fn elapsed_over(last: int, nows: Seq<int>) -> int
    decreases nows.len(),
{
    if nows.len() == 0 {
        0
    } else {
        let before = nows.drop_last();
        let prev = if before.len() == 0 {
            last
        } else {
            before.last()
        };
        elapsed_over(last, before) + frame_time(prev, nows.last())
    }
}

/// Accumulator and simulated time after calls at each of `nows`, each call
/// taking `steps_taken` steps as `Interpolator::step` does.
pub open spec fn clock_after(acc: int, t: int, last: int, nows: Seq<int>, dt: int) -> (int, int)
    decreases nows.len(),
{
    if nows.len() == 0 {
        (acc, t)
    } else {
        let before = nows.drop_last();
        let prev = if before.len() == 0 {
            last
        } else {
            before.last()
        };
        let (a, u) = clock_after(acc, t, last, before, dt);
        let n = steps_taken(a, prev, nows.last(), dt);
        ((a + frame_time(prev, nows.last())) % dt, u + n * dt)
    }
}

/// Over any sequence of calls, the simulation takes exactly as many steps as
/// whole `dt` fit into the wall-clock time handed to it (plus what the
/// accumulator held), and the accumulator ends in `[0, dt)`.
pub proof fn lemma_steps_match_elapsed_time(acc: int, t: int, last: int, nows: Seq<int>, dt: int)
    requires
        dt > 0,
        0 <= acc < dt,
    ensures
        ({
            let (a, u) = clock_after(acc, t, last, nows, dt);
            let e = acc + elapsed_over(last, nows);
            &&& u == t + (e / dt) * dt
            &&& a == e % dt
            &&& 0 <= a < dt
        }),
    decreases nows.len(),
{
    if nows.len() > 0 {
        let before = nows.drop_last();
        let prev = if before.len() == 0 {
            last
        } else {
            before.last()
        };
        lemma_steps_match_elapsed_time(acc, t, last, before, dt);
        let (a, u) = clock_after(acc, t, last, before, dt);
        let x = acc + elapsed_over(last, before);
        let f = frame_time(prev, nows.last());
        let q = x / dt;
        let q2 = (a + f) / dt;
        let r2 = (a + f) % dt;
        lemma_fundamental_div_mod(x, dt);
        lemma_fundamental_div_mod(a + f, dt);
        lemma_mul_is_distributive_add_other_way(dt, q, q2);
        lemma_mul_is_commutative(q, dt);
        lemma_mul_is_commutative(q2, dt);
        lemma_mul_is_commutative(q + q2, dt);
        lemma_fundamental_div_mod_converse(x + f, dt, q + q2, r2);
        lemma_mod_bound(a + f, dt);
    } else {
        lemma_small_div_mod(acc, dt);
    }
}

proof fn lemma_small_div_mod(x: int, d: int)
    requires
        0 <= x < d,
    ensures
        x / d == 0,
        x % d == x,
{
    lemma_fundamental_div_mod_converse(x, d, 0, x);
}

proof fn lemma_mod_bound(x: int, d: int)
    requires
        d > 0,
        x >= 0,
    ensures
        0 <= x % d < d,
{
    lemma_mod_pos_bound(x, d);
}

/// A wall-clock gap longer than `MAX_FRAME_TIME` takes exactly as many steps
/// as a gap of `MAX_FRAME_TIME`.
pub proof fn lemma_long_gap_is_clamped(acc: int, last: int, now: int, dt: int)
    requires
        now - last > MAX_FRAME_TIME,
    ensures
        steps_taken(acc, last, now, dt) == steps_taken(acc, last, last + MAX_FRAME_TIME, dt),
{
}

/// A blended scalar lies between the two states it blends.
pub proof fn lemma_scalar_blend_between(current: i64, previous: i64, num: int, den: int)
    requires
        0 < den,
        0 <= num <= den,
    ensures
        min(previous as int, current as int) <= <i64 as Interpolatable>::blend(current, num, den, previous)
            <= max(previous as int, current as int),
{
    lemma_lerp_between(previous as int, current as int, num, den);
}

/// `lerp` stays within its two end points.
pub proof fn lemma_lerp_between(from: int, to: int, num: int, den: int)
    requires
        0 < den,
        0 <= num <= den,
    ensures
        min(from, to) <= lerp(from, to, num, den) <= max(from, to),
{
    if to >= from {
        lemma_fraction_shrinks(to - from, num, den);
    } else {
        lemma_fraction_shrinks(from - to, num, den);
    }
}

} // verus!
