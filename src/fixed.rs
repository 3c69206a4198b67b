//! Fixed-point quantities shared by the simulation.
//!
//! Lengths are counted in micro-blocks (a voxel is `BLOCK` units wide), time in
//! microseconds, velocities in units per second and accelerations in units per
//! second squared. Integer arithmetic keeps every step exactly reproducible.
use vstd::prelude::*;
use vstd::arithmetic::div_mod::*;
use vstd::arithmetic::mul::*;

verus! {

/// Width of one voxel, in length units.
pub const BLOCK: i64 = 1_000_000;

/// Length of one second, in time units.
pub const SECOND: u64 = 1_000_000;

/// `v * num / den`, rounded toward zero.
pub open spec fn scaled(v: int, num: int, den: int) -> int {
    if v >= 0 {
        v * num / den
    } else {
        -((-v) * num / den)
    }
}

/// The value `num / den` of the way from `from` to `to`, rounded toward `from`.
pub open spec fn lerp(from: int, to: int, num: int, den: int) -> int {
    from + scaled(to - from, num, den)
}

pub open spec fn abs(v: int) -> int {
    if v >= 0 {
        v
    } else {
        -v
    }
}

pub open spec fn min(a: int, b: int) -> int {
    if a <= b {
        a
    } else {
        b
    }
}

pub open spec fn max(a: int, b: int) -> int {
    if a >= b {
        a
    } else {
        b
    }
}

/// A non-negative magnitude shrinks (or stays) when scaled by a fraction at most one.
pub proof fn lemma_fraction_shrinks(m: int, num: int, den: int)
    requires
        m >= 0,
        0 <= num <= den,
        den > 0,
    ensures
        0 <= m * num / den <= m,
{
    lemma_mul_inequality(num, den, m);
    lemma_mul_is_commutative(m, num);
    lemma_mul_is_commutative(m, den);
    lemma_mul_nonnegative(m, num);
    lemma_div_is_ordered(m * num, m * den, den);
    lemma_div_multiples_vanish(m, den);
    lemma_div_pos_is_pos(m * num, den);
}

/// `v * num / den` rounded toward zero, for a fraction `num / den` at most one.
pub fn scale(v: i64, num: u64, den: u64) -> (r: i64)
    requires
        den > 0,
        num <= den,
    ensures
        r == scaled(v as int, num as int, den as int),
        abs(r as int) <= abs(v as int),
{
    let m: u128 = if v >= 0 {
        v as u128
    } else {
        (-(v as i128)) as u128
    };
    proof {
        lemma_fraction_shrinks(m as int, num as int, den as int);
        lemma_mul_upper_bound(m as int, 0x8000_0000_0000_0000, num as int, 0xffff_ffff_ffff_ffff);
    }
    let q: u128 = m * (num as u128) / (den as u128);
    if v >= 0 {
        q as i64
    } else {
        -(q as i128) as i64
    }
}

/// The value `num / den` of the way from `from` to `to`, rounded toward `from`.
pub fn interpolate_scalar(from: i64, to: i64, num: u64, den: u64) -> (r: i64)
    requires
        den > 0,
        num <= den,
    ensures
        r == lerp(from as int, to as int, num as int, den as int),
        min(from as int, to as int) <= r <= max(from as int, to as int),
{
    let d: i128 = to as i128 - from as i128;
    let m: u128 = if d >= 0 {
        d as u128
    } else {
        (-d) as u128
    };
    proof {
        lemma_fraction_shrinks(m as int, num as int, den as int);
        lemma_mul_upper_bound(m as int, 0x1_0000_0000_0000_0000, num as int, 0xffff_ffff_ffff_ffff);
    }
    let q: u128 = m * (num as u128) / (den as u128);
    if d >= 0 {
        (from as i128 + q as i128) as i64
    } else {
        (from as i128 - q as i128) as i64
    }
}

/// Largest integer `q` with `q * BLOCK <= c`: the voxel that holds coordinate `c`.
pub fn voxel_floor(c: i64) -> (r: i64)
    ensures
        r == c as int / BLOCK as int,
{
    if c >= 0 {
        ((c as u64) / (BLOCK as u64)) as i64
    } else {
        let m: u64 = (-(c as i128) - 1) as u64;
        let q: u64 = m / (BLOCK as u64);
        proof {
            let rem = m as int % BLOCK as int;
            lemma_fundamental_div_mod(m as int, BLOCK as int);
            lemma_fundamental_div_mod_converse(
                c as int,
                BLOCK as int,
                -(q as int) - 1,
                BLOCK as int - rem - 1,
            );
        }
        -(q as i64) - 1
    }
}

} // verus!
