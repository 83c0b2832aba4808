//! Exact fixed-point mapping between grid cells and world-space positions.
//!
//! World positions are held in 16.16 fixed point (`WORLD_SCALE` units per
//! world unit), with one twist that keeps the whole mapping exact: the `x`
//! axis is stored in multiples of `sqrt(3)`. For a flat-layout hex tiling
//! the forward transform is `x = (q * 0.5 + r) * (sqrt(3) / 2)`,
//! `z = 0.75 * q`, so with `x` in `sqrt(3)` units both components are the
//! integer multiples `(q + 2 * r) * WORLD_SCALE / 4` and
//! `3 * q * WORLD_SCALE / 4` of a quarter unit, and the inverse transform
//! — fractional axial coordinates plus cube rounding — becomes exact
//! integer arithmetic with denominator `3 * WORLD_SCALE`.

use vstd::prelude::*;
use vstd::arithmetic::div_mod::lemma_div_multiples_vanish_fancy;
use vstd::arithmetic::div_mod::lemma_fundamental_div_mod;
use vstd::arithmetic::div_mod::lemma_mod_bound;
use crate::hex::CellId;
use crate::hex::abs_int;

verus! {

/// Fixed-point denominator: world units are stored scaled by 2^16.
pub const WORLD_SCALE: i64 = 65536;

/// A quarter world unit in fixed point; `4 * QUARTER_SCALE == WORLD_SCALE`.
pub const QUARTER_SCALE: i64 = 16384;

/// Denominator of the fractional axial coordinates that the inverse
/// transform rounds: `3 * WORLD_SCALE`.
pub const FRAC_DEN: i64 = 196608;

/// Largest magnitude `from_world` accepts on the `x` and `z` axes (2^43 in
/// fixed point, about 134 million world units): keeps every intermediate
/// in `i64` and the rounded cell inside `i32`.
pub const WORLD_LIMIT: i64 = 0x800_0000_0000;

/// A world-space position in fixed point. `x` is stored in multiples of
/// `sqrt(3)` world units, `y` and `z` in plain world units; each component
/// is scaled by `WORLD_SCALE`.
#[derive(Clone, Copy, Debug, PartialEq, Eq, Structural, Hash)]
pub struct WorldPos {
    pub x: i64,
    pub y: i64,
    pub z: i64,
}

impl View for WorldPos {
    type V = (int, int, int);

    open spec fn view(&self) -> (int, int, int) {
        (self.x as int, self.y as int, self.z as int)
    }
}

/// The forward transform of a cell at height `y`.
pub open spec fn world_of(a: (int, int), y: int) -> (int, int, int) {
    ((a.0 + 2 * a.1) * (QUARTER_SCALE as int), y, 3 * a.0 * (QUARTER_SCALE as int))
}

/// `n / d` rounded to the nearest integer, halves away from zero
/// (the rounding used on each cube axis before repair).
pub open spec fn round_frac_spec(n: int, d: int) -> int
    recommends
        d > 0,
{
    if n >= 0 {
        (2 * n + d) / (2 * d)
    } else {
        -((2 * (-n) + d) / (2 * d))
    }
}

/// Cube rounding of the fractional axial coordinate `(qn / d, rn / d)`:
/// round each cube axis to the nearest integer, then recompute the axis
/// whose rounding moved strictly farthest from the two others, so that the
/// result satisfies the cube invariant exactly.
pub open spec fn axial_round(qn: int, rn: int, d: int) -> (int, int)
    recommends
        d > 0,
{
    let sn = -qn - rn;
    let qr = round_frac_spec(qn, d);
    let rr = round_frac_spec(rn, d);
    let sr = round_frac_spec(sn, d);
    let dq = abs_int(qn - qr * d);
    let dr = abs_int(rn - rr * d);
    let ds = abs_int(sn - sr * d);
    if dq > dr && dq > ds {
        (-rr - sr, rr)
    } else if dr > dq && dr > ds {
        (qr, -qr - sr)
    } else {
        (qr, rr)
    }
}

/// The inverse transform: fractional axial coordinates
/// `q' = (4 / 3) * z` and `r' = -(2 / 3) * z + (2 * sqrt(3) / 3) * x`
/// (recall `x` is stored in `sqrt(3)` units), expressed over the common
/// denominator `3 * WORLD_SCALE` and cube-rounded.
pub open spec fn from_world_spec(w: (int, int, int)) -> (int, int) {
    axial_round(4 * w.2, 6 * w.0 - 2 * w.2, FRAC_DEN as int)
}

/// Nearest-integer rounding never moves a value by more than the
/// denominator, and rounding an exact multiple of the denominator is exact.
proof fn lemma_round_frac_close(n: int, d: int)
    requires
        d > 0,
    ensures
        abs_int(n - round_frac_spec(n, d) * d) <= d,
        n >= 0 ==> round_frac_spec(n, d) >= 0,
        n < 0 ==> round_frac_spec(n, d) <= 0,
{
    if n >= 0 {
        let r = round_frac_spec(n, d);
        lemma_fundamental_div_mod(2 * n + d, 2 * d);
        lemma_mod_bound(2 * n + d, 2 * d);
        assert(2 * n + d == (2 * d) * r + (2 * n + d) % (2 * d));
        assert(r >= 0) by (nonlinear_arith)
            requires
                d > 0,
                2 * n + d == (2 * d) * r + (2 * n + d) % (2 * d),
                0 <= (2 * n + d) % (2 * d) < 2 * d,
                n >= 0,
        {
        }
        assert(abs_int(n - r * d) <= d) by (nonlinear_arith)
            requires
                d > 0,
                2 * n + d == (2 * d) * r + (2 * n + d) % (2 * d),
                0 <= (2 * n + d) % (2 * d) < 2 * d,
        {
        }
    } else {
        let m = -n;
        let k = (2 * m + d) / (2 * d);
        lemma_fundamental_div_mod(2 * m + d, 2 * d);
        lemma_mod_bound(2 * m + d, 2 * d);
        assert(k >= 0) by (nonlinear_arith)
            requires
                d > 0,
                2 * m + d == (2 * d) * k + (2 * m + d) % (2 * d),
                0 <= (2 * m + d) % (2 * d) < 2 * d,
                m > 0,
        {
        }
        assert(abs_int(m - k * d) <= d) by (nonlinear_arith)
            requires
                d > 0,
                2 * m + d == (2 * d) * k + (2 * m + d) % (2 * d),
                0 <= (2 * m + d) % (2 * d) < 2 * d,
        {
        }
        assert(round_frac_spec(n, d) == -k);
        assert(n - (-k) * d == -(m - k * d)) by (nonlinear_arith)
            requires
                m == -n,
        {
        }
    }
}

/// Rounding an exact multiple of the denominator returns the multiplier.
proof fn lemma_round_frac_exact(k: int, d: int)
    requires
        d > 0,
    ensures
        round_frac_spec(k * d, d) == k,
{
    if k >= 0 {
        assert(2 * (k * d) + d == (2 * d) * k + d) by (nonlinear_arith);
        lemma_div_multiples_vanish_fancy(k, d, 2 * d);
        assert(k * d >= 0) by (nonlinear_arith)
            requires
                k >= 0,
                d > 0,
        {
        }
    } else {
        let m = -k;
        assert(2 * (m * d) + d == (2 * d) * m + d) by (nonlinear_arith);
        lemma_div_multiples_vanish_fancy(m, d, 2 * d);
        assert(k * d < 0) by (nonlinear_arith)
            requires
                k < 0,
                d > 0,
        {
        }
        assert(-(k * d) == m * d) by (nonlinear_arith)
            requires
                m == -k,
        {
        }
    }
}

/// Law: the inverse transform applied to the exact forward transform of
/// any cell returns that cell, at any height.
pub proof fn lemma_world_round_trip(a: (int, int), y: int)
    ensures
        from_world_spec(world_of(a, y)) == a,
{
    let d = FRAC_DEN as int;
    let w = world_of(a, y);
    assert(4 * w.2 == a.0 * d) by (nonlinear_arith)
        requires
            w.2 == 3 * a.0 * 16384,
            d == 196608,
    {
    }
    assert(6 * w.0 - 2 * w.2 == a.1 * d) by (nonlinear_arith)
        requires
            w.0 == (a.0 + 2 * a.1) * 16384,
            w.2 == 3 * a.0 * 16384,
            d == 196608,
    {
    }
    assert(-(a.0 * d) - a.1 * d == (-a.0 - a.1) * d) by (nonlinear_arith);
    lemma_round_frac_exact(a.0, d);
    lemma_round_frac_exact(a.1, d);
    lemma_round_frac_exact(-a.0 - a.1, d);
    assert(a.0 * d - a.0 * d == 0);
    assert(from_world_spec(w) == (a.0, a.1));
}

/// Nearest-integer rounding of `n / FRAC_DEN`, halves away from zero.
fn round_frac(n: i64) -> (r: i64)
    requires
        -0x2_0000_0000_0000 <= n <= 0x2_0000_0000_0000,
    ensures
        r == round_frac_spec(n as int, FRAC_DEN as int),
{
    proof {
        lemma_round_frac_close(n as int, FRAC_DEN as int);
    }
    if n >= 0 {
        let m: u64 = n as u64;
        let k: u64 = (2 * m + 196608) / 393216;
        k as i64
    } else {
        let m: u64 = (-n) as u64;
        let k: u64 = (2 * m + 196608) / 393216;
        -(k as i64)
    }
}

impl CellId {
    /// The world-space position of this cell's centre at height `y`
    /// (fixed point; see the module description for the axis conventions).
    pub fn xyz(&self, y: i64) -> (w: WorldPos)
        ensures
            w@ == world_of(self@, y as int),
    {
        let x: i64 = (self.q as i64 + 2 * (self.r as i64)) * QUARTER_SCALE;
        let z: i64 = 3 * (self.q as i64) * QUARTER_SCALE;
        WorldPos { x, y, z }
    }
}

/// The cell nearest to a world-space position, by cube rounding of the
/// exact fractional axial coordinates.
pub fn from_world(w: &WorldPos) -> (c: CellId)
    requires
        -WORLD_LIMIT <= w@.0 <= WORLD_LIMIT,
        -WORLD_LIMIT <= w@.2 <= WORLD_LIMIT,
    ensures
        c@ == from_world_spec(w@),
{
    let qn: i64 = 4 * w.z;
    let rn: i64 = 6 * w.x - 2 * w.z;
    let sn: i64 = -qn - rn;
    let qr: i64 = round_frac(qn);
    let rr: i64 = round_frac(rn);
    let sr: i64 = round_frac(sn);
    proof {
        lemma_round_frac_close(qn as int, FRAC_DEN as int);
        lemma_round_frac_close(rn as int, FRAC_DEN as int);
        lemma_round_frac_close(sn as int, FRAC_DEN as int);
    }
    let dq: i64 = if qn - qr * 196608 < 0 {
        -(qn - qr * 196608)
    } else {
        qn - qr * 196608
    };
    let dr: i64 = if rn - rr * 196608 < 0 {
        -(rn - rr * 196608)
    } else {
        rn - rr * 196608
    };
    let ds: i64 = if sn - sr * 196608 < 0 {
        -(sn - sr * 196608)
    } else {
        sn - sr * 196608
    };
    if dq > dr && dq > ds {
        CellId { q: (-rr - sr) as i32, r: rr as i32 }
    } else if dr > dq && dr > ds {
        CellId { q: qr as i32, r: (-qr - sr) as i32 }
    } else {
        CellId { q: qr as i32, r: rr as i32 }
    }
}

} // verus!
