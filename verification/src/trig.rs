use vstd::prelude::*;
use crate::num::{tdiv, lemma_div_bound};

verus! {

/// Angles are fixed-point fractions of a full turn: `ANGLE_FULL` units are
/// one full turn, so `ANGLE_HALF` is a half turn and `ANGLE_QUARTER` a
/// quarter turn.
pub const ANGLE_FULL: u64 = 65536;

pub const ANGLE_HALF: u64 = 32768;

pub const ANGLE_QUARTER: u64 = 16384;

/// Scale of the fixed-point sine and cosine values: `sin_fp` and `cos_fp`
/// return values in `[-TRIG_SCALE, TRIG_SCALE]`.
pub const TRIG_SCALE: i64 = 65536;

/// Addition of two angles, wrapping around a full turn.
pub open spec fn add_angle_spec(a: u64, d: u64) -> u64 {
    ((a + d) % (ANGLE_FULL as int)) as u64
}

pub fn add_angle(a: u64, d: u64) -> (r: u64)
    requires
        a < ANGLE_FULL,
        d < ANGLE_FULL,
    ensures
        r == add_angle_spec(a, d),
        r < ANGLE_FULL,
{
    (a + d) % ANGLE_FULL
}

/// Subtraction of an angle, wrapping around a full turn.
pub open spec fn sub_angle_spec(a: u64, d: u64) -> u64 {
    add_angle_spec(a, ((ANGLE_FULL as int - d as int % ANGLE_FULL as int) % ANGLE_FULL as int) as u64)
}

pub fn sub_angle(a: u64, d: u64) -> (r: u64)
    requires
        a < ANGLE_FULL,
    ensures
        r == sub_angle_spec(a, d),
        r < ANGLE_FULL,
{
    let dm: u64 = d % ANGLE_FULL;
    add_angle(a, (ANGLE_FULL - dm) % ANGLE_FULL)
}

/// Fixed-point sine: a parabola through the sine's zeroes and peak on each
/// half turn, scaled to `TRIG_SCALE`. Exact trigonometric accuracy is not a
/// goal; the network only needs a deterministic, smooth direction field.
pub open spec fn sin_fp_spec(a: u64) -> int
    recommends
        a < ANGLE_FULL,
{
    if a < ANGLE_HALF {
        (a * (ANGLE_HALF - a)) / 4096
    } else {
        -(((a - ANGLE_HALF) * (ANGLE_FULL - a)) / 4096)
    }
}

/// Fixed-point cosine: the sine shifted by a quarter turn.
pub open spec fn cos_fp_spec(a: u64) -> int
    recommends
        a < ANGLE_FULL,
{
    sin_fp_spec(add_angle_spec(a, ANGLE_QUARTER))
}

pub fn sin_fp(a: u64) -> (r: i64)
    requires
        a < ANGLE_FULL,
    ensures
        r == sin_fp_spec(a),
        -TRIG_SCALE <= r <= TRIG_SCALE,
{
    if a < ANGLE_HALF {
        assert(a * (ANGLE_HALF - a) <= 268435456) by (nonlinear_arith)
            requires
                a < 32768,
        {}
        let t: u64 = a * (ANGLE_HALF - a);
        let v: u64 = t / 4096;
        proof {
            lemma_div_bound(t as int, 268435456, 4096);
        }
        v as i64
    } else {
        let b: u64 = a - ANGLE_HALF;
        assert((a - ANGLE_HALF) * (ANGLE_FULL - a) <= 268435456) by (nonlinear_arith)
            requires
                ANGLE_HALF <= a < ANGLE_FULL,
        {}
        let t: u64 = b * (ANGLE_FULL - a);
        let v: u64 = t / 4096;
        proof {
            lemma_div_bound(t as int, 268435456, 4096);
        }
        -(v as i64)
    }
}

pub fn cos_fp(a: u64) -> (r: i64)
    requires
        a < ANGLE_FULL,
    ensures
        r == cos_fp_spec(a),
        -TRIG_SCALE <= r <= TRIG_SCALE,
{
    let shifted: u64 = add_angle(a, ANGLE_QUARTER);
    sin_fp(shifted)
}

/// Scales a non-negative length by a fixed-point trigonometric value,
/// truncating toward zero.
pub open spec fn scale_trig_spec(len: int, c: int) -> int {
    tdiv(len * c, TRIG_SCALE as int)
}

pub fn scale_trig(len: i64, c: i64) -> (r: i64)
    requires
        0 <= len <= 1_000_000,
        -TRIG_SCALE <= c <= TRIG_SCALE,
    ensures
        r == scale_trig_spec(len as int, c as int),
        -len <= r <= len,
{
    if c >= 0 {
        assert((len as u64) * (c as u64) <= 65536000000 && (len as u64) * (c as u64) == len * c)
            by (nonlinear_arith)
            requires
                0 <= len <= 1_000_000,
                0 <= c <= 65536,
        {}
        let p: u64 = (len as u64) * (c as u64);
        let q: u64 = p / 65536;
        assert(len * c <= len * 65536) by (nonlinear_arith)
            requires
                0 <= len,
                c <= 65536,
        {}
        proof {
            lemma_div_bound(p as int, len * 65536, 65536);
            vstd::arithmetic::div_mod::lemma_div_multiples_vanish(len as int, 65536);
        }
        q as i64
    } else {
        let cn: i64 = -c;
        assert((len as u64) * (cn as u64) <= 65536000000 && (len as u64) * (cn as u64) == len * cn)
            by (nonlinear_arith)
            requires
                0 <= len <= 1_000_000,
                0 <= cn <= 65536,
        {}
        let p: u64 = (len as u64) * (cn as u64);
        let q: u64 = p / 65536;
        assert(len * cn <= len * 65536) by (nonlinear_arith)
            requires
                0 <= len,
                cn <= 65536,
        {}
        proof {
            lemma_div_bound(p as int, len * 65536, 65536);
            vstd::arithmetic::div_mod::lemma_div_multiples_vanish(len as int, 65536);
            assert(len * c == -(len * cn)) by (nonlinear_arith)
                requires
                    cn == -c,
            {}
        }
        -(q as i64)
    }
}

} // verus!
