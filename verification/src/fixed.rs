//! Fixed-point reals. A real quantity is held as an `i64` that counts
//! millionths, so `UNIT` stands for 1.0. Every formula of the crate is stated
//! over these integers and rounds toward zero where it divides.

use vstd::prelude::*;

verus! {

/// The fixed-point representation of 1.0.
pub const UNIT: i64 = 1_000_000;

/// `v` limited to the closed interval from zero to one.
pub open spec fn spec_clamp_unit(v: int) -> int {
    if v < 0 {
        0
    } else if v > UNIT as int {
        UNIT as int
    } else {
        v
    }
}

/// `v` limited to what an `i64` can hold.
pub open spec fn spec_saturate(v: int) -> int {
    if v < i64::MIN as int {
        i64::MIN as int
    } else if v > i64::MAX as int {
        i64::MAX as int
    } else {
        v
    }
}

/// Limits a fixed-point value to the closed interval from zero to one.
pub fn clamp_unit(v: i64) -> (r: i64)
    ensures
        r as int == spec_clamp_unit(v as int),
        0 <= r <= UNIT,
{
    if v < 0 {
        0
    } else if v > UNIT {
        UNIT
    } else {
        v
    }
}

/// Addition that stops at the ends of the `i64` range.
pub fn saturating_sum(a: i64, b: i64) -> (r: i64)
    ensures
        r as int == spec_saturate(a as int + b as int),
{
    let wide: i128 = a as i128 + b as i128;
    if wide < i64::MIN as i128 {
        i64::MIN
    } else if wide > i64::MAX as i128 {
        i64::MAX
    } else {
        wide as i64
    }
}

/// Subtraction that stops at the ends of the `i64` range.
pub fn saturating_difference(a: i64, b: i64) -> (r: i64)
    ensures
        r as int == spec_saturate(a as int - b as int),
{
    let wide: i128 = a as i128 - b as i128;
    if wide < i64::MIN as i128 {
        i64::MIN
    } else if wide > i64::MAX as i128 {
        i64::MAX
    } else {
        wide as i64
    }
}

/// `r` is the integer part of the cube root of `x`.
pub open spec fn is_cube_root(x: nat, r: nat) -> bool {
    r * r * r <= x < (r + 1) * (r + 1) * (r + 1)
}

/// The integer part of the cube root of `x`.
pub open spec fn spec_cube_root(x: nat) -> nat {
    choose|r: nat| is_cube_root(x, r)
}

/// `r` is the integer part of the square root of `x`.
pub open spec fn is_square_root(x: nat, r: nat) -> bool {
    r * r <= x < (r + 1) * (r + 1)
}

/// The integer part of the square root of `x`.
pub open spec fn spec_square_root(x: nat) -> nat {
    choose|r: nat| is_square_root(x, r)
}

/// The integer part of a cube root is unique.
pub proof fn lemma_cube_root_unique(x: nat, a: nat, b: nat)
    requires
        is_cube_root(x, a),
        is_cube_root(x, b),
    ensures
        a == b,
{
    if a < b {
        assert((a + 1) * (a + 1) * (a + 1) <= b * b * b) by (nonlinear_arith)
            requires
                a + 1 <= b,
        ;
    } else if b < a {
        assert((b + 1) * (b + 1) * (b + 1) <= a * a * a) by (nonlinear_arith)
            requires
                b + 1 <= a,
        ;
    }
}

/// The integer part of a square root is unique.
pub proof fn lemma_square_root_unique(x: nat, a: nat, b: nat)
    requires
        is_square_root(x, a),
        is_square_root(x, b),
    ensures
        a == b,
{
    if a < b {
        assert((a + 1) * (a + 1) <= b * b) by (nonlinear_arith)
            requires
                a + 1 <= b,
        ;
    } else if b < a {
        assert((b + 1) * (b + 1) <= a * a) by (nonlinear_arith)
            requires
                b + 1 <= a,
        ;
    }
}

/// Every number has a square root with an integer part.
pub proof fn lemma_square_root_exists(x: nat)
    ensures
        is_square_root(x, spec_square_root(x)),
    decreases x,
{
    if x == 0 {
        assert(0nat * 0nat <= 0 && 0 < (0nat + 1) * (0nat + 1)) by (nonlinear_arith);
        assert(is_square_root(0, 0));
    } else {
        lemma_square_root_exists((x - 1) as nat);
        let below = spec_square_root((x - 1) as nat);
        if x < (below + 1) * (below + 1) {
            assert(is_square_root(x, below));
        } else {
            assert((below + 1) * (below + 1) < (below + 2) * (below + 2)) by (nonlinear_arith);
            assert(is_square_root(x, below + 1));
        }
    }
}

/// The integer part of the cube root of `x`, found by bisection.
pub fn cube_root(x: u64) -> (r: u64)
    ensures
        is_cube_root(x as nat, r as nat),
        r as nat == spec_cube_root(x as nat),
        r <= 2_642_245,
{
    let mut lo: u64 = 0;
    let mut hi: u64 = 2_642_246;
    assert(2_642_246 * 2_642_246 * 2_642_246 > u64::MAX) by (nonlinear_arith);
    while hi - lo > 1
        invariant
            lo < hi <= 2_642_246,
            lo * lo * lo <= x < hi * hi * hi,
        decreases hi - lo,
    {
        let mid: u64 = lo + (hi - lo) / 2;
        assert(mid * mid <= 2_642_246 * 2_642_246 && mid * mid * mid <= 2_642_246 * 2_642_246
            * 2_642_246) by (nonlinear_arith)
            requires
                mid <= 2_642_246,
        ;
        let cube: u128 = (mid as u128) * (mid as u128) * (mid as u128);
        if cube <= x as u128 {
            lo = mid;
        } else {
            hi = mid;
        }
    }
    proof {
        assert(is_cube_root(x as nat, lo as nat));
        lemma_cube_root_unique(x as nat, lo as nat, spec_cube_root(x as nat));
    }
    lo
}

/// The integer part of the square root of `x`, found by bisection.
pub fn square_root(x: u128) -> (r: u128)
    ensures
        is_square_root(x as nat, r as nat),
        r as nat == spec_square_root(x as nat),
        r < 0x1_0000_0000_0000_0000,
{
    let mut lo: u128 = 0;
    let mut hi: u128 = 0x1_0000_0000_0000_0000;
    assert(0x1_0000_0000_0000_0000 * 0x1_0000_0000_0000_0000 > u128::MAX) by (nonlinear_arith);
    while hi - lo > 1
        invariant
            lo < hi <= 0x1_0000_0000_0000_0000,
            lo * lo <= x < hi * hi,
        decreases hi - lo,
    {
        let mid: u128 = lo + (hi - lo) / 2;
        assert(mid * mid <= 0xffff_ffff_ffff_ffff * 0xffff_ffff_ffff_ffff) by (nonlinear_arith)
            requires
                mid <= 0xffff_ffff_ffff_ffff,
        ;
        let square: u128 = mid * mid;
        if square <= x {
            lo = mid;
        } else {
            hi = mid;
        }
    }
    proof {
        assert(is_square_root(x as nat, lo as nat));
        lemma_square_root_unique(x as nat, lo as nat, spec_square_root(x as nat));
    }
    lo
}

} // verus!
