//! Comparison of single precision floats held by their IEEE-754 bit
//! patterns. A finite `f32` is an integer multiple of the smallest
//! subnormal, `2^-149`; the functions here count in that unit, so that the
//! rounding of `f32` subtraction can be stated with integers alone.
use vstd::arithmetic::mul::lemma_mul_inequality;
use vstd::arithmetic::power2::{
    lemma2_to64, lemma2_to64_rest, lemma_pow2_adds, lemma_pow2_strictly_increases,
    lemma_pow2_unfold, pow2,
};
use vstd::prelude::*;

verus! {

/// The biased exponent field of an `f32` bit pattern.
pub open spec fn exponent_field(x: u32) -> int {
    (x as int / 0x80_0000) % 0x100
}

/// The fraction field of an `f32` bit pattern.
pub open spec fn fraction_field(x: u32) -> int {
    x as int % 0x80_0000
}

/// Whether the sign bit is set.
pub open spec fn is_negative(x: u32) -> bool {
    x >= 0x8000_0000
}

/// Whether the bit pattern is neither an infinity nor a NaN.
pub open spec fn is_finite_bits(x: u32) -> bool {
    exponent_field(x) != 0xff
}

/// The significand of a finite pattern, with its hidden bit for a normal one.
pub open spec fn significand(x: u32) -> int {
    if exponent_field(x) == 0 {
        fraction_field(x)
    } else {
        fraction_field(x) + 0x80_0000
    }
}

/// The power of two that the significand is scaled by, in units of `2^-149`.
pub open spec fn scale(x: u32) -> nat {
    if exponent_field(x) == 0 {
        0
    } else {
        (exponent_field(x) - 1) as nat
    }
}

/// The absolute value of a finite pattern, in units of `2^-149`.
pub open spec fn magnitude(x: u32) -> int {
    significand(x) * pow2(scale(x))
}

/// The value of a finite pattern, in units of `2^-149`.
pub open spec fn value(x: u32) -> int {
    if is_negative(x) {
        -magnitude(x)
    } else {
        magnitude(x)
    }
}

/// `f32::EPSILON` (`2^-23`) less half the spacing of the floats just below
/// it (`2^-48`), in units of `2^-149`: an exact difference rounds to a float
/// below `f32::EPSILON` exactly when it is below this bound (at the bound
/// itself the tie goes to the even neighbour, `f32::EPSILON`).
pub open spec fn epsilon_bound() -> int {
    0x3fff_ffe0_0000_0000_0000_0000_0000_0000
}

/// Whether `(f32::from_bits(a) - f32::from_bits(b)).abs() < f32::EPSILON`:
/// a NaN or an infinity compares unequal to everything, and otherwise the
/// exact difference, rounded to the nearest `f32`, is below `f32::EPSILON`.
pub open spec fn within_epsilon(a: u32, b: u32) -> bool {
    &&& is_finite_bits(a)
    &&& is_finite_bits(b)
    &&& -epsilon_bound() < value(a) - value(b) < epsilon_bound()
}

/// Values of the powers of two used below.
proof fn lemma_powers()
    ensures
        pow2(0) == 1,
        pow2(2) == 4,
        pow2(23) == 0x80_0000,
        pow2(24) == 0x100_0000,
        pow2(25) == 0x200_0000,
        pow2(101) == 0x20_0000_0000_0000_0000_0000_0000,
        pow2(102) == 0x40_0000_0000_0000_0000_0000_0000,
        pow2(103) == 0x80_0000_0000_0000_0000_0000_0000,
        pow2(104) == 0x100_0000_0000_0000_0000_0000_0000,
        pow2(127) == 0x8000_0000_0000_0000_0000_0000_0000_0000,
{
    lemma2_to64();
    lemma2_to64_rest();
    let p64 = pow2(64);
    let p37 = pow2(37);
    let p38 = pow2(38);
    let p39 = pow2(39);
    let p40 = pow2(40);
    let p63 = pow2(63);
    lemma_pow2_adds(64, 37);
    lemma_pow2_adds(64, 38);
    lemma_pow2_adds(64, 39);
    lemma_pow2_adds(64, 40);
    lemma_pow2_adds(64, 63);
    assert(p64 * p37 == 0x20_0000_0000_0000_0000_0000_0000 && p64 * p38
        == 0x40_0000_0000_0000_0000_0000_0000 && p64 * p39 == 0x80_0000_0000_0000_0000_0000_0000
        && p64 * p40 == 0x100_0000_0000_0000_0000_0000_0000 && p64 * p63
        == 0x8000_0000_0000_0000_0000_0000_0000_0000) by (nonlinear_arith)
        requires
            p64 == 0x1_0000_0000_0000_0000,
            p37 == 0x20_0000_0000,
            p38 == 0x40_0000_0000,
            p39 == 0x80_0000_0000,
            p40 == 0x100_0000_0000,
            p63 == 0x8000_0000_0000_0000,
    ;
}

/// `2^e` for an exponent that fits in a `u128`.
fn pow2_u128(e: u32) -> (r: u128)
    requires
        e <= 127,
    ensures
        r == pow2(e as nat),
{
    proof {
        lemma_powers();
    }
    let mut r: u128 = 1;
    let mut i: u32 = 0;
    while i < e
        invariant
            i <= e <= 127,
            r == pow2(i as nat),
            pow2(127) == 0x8000_0000_0000_0000_0000_0000_0000_0000,
        decreases e - i,
    {
        proof {
            lemma_pow2_unfold((i + 1) as nat);
            if i + 1 < 127 {
                lemma_pow2_strictly_increases((i + 1) as nat, 127);
            }
        }
        r = r * 2;
        i = i + 1;
    }
    r
}

/// The significand and the scale of a finite pattern.
fn float_parts(x: u32) -> (r: (u32, u32))
    requires
        is_finite_bits(x),
    ensures
        r.0 == significand(x),
        r.1 == scale(x),
        r.0 < 0x100_0000,
        r.1 <= 253,
        r.1 > 0 ==> r.0 >= 0x80_0000,
{
    let e = (x / 0x80_0000) % 0x100;
    let f = x % 0x80_0000;
    if e == 0 {
        (f, 0)
    } else {
        (f + 0x80_0000, e - 1)
    }
}

/// How far apart the values of two finite patterns are, in units of `2^-149`.
spec fn distance(a: u32, b: u32) -> int {
    if is_negative(a) == is_negative(b) {
        if magnitude(a) >= magnitude(b) {
            magnitude(a) - magnitude(b)
        } else {
            magnitude(b) - magnitude(a)
        }
    } else {
        magnitude(a) + magnitude(b)
    }
}

proof fn lemma_distance(a: u32, b: u32)
    ensures
        magnitude(a) >= 0,
        magnitude(b) >= 0,
        (-epsilon_bound() < value(a) - value(b) < epsilon_bound()) == (distance(a, b)
            < epsilon_bound()),
{
    let sa = significand(a);
    let pa = pow2(scale(a));
    let sb = significand(b);
    let pb = pow2(scale(b));
    assert(sa * pa >= 0) by (nonlinear_arith)
        requires
            sa >= 0,
            pa >= 0,
    ;
    assert(sb * pb >= 0) by (nonlinear_arith)
        requires
            sb >= 0,
            pb >= 0,
    ;
}

/// A finite float is within `f32::EPSILON` of itself (`0.0` and `-0.0`
/// included, which have the same value), a NaN or an infinity is not, and
/// the comparison does not depend on the order of its arguments.
pub proof fn lemma_within_epsilon_reflexive_symmetric(a: u32, b: u32)
    ensures
        within_epsilon(a, a) == is_finite_bits(a),
        within_epsilon(a, b) == within_epsilon(b, a),
        is_finite_bits(a) && is_finite_bits(b) && fraction_field(a) == 0 && fraction_field(b) == 0
            && exponent_field(a) == 0 && exponent_field(b) == 0 ==> within_epsilon(a, b),
{
    lemma_powers();
}

/// Whether `(f32::from_bits(a) - f32::from_bits(b)).abs() < f32::EPSILON`,
/// computed on the bit patterns.
pub fn f32_bits_within_epsilon(a: u32, b: u32) -> (r: bool)
    ensures
        r == within_epsilon(a, b),
{
    if (a / 0x80_0000) % 0x100 == 0xff || (b / 0x80_0000) % 0x100 == 0xff {
        return false;
    }
    proof {
        lemma_distance(a, b);
        lemma_powers();
    }
    let (ma, sa) = float_parts(a);
    let (mb, sb) = float_parts(b);
    let same_sign = (a >= 0x8000_0000) == (b >= 0x8000_0000);
    let (m_hi, s_hi, m_lo, s_lo) = if sa >= sb {
        (ma, sa, mb, sb)
    } else {
        (mb, sb, ma, sa)
    };
    let ghost hi_mag: int = m_hi * pow2(s_hi as nat);
    let ghost lo_mag: int = m_lo * pow2(s_lo as nat);
    assert(distance(a, b) == if same_sign {
        if hi_mag >= lo_mag {
            hi_mag - lo_mag
        } else {
            lo_mag - hi_mag
        }
    } else {
        hi_mag + lo_mag
    });
    assert(hi_mag >= 0 && lo_mag >= 0);
    if s_hi <= 103 {
        let p_hi = pow2_u128(s_hi);
        let p_lo = pow2_u128(s_lo);
        proof {
            if s_hi < 103 {
                lemma_pow2_strictly_increases(s_hi as nat, 103);
            }
            if s_lo < 103 {
                lemma_pow2_strictly_increases(s_lo as nat, 103);
            }
            assert(m_hi * p_hi < 0x8000_0000_0000_0000_0000_0000_0000_0000) by (nonlinear_arith)
                requires
                    0 <= m_hi < 0x100_0000,
                    0 <= p_hi <= 0x80_0000_0000_0000_0000_0000_0000,
            ;
            assert(m_lo * p_lo < 0x8000_0000_0000_0000_0000_0000_0000_0000) by (nonlinear_arith)
                requires
                    0 <= m_lo < 0x100_0000,
                    0 <= p_lo <= 0x80_0000_0000_0000_0000_0000_0000,
            ;
        }
        let mh = m_hi as u128 * p_hi;
        let ml = m_lo as u128 * p_lo;
        let d = if same_sign {
            if mh >= ml {
                mh - ml
            } else {
                ml - mh
            }
        } else {
            mh + ml
        };
        d < 0x3fff_ffe0_0000_0000_0000_0000_0000_0000u128
    } else if !same_sign {
        proof {
            if s_hi > 104 {
                lemma_pow2_strictly_increases(104, s_hi as nat);
            }
            let p = pow2(s_hi as nat);
            assert(m_hi * p >= 0x8000_0000_0000_0000_0000_0000_0000_0000) by (nonlinear_arith)
                requires
                    m_hi >= 0x80_0000,
                    p >= 0x100_0000_0000_0000_0000_0000_0000,
            ;
        }
        false
    } else if s_hi - s_lo >= 2 {
        proof {
            let e = (s_hi - 2) as nat;
            let p = pow2(e);
            let q = pow2(s_lo as nat);
            lemma_pow2_adds(2, e);
            if (s_lo as nat) < e {
                lemma_pow2_strictly_increases(s_lo as nat, e);
            }
            if e > 102 {
                lemma_pow2_strictly_increases(102, e);
            }
            assert(hi_mag >= 0x200_0000 * p) by (nonlinear_arith)
                requires
                    hi_mag == m_hi * (4 * p),
                    m_hi >= 0x80_0000,
                    p >= 0,
            ;
            assert(lo_mag <= 0x100_0000 * p) by (nonlinear_arith)
                requires
                    lo_mag == m_lo * q,
                    0 <= m_lo < 0x100_0000,
                    0 <= q <= p,
            ;
        }
        false
    } else {
        let k: u32 = s_hi - s_lo;
        let big: u64 = if k == 0 {
            m_hi as u64
        } else {
            2 * (m_hi as u64)
        };
        let dd: u64 = if big >= m_lo as u64 {
            big - m_lo as u64
        } else {
            m_lo as u64 - big
        };
        let j: u32 = s_lo - 101;
        let ghost q = pow2(s_lo as nat);
        let ghost pj = pow2(j as nat);
        proof {
            if k == 1 {
                lemma_pow2_unfold(s_hi as nat);
            }
            assert(hi_mag == big * q) by (nonlinear_arith)
                requires
                    hi_mag == m_hi * pow2(s_hi as nat),
                    k == 0 ==> big == m_hi && s_hi == s_lo,
                    k == 1 ==> big == 2 * m_hi && pow2(s_hi as nat) == 2 * q,
                    k == 0 || k == 1,
                    q == pow2(s_lo as nat),
            ;
            assert(distance(a, b) == dd * q) by (nonlinear_arith)
                requires
                    distance(a, b) == if hi_mag >= lo_mag {
                        hi_mag - lo_mag
                    } else {
                        lo_mag - hi_mag
                    },
                    hi_mag == big * q,
                    lo_mag == m_lo * q,
                    q >= 0,
                    dd == if big >= m_lo {
                        big - m_lo
                    } else {
                        m_lo - big
                    },
            ;
            lemma_pow2_adds(j as nat, 101);
            assert(distance(a, b) == (dd * pj) * 0x20_0000_0000_0000_0000_0000_0000) by (nonlinear_arith)
                requires
                    distance(a, b) == dd * q,
                    q == pj * 0x20_0000_0000_0000_0000_0000_0000,
            ;
        }
        if dd == 0 {
            true
        } else if j >= 25 {
            proof {
                if j > 25 {
                    lemma_pow2_strictly_increases(25, j as nat);
                }
                lemma_mul_inequality(1, dd as int, pj as int);
            }
            false
        } else {
            let p = pow2_u128(j);
            proof {
                if j < 24 {
                    lemma_pow2_strictly_increases(j as nat, 24);
                }
                assert(dd * p < 0x2_0000_0000_0000) by (nonlinear_arith)
                    requires
                        0 <= dd < 0x200_0000,
                        0 <= p <= 0x100_0000,
                ;
            }
            (dd as u128) * p < 0x1ff_ffffu128
        }
    }
}

} // verus!
