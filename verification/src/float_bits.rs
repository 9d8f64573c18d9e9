//! IEEE-754 double-precision semantics over raw bit patterns.
//!
//! The engine never performs float arithmetic: a float value enters as a
//! bit pattern, is carried around unchanged, and is only ever compared.
//! Equality and ordering of doubles are functions of the bits alone, so
//! they are defined here as integer logic and verified as such:
//! a double is NaN when its exponent field is all ones and its fraction is
//! non-zero; apart from NaN, doubles order as sign-magnitude integers,
//! with positive and negative zero equal. Promotion of a 64-bit integer to
//! a double (needed for mixed comparisons) is the usual round-to-nearest,
//! ties-to-even conversion, defined arithmetically.

use vstd::prelude::*;
use vstd::arithmetic::power2::*;

verus! {

pub const F64_SIGN_BIT: u64 = 0x8000_0000_0000_0000;
pub const F64_MAG_MASK: u64 = 0x7FFF_FFFF_FFFF_FFFF;
pub const F64_EXP_MASK: u64 = 0x7FF0_0000_0000_0000;
pub const F64_FRAC_MASK: u64 = 0x000F_FFFF_FFFF_FFFF;

/// A double is NaN when the exponent field is all ones and the fraction
/// field is non-zero.
pub open spec fn f64_is_nan(bits: u64) -> bool {
    bits & F64_EXP_MASK == F64_EXP_MASK && bits & F64_FRAC_MASK != 0
}

/// Both zeroes (+0.0 and -0.0) have an all-zero magnitude.
pub open spec fn f64_is_zero(bits: u64) -> bool {
    bits & F64_MAG_MASK == 0
}

/// IEEE equality: NaN equals nothing, the two zeroes are equal, and any
/// other double equals exactly its own bit pattern.
pub open spec fn f64_eq(a: u64, b: u64) -> bool {
    &&& !f64_is_nan(a)
    &&& !f64_is_nan(b)
    &&& (a == b || (f64_is_zero(a) && f64_is_zero(b)))
}

/// The ordering key of a non-NaN double: its magnitude bits, negated when
/// the sign bit is set. Doubles (NaN aside) order exactly as these keys.
pub open spec fn f64_key(bits: u64) -> int {
    if bits & F64_SIGN_BIT == 0 {
        (bits & F64_MAG_MASK) as int
    } else {
        -((bits & F64_MAG_MASK) as int)
    }
}

/// Three-way comparison with the convention the comparison chains use:
/// -1 for less, 1 for greater, 0 otherwise — so any comparison against
/// NaN lands in the 0 ("neither") case.
pub open spec fn f64_cmp(a: u64, b: u64) -> int {
    if !f64_is_nan(a) && !f64_is_nan(b) && f64_key(a) < f64_key(b) {
        -1
    } else if !f64_is_nan(a) && !f64_is_nan(b) && f64_key(a) > f64_key(b) {
        1
    } else {
        0
    }
}

pub fn f64_is_nan_exec(bits: u64) -> (r: bool)
    ensures
        r == f64_is_nan(bits),
{
    bits & F64_EXP_MASK == F64_EXP_MASK && bits & F64_FRAC_MASK != 0
}

pub fn f64_eq_exec(a: u64, b: u64) -> (r: bool)
    ensures
        r == f64_eq(a, b),
{
    !f64_is_nan_exec(a) && !f64_is_nan_exec(b) && (a == b || (a & F64_MAG_MASK == 0 && b
        & F64_MAG_MASK == 0))
}

fn f64_key_exec(bits: u64) -> (r: i64)
    ensures
        r == f64_key(bits),
{
    let mag = bits & F64_MAG_MASK;
    assert(mag <= F64_MAG_MASK) by (bit_vector)
        requires
            mag == bits & F64_MAG_MASK,
    ;
    if bits & F64_SIGN_BIT == 0 {
        mag as i64
    } else {
        -(mag as i64)
    }
}

pub fn f64_cmp_exec(a: u64, b: u64) -> (r: i32)
    ensures
        r == f64_cmp(a, b),
{
    if f64_is_nan_exec(a) || f64_is_nan_exec(b) {
        0
    } else {
        let ka = f64_key_exec(a);
        let kb = f64_key_exec(b);
        if ka < kb {
            -1
        } else if ka > kb {
            1
        } else {
            0
        }
    }
}

/// The position of the highest set bit: `2^msb(m) <= m < 2^(msb(m) + 1)`
/// for `m >= 1`.
pub open spec fn u64_msb(m: u64) -> nat
    decreases m,
{
    if m < 2 {
        0
    } else {
        1 + u64_msb(m / 2)
    }
}

pub proof fn lemma_u64_msb(m: u64)
    requires
        m >= 1,
    ensures
        u64_msb(m) <= 63,
        pow2(u64_msb(m)) <= m < pow2(u64_msb(m) + 1),
    decreases m,
{
    lemma2_to64();
    lemma2_to64_rest();
    if m >= 2 {
        lemma_u64_msb(m / 2);
        let p = u64_msb(m / 2);
        lemma_pow2_adds(p, 1);
        lemma_pow2_adds(p + 1, 1);
        if p + 1 > 63 {
            lemma_pow2_strictly_increases(64, p + 1);
        }
    }
}

fn u64_msb_exec(m: u64) -> (r: u64)
    requires
        m >= 1,
    ensures
        r == u64_msb(m),
        r <= 63,
    decreases m,
{
    proof {
        lemma_u64_msb(m);
    }
    if m < 2 {
        0
    } else {
        1 + u64_msb_exec(m / 2)
    }
}

/// `2^k` for `k <= 63`, as a machine word.
fn pow2_exec(k: u64) -> (r: u64)
    requires
        k <= 63,
    ensures
        r == pow2(k as nat),
{
    proof {
        lemma2_to64();
    }
    let mut j: u64 = 0;
    let mut r: u64 = 1;
    while j < k
        invariant
            j <= k <= 63,
            r == pow2(j as nat),
        decreases k - j,
    {
        proof {
            lemma_pow2_adds(j as nat, 1);
            lemma2_to64();
            if j + 1 <= 63 {
                lemma_pow2_pos((62 - j) as nat);
                lemma_pow2_adds((j + 1) as nat, (62 - j) as nat);
                lemma2_to64_rest();
            }
        }
        r = r * 2;
        j = j + 1;
    }
    r
}

/// The IEEE-754 double nearest to the integer `m * (-1)^neg`, `m >= 1`,
/// with ties rounded to even, written out arithmetically: split `m` into
/// a 53-bit significand and a remainder, round, and pack the fields.
pub open spec fn f64_bits_of_mag(m: u64, neg: bool) -> u64 {
    let p = u64_msb(m);
    let sign: u64 = if neg { F64_SIGN_BIT } else { 0 };
    if p <= 52 {
        (sign + (1023 + p) * pow2(52) + (m * pow2((52 - p) as nat) - pow2(52))) as u64
    } else {
        let shift = (p - 52) as nat;
        let q = m as nat / pow2(shift);
        let r = m as nat % pow2(shift);
        let q2 = if 2 * r > pow2(shift) || (2 * r == pow2(shift) && q % 2 == 1) {
            q + 1
        } else {
            q
        };
        if q2 == pow2(53) {
            (sign + (1024 + p) * pow2(52)) as u64
        } else {
            (sign + (1023 + p) * pow2(52) + (q2 - pow2(52))) as u64
        }
    }
}

/// The bit pattern of the double nearest to `i` (ties to even), i.e. the
/// result of promoting a 64-bit integer to a double.
pub open spec fn f64_bits_of_i64(i: i64) -> u64 {
    if i == 0 {
        0
    } else if i < 0 {
        f64_bits_of_mag((-(i as int)) as u64, true)
    } else {
        f64_bits_of_mag(i as u64, false)
    }
}

fn f64_bits_of_mag_exec(m: u64, neg: bool) -> (bits: u64)
    requires
        m >= 1,
    ensures
        bits == f64_bits_of_mag(m, neg),
{
    proof {
        lemma_u64_msb(m);
        lemma2_to64();
        lemma2_to64_rest();
    }
    let p = u64_msb_exec(m);
    let sign: u64 = if neg {
        F64_SIGN_BIT
    } else {
        0
    };
    let pw52 = pow2_exec(52);
    if p <= 52 {
        let scale = pow2_exec(52 - p);
        proof {
            lemma_pow2_adds((p + 1) as nat, (52 - p) as nat);
            lemma_pow2_adds(p as nat, (52 - p) as nat);
            assert(m * scale < pow2(53)) by (nonlinear_arith)
                requires
                    m < pow2((p + 1) as nat),
                    scale == pow2((52 - p) as nat),
                    scale > 0,
                    pow2((p + 1) as nat) * pow2((52 - p) as nat) == pow2(53),
            ;
            assert(m * scale >= pow2(52)) by (nonlinear_arith)
                requires
                    m >= pow2(p as nat),
                    scale == pow2((52 - p) as nat),
                    scale > 0,
                    pow2(p as nat) * pow2((52 - p) as nat) == pow2(52),
            ;
        }
        let frac = m * scale - pw52;
        sign + (1023 + p) * pw52 + frac
    } else {
        let shift = p - 52;
        let div = pow2_exec(shift);
        proof {
            lemma_pow2_pos(shift as nat);
            if shift > 11 {
                lemma_pow2_strictly_increases(11, shift as nat);
            }
            lemma_pow2_adds(53, shift as nat);
        }
        let q = m / div;
        let r = m % div;
        proof {
            vstd::arithmetic::div_mod::lemma_fundamental_div_mod(m as int, div as int);
            assert(q < pow2(53)) by (nonlinear_arith)
                requires
                    q == (m as int) / (div as int),
                    m as int == ((m as int) / (div as int)) * (div as int) + ((m as int) % (div as int)),
                    0 <= (m as int) % (div as int),
                    m < pow2((p + 1) as nat),
                    pow2((p + 1) as nat) == pow2(53) * div,
                    div > 0,
            ;
            assert(q >= pow2(52)) by (nonlinear_arith)
                requires
                    q == (m as int) / (div as int),
                    m as int == ((m as int) / (div as int)) * (div as int) + ((m as int) % (div as int)),
                    (m as int) % (div as int) < (div as int),
                    m >= pow2(p as nat),
                    pow2(p as nat) == pow2(52) * div,
                    div > 0,
                    pow2(53) == 2 * pow2(52),
            ;
        }
        let q2 = if 2 * r > div || (2 * r == div && q % 2 == 1) {
            q + 1
        } else {
            q
        };
        if q2 == pw52 * 2 {
            sign + (1024 + p) * pw52
        } else {
            sign + (1023 + p) * pw52 + (q2 - pw52)
        }
    }
}

/// Promote a 64-bit integer to the bit pattern of the nearest double,
/// rounding ties to even; this is the conversion that mixed
/// integer/float comparisons use.
pub fn f64_bits_of_i64_exec(i: i64) -> (bits: u64)
    ensures
        bits == f64_bits_of_i64(i),
{
    if i == 0 {
        0
    } else if i < 0 {
        let m: u64 = if i == i64::MIN {
            0x8000_0000_0000_0000u64
        } else {
            (-i) as u64
        };
        f64_bits_of_mag_exec(m, true)
    } else {
        f64_bits_of_mag_exec(i as u64, false)
    }
}

} // verus!
