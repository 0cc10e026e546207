//! 64-bit IEEE 754 numbers held as their bit patterns, with the comparisons
//! of `f64` and the widening of a signed 64-bit integer to `f64`.
use vstd::arithmetic::power2::{lemma2_to64, lemma2_to64_rest, lemma_pow2_adds, lemma_pow2_pos, lemma_pow2_strictly_increases, lemma_pow2_unfold, pow2};
use vstd::prelude::*;

verus! {

/// A 64-bit IEEE 754 binary floating-point number, as its bit pattern
/// (what `f64::to_bits` gives and `f64::from_bits` takes).
#[derive(Clone, Copy, Debug, PartialEq, Eq, Structural)]
pub struct Double {
    pub bits: u64,
}

pub open spec fn sign_mask() -> int {
    0x8000_0000_0000_0000
}

/// The bits of a number without its sign bit: its absolute value's pattern.
pub open spec fn magnitude(b: u64) -> int {
    (b as int) % sign_mask()
}

/// Not a number: all exponent bits set and a nonzero fraction.
pub open spec fn is_nan(b: u64) -> bool {
    magnitude(b) > 0x7ff0_0000_0000_0000
}

/// Among numbers that are not NaN, the order of `f64` is the order of this
/// key; both zeros have key 0.
pub open spec fn order_key(b: u64) -> int {
    if (b as int) >= sign_mask() {
        -magnitude(b)
    } else {
        magnitude(b)
    }
}

/// `a == b` on `f64`.
pub open spec fn double_eq(a: u64, b: u64) -> bool {
    !is_nan(a) && !is_nan(b) && order_key(a) == order_key(b)
}

/// `a < b` on `f64`.
pub open spec fn double_lt(a: u64, b: u64) -> bool {
    !is_nan(a) && !is_nan(b) && order_key(a) < order_key(b)
}

/// `a <= b` on `f64`.
pub open spec fn double_le(a: u64, b: u64) -> bool {
    !is_nan(a) && !is_nan(b) && order_key(a) <= order_key(b)
}

/// The position of the highest set bit of `m` (for `m >= 1`).
pub open spec fn log2(m: nat) -> nat
    decreases m,
{
    if m <= 1 {
        0
    } else {
        1 + log2(m / 2)
    }
}

/// `m / 2^s` rounded to the nearest integer, ties to the even one (`s >= 1`).
pub open spec fn round_shift(m: nat, s: nat) -> nat {
    let q = m / pow2(s);
    let r = m % pow2(s);
    let h = pow2((s - 1) as nat);
    if r > h || (r == h && q % 2 == 1) {
        q + 1
    } else {
        q
    }
}

/// The bit pattern of `v as f64`: the magnitude is rounded to 53 significant
/// bits, ties to even, and packed with its sign and biased exponent. A
/// significand that rounds up to `2^53` carries into the exponent by the sum.
pub open spec fn widen_bits(v: int) -> int {
    let m: nat = (if v < 0 {
        -v
    } else {
        v
    }) as nat;
    if m == 0 {
        0
    } else {
        let p = log2(m);
        let sign = if v < 0 {
            sign_mask()
        } else {
            0
        };
        let q = if p <= 52 {
            m * pow2((52 - p) as nat)
        } else {
            round_shift(m, (p - 52) as nat)
        };
        sign + (p + 1023) * pow2(52) + q - pow2(52)
    }
}

proof fn lemma_log2_bounds(m: nat)
    requires
        m >= 1,
    ensures
        pow2(log2(m)) <= m < pow2(log2(m) + 1),
    decreases m,
{
    if m > 1 {
        lemma_log2_bounds(m / 2);
        let l = log2(m / 2);
        lemma_pow2_unfold(l + 1);
        lemma_pow2_unfold(l + 2);
        assert(log2(m) == l + 1);
    } else {
        lemma_pow2_unfold(1);
        lemma2_to64();
    }
}

proof fn lemma_log2_unique(m: nat, p: nat)
    requires
        pow2(p) <= m < pow2(p + 1),
    ensures
        log2(m) == p,
{
    lemma_pow2_pos(p);
    lemma_log2_bounds(m);
    let l = log2(m);
    if l < p {
        lemma_pow2_strictly_increases(l + 1, p);
        if l + 1 == p {
        }
    } else if l > p {
        lemma_pow2_strictly_increases(p + 1, l);
        if p + 1 == l {
        }
    }
}

/// `2^e` for `e < 64`.
fn pow2_u64(e: u64) -> (r: u64)
    requires
        e < 64,
    ensures
        r == pow2(e as nat),
{
    let mut r: u64 = 1;
    let mut i: u64 = 0;
    proof {
        lemma2_to64();
    }
    while i < e
        invariant
            i <= e < 64,
            r == pow2(i as nat),
        decreases e - i,
    {
        proof {
            lemma_pow2_unfold(i as nat + 1);
            lemma2_to64();
            lemma_pow2_strictly_increases(i as nat + 1, 64);
        }
        r = r * 2;
        i = i + 1;
    }
    r
}

/// `a == b` on two numbers.
pub fn eq(a: Double, b: Double) -> (r: bool)
    ensures
        r == double_eq(a.bits, b.bits),
{
    !is_nan_exec(a) && !is_nan_exec(b) && key(a) == key(b)
}

/// `a < b` on two numbers.
pub fn lt(a: Double, b: Double) -> (r: bool)
    ensures
        r == double_lt(a.bits, b.bits),
{
    !is_nan_exec(a) && !is_nan_exec(b) && key(a) < key(b)
}

/// `a <= b` on two numbers.
pub fn le(a: Double, b: Double) -> (r: bool)
    ensures
        r == double_le(a.bits, b.bits),
{
    !is_nan_exec(a) && !is_nan_exec(b) && key(a) <= key(b)
}

fn is_nan_exec(a: Double) -> (r: bool)
    ensures
        r == is_nan(a.bits),
{
    a.bits % 0x8000_0000_0000_0000 > 0x7ff0_0000_0000_0000
}

fn key(a: Double) -> (r: i128)
    ensures
        r == order_key(a.bits),
{
    let m = (a.bits % 0x8000_0000_0000_0000) as i128;
    if a.bits >= 0x8000_0000_0000_0000 {
        -m
    } else {
        m
    }
}

/// The number nearest to `v`, as `v as f64` gives it.
pub fn widen(v: i64) -> (r: Double)
    ensures
        r.bits == widen_bits(v as int),
{
    if v == 0 {
        return Double { bits: 0 };
    }
    let m: u64 = if v == i64::MIN {
        0x8000_0000_0000_0000
    } else if v < 0 {
        (-v) as u64
    } else {
        v as u64
    };
    let ghost mn: nat = (if v < 0 {
        -(v as int)
    } else {
        v as int
    }) as nat;
    assert(m == mn);
    proof {
        lemma2_to64();
        lemma2_to64_rest();
    }
    let mut p: u64 = 0;
    let mut pw: u64 = 1;
    while pw <= m / 2
        invariant
            1 <= m,
            pw == pow2(p as nat),
            1 <= pw <= m,
            p < 64,
        decreases m - pw,
    {
        proof {
            lemma_pow2_unfold(p as nat + 1);
            if p >= 63 {
                lemma2_to64_rest();
                if p > 63 {
                    lemma_pow2_strictly_increases(63, p as nat);
                }
                assert(pw >= 0x8000_0000_0000_0000);
            }
        }
        pw = pw * 2;
        p = p + 1;
    }
    proof {
        lemma_pow2_unfold(p as nat + 1);
        assert(m < 2 * pw);
        lemma_log2_unique(m as nat, p as nat);
    }
    let sign: u64 = if v < 0 {
        0x8000_0000_0000_0000
    } else {
        0
    };
    let q: u64 = if p <= 52 {
        let d = pow2_u64(52 - p);
        proof {
            lemma_pow2_adds(p as nat, (52 - p) as nat);
            lemma_pow2_pos((52 - p) as nat);
            assert(pw * d == pow2(52));
            assert(m * d < 2 * pow2(52)) by (nonlinear_arith)
                requires
                    m < 2 * pw,
                    pw * d == pow2(52),
                    d > 0,
            ;
            assert(m * d >= pow2(52)) by (nonlinear_arith)
                requires
                    m >= pw,
                    pw * d == pow2(52),
                    d > 0,
            ;
        }
        m * d
    } else {
        let s = p - 52;
        let d = pow2_u64(s);
        let h = pow2_u64(s - 1);
        let q0 = m / d;
        let r0 = m % d;
        proof {
            lemma_pow2_adds(52, s as nat);
            lemma_pow2_adds(1, (s - 1) as nat);
            lemma_pow2_pos(s as nat);
            assert(q0 >= pow2(52)) by (nonlinear_arith)
                requires
                    m >= pw,
                    pw == pow2(52) * d,
                    d > 0,
                    q0 == m / d,
            ;
            assert(q0 < 2 * pow2(52)) by (nonlinear_arith)
                requires
                    m < 2 * pw,
                    pw == pow2(52) * d,
                    d > 0,
                    q0 == m / d,
            ;
        }
        if r0 > h || (r0 == h && q0 % 2 == 1) {
            q0 + 1
        } else {
            q0
        }
    };
    assert(0x10_0000_0000_0000 <= q <= 0x20_0000_0000_0000);
    assert(p <= 63);
    Double { bits: sign + (p + 1023) * 0x10_0000_0000_0000 + (q - 0x10_0000_0000_0000) }
}

} // verus!
