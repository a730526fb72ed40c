//! Saturating signed fixed-point scalars.
//!
//! A value is stored as a raw `i64` count of millionths of a unit
//! (`SCALE` raw steps are one unit).  Results of every operation are
//! clamped into the symmetric range `[-MAX_RAW, MAX_RAW]`, so every
//! operation is total and no operation panics.  Multiplication and
//! division truncate toward zero; `sat`, `tdiv`, `fmul`, `fdiv` and
//! `fsqrt` are the spec-level model of the executable methods.

use vstd::prelude::*;

verus! {

/// Raw steps per unit: the number one is stored as `SCALE`.
pub const SCALE: i64 = 1_000_000;

/// Largest representable raw magnitude (a thousand million units).
pub const MAX_RAW: i64 = 1_000_000_000_000_000;

/// One half, in raw steps.
pub const HALF_RAW: i64 = 500_000;

/// Clamp a mathematical integer into the representable raw range.
pub open spec fn sat(v: int) -> int {
    if v > MAX_RAW {
        MAX_RAW as int
    } else if v < -MAX_RAW {
        -MAX_RAW as int
    } else {
        v
    }
}

/// Quotient of `n` by a positive divisor `d`, truncated toward zero.
pub open spec fn tdiv(n: int, d: int) -> int {
    if n >= 0 {
        n / d
    } else {
        -((-n) / d)
    }
}

/// The raw value of a fixed-point sum.
pub open spec fn fadd(a: int, b: int) -> int {
    sat(a + b)
}

/// The raw value of a fixed-point difference.
pub open spec fn fsub(a: int, b: int) -> int {
    sat(a - b)
}

/// The raw value of a fixed-point negation.
pub open spec fn fneg(a: int) -> int {
    sat(-a)
}

/// The raw value of a fixed-point product: the exact raw product is
/// rescaled by `SCALE` with truncation toward zero, then clamped.
pub open spec fn fmul(a: int, b: int) -> int {
    sat(tdiv(a * b, SCALE as int))
}

/// The raw value of a fixed-point quotient, truncated toward zero and
/// clamped; dividing by zero yields zero.
pub open spec fn fdiv(a: int, b: int) -> int {
    if b == 0 {
        0
    } else if (a < 0) <==> (b < 0) {
        sat(vstd::math::abs(a) * (SCALE as int) / (vstd::math::abs(b) as int))
    } else {
        sat(-(vstd::math::abs(a) * (SCALE as int) / (vstd::math::abs(b) as int)))
    }
}

/// The product of two values in the `i64` range fits in an `i128`.
pub proof fn lemma_i64_mul_fits_i128(a: int, b: int)
    by (nonlinear_arith)
    requires
        i64::MIN <= a <= i64::MAX,
        i64::MIN <= b <= i64::MAX,
    ensures
        -0x40000000000000000000000000000000 <= a * b
            <= 0x40000000000000000000000000000000,  // 2^126
{
}

/// Whether a raw value lies in the representable range.
pub open spec fn wf(a: int) -> bool {
    -MAX_RAW <= a <= MAX_RAW
}

/// Multiplying a representable value by one gives it back exactly.
pub proof fn lemma_fmul_one(a: int)
    requires
        wf(a),
    ensures
        fmul(a, SCALE as int) == a,
{
    if a >= 0 {
        vstd::arithmetic::div_mod::lemma_div_multiples_vanish(a, SCALE as int);
    } else {
        vstd::arithmetic::div_mod::lemma_div_multiples_vanish(-a, SCALE as int);
    }
}

/// Multiplying by zero gives zero.
pub proof fn lemma_fmul_zero(a: int)
    ensures
        fmul(a, 0) == 0,
        fmul(0, a) == 0,
{
    assert(a * 0 == 0) by (nonlinear_arith);
    assert(0 * a == 0) by (nonlinear_arith);
}

/// Fixed-point multiplication is commutative.
pub proof fn lemma_fmul_comm(a: int, b: int)
    ensures
        fmul(a, b) == fmul(b, a),
{
    assert(a * b == b * a) by (nonlinear_arith);
}

/// For factors of at most thirty thousand units the product does not
/// clamp: it is the rescaled true product, truncated toward zero.
pub proof fn lemma_fmul_small(a: int, b: int)
    requires
        -30_000_000_000 <= a <= 30_000_000_000,
        -30_000_000_000 <= b <= 30_000_000_000,
    ensures
        fmul(a, b) == tdiv(a * b, SCALE as int),
        -900_000_000_000_000 <= fmul(a, b) <= 900_000_000_000_000,
{
    assert(-900_000_000_000_000_000_000 <= a * b <= 900_000_000_000_000_000_000)
        by (nonlinear_arith)
        requires
            -30_000_000_000 <= a <= 30_000_000_000,
            -30_000_000_000 <= b <= 30_000_000_000,
    {
    }
    if a * b >= 0 {
        vstd::arithmetic::div_mod::lemma_div_is_ordered(a * b, 900_000_000_000_000_000_000,
            SCALE as int);
        vstd::arithmetic::div_mod::lemma_div_pos_is_pos(a * b, SCALE as int);
        assert(900_000_000_000_000_000_000int / (SCALE as int) == 900_000_000_000_000);
    } else {
        vstd::arithmetic::div_mod::lemma_div_is_ordered(-(a * b), 900_000_000_000_000_000_000,
            SCALE as int);
        vstd::arithmetic::div_mod::lemma_div_pos_is_pos(-(a * b), SCALE as int);
        assert(900_000_000_000_000_000_000int / (SCALE as int) == 900_000_000_000_000);
    }
}

/// Multiplying `k` whole units by `x` gives `k * x` exactly, whenever
/// that is representable.
pub proof fn lemma_fmul_whole(k: int, x: int)
    requires
        wf(k * x),
    ensures
        fmul(k * SCALE, x) == k * x,
{
    assert((k * SCALE) * x == SCALE * (k * x)) by (nonlinear_arith);
    if k * x >= 0 {
        vstd::arithmetic::div_mod::lemma_div_multiples_vanish(k * x, SCALE as int);
    } else {
        vstd::arithmetic::div_mod::lemma_div_multiples_vanish(-(k * x), SCALE as int);
        assert(-((k * SCALE) * x) == SCALE * (-(k * x))) by (nonlinear_arith);
    }
}

/// The raw value clamped into the unit interval `[0, SCALE]`.
pub open spec fn fclamp01(a: int) -> int {
    if a < 0 {
        0
    } else if a > SCALE {
        SCALE as int
    } else {
        a
    }
}

/// The raw value of the `e`-th fixed-point power of `a`, with the
/// multiplications performed from the outside in.
pub open spec fn fpow(a: int, e: nat) -> int
    decreases e,
{
    if e == 0 {
        SCALE as int
    } else {
        fmul(a, fpow(a, (e - 1) as nat))
    }
}

/// The integer square root: the largest `r` with `r * r <= n`.
pub open spec fn sqrt_floor(n: nat) -> nat
    decreases n,
{
    if n == 0 {
        0
    } else {
        let p = sqrt_floor((n - 1) as nat);
        if (p + 1) * (p + 1) <= n {
            p + 1
        } else {
            p
        }
    }
}

/// The raw value of a fixed-point square root: zero for non-positive
/// inputs, else the integer square root of the raw value rescaled so
/// the result is again in raw units.
pub open spec fn fsqrt(a: int) -> int {
    if a <= 0 {
        0
    } else {
        sqrt_floor((a * (SCALE as int)) as nat) as int
    }
}

/// `sqrt_floor(n)` squared is at most `n`, and the next square is above it.
pub proof fn lemma_sqrt_floor_bounds(n: nat)
    ensures
        sqrt_floor(n) * sqrt_floor(n) <= n,
        n < (sqrt_floor(n) + 1) * (sqrt_floor(n) + 1),
    decreases n,
{
    if n == 0 {
        assert(sqrt_floor(0) == 0);
        assert(n < (sqrt_floor(n) + 1) * (sqrt_floor(n) + 1)) by (nonlinear_arith)
            requires
                n == 0,
                sqrt_floor(n) == 0,
        {
        }
    } else {
        lemma_sqrt_floor_bounds((n - 1) as nat);
        let p = sqrt_floor((n - 1) as nat);
        if (p + 1) * (p + 1) <= n {
            assert(sqrt_floor(n) == p + 1);
            assert(n < (sqrt_floor(n) + 1) * (sqrt_floor(n) + 1)) by (nonlinear_arith)
                requires
                    n <= (p + 1) * (p + 1) + 1,
                    0 <= p,
                    sqrt_floor(n) == p + 1,
            {
            }
        } else {
            assert(sqrt_floor(n) == p);
        }
    }
}

/// Any `r` whose square brackets `n` is the integer square root of `n`.
pub proof fn lemma_sqrt_floor_unique(n: nat, r: nat)
    requires
        r * r <= n,
        n < (r + 1) * (r + 1),
    ensures
        r == sqrt_floor(n),
{
    let s = sqrt_floor(n);
    lemma_sqrt_floor_bounds(n);
    if r < s {
        assert((r + 1) * (r + 1) <= s * s) by (nonlinear_arith)
            requires
                r + 1 <= s,
                0 <= r,
        {
        }
    }
    if s < r {
        assert((s + 1) * (s + 1) <= r * r) by (nonlinear_arith)
            requires
                s + 1 <= r,
                0 <= s,
        {
        }
    }
}

/// A fixed-point scalar: `raw` millionths of a unit.
#[derive(Clone, Copy, Debug, PartialEq, Eq, Structural)]
pub struct Fx {
    pub raw: i64,
}

impl View for Fx {
    type V = int;

    open spec fn view(&self) -> int {
        self.raw as int
    }
}

impl Fx {
    /// The zero scalar.
    pub fn zero() -> (r: Fx)
        ensures
            r@ == 0,
    {
        Fx { raw: 0 }
    }

    /// The scalar one.
    pub fn one() -> (r: Fx)
        ensures
            r@ == SCALE,
    {
        Fx { raw: SCALE }
    }

    /// A scalar from a raw count of millionths, clamped into range.
    pub fn from_raw(raw: i64) -> (r: Fx)
        ensures
            r@ == sat(raw as int),
    {
        Fx { raw: sat_i64(raw) }
    }

    /// A scalar from a whole number of units, clamped into range.
    pub fn from_int(units: i64) -> (r: Fx)
        ensures
            r@ == sat(units * SCALE),
    {
        proof {
            lemma_i64_mul_fits_i128(units as int, SCALE as int);
        }
        let wide: i128 = (units as i128) * (SCALE as i128);
        Fx { raw: sat_i128(wide) }
    }

    /// The raw count of millionths.
    pub fn raw(&self) -> (r: i64)
        ensures
            r == self@,
    {
        self.raw
    }

    /// Fixed-point addition, clamped.
    pub fn add(self, rhs: Fx) -> (r: Fx)
        ensures
            r@ == fadd(self@, rhs@),
    {
        let wide: i128 = (self.raw as i128) + (rhs.raw as i128);
        Fx { raw: sat_i128(wide) }
    }

    /// Fixed-point subtraction, clamped.
    pub fn sub(self, rhs: Fx) -> (r: Fx)
        ensures
            r@ == fsub(self@, rhs@),
    {
        let wide: i128 = (self.raw as i128) - (rhs.raw as i128);
        Fx { raw: sat_i128(wide) }
    }

    /// Fixed-point negation, clamped.
    pub fn neg(self) -> (r: Fx)
        ensures
            r@ == fneg(self@),
    {
        let wide: i128 = -(self.raw as i128);
        Fx { raw: sat_i128(wide) }
    }

    /// Fixed-point multiplication, truncated toward zero and clamped.
    pub fn mul(self, rhs: Fx) -> (r: Fx)
        ensures
            r@ == fmul(self@, rhs@),
    {
        proof {
            lemma_i64_mul_fits_i128(self.raw as int, rhs.raw as int);
        }
        let p: i128 = (self.raw as i128) * (rhs.raw as i128);
        let q: i128 = tdiv_by_scale(p);
        Fx { raw: sat_i128(q) }
    }

    /// Fixed-point division, truncated toward zero and clamped; a zero
    /// divisor yields zero.
    pub fn div(self, rhs: Fx) -> (r: Fx)
        ensures
            r@ == fdiv(self@, rhs@),
    {
        if rhs.raw == 0 {
            return Fx { raw: 0 };
        }
        let am: u128 = if self.raw >= 0 {
            self.raw as u128
        } else {
            (-(self.raw as i128)) as u128
        };
        let bm: u128 = if rhs.raw >= 0 {
            rhs.raw as u128
        } else {
            (-(rhs.raw as i128)) as u128
        };
        proof {
            assert(am * (SCALE as u128) <= 0x8000000000000000u128 * 0x100000u128)
                by (nonlinear_arith)
                requires
                    am <= 0x8000000000000000u128,
                    SCALE as u128 <= 0x100000u128,
            {
            }
        }
        let wide: u128 = am * (SCALE as u128);
        let q: u128 = wide / bm;
        proof {
            vstd::arithmetic::div_mod::lemma_div_nonincreasing(wide as int, bm as int);
        }
        let signed: i128 = if (self.raw < 0) == (rhs.raw < 0) {
            q as i128
        } else {
            -(q as i128)
        };
        Fx { raw: sat_i128(signed) }
    }

    /// Fixed-point square root: zero for non-positive inputs.
    pub fn sqrt(self) -> (r: Fx)
        ensures
            r@ == fsqrt(self@),
    {
        if self.raw <= 0 {
            return Fx { raw: 0 };
        }
        proof {
            assert((self.raw as u128) * (SCALE as u128) < 0x1000000000000000000000u128)
                by (nonlinear_arith)
                requires
                    self.raw as u128 <= 0x8000000000000000u128,
                    SCALE as u128 <= 0x100000u128,
            {
            }
        }
        let n: u128 = (self.raw as u128) * (SCALE as u128);
        let root: u128 = isqrt(n);
        proof {
            lemma_sqrt_floor_unique(n as nat, root as nat);
            assert(root <= 0x40000000000u128) by (nonlinear_arith)
                requires
                    (root as int) * (root as int) <= n as int,
                    (n as int) < 0x1000000000000000000000,
                    root >= 0,
            {
            }
        }
        Fx { raw: root as i64 }
    }

    /// Clamp into the unit interval `[0, 1]`.
    pub fn clamp01(self) -> (r: Fx)
        ensures
            r@ == fclamp01(self@),
    {
        if self.raw < 0 {
            Fx { raw: 0 }
        } else if self.raw > SCALE {
            Fx { raw: SCALE }
        } else {
            self
        }
    }

    /// The `e`-th fixed-point power, by repeated multiplication.
    pub fn pow(self, e: u32) -> (r: Fx)
        ensures
            r@ == fpow(self@, e as nat),
    {
        let mut result: Fx = Fx { raw: SCALE };
        let mut i: u32 = 0;
        while i < e
            invariant
                i <= e,
                result@ == fpow(self@, i as nat),
            decreases e - i,
        {
            result = self.mul(result);
            i = i + 1;
        }
        result
    }
}

/// Quotient by `SCALE`, truncated toward zero.
fn tdiv_by_scale(n: i128) -> (r: i128)
    requires
        i128::MIN < n,
    ensures
        r as int == tdiv(n as int, SCALE as int),
{
    if n >= 0 {
        let q: u128 = (n as u128) / (SCALE as u128);
        q as i128
    } else {
        let q: u128 = ((-n) as u128) / (SCALE as u128);
        -(q as i128)
    }
}

/// The integer square root of `n`, by bisection.
fn isqrt(n: u128) -> (r: u128)
    requires
        n < 0x1000000000000000000000u128,  // 2^84
    ensures
        (r as int) * (r as int) <= n as int,
        (n as int) < (r + 1) * (r + 1),
{
    let mut lo: u128 = 0;
    let mut hi: u128 = 0x40000000000;  // 2^42
    proof {
        assert((0x40000000000 as int) * (0x40000000000 as int) == 0x1000000000000000000000int)
            by (nonlinear_arith);
    }
    while hi - lo > 1
        invariant
            lo < hi <= 0x40000000000u128,
            (lo as int) * (lo as int) <= n as int,
            (n as int) < (hi as int) * (hi as int),
        decreases hi - lo,
    {
        let mid: u128 = lo + (hi - lo) / 2;
        proof {
            assert((mid as int) * (mid as int) < 0x100000000000000000000000)
                by (nonlinear_arith)
                requires
                    mid <= 0x40000000000u128,
            {
            }
        }
        if mid * mid <= n {
            lo = mid;
        } else {
            hi = mid;
        }
    }
    lo
}

/// Clamp an `i64` into the representable raw range.
fn sat_i64(v: i64) -> (r: i64)
    ensures
        r as int == sat(v as int),
{
    if v > MAX_RAW {
        MAX_RAW
    } else if v < -MAX_RAW {
        -MAX_RAW
    } else {
        v
    }
}

/// Clamp an `i128` into the representable raw range.
fn sat_i128(v: i128) -> (r: i64)
    ensures
        r as int == sat(v as int),
{
    if v > (MAX_RAW as i128) {
        MAX_RAW
    } else if v < -(MAX_RAW as i128) {
        -MAX_RAW
    } else {
        v as i64
    }
}

} // verus!
