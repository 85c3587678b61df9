//! The fixed-point scalar.
//!
//! An [`Fx`] holds a raw `i64` that counts steps of 2^-16, so the value it
//! stands for is `raw / 65536`. All arithmetic is exact integer arithmetic
//! on the raw counts: multiplication and division truncate toward zero,
//! exactly as the contracts state.

use vstd::prelude::*;
use crate::GmPrimitive;

verus! {

/// Number of raw steps per unit: the raw count standing for 1.
pub const FX_ONE: i64 = 65536;

/// Magnitude of an integer.
pub open spec fn sabs(x: int) -> int {
    if x >= 0 {
        x
    } else {
        -x
    }
}

/// The larger of two integers.
pub open spec fn imax(a: int, b: int) -> int {
    if a >= b {
        a
    } else {
        b
    }
}

/// The smaller of two integers.
pub open spec fn imin(a: int, b: int) -> int {
    if a <= b {
        a
    } else {
        b
    }
}

/// Truncating (round-toward-zero) division, the rounding machine division
/// uses. Verus's own `/` on `int` is Euclidean; this mirrors `i64`/`i128`
/// division instead.
pub open spec fn tdiv(x: int, d: int) -> int {
    if x == 0 {
        0
    } else if x > 0 && d > 0 {
        x / d
    } else if x < 0 && d < 0 {
        (x * -1) / (d * -1)
    } else if x < 0 {
        ((x * -1) / d) * -1
    } else {
        (x / (d * -1)) * -1
    }
}

/// The raw count of the product of two scalars given by raw counts:
/// `(a * b) / 65536`, truncated toward zero.
pub open spec fn fxmul(a: int, b: int) -> int {
    tdiv(a * b, FX_ONE as int)
}

/// The raw count of the quotient of two scalars given by raw counts:
/// `(a * 65536) / b`, truncated toward zero.
pub open spec fn fxdiv(a: int, b: int) -> int {
    tdiv(a * (FX_ONE as int), b)
}

/// Whether a raw count fits the machine word.
pub open spec fn fx_fits(x: int) -> bool {
    i64::MIN <= x <= i64::MAX
}

/// Truncating division never grows the magnitude.
pub proof fn lemma_tdiv_mag(x: int, d: int)
    requires
        d != 0,
    ensures
        -sabs(x) <= tdiv(x, d) <= sabs(x),
        x >= 0 && d > 0 ==> 0 <= tdiv(x, d) <= x,
        x <= 0 && d > 0 ==> x <= tdiv(x, d) <= 0,
{
    if x == 0 {
    } else if x > 0 && d > 0 {
        vstd::arithmetic::div_mod::lemma_div_pos_is_pos(x, d);
        vstd::arithmetic::div_mod::lemma_div_nonincreasing(x, d);
    } else if x < 0 && d < 0 {
        vstd::arithmetic::div_mod::lemma_div_pos_is_pos(-x, -d);
        vstd::arithmetic::div_mod::lemma_div_nonincreasing(-x, -d);
    } else if x < 0 {
        vstd::arithmetic::div_mod::lemma_div_pos_is_pos(-x, d);
        vstd::arithmetic::div_mod::lemma_div_nonincreasing(-x, d);
    } else {
        vstd::arithmetic::div_mod::lemma_div_pos_is_pos(x, -d);
        vstd::arithmetic::div_mod::lemma_div_nonincreasing(x, -d);
    }
}

/// A truncated quotient with a magnitude-bounded numerator is bounded by
/// the numerator bound divided by the (positive) divisor.
pub proof fn lemma_tdiv_bound(x: int, d: int, c: int)
    requires
        d > 0,
        0 <= c,
        -c <= x <= c,
    ensures
        -(c / d) <= tdiv(x, d) <= c / d,
{
    vstd::arithmetic::div_mod::lemma_div_pos_is_pos(c, d);
    if x == 0 {
    } else if x > 0 {
        vstd::arithmetic::div_mod::lemma_div_pos_is_pos(x, d);
        vstd::arithmetic::div_mod::lemma_div_is_ordered(x, c, d);
    } else {
        vstd::arithmetic::div_mod::lemma_div_pos_is_pos(-x, d);
        vstd::arithmetic::div_mod::lemma_div_is_ordered(-x, c, d);
    }
}

/// Truncating division with its remainder: the quotient times the
/// divisor misses the numerator by less than the divisor, never grows
/// past it in magnitude, and misses on the zero side, so the remainder
/// carries the numerator's sign.
pub proof fn lemma_tdiv_rem(x: int, d: int)
    requires
        d != 0,
    ensures
        (tdiv(x, d) * d) * (tdiv(x, d) * d) <= x * x,
        (x - tdiv(x, d) * d) * (x - tdiv(x, d) * d) < d * d,
        (x - tdiv(x, d) * d) * x >= 0,
    decreases (if d > 0 {
        0int
    } else {
        1int
    }),
{
    if d < 0 {
        lemma_tdiv_rem(x, -d);
        assert(tdiv(x, d) == -tdiv(x, -d));
        assert(tdiv(x, d) * d == tdiv(x, -d) * (-d) && d * d == (-d) * (-d)) by (nonlinear_arith)
            requires
                tdiv(x, d) == -tdiv(x, -d),
        ;
    } else if x == 0 {
        assert(0 < d * d) by (nonlinear_arith)
            requires
                d > 0,
        ;
    } else if x > 0 {
        let q = x / d;
        vstd::arithmetic::div_mod::lemma_fundamental_div_mod(x, d);
        vstd::arithmetic::div_mod::lemma_mod_division_less_than_divisor(x, d);
        vstd::arithmetic::div_mod::lemma_div_pos_is_pos(x, d);
        assert(tdiv(x, d) == q);
        assert(q * d == x - x % d) by (nonlinear_arith)
            requires
                x == d * q + x % d,
        ;
        assert((q * d) * (q * d) <= x * x && (x - q * d) * (x - q * d) < d * d && (x - q * d) * x
            >= 0) by (nonlinear_arith)
            requires
                q * d == x - x % d,
                0 <= x % d < d,
                x > 0,
                q >= 0,
        ;
    } else {
        let y = -x;
        let q = y / d;
        vstd::arithmetic::div_mod::lemma_fundamental_div_mod(y, d);
        vstd::arithmetic::div_mod::lemma_mod_division_less_than_divisor(y, d);
        vstd::arithmetic::div_mod::lemma_div_pos_is_pos(y, d);
        assert(tdiv(x, d) == q * -1);
        assert((q * -1) * d == x + y % d) by (nonlinear_arith)
            requires
                y == d * q + y % d,
                y == -x,
        ;
        assert(((q * -1) * d) * ((q * -1) * d) <= x * x && (x - (q * -1) * d) * (x - (q * -1) * d)
            < d * d && (x - (q * -1) * d) * x >= 0) by (nonlinear_arith)
            requires
                (q * -1) * d == x + y % d,
                0 <= y % d < d,
                x < 0,
                y == -x,
        ;
    }
}

/// A truncated product of magnitude-bounded factors is bounded by the
/// product of the bounds, scaled down by one unit.
pub proof fn lemma_fxmul_bound(a: int, b: int, m: int, n: int)
    requires
        0 <= m,
        0 <= n,
        -m <= a <= m,
        -n <= b <= n,
    ensures
        -((m * n) / (FX_ONE as int)) <= fxmul(a, b) <= (m * n) / (FX_ONE as int),
{
    assert(-(m * n) <= a * b <= m * n) by (nonlinear_arith)
        requires
            0 <= m,
            0 <= n,
            -m <= a <= m,
            -n <= b <= n,
    ;
    vstd::arithmetic::mul::lemma_mul_nonnegative(m, n);
    lemma_tdiv_bound(a * b, FX_ONE as int, m * n);
}

/// Integer square root by recursion: the largest `r` with `r * r <= n`.
pub open spec fn isqrt(n: int) -> int
    decreases n,
{
    if n <= 0 {
        0
    } else {
        let r = isqrt(n - 1);
        if (r + 1) * (r + 1) <= n {
            r + 1
        } else {
            r
        }
    }
}

/// `isqrt` is exactly the floor of the square root.
pub proof fn lemma_isqrt(n: int)
    requires
        n >= 0,
    ensures
        0 <= isqrt(n),
        isqrt(n) * isqrt(n) <= n,
        n < (isqrt(n) + 1) * (isqrt(n) + 1),
    decreases n,
{
    if n > 0 {
        lemma_isqrt(n - 1);
        let r = isqrt(n - 1);
        assert(r * r <= n - 1);
        if (r + 1) * (r + 1) <= n {
            assert(n < (r + 2) * (r + 2)) by (nonlinear_arith)
                requires
                    0 <= r,
                    n - 1 < (r + 1) * (r + 1),
            ;
        }
    }
}

/// Two integers that both bracket `n` between their square and the next
/// square are equal.
pub proof fn lemma_isqrt_unique(n: int, r: int, s: int) by (nonlinear_arith)
    requires
        n >= 0,
        r >= 0,
        s >= 0,
        r * r <= n,
        n < (r + 1) * (r + 1),
        s * s <= n,
        n < (s + 1) * (s + 1),
    ensures
        r == s,
{
}

/// The fixed-point scalar: `raw` counts steps of 2^-16.
#[derive(Clone, Copy, Debug, PartialEq, Eq, Structural)]
pub struct Fx {
    pub raw: i64,
}

/// The scalar whose raw count is `v`, for stating results of compound
/// operations.
pub open spec fn fxv(v: int) -> Fx {
    Fx { raw: v as i64 }
}

impl View for Fx {
    type V = int;

    open spec fn view(&self) -> int {
        self.raw as int
    }
}

impl GmPrimitive for Fx {
    open spec fn raw_val(self) -> int {
        self@
    }

    fn prim_zero() -> (r: Self) {
        Fx { raw: 0 }
    }

    fn prim_is_zero(self) -> (r: bool) {
        self.raw == 0
    }
}

impl GmPrimitive for i64 {
    open spec fn raw_val(self) -> int {
        self as int
    }

    fn prim_zero() -> (r: Self) {
        0
    }

    fn prim_is_zero(self) -> (r: bool) {
        self == 0
    }
}

impl Fx {
    /// The scalar standing for zero.
    pub fn zero() -> (r: Fx)
        ensures
            r@ == 0,
    {
        Fx { raw: 0 }
    }

    /// The scalar standing for one.
    pub fn one() -> (r: Fx)
        ensures
            r@ == FX_ONE as int,
    {
        Fx { raw: FX_ONE }
    }

    /// Builds a scalar from its raw count of 2^-16 steps.
    pub fn from_raw(raw: i64) -> (r: Fx)
        ensures
            r@ == raw as int,
    {
        Fx { raw }
    }

    /// The scalar standing for the integer `v`.
    pub fn from_int(v: i64) -> (r: Fx)
        requires
            fx_fits(v * (FX_ONE as int)),
        ensures
            r@ == v * (FX_ONE as int),
    {
        Fx { raw: v * FX_ONE }
    }

    /// The scalar standing for `n / d`, truncated toward zero to the
    /// nearest raw step. Handy for writing decimal constants.
    pub fn from_ratio(n: i64, d: i64) -> (r: Fx)
        requires
            d != 0,
            fx_fits(tdiv(n * (FX_ONE as int), d as int)),
        ensures
            r@ == tdiv(n * (FX_ONE as int), d as int),
    {
        let p: i128 = (n as i128) * (FX_ONE as i128);
        proof {
            lemma_tdiv_mag(p as int, d as int);
        }
        let q: i128 = match p.checked_div(d as i128) {
            Some(q) => q,
            None => 0,
        };
        Fx { raw: q as i64 }
    }

    /// Truncates the scalar toward zero to an integer.
    pub fn to_int(self) -> (r: i64)
        ensures
            r as int == tdiv(self@, FX_ONE as int),
    {
        proof {
            lemma_tdiv_mag(self@, FX_ONE as int);
        }
        match self.raw.checked_div(FX_ONE) {
            Some(q) => q,
            None => 0,
        }
    }

    /// Exact sum.
    pub fn add(self, o: Fx) -> (r: Fx)
        requires
            fx_fits(self@ + o@),
        ensures
            r@ == self@ + o@,
    {
        Fx { raw: self.raw + o.raw }
    }

    /// Exact difference.
    pub fn sub(self, o: Fx) -> (r: Fx)
        requires
            fx_fits(self@ - o@),
        ensures
            r@ == self@ - o@,
    {
        Fx { raw: self.raw - o.raw }
    }

    /// Exact negation.
    pub fn neg(self) -> (r: Fx)
        requires
            fx_fits(-self@),
        ensures
            r@ == -self@,
    {
        Fx { raw: -self.raw }
    }

    /// Magnitude.
    pub fn abs(self) -> (r: Fx)
        requires
            fx_fits(-self@),
        ensures
            r@ == sabs(self@),
    {
        if self.raw < 0 {
            Fx { raw: -self.raw }
        } else {
            self
        }
    }

    /// Product, truncated toward zero: the raw count is `fxmul` of the
    /// operands' raw counts.
    pub fn mul(self, o: Fx) -> (r: Fx)
        requires
            fx_fits(fxmul(self@, o@)),
        ensures
            r@ == fxmul(self@, o@),
    {
        proof {
            lemma_i64_prod_fits(self@, o@);
        }
        let p: i128 = (self.raw as i128) * (o.raw as i128);
        proof {
            lemma_tdiv_mag(p as int, FX_ONE as int);
        }
        let q: i128 = match p.checked_div(FX_ONE as i128) {
            Some(q) => q,
            None => 0,
        };
        Fx { raw: q as i64 }
    }

    /// Quotient, truncated toward zero: the raw count is `fxdiv` of the
    /// operands' raw counts.
    pub fn div(self, o: Fx) -> (r: Fx)
        requires
            o@ != 0,
            fx_fits(fxdiv(self@, o@)),
        ensures
            r@ == fxdiv(self@, o@),
    {
        let p: i128 = (self.raw as i128) * (FX_ONE as i128);
        proof {
            lemma_tdiv_mag(p as int, o@);
        }
        let q: i128 = match p.checked_div(o.raw as i128) {
            Some(q) => q,
            None => 0,
        };
        Fx { raw: q as i64 }
    }

    /// Exact comparison.
    pub fn lt(self, o: Fx) -> (r: bool)
        ensures
            r == (self@ < o@),
    {
        self.raw < o.raw
    }

    /// Exact comparison.
    pub fn le(self, o: Fx) -> (r: bool)
        ensures
            r == (self@ <= o@),
    {
        self.raw <= o.raw
    }

    /// Whether the scalar is exactly zero.
    pub fn is_zero(self) -> (r: bool)
        ensures
            r == (self@ == 0),
    {
        self.raw == 0
    }

    /// The smaller of the two scalars.
    pub fn min(self, o: Fx) -> (r: Fx)
        ensures
            r@ == if self@ <= o@ { self@ } else { o@ },
    {
        if self.raw <= o.raw {
            self
        } else {
            o
        }
    }

    /// The larger of the two scalars.
    pub fn max(self, o: Fx) -> (r: Fx)
        ensures
            r@ == if self@ >= o@ { self@ } else { o@ },
    {
        if self.raw >= o.raw {
            self
        } else {
            o
        }
    }

    /// Clamps the scalar into `[lo, hi]`.
    pub fn clamp(self, lo: Fx, hi: Fx) -> (r: Fx)
        requires
            lo@ <= hi@,
        ensures
            r@ == if self@ < lo@ { lo@ } else if self@ > hi@ { hi@ } else { self@ },
    {
        if self.raw < lo.raw {
            lo
        } else if self.raw > hi.raw {
            hi
        } else {
            self
        }
    }

    /// Square root, rounded down to the nearest raw step: the raw count is
    /// the integer square root of `raw * 65536`.
    pub fn sqrt(self) -> (r: Fx)
        requires
            self@ >= 0,
        ensures
            r@ == isqrt(self@ * (FX_ONE as int)),
            r@ >= 0,
            r@ * r@ <= self@ * (FX_ONE as int),
            self@ * (FX_ONE as int) < (r@ + 1) * (r@ + 1),
    {
        let n: u128 = (self.raw as u128) * (FX_ONE as u128);
        let r = isqrt_u128(n);
        proof {
            lemma_isqrt(n as int);
            lemma_isqrt_unique(n as int, r as int, isqrt(n as int));
            assert((r as int) < 0x8000_0000_0000_0000) by (nonlinear_arith)
                requires
                    0 <= r as int,
                    (r as int) * (r as int) <= n as int,
                    n as int <= 0x7FFF_FFFF_FFFF_FFFF_0000,
            ;
        }
        Fx { raw: r as i64 }
    }

    /// Integer power by repeated multiplication, each step truncated as
    /// `mul` truncates.
    pub fn powi(self, e: u32) -> (r: Fx)
        requires
            -(FX_ONE as int) <= self@ <= FX_ONE as int,
        ensures
            r@ == fxpow(self@, e as nat),
    {
        let mut acc = Fx::one();
        let mut i: u32 = 0;
        while i < e
            invariant
                0 <= i <= e,
                -(FX_ONE as int) <= self@ <= FX_ONE as int,
                acc@ == fxpow(self@, i as nat),
                -(FX_ONE as int) <= acc@ <= FX_ONE as int,
            decreases e - i,
        {
            proof {
                lemma_fxmul_bound(self@, acc@, FX_ONE as int, FX_ONE as int);
            }
            acc = self.mul(acc);
            i = i + 1;
            proof {
                lemma_fxpow_bounded(self@, i as nat);
            }
        }
        acc
    }

    /// Multiplies the raw count by `m` and divides by `d` in one exact
    /// wide step, truncating toward zero.
    pub fn mul_div(self, m: i64, d: i64) -> (r: Fx)
        requires
            d != 0,
            fx_fits(tdiv(self@ * (m as int), d as int)),
        ensures
            r@ == tdiv(self@ * (m as int), d as int),
    {
        proof {
            lemma_i64_prod_fits(self@, m as int);
        }
        let p: i128 = (self.raw as i128) * (m as i128);
        proof {
            lemma_tdiv_mag(p as int, d as int);
        }
        let q: i128 = match p.checked_div(d as i128) {
            Some(q) => q,
            None => 0,
        };
        Fx { raw: q as i64 }
    }

    /// Divides the raw count by an integer, truncating toward zero.
    pub fn div_int(self, d: i64) -> (r: Fx)
        requires
            d != 0,
            fx_fits(tdiv(self@, d as int)),
        ensures
            r@ == tdiv(self@, d as int),
    {
        proof {
            lemma_tdiv_mag(self@, d as int);
        }
        match self.raw.checked_div(d) {
            Some(q) => Fx { raw: q },
            None => Fx { raw: 0 },
        }
    }

    /// Sine of the scalar taken as radians: quadrant reduction and the
    /// truncated Taylor polynomial, exactly as `sin_spec` states.
    pub fn sin(self) -> (r: Fx)
        requires
            -(ANG_LIM as int) <= self@ <= ANG_LIM as int,
        ensures
            r@ == sin_spec(self@),
            -0x400_0000 <= r@ <= 0x400_0000,
    {
        let (qd, t) = angle_reduce(self);
        if qd == 0 {
            sin_poly_fx(t)
        } else if qd == 1 {
            cos_poly_fx(t)
        } else if qd == 2 {
            sin_poly_fx(t).neg()
        } else {
            cos_poly_fx(t).neg()
        }
    }

    /// Cosine of the scalar taken as radians, exactly as `cos_spec`
    /// states.
    pub fn cos(self) -> (r: Fx)
        requires
            -(ANG_LIM as int) <= self@ <= ANG_LIM as int,
        ensures
            r@ == cos_spec(self@),
            -0x400_0000 <= r@ <= 0x400_0000,
    {
        let (qd, t) = angle_reduce(self);
        if qd == 0 {
            cos_poly_fx(t)
        } else if qd == 1 {
            sin_poly_fx(t).neg()
        } else if qd == 2 {
            cos_poly_fx(t).neg()
        } else {
            sin_poly_fx(t)
        }
    }
}

/// Raw count of a full turn: 2 * pi, rounded to the nearest step.
pub const TWO_PI_RAW: i64 = 411775;

/// Raw count of a quarter turn: pi / 2, rounded to the nearest step.
pub const HALF_PI_RAW: i64 = 102944;

/// Raw count of pi, rounded to the nearest step.
pub const PI_RAW: i64 = 205887;

/// Raw count of half a turn in degrees: 180 * 65536.
pub const DEG_HALF_TURN: i64 = 11796480;

/// Magnitude bound on angles handed to the trigonometric functions.
pub const ANG_LIM: i64 = 0x100_0000_0000;

/// The truncated Taylor polynomial for the sine on a reduced quarter
/// turn, every product and quotient truncated toward zero.
pub open spec fn sin_poly(t: int) -> int {
    let t2 = fxmul(t, t);
    let t3 = fxmul(t2, t);
    let t5 = fxmul(t3, t2);
    let t7 = fxmul(t5, t2);
    let t9 = fxmul(t7, t2);
    t - tdiv(t3, 6) + tdiv(t5, 120) - tdiv(t7, 5040) + tdiv(t9, 362880)
}

/// The truncated Taylor polynomial for the cosine on a reduced quarter
/// turn.
pub open spec fn cos_poly(t: int) -> int {
    let t2 = fxmul(t, t);
    let t4 = fxmul(t2, t2);
    let t6 = fxmul(t4, t2);
    let t8 = fxmul(t6, t2);
    let t10 = fxmul(t8, t2);
    FX_ONE as int - tdiv(t2, 2) + tdiv(t4, 24) - tdiv(t6, 720) + tdiv(t8, 40320) - tdiv(
        t10,
        3628800,
    )
}

/// The sine of a raw radian count: the angle reduced into a turn, split
/// into a quadrant and a remainder, and the polynomial applied.
pub open spec fn sin_spec(x: int) -> int {
    let m = x % (TWO_PI_RAW as int);
    let qd = m / (HALF_PI_RAW as int);
    let t = m % (HALF_PI_RAW as int);
    if qd == 0 {
        sin_poly(t)
    } else if qd == 1 {
        cos_poly(t)
    } else if qd == 2 {
        -sin_poly(t)
    } else {
        -cos_poly(t)
    }
}

/// The cosine of a raw radian count, by the same reduction.
pub open spec fn cos_spec(x: int) -> int {
    let m = x % (TWO_PI_RAW as int);
    let qd = m / (HALF_PI_RAW as int);
    let t = m % (HALF_PI_RAW as int);
    if qd == 0 {
        cos_poly(t)
    } else if qd == 1 {
        -sin_poly(t)
    } else if qd == 2 {
        -cos_poly(t)
    } else {
        sin_poly(t)
    }
}

/// Splits an angle into its quadrant within a turn and the remaining
/// quarter-turn offset.
fn angle_reduce(x: Fx) -> (r: (i64, Fx))
    requires
        -(ANG_LIM as int) <= x@ <= ANG_LIM as int,
    ensures
        r.0 as int == (x@ % (TWO_PI_RAW as int)) / (HALF_PI_RAW as int),
        r.1@ == (x@ % (TWO_PI_RAW as int)) % (HALF_PI_RAW as int),
        0 <= r.0 <= 3,
        0 <= r.1@ < HALF_PI_RAW as int,
{
    let q: i64 = match x.raw.checked_div_euclid(TWO_PI_RAW) {
        Some(q) => q,
        None => 0,
    };
    proof {
        vstd::arithmetic::div_mod::lemma_fundamental_div_mod(x@, TWO_PI_RAW as int);
    }
    let m: i64 = x.raw - q * TWO_PI_RAW;
    let qd: i64 = match m.checked_div(HALF_PI_RAW) {
        Some(q) => q,
        None => 0,
    };
    proof {
        vstd::arithmetic::div_mod::lemma_fundamental_div_mod(m as int, HALF_PI_RAW as int);
    }
    let t: i64 = m - qd * HALF_PI_RAW;
    (qd, Fx { raw: t })
}

/// The sine polynomial on a reduced quarter turn.
fn sin_poly_fx(t: Fx) -> (r: Fx)
    requires
        0 <= t@ < HALF_PI_RAW as int,
    ensures
        r@ == sin_poly(t@),
        -0x400_0000 <= r@ <= 0x400_0000,
{
    proof {
        lemma_fxmul_bound(t@, t@, 0x2_0000, 0x2_0000);
    }
    let t2 = t.mul(t);
    proof {
        lemma_fxmul_bound(t2@, t@, 0x4_0000, 0x2_0000);
    }
    let t3 = t2.mul(t);
    proof {
        lemma_fxmul_bound(t3@, t2@, 0x8_0000, 0x4_0000);
    }
    let t5 = t3.mul(t2);
    proof {
        lemma_fxmul_bound(t5@, t2@, 0x20_0000, 0x4_0000);
    }
    let t7 = t5.mul(t2);
    proof {
        lemma_fxmul_bound(t7@, t2@, 0x80_0000, 0x4_0000);
    }
    let t9 = t7.mul(t2);
    proof {
        lemma_tdiv_mag(t3@, 6);
        lemma_tdiv_mag(t5@, 120);
        lemma_tdiv_mag(t7@, 5040);
        lemma_tdiv_mag(t9@, 362880);
    }
    t.sub(t3.div_int(6)).add(t5.div_int(120)).sub(t7.div_int(5040)).add(t9.div_int(362880))
}

/// The cosine polynomial on a reduced quarter turn.
fn cos_poly_fx(t: Fx) -> (r: Fx)
    requires
        0 <= t@ < HALF_PI_RAW as int,
    ensures
        r@ == cos_poly(t@),
        -0x400_0000 <= r@ <= 0x400_0000,
{
    proof {
        lemma_fxmul_bound(t@, t@, 0x2_0000, 0x2_0000);
    }
    let t2 = t.mul(t);
    proof {
        lemma_fxmul_bound(t2@, t2@, 0x4_0000, 0x4_0000);
    }
    let t4 = t2.mul(t2);
    proof {
        lemma_fxmul_bound(t4@, t2@, 0x10_0000, 0x4_0000);
    }
    let t6 = t4.mul(t2);
    proof {
        lemma_fxmul_bound(t6@, t2@, 0x40_0000, 0x4_0000);
    }
    let t8 = t6.mul(t2);
    proof {
        lemma_fxmul_bound(t8@, t2@, 0x100_0000, 0x4_0000);
    }
    let t10 = t8.mul(t2);
    proof {
        lemma_tdiv_mag(t2@, 2);
        lemma_tdiv_mag(t4@, 24);
        lemma_tdiv_mag(t6@, 720);
        lemma_tdiv_mag(t8@, 40320);
        lemma_tdiv_mag(t10@, 3628800);
    }
    Fx::one().sub(t2.div_int(2)).add(t4.div_int(24)).sub(t6.div_int(720)).add(
        t8.div_int(40320),
    ).sub(t10.div_int(3628800))
}

/// Repeated truncating multiplication: `fxpow(b, e)` is `b` multiplied onto
/// one `e` times.
pub open spec fn fxpow(b: int, e: nat) -> int
    decreases e,
{
    if e == 0 {
        FX_ONE as int
    } else {
        fxmul(b, fxpow(b, (e - 1) as nat))
    }
}

/// Powers of a scalar no larger than one stay no larger than one.
pub proof fn lemma_fxpow_bounded(b: int, e: nat)
    requires
        -(FX_ONE as int) <= b <= FX_ONE as int,
    ensures
        -(FX_ONE as int) <= fxpow(b, e) <= FX_ONE as int,
    decreases e,
{
    if e > 0 {
        lemma_fxpow_bounded(b, (e - 1) as nat);
        lemma_fxmul_bound(b, fxpow(b, (e - 1) as nat), FX_ONE as int, FX_ONE as int);
    }
}

/// A product of two i64 values fits well inside an i128.
pub proof fn lemma_i64_prod_fits(a: int, b: int) by (nonlinear_arith)
    requires
        i64::MIN <= a <= i64::MAX,
        i64::MIN <= b <= i64::MAX,
    ensures
        -0x4000_0000_0000_0000_0000_0000_0000_0000 <= a * b,
        a * b <= 0x4000_0000_0000_0000_0000_0000_0000_0000,
{
}

/// Integer square root of a u128 below 2^126, by binary search.
pub(crate) fn isqrt_u128(n: u128) -> (r: u64)
    requires
        (n as int) < 0x4000_0000_0000_0000_0000_0000_0000_0000,
    ensures
        0 <= r as int,
        (r as int) * (r as int) <= n as int,
        (n as int) < ((r as int) + 1) * ((r as int) + 1),
{
    let mut lo: u64 = 0;
    let mut hi: u64 = 0x8000_0000_0000_0000;
    proof {
        assert((hi as int) * (hi as int) > n as int) by (nonlinear_arith)
            requires
                hi as int == 0x8000_0000_0000_0000,
                (n as int) < 0x4000_0000_0000_0000_0000_0000_0000_0000,
        ;
    }
    while lo + 1 < hi
        invariant
            0 <= lo as int,
            (lo as int) < hi as int,
            hi as int <= 0x8000_0000_0000_0000,
            (lo as int) * (lo as int) <= n as int,
            (n as int) < (hi as int) * (hi as int),
        decreases hi - lo,
    {
        let mid: u64 = lo + (hi - lo) / 2;
        proof {
            assert(0 <= (mid as int) * (mid as int)
                < 0x1_0000_0000_0000_0000_0000_0000_0000_0000) by (nonlinear_arith)
                requires
                    0 <= mid as int,
                    mid as int <= 0x8000_0000_0000_0000,
            ;
        }
        let sq: u128 = (mid as u128) * (mid as u128);
        if sq <= n {
            lo = mid;
        } else {
            hi = mid;
        }
    }
    lo
}

} // verus!
