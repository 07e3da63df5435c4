//! Fixed-point decimal arithmetic.
//!
//! All prices, quantities and monetary amounts in this crate are
//! represented as a signed count of millionths (`m`), i.e. the value
//! `m / 1_000_000`. Multiplication and division truncate toward zero,
//! matching the behaviour of ordinary decimal arithmetic rounded at six
//! fractional digits.

use vstd::prelude::*;

verus! {

/// Number of fixed-point units in 1.0.
pub const SCALE: i128 = 1_000_000;

/// Magnitude bound for "atomic" values: prices, share quantities,
/// configuration rates and initial capital (one billion, in units).
pub const VAL_LIMIT: i128 = 1_000_000_000_000_000;

/// Magnitude bound for derived monetary amounts: cash, equity,
/// notionals, P&L and sums of these.
pub const AMT_LIMIT: i128 = 1_000_000_000_000_000_000_000_000_0;

/// Magnitude bound for bar prices; kept a factor below [`VAL_LIMIT`]
/// so that spreads and slippage on top of a price stay within it.
pub const PRICE_LIMIT: i128 = 250_000_000_000_000;

/// Magnitude bound for a single execution's cost (notional or
/// commission).
pub const COST_LIMIT: i128 = 2_000_000_000_000_000_000_000_000;

/// Truncating (toward zero) integer division, as Rust's `/` computes it
/// on signed integers; `/` on `int` in specifications is Euclidean.
pub open spec fn tdiv(x: int, d: int) -> int {
    if x == 0 {
        0
    } else if x > 0 && d > 0 {
        x / d
    } else if x < 0 && d < 0 {
        (x * -1) / (d * -1)
    } else if x < 0 {
        ((x * -1) / d) * -1
    } else {
        (x / (d * -1)) * -1
    }
}

/// Mantissa of the product of two fixed-point values.
pub open spec fn mul_m(a: int, b: int) -> int {
    tdiv(a * b, SCALE as int)
}

/// Mantissa of the quotient of two fixed-point values.
pub open spec fn div_m(a: int, b: int) -> int {
    tdiv(a * SCALE, b)
}

/// A fixed-point decimal number holding `m` millionths.
#[derive(Clone, Copy, Debug, PartialEq, Eq, Structural, Hash)]
pub struct Dec {
    pub m: i128,
}

impl Dec {
    /// Within the bound for atomic values (prices, quantities, rates).
    pub open spec fn val_ok(self) -> bool {
        -VAL_LIMIT <= self.m <= VAL_LIMIT
    }

    /// Within the bound for derived monetary amounts.
    pub open spec fn amt_ok(self) -> bool {
        -AMT_LIMIT <= self.m <= AMT_LIMIT
    }

    pub fn zero() -> (r: Dec)
        ensures
            r.m == 0,
    {
        Dec { m: 0 }
    }

    pub fn one() -> (r: Dec)
        ensures
            r.m == SCALE,
    {
        Dec { m: SCALE }
    }

    /// The value `v`, e.g. `Dec::from_int(150)` is 150.0.
    pub fn from_int(v: i64) -> (r: Dec)
        ensures
            r.m == v * SCALE,
    {
        Dec { m: (v as i128) * SCALE }
    }

    /// The value `m / 1_000_000`, from a raw mantissa.
    pub fn from_raw(m: i128) -> (r: Dec)
        ensures
            r.m == m,
    {
        Dec { m }
    }

    pub fn is_zero(self) -> (r: bool)
        ensures
            r == (self.m == 0),
    {
        self.m == 0
    }

    pub fn is_pos(self) -> (r: bool)
        ensures
            r == (self.m > 0),
    {
        self.m > 0
    }

    pub fn is_neg(self) -> (r: bool)
        ensures
            r == (self.m < 0),
    {
        self.m < 0
    }

    pub fn lt(self, o: Dec) -> (r: bool)
        ensures
            r == (self.m < o.m),
    {
        self.m < o.m
    }

    pub fn le(self, o: Dec) -> (r: bool)
        ensures
            r == (self.m <= o.m),
    {
        self.m <= o.m
    }

    pub fn gt(self, o: Dec) -> (r: bool)
        ensures
            r == (self.m > o.m),
    {
        self.m > o.m
    }

    pub fn ge(self, o: Dec) -> (r: bool)
        ensures
            r == (self.m >= o.m),
    {
        self.m >= o.m
    }

    pub fn add(self, o: Dec) -> (r: Dec)
        requires
            -i128::MAX <= self.m + o.m <= i128::MAX,
        ensures
            r.m == self.m + o.m,
    {
        Dec { m: self.m + o.m }
    }

    pub fn sub(self, o: Dec) -> (r: Dec)
        requires
            -i128::MAX <= self.m - o.m <= i128::MAX,
        ensures
            r.m == self.m - o.m,
    {
        Dec { m: self.m - o.m }
    }

    pub fn neg(self) -> (r: Dec)
        requires
            self.m > i128::MIN,
        ensures
            r.m == -self.m,
    {
        Dec { m: -self.m }
    }

    pub fn abs(self) -> (r: Dec)
        requires
            self.m > i128::MIN,
        ensures
            r.m == abs_m(self.m as int),
    {
        if self.m < 0 {
            Dec { m: -self.m }
        } else {
            Dec { m: self.m }
        }
    }

    pub fn min(self, o: Dec) -> (r: Dec)
        ensures
            r.m == if self.m <= o.m { self.m } else { o.m },
    {
        if self.m <= o.m {
            self
        } else {
            o
        }
    }

    pub fn max(self, o: Dec) -> (r: Dec)
        ensures
            r.m == if self.m >= o.m { self.m } else { o.m },
    {
        if self.m >= o.m {
            self
        } else {
            o
        }
    }

    pub fn mul(self, o: Dec) -> (r: Dec)
        requires
            -i128::MAX <= self.m * o.m <= i128::MAX,
        ensures
            r.m == mul_m(self.m as int, o.m as int),
    {
        let p: i128 = self.m * o.m;
        Dec { m: p / SCALE }
    }

    pub fn div(self, o: Dec) -> (r: Dec)
        requires
            o.m != 0,
            -i128::MAX <= self.m * SCALE <= i128::MAX,
        ensures
            r.m == div_m(self.m as int, o.m as int),
    {
        let p: i128 = self.m * SCALE;
        proof {
            lemma_tdiv_shrinks(p as int, o.m as int);
        }
        match p.checked_div(o.m) {
            Some(v) => Dec { m: v },
            None => Dec { m: 0 },
        }
    }
}

/// `r` is the integer square root of `x` (rounded down).
pub open spec fn is_floor_sqrt(x: int, r: int) -> bool {
    r >= 0 && r * r <= x < (r + 1) * (r + 1)
}

/// Integer square root by bisection.
pub fn sqrt_i128(x: i128) -> (r: i128)
    requires
        0 <= x <= 1_000_000_000_000_000_000_000_000_000_000_000_000,
    ensures
        is_floor_sqrt(x as int, r as int),
{
    let mut lo: i128 = 0;
    let mut hi: i128 = 1_000_000_000_000_000_000;
    proof {
        assert((hi + 1) * (hi + 1) > x) by (nonlinear_arith)
            requires
                hi == 1_000_000_000_000_000_000,
                x <= 1_000_000_000_000_000_000_000_000_000_000_000_000,
        ;
    }
    while lo < hi
        invariant
            0 <= lo <= hi <= 1_000_000_000_000_000_000,
            lo * lo <= x,
            x < (hi + 1) * (hi + 1),
        decreases hi - lo,
    {
        let mid: i128 = lo + (hi - lo + 1) / 2;
        proof {
            assert(lo < mid <= hi);
            crate::decimal::lemma_mul_bound(
                mid as int,
                mid as int,
                1_000_000_000_000_000_000,
                1_000_000_000_000_000_000,
            );
        }
        if mid * mid <= x {
            lo = mid;
        } else {
            hi = mid - 1;
        }
    }
    lo
}

impl Dec {
    /// Square root of a non-negative value, rounded down at the sixth
    /// fractional digit.
    pub fn sqrt(self) -> (r: Dec)
        requires
            0 <= self.m <= 1_000_000_000_000_000_000_000_000_000_000,
        ensures
            is_floor_sqrt(self.m * SCALE, r.m as int),
    {
        Dec { m: sqrt_i128(self.m * SCALE) }
    }
}

/// Magnitude of a mantissa.
pub open spec fn abs_m(x: int) -> int {
    if x >= 0 {
        x
    } else {
        -x
    }
}

/// Truncating division never grows the magnitude (for divisors of
/// magnitude at least one).
pub proof fn lemma_tdiv_shrinks(x: int, d: int)
    requires
        d != 0,
    ensures
        abs_m(tdiv(x, d)) <= abs_m(x),
{
    let ax = abs_m(x);
    let ad = abs_m(d);
    assert(ax / ad <= ax) by (nonlinear_arith)
        requires
            ax >= 0,
            ad >= 1,
    ;
    assert(ax / ad >= 0) by (nonlinear_arith)
        requires
            ax >= 0,
            ad >= 1,
    ;
}

/// Truncating division of a magnitude: `|x / d|` is `|x| / d`.
pub proof fn lemma_tdiv_abs(x: int, d: int)
    requires
        d >= 1,
    ensures
        abs_m(tdiv(x, d)) == abs_m(x) / d,
        tdiv(x, d) >= 0 <==> (x >= 0 || abs_m(x) / d == 0),
{
    if x >= 0 {
        vstd::arithmetic::div_mod::lemma_div_pos_is_pos(x, d);
    } else {
        vstd::arithmetic::div_mod::lemma_div_pos_is_pos(-x, d);
    }
}

/// For non-negative operands, the sum of two quotients is at most the
/// quotient of the sum.
pub proof fn lemma_sum_div_le(a: int, b: int, d: int)
    requires
        a >= 0,
        b >= 0,
        d >= 1,
    ensures
        a / d + b / d <= (a + b) / d,
{
    vstd::arithmetic::div_mod::lemma_fundamental_div_mod(a, d);
    vstd::arithmetic::div_mod::lemma_fundamental_div_mod(b, d);
    let q: int = a / d + b / d;
    assert(a + b >= d * q) by {
        vstd::arithmetic::mul::lemma_mul_is_distributive_add(d, a / d, b / d);
    }
    vstd::arithmetic::div_mod::lemma_div_multiples_vanish(q, d);
    vstd::arithmetic::div_mod::lemma_div_is_ordered(d * q, a + b, d);
}

/// Dividing back out after multiplying never overshoots.
pub proof fn lemma_div_mul_le(x: int, d: int)
    requires
        x >= 0,
        d >= 1,
    ensures
        (x / d) * d <= x,
{
    vstd::arithmetic::div_mod::lemma_fundamental_div_mod(x, d);
    assert((x / d) * d == d * (x / d)) by (nonlinear_arith);
}

/// A quantity-weighted average of two values bounded by `v` is itself
/// bounded by `v`: the mantissa computed as
/// `((qa*avg)/S + (fa*price)/S) * S / (qa+fa)` (all divisions
/// truncating) has magnitude at most `v`.
pub proof fn lemma_weighted_avg_bound(qa: int, fa: int, avg: int, price: int, v: int)
    requires
        qa >= 0,
        fa >= 0,
        qa + fa >= 1,
        v >= 0,
        -v <= avg <= v,
        -v <= price <= v,
    ensures
        abs_m(tdiv((tdiv(qa * avg, SCALE as int) + tdiv(fa * price, SCALE as int)) * SCALE as int, qa + fa)) <= v,
{
    let s: int = SCALE as int;
    let t1 = tdiv(qa * avg, s);
    let t2 = tdiv(fa * price, s);
    lemma_tdiv_abs(qa * avg, s);
    lemma_tdiv_abs(fa * price, s);
    lemma_mul_bound(qa, avg, qa, v);
    lemma_mul_bound(fa, price, fa, v);
    vstd::arithmetic::div_mod::lemma_div_is_ordered(abs_m(qa * avg), qa * v, s);
    vstd::arithmetic::div_mod::lemma_div_is_ordered(abs_m(fa * price), fa * v, s);
    assert(qa * v >= 0 && fa * v >= 0) by (nonlinear_arith)
        requires
            qa >= 0,
            fa >= 0,
            v >= 0,
    ;
    vstd::arithmetic::div_mod::lemma_div_pos_is_pos(qa * v, s);
    vstd::arithmetic::div_mod::lemma_div_pos_is_pos(fa * v, s);
    lemma_sum_div_le(qa * v, fa * v, s);
    let cost = t1 + t2;
    assert(abs_m(cost) <= (qa * v + fa * v) / s);
    assert(qa * v + fa * v == (qa + fa) * v) by (nonlinear_arith);
    let w = (qa + fa) * v;
    // |cost * s| <= (w / s) * s <= w
    lemma_div_mul_le(w, s);
    assert(abs_m(cost * s) == abs_m(cost) * s) by (nonlinear_arith)
        requires
            s >= 1,
    ;
    assert(abs_m(cost) * s <= (w / s) * s) by (nonlinear_arith)
        requires
            abs_m(cost) <= w / s,
            s >= 1,
    ;
    lemma_tdiv_abs(cost * s, qa + fa);
    vstd::arithmetic::div_mod::lemma_div_is_ordered(abs_m(cost * s), w, qa + fa);
    vstd::arithmetic::div_mod::lemma_div_multiples_vanish(v, qa + fa);
    assert((qa + fa) * v == v * (qa + fa)) by (nonlinear_arith);
}

/// If `|a| <= ba` and `|b| <= bb` then `|a * b| <= ba * bb`.
pub proof fn lemma_mul_bound(a: int, b: int, ba: int, bb: int)
    requires
        -ba <= a <= ba,
        -bb <= b <= bb,
    ensures
        -(ba * bb) <= a * b <= ba * bb,
{
    assert(-(ba * bb) <= a * b <= ba * bb) by (nonlinear_arith)
        requires
            -ba <= a <= ba,
            -bb <= b <= bb,
    ;
}

} // verus!
