//! Exact rational coordinates.
//!
//! Every coordinate handled by the layout engine is a rational number
//! `num / den` held in a [`Frac`].  The mathematical model of a fraction is
//! [`Rat`], a pair of unbounded integers; two models denote the same rational
//! exactly when [`rat_eq`] holds.  Executable arithmetic computes the exact
//! result in 128-bit intermediates, divides out the greatest common divisor,
//! and fails (returns `None`) only when even the reduced result does not fit
//! back into 64 bits.  The spec functions `try_rat_*` state that behaviour
//! exactly, so callers know precisely when an operation succeeds.

use vstd::prelude::*;
use vstd::arithmetic::div_mod::{lemma_fundamental_div_mod, lemma_div_multiples_vanish};
use vstd::arithmetic::mul::{
    lemma_mul_is_distributive_add, lemma_mul_is_distributive_add_other_way,
    lemma_mul_is_distributive_sub, lemma_mul_is_distributive_sub_other_way,
};

verus! {

/// Mathematical model of a fraction: numerator `n` over denominator `d`.
pub struct Rat {
    pub n: int,
    pub d: int,
}

/// A well-formed model keeps its denominator positive.
pub open spec fn rat_wf(a: Rat) -> bool {
    a.d >= 1
}

/// Value equality of two fractions: `a.n / a.d == b.n / b.d`.
pub open spec fn rat_eq(a: Rat, b: Rat) -> bool {
    a.n * b.d == b.n * a.d
}

/// Strict order on fractions with positive denominators.
pub open spec fn rat_lt(a: Rat, b: Rat) -> bool {
    a.n * b.d < b.n * a.d
}

pub open spec fn rat_add(a: Rat, b: Rat) -> Rat {
    Rat { n: a.n * b.d + b.n * a.d, d: a.d * b.d }
}

pub open spec fn rat_sub(a: Rat, b: Rat) -> Rat {
    Rat { n: a.n * b.d - b.n * a.d, d: a.d * b.d }
}

pub open spec fn rat_mul(a: Rat, b: Rat) -> Rat {
    Rat { n: a.n * b.n, d: a.d * b.d }
}

pub open spec fn rat_neg(a: Rat) -> Rat {
    Rat { n: -a.n, d: a.d }
}

/// The rational with value `i`.
pub open spec fn rat_int(i: int) -> Rat {
    Rat { n: i, d: 1 }
}

/// Reciprocal, with the denominator kept positive.
pub open spec fn rat_inv(a: Rat) -> Rat {
    if a.n >= 0 {
        Rat { n: a.d, d: a.n }
    } else {
        Rat { n: -a.d, d: -a.n }
    }
}

pub open spec fn abs_int(i: int) -> nat {
    if i >= 0 {
        i as nat
    } else {
        (-i) as nat
    }
}

/// Greatest common divisor by Euclid's algorithm.
pub open spec fn gcd(a: nat, b: nat) -> nat
    decreases b,
{
    if b == 0 {
        a
    } else {
        gcd(b, a % b)
    }
}

/// `x` is a multiple of `d`.
pub open spec fn is_multiple_of(x: nat, d: nat) -> bool {
    exists|k: nat| x == #[trigger] (k * d)
}

/// `a` with the gcd of numerator and denominator divided out.
pub open spec fn rat_norm(a: Rat) -> Rat {
    let g = gcd(abs_int(a.n), abs_int(a.d)) as int;
    if g >= 1 {
        Rat { n: a.n / g, d: a.d / g }
    } else {
        a
    }
}

/// Whether a model fits the 64-bit representation of [`Frac`].
pub open spec fn rat_fits(a: Rat) -> bool {
    &&& -0x7fff_ffff_ffff_ffff <= a.n <= 0x7fff_ffff_ffff_ffff
    &&& 1 <= a.d <= 0x7fff_ffff_ffff_ffff
}

/// The reduced form of `a` if it fits in 64 bits, `None` otherwise.
#[verifier::opaque]
pub open spec fn try_norm(a: Rat) -> Option<Rat> {
    if rat_fits(rat_norm(a)) {
        Some(rat_norm(a))
    } else {
        None
    }
}

pub open spec fn try_rat_add(a: Rat, b: Rat) -> Option<Rat> {
    try_norm(rat_add(a, b))
}

pub open spec fn try_rat_sub(a: Rat, b: Rat) -> Option<Rat> {
    try_norm(rat_sub(a, b))
}

pub open spec fn try_rat_mul(a: Rat, b: Rat) -> Option<Rat> {
    try_norm(rat_mul(a, b))
}

/// An executable fraction, `num / den` with `den >= 1`.
#[derive(Clone, Copy, Debug)]
pub struct Frac {
    num: i64,
    den: i64,
}

impl View for Frac {
    type V = Rat;

    closed spec fn view(&self) -> Rat {
        Rat { n: self.num as int, d: self.den as int }
    }
}

/// Relates an executable result to the model-level result of a checked
/// operation: both fail together, or both succeed with the same value.
pub open spec fn opt_frac_is(r: Option<Frac>, s: Option<Rat>) -> bool {
    match r {
        Some(f) => f.wf() && s == Some(f@),
        None => s is None,
    }
}

impl Frac {
    /// The representation keeps a positive denominator and a numerator
    /// whose negation is still representable.
    pub closed spec fn wf(self) -> bool {
        self.den >= 1 && self.num > i64::MIN
    }

    /// Well-formedness of the representation is exactly well-formedness
    /// and representability of the model.
    pub broadcast proof fn lemma_wf_view(self)
        ensures
            #[trigger] self.wf() <==> (rat_wf(self@) && rat_fits(self@)),
    {
    }

    pub fn new(num: i64, den: i64) -> (r: Frac)
        requires
            den >= 1,
            num > i64::MIN,
        ensures
            r.wf(),
            r@ == (Rat { n: num as int, d: den as int }),
    {
        Frac { num, den }
    }

    pub fn from_int(v: i64) -> (r: Frac)
        requires
            v > i64::MIN,
        ensures
            r.wf(),
            r@ == rat_int(v as int),
    {
        Frac { num: v, den: 1 }
    }

    pub fn num(&self) -> (r: i64)
        ensures
            r == self@.n,
    {
        self.num
    }

    pub fn den(&self) -> (r: i64)
        ensures
            r == self@.d,
    {
        self.den
    }

    pub fn neg(&self) -> (r: Frac)
        requires
            self.wf(),
        ensures
            r.wf(),
            r@ == rat_neg(self@),
    {
        Frac { num: -self.num, den: self.den }
    }

    /// Reciprocal; the numerator must be nonzero.
    pub fn invert(&self) -> (r: Frac)
        requires
            self.wf(),
            self@.n != 0,
        ensures
            r.wf(),
            r@ == rat_inv(self@),
    {
        if self.num >= 1 {
            Frac { num: self.den, den: self.num }
        } else {
            Frac { num: -self.den, den: -self.num }
        }
    }

    pub fn try_add(&self, other: &Frac) -> (r: Option<Frac>)
        requires
            self.wf(),
            other.wf(),
        ensures
            opt_frac_is(r, try_rat_add(self@, other@)),
    {
        proof {
            lemma_i64_prod_bounds(self.num as int, other.den as int);
            lemma_i64_prod_bounds(other.num as int, self.den as int);
            lemma_den_prod(self.den as int, other.den as int);
        }
        let n: i128 = self.num as i128 * other.den as i128 + other.num as i128 * self.den as i128;
        let d: i128 = self.den as i128 * other.den as i128;
        reduce128(n, d)
    }

    pub fn try_sub(&self, other: &Frac) -> (r: Option<Frac>)
        requires
            self.wf(),
            other.wf(),
        ensures
            opt_frac_is(r, try_rat_sub(self@, other@)),
    {
        proof {
            lemma_i64_prod_bounds(self.num as int, other.den as int);
            lemma_i64_prod_bounds(other.num as int, self.den as int);
            lemma_den_prod(self.den as int, other.den as int);
        }
        let n: i128 = self.num as i128 * other.den as i128 - other.num as i128 * self.den as i128;
        let d: i128 = self.den as i128 * other.den as i128;
        reduce128(n, d)
    }

    pub fn try_mul(&self, other: &Frac) -> (r: Option<Frac>)
        requires
            self.wf(),
            other.wf(),
        ensures
            opt_frac_is(r, try_rat_mul(self@, other@)),
    {
        proof {
            lemma_i64_prod_bounds(self.num as int, other.num as int);
            lemma_den_prod(self.den as int, other.den as int);
        }
        let n: i128 = self.num as i128 * other.num as i128;
        let d: i128 = self.den as i128 * other.den as i128;
        reduce128(n, d)
    }

    /// Exact strict comparison of the two rational values.
    pub fn lt(&self, other: &Frac) -> (r: bool)
        requires
            self.wf(),
            other.wf(),
        ensures
            r == rat_lt(self@, other@),
    {
        proof {
            lemma_i64_prod_bounds(self.num as int, other.den as int);
            lemma_i64_prod_bounds(other.num as int, self.den as int);
        }
        (self.num as i128 * other.den as i128) < (other.num as i128 * self.den as i128)
    }

    /// Exact value equality of the two rationals (not structural equality).
    pub fn eq_val(&self, other: &Frac) -> (r: bool)
        requires
            self.wf(),
            other.wf(),
        ensures
            r == rat_eq(self@, other@),
    {
        proof {
            lemma_i64_prod_bounds(self.num as int, other.den as int);
            lemma_i64_prod_bounds(other.num as int, self.den as int);
        }
        self.num as i128 * other.den as i128 == other.num as i128 * self.den as i128
    }
}

/// Bounds of a product of two quantities below `i64::MAX` in magnitude.
proof fn lemma_i64_prod_bounds(x: int, y: int)
    requires
        -0x7fff_ffff_ffff_ffff <= x <= 0x7fff_ffff_ffff_ffff,
        -0x7fff_ffff_ffff_ffff <= y <= 0x7fff_ffff_ffff_ffff,
    ensures
        -0x3fff_ffff_ffff_ffff_ffff_ffff_ffff_ffff <= x * y,
        x * y <= 0x3fff_ffff_ffff_ffff_ffff_ffff_ffff_ffff,
{
    assert(-0x3fff_ffff_ffff_ffff_ffff_ffff_ffff_ffff <= x * y
        && x * y <= 0x3fff_ffff_ffff_ffff_ffff_ffff_ffff_ffff) by (nonlinear_arith)
        requires
            -0x7fff_ffff_ffff_ffff <= x <= 0x7fff_ffff_ffff_ffff,
            -0x7fff_ffff_ffff_ffff <= y <= 0x7fff_ffff_ffff_ffff,
    ;
}

/// A product of two positive quantities below `i64::MAX` stays positive
/// and bounded.
proof fn lemma_den_prod(x: int, y: int)
    requires
        1 <= x <= 0x7fff_ffff_ffff_ffff,
        1 <= y <= 0x7fff_ffff_ffff_ffff,
    ensures
        1 <= x * y <= 0x3fff_ffff_ffff_ffff_ffff_ffff_ffff_ffff,
{
    assert(1 <= x * y <= 0x3fff_ffff_ffff_ffff_ffff_ffff_ffff_ffff) by (nonlinear_arith)
        requires
            1 <= x <= 0x7fff_ffff_ffff_ffff,
            1 <= y <= 0x7fff_ffff_ffff_ffff,
    ;
}

/// Euclid's algorithm, executable, matching the spec-level [`gcd`].
fn gcd_u128(a0: u128, b0: u128) -> (g: u128)
    ensures
        g as nat == gcd(a0 as nat, b0 as nat),
{
    let mut a: u128 = a0;
    let mut b: u128 = b0;
    #[verifier::loop_isolation(false)]
    while b != 0
        invariant
            gcd(a as nat, b as nat) == gcd(a0 as nat, b0 as nat),
        decreases b,
    {
        let r: u128 = a % b;
        a = b;
        b = r;
    }
    a
}

/// The gcd of two numbers, the second positive, is positive and divides both.
proof fn lemma_gcd_divides(a: nat, b: nat)
    ensures
        a > 0 || b > 0 ==> gcd(a, b) >= 1,
        is_multiple_of(a, gcd(a, b)),
        is_multiple_of(b, gcd(a, b)),
    decreases b,
{
    if b == 0 {
        assert(a == 1 * a);
        assert(b == 0 * gcd(a, b));
    } else {
        let r = a % b;
        lemma_gcd_divides(b, r);
        let g = gcd(b, r);
        assert(gcd(a, b) == g);
        let kb = choose|k: nat| b == #[trigger] (k * g);
        let kr = choose|k: nat| r == #[trigger] (k * g);
        lemma_fundamental_div_mod(a as int, b as int);
        let q = a as int / b as int;
        assert(q >= 0) by (nonlinear_arith)
            requires
                a as int == b as int * q + r,
                b > 0,
                a >= 0,
                0 <= r < b,
        ;
        assert(a as int == (q * kb + kr) * g) by (nonlinear_arith)
            requires
                a as int == b as int * q + r,
                b == kb * g,
                r == kr * g,
        ;
        assert(a == ((q * kb + kr) as nat) * g) by (nonlinear_arith)
            requires
                a as int == (q * kb + kr) * g,
                q >= 0,
        ;
        assert(is_multiple_of(a, g));
    }
}

/// Dividing out a common factor keeps the value and the well-formedness.
proof fn lemma_norm_props(a: Rat)
    requires
        rat_wf(a),
    ensures
        rat_wf(rat_norm(a)),
        rat_eq(rat_norm(a), a),
{
    let m = abs_int(a.n);
    let dd = abs_int(a.d);
    lemma_gcd_divides(m, dd);
    let g = gcd(m, dd) as int;
    assert(g >= 1);
    let km = choose|k: nat| m == #[trigger] (k * g);
    let kd = choose|k: nat| dd == #[trigger] (k * g);
    lemma_div_multiples_vanish(km as int, g);
    lemma_div_multiples_vanish(kd as int, g);
    assert(m as int / g == km as int);
    assert(dd as int / g == kd as int);
    if a.n >= 0 {
        assert(a.n / g == km as int);
    } else {
        assert(a.n == -(km as int) * g) by (nonlinear_arith)
            requires
                m == km * g,
                a.n == -(m as int),
        ;
        lemma_div_multiples_vanish(-(km as int), g);
        assert(a.n / g == -(km as int));
    }
    assert(a.d / g == kd as int);
    assert(kd >= 1) by (nonlinear_arith)
        requires
            dd == kd * g,
            dd >= 1,
    ;
    let nn = rat_norm(a);
    assert(nn.d == kd as int);
    assert(rat_eq(nn, a)) by (nonlinear_arith)
        requires
            nn.n * g == a.n,
            nn.d * g == a.d,
            g >= 1,
    ;
}

/// Reduces an exact 128-bit fraction back into a [`Frac`], failing exactly
/// when the reduced numerator or denominator does not fit in 64 bits.
fn reduce128(n: i128, d: i128) -> (r: Option<Frac>)
    requires
        d >= 1,
        n > i128::MIN,
    ensures
        opt_frac_is(r, try_norm(Rat { n: n as int, d: d as int })),
{
    proof {
        reveal(try_norm);
    }
    let neg: bool = n < 0;
    let m: u128 = if neg {
        (-n) as u128
    } else {
        n as u128
    };
    let du: u128 = d as u128;
    let g: u128 = gcd_u128(m, du);
    proof {
        lemma_gcd_divides(m as nat, du as nat);
    }
    let ghost a = Rat { n: n as int, d: d as int };
    let ghost km = choose|k: nat| m as nat == #[trigger] (k * (g as nat));
    let ghost kd = choose|k: nat| du as nat == #[trigger] (k * (g as nat));
    proof {
        lemma_div_multiples_vanish(km as int, g as int);
        lemma_div_multiples_vanish(kd as int, g as int);
        if neg {
            assert(n as int == -(km as int) * (g as int)) by (nonlinear_arith)
                requires
                    m as nat == km * (g as nat),
                    n as int == -(m as int),
            ;
            lemma_div_multiples_vanish(-(km as int), g as int);
        }
        assert(kd >= 1) by (nonlinear_arith)
            requires
                du as nat == kd * (g as nat),
                du >= 1,
        ;
        assert(km as int <= m as int && kd as int <= du as int) by (nonlinear_arith)
            requires
                m as nat == km * (g as nat),
                du as nat == kd * (g as nat),
                g >= 1,
        ;
    }
    let mr: u128 = m / g;
    let dr: u128 = d as u128 / g;
    assert(mr == km && dr == kd);
    if mr > 0x7fff_ffff_ffff_ffff || dr > 0x7fff_ffff_ffff_ffff {
        assert(!rat_fits(rat_norm(a)));
        None
    } else {
        let num: i64 = if neg {
            -(mr as i64)
        } else {
            mr as i64
        };
        let f = Frac { num, den: dr as i64 };
        assert(f@ == rat_norm(a));
        assert(rat_fits(rat_norm(a)));
        Some(f)
    }
}

/// Addition, subtraction and multiplication of well-formed models are
/// well-formed.
pub proof fn lemma_rat_ops_wf(a: Rat, b: Rat)
    requires
        rat_wf(a),
        rat_wf(b),
    ensures
        rat_wf(rat_add(a, b)),
        rat_wf(rat_sub(a, b)),
        rat_wf(rat_mul(a, b)),
        rat_wf(rat_neg(a)),
{
    assert(a.d * b.d >= 1) by (nonlinear_arith)
        requires
            a.d >= 1,
            b.d >= 1,
    ;
}

/// Broadcast form of [`lemma_rat_ops_wf`] for sums.
pub broadcast proof fn lemma_add_wf_auto(a: Rat, b: Rat)
    ensures
        rat_wf(a) && rat_wf(b) ==> rat_wf(#[trigger] rat_add(a, b)),
{
    if rat_wf(a) && rat_wf(b) {
        lemma_rat_ops_wf(a, b);
    }
}

/// Broadcast form of [`lemma_rat_ops_wf`] for differences.
pub broadcast proof fn lemma_sub_wf_auto(a: Rat, b: Rat)
    ensures
        rat_wf(a) && rat_wf(b) ==> rat_wf(#[trigger] rat_sub(a, b)),
{
    if rat_wf(a) && rat_wf(b) {
        lemma_rat_ops_wf(a, b);
    }
}

/// Broadcast form of [`lemma_rat_ops_wf`] for products.
pub broadcast proof fn lemma_mul_wf_auto(a: Rat, b: Rat)
    ensures
        rat_wf(a) && rat_wf(b) ==> rat_wf(#[trigger] rat_mul(a, b)),
{
    if rat_wf(a) && rat_wf(b) {
        lemma_rat_ops_wf(a, b);
    }
}

/// Broadcast form of [`lemma_rat_ops_wf`] for negation.
pub broadcast proof fn lemma_neg_wf_auto(a: Rat)
    ensures
        rat_wf(a) ==> rat_wf(#[trigger] rat_neg(a)),
{
}

/// `rat_eq` is transitive when the middle denominator is nonzero.
pub proof fn lemma_rat_eq_trans(a: Rat, b: Rat, c: Rat)
    requires
        rat_wf(b),
        rat_eq(a, b),
        rat_eq(b, c),
    ensures
        rat_eq(a, c),
{
    assert(a.n * c.d == c.n * a.d) by (nonlinear_arith)
        requires
            a.n * b.d == b.n * a.d,
            b.n * c.d == c.n * b.d,
            b.d >= 1,
    ;
}

/// Two models where one is the other scaled by a common factor in both
/// numerator and denominator are equal in value.
pub proof fn lemma_rat_eq_scaled(u: Rat, v: Rat, k: int)
    requires
        v.n == k * u.n,
        v.d == k * u.d,
    ensures
        rat_eq(u, v),
        rat_eq(v, u),
{
    assert(u.n * (k * u.d) == (k * u.n) * u.d) by (nonlinear_arith);
}

/// Products of at most four factors can be regrouped and reordered freely.
proof fn lemma_ac4(p: int, q: int, r: int, t: int)
    ensures
        (p * q) * (r * t) == (p * r) * (q * t),
        (p * q) * (r * t) == (p * t) * (q * r),
        (p * q) * (r * t) == p * (q * (r * t)),
        (p * q) * r == (p * r) * q,
        (p * q) * r == p * (q * r),
{
    assert((p * q) * (r * t) == (p * r) * (q * t) && (p * q) * (r * t) == (p * t) * (q * r)
        && (p * q) * (r * t) == p * (q * (r * t)) && (p * q) * r == (p * r) * q && (p * q) * r == p
        * (q * r)) by (nonlinear_arith);
}

/// Replacing the left operand by an equal fraction keeps the result equal.
proof fn lemma_congruence_left(a: Rat, a2: Rat, b: Rat)
    requires
        rat_eq(a, a2),
    ensures
        rat_eq(rat_add(a, b), rat_add(a2, b)),
        rat_eq(rat_sub(a, b), rat_sub(a2, b)),
        rat_eq(rat_mul(a, b), rat_mul(a2, b)),
{
    lemma_mul_is_distributive_add_other_way(a2.d * b.d, a.n * b.d, b.n * a.d);
    lemma_mul_is_distributive_add_other_way(a.d * b.d, a2.n * b.d, b.n * a2.d);
    lemma_mul_is_distributive_sub_other_way(a2.d * b.d, a.n * b.d, b.n * a.d);
    lemma_mul_is_distributive_sub_other_way(a.d * b.d, a2.n * b.d, b.n * a2.d);
    lemma_ac4(a.n, b.d, a2.d, b.d);
    assert((a.n * b.d) * (a2.d * b.d) == (a.n * a2.d) * (b.d * b.d));
    lemma_ac4(a2.n, a.d, b.d, b.d);
    assert((a2.n * a.d) * (b.d * b.d) == (a2.n * b.d) * (a.d * b.d)) by {
        lemma_ac4(a2.n, b.d, a.d, b.d);
    }
    assert((a.n * b.d) * (a2.d * b.d) == (a2.n * b.d) * (a.d * b.d));
    lemma_ac4(b.n, a.d, a2.d, b.d);
    assert((b.n * a.d) * (a2.d * b.d) == (b.n * a2.d) * (a.d * b.d));
    // the product case
    lemma_ac4(a.n, b.n, a2.d, b.d);
    assert((a.n * b.n) * (a2.d * b.d) == (a.n * a2.d) * (b.n * b.d));
    assert((a2.n * a.d) * (b.n * b.d) == (a2.n * b.n) * (a.d * b.d)) by {
        lemma_ac4(a2.n, b.n, a.d, b.d);
    }
    assert((a.n * b.n) * (a2.d * b.d) == (a2.n * b.n) * (a.d * b.d));
}

/// Replacing the right operand by an equal fraction keeps the result equal.
proof fn lemma_congruence_right(a: Rat, b: Rat, b2: Rat)
    requires
        rat_eq(b, b2),
    ensures
        rat_eq(rat_add(a, b), rat_add(a, b2)),
        rat_eq(rat_sub(a, b), rat_sub(a, b2)),
        rat_eq(rat_mul(a, b), rat_mul(a, b2)),
{
    lemma_mul_is_distributive_add_other_way(a.d * b2.d, a.n * b.d, b.n * a.d);
    lemma_mul_is_distributive_add_other_way(a.d * b.d, a.n * b2.d, b2.n * a.d);
    lemma_mul_is_distributive_sub_other_way(a.d * b2.d, a.n * b.d, b.n * a.d);
    lemma_mul_is_distributive_sub_other_way(a.d * b.d, a.n * b2.d, b2.n * a.d);
    lemma_ac4(a.n, b.d, a.d, b2.d);
    assert((a.n * b.d) * (a.d * b2.d) == (a.n * b2.d) * (a.d * b.d)) by {
        lemma_ac4(a.n, b2.d, a.d, b.d);
    }
    lemma_ac4(b.n, a.d, a.d, b2.d);
    assert((b.n * a.d) * (a.d * b2.d) == (b.n * b2.d) * (a.d * a.d));
    assert((b2.n * b.d) * (a.d * a.d) == (b2.n * a.d) * (a.d * b.d)) by {
        lemma_ac4(b2.n, b.d, a.d, a.d);
        lemma_ac4(b2.n, a.d, a.d, b.d);
    }
    assert((b.n * a.d) * (a.d * b2.d) == (b2.n * a.d) * (a.d * b.d));
    // the product case
    lemma_ac4(a.n, b.n, a.d, b2.d);
    assert((a.n * b.n) * (a.d * b2.d) == (b.n * b2.d) * (a.n * a.d)) by {
        lemma_ac4(b.n, b2.d, a.n, a.d);
    }
    assert((b2.n * b.d) * (a.n * a.d) == (a.n * b2.n) * (a.d * b.d)) by {
        lemma_ac4(b2.n, b.d, a.n, a.d);
        lemma_ac4(a.n, b2.n, a.d, b.d);
    }
    assert((a.n * b.n) * (a.d * b2.d) == (a.n * b2.n) * (a.d * b.d));
}

/// Equal operands give equal sums, differences, products and negations.
pub proof fn lemma_congruence(a: Rat, a2: Rat, b: Rat, b2: Rat)
    requires
        rat_wf(a),
        rat_wf(a2),
        rat_wf(b),
        rat_wf(b2),
        rat_eq(a, a2),
        rat_eq(b, b2),
    ensures
        rat_eq(rat_add(a, b), rat_add(a2, b2)),
        rat_eq(rat_sub(a, b), rat_sub(a2, b2)),
        rat_eq(rat_mul(a, b), rat_mul(a2, b2)),
        rat_eq(rat_neg(a), rat_neg(a2)),
{
    lemma_congruence_left(a, a2, b);
    lemma_congruence_right(a2, b, b2);
    lemma_rat_ops_wf(a2, b);
    lemma_rat_eq_trans(rat_add(a, b), rat_add(a2, b), rat_add(a2, b2));
    lemma_rat_eq_trans(rat_sub(a, b), rat_sub(a2, b), rat_sub(a2, b2));
    lemma_rat_eq_trans(rat_mul(a, b), rat_mul(a2, b), rat_mul(a2, b2));
    assert(rat_neg(a).n * rat_neg(a2).d == rat_neg(a2).n * rat_neg(a).d) by (nonlinear_arith)
        requires
            a.n * a2.d == a2.n * a.d,
    ;
}

/// What a successful checked operation returns: a well-formed value equal
/// to the exact result.
pub proof fn lemma_try_norm(a: Rat)
    requires
        rat_wf(a),
    ensures
        try_norm(a) matches Some(v) ==> rat_wf(v) && rat_eq(v, a) && rat_fits(v),
{
    reveal(try_norm);
    lemma_norm_props(a);
}

/// A successful checked sum, difference or product is a well-formed value
/// equal to the exact one.
pub proof fn lemma_try_ops_exact(a: Rat, b: Rat)
    requires
        rat_wf(a),
        rat_wf(b),
    ensures
        try_rat_add(a, b) matches Some(v) ==> rat_wf(v) && rat_eq(v, rat_add(a, b)),
        try_rat_sub(a, b) matches Some(v) ==> rat_wf(v) && rat_eq(v, rat_sub(a, b)),
        try_rat_mul(a, b) matches Some(v) ==> rat_wf(v) && rat_eq(v, rat_mul(a, b)),
{
    lemma_rat_ops_wf(a, b);
    lemma_try_norm(rat_add(a, b));
    lemma_try_norm(rat_sub(a, b));
    lemma_try_norm(rat_mul(a, b));
}

/// Multiplication of models is associative, structurally.
pub proof fn lemma_rat_mul_assoc(x: Rat, y: Rat, z: Rat)
    ensures
        rat_mul(rat_mul(x, y), z) == rat_mul(x, rat_mul(y, z)),
{
    lemma_ac4(x.n, y.n, z.n, 1);
    lemma_ac4(x.d, y.d, z.d, 1);
}

/// Addition of models is associative, structurally.
pub proof fn lemma_rat_add_assoc(x: Rat, y: Rat, z: Rat)
    ensures
        rat_add(rat_add(x, y), z) == rat_add(x, rat_add(y, z)),
{
    lemma_mul_is_distributive_add_other_way(z.d, x.n * y.d, y.n * x.d);
    lemma_mul_is_distributive_add_other_way(x.d, y.n * z.d, z.n * y.d);
    lemma_ac4(x.n, y.d, z.d, 1);
    assert((x.n * y.d) * z.d == x.n * (y.d * z.d));
    lemma_ac4(y.n, x.d, z.d, 1);
    assert((y.n * x.d) * z.d == (y.n * z.d) * x.d) by {
        lemma_ac4(y.n, z.d, x.d, 1);
    }
    lemma_ac4(z.n, x.d, y.d, 1);
    assert(z.n * (x.d * y.d) == (z.n * y.d) * x.d) by {
        lemma_ac4(z.n, y.d, x.d, 1);
    }
    lemma_ac4(x.d, y.d, z.d, 1);
    assert((x.d * y.d) * z.d == x.d * (y.d * z.d));
}

/// A product distributes over a sum.
pub proof fn lemma_rat_mul_distrib_add(s: Rat, x: Rat, y: Rat)
    ensures
        rat_eq(rat_mul(s, rat_add(x, y)), rat_add(rat_mul(s, x), rat_mul(s, y))),
        rat_eq(rat_add(rat_mul(s, x), rat_mul(s, y)), rat_mul(s, rat_add(x, y))),
{
    let u = rat_mul(s, rat_add(x, y));
    let v = rat_add(rat_mul(s, x), rat_mul(s, y));
    lemma_mul_is_distributive_add(s.n, x.n * y.d, y.n * x.d);
    lemma_mul_is_distributive_add(s.d, s.n * (x.n * y.d), s.n * (y.n * x.d));
    assert((s.n * x.n) * (s.d * y.d) == s.d * (s.n * (x.n * y.d))) by {
        lemma_ac4(s.n, x.n, s.d, y.d);
        lemma_ac4(s.d, s.n, x.n, y.d);
    }
    assert((s.n * y.n) * (s.d * x.d) == s.d * (s.n * (y.n * x.d))) by {
        lemma_ac4(s.n, y.n, s.d, x.d);
        lemma_ac4(s.d, s.n, y.n, x.d);
    }
    assert(v.n == s.d * u.n);
    assert((s.d * x.d) * (s.d * y.d) == s.d * (s.d * (x.d * y.d))) by {
        lemma_ac4(s.d, x.d, s.d, y.d);
        lemma_ac4(s.d, s.d, x.d, y.d);
    }
    assert(v.d == s.d * u.d);
    lemma_rat_eq_scaled(u, v, s.d);
}

/// A difference of two products with a common factor is the factor times
/// the difference.
pub proof fn lemma_rat_mul_distrib_sub(s: Rat, x: Rat, y: Rat)
    ensures
        rat_eq(rat_sub(rat_mul(s, x), rat_mul(s, y)), rat_mul(s, rat_sub(x, y))),
{
    let u = rat_mul(s, rat_sub(x, y));
    let v = rat_sub(rat_mul(s, x), rat_mul(s, y));
    lemma_mul_is_distributive_sub(s.n, x.n * y.d, y.n * x.d);
    lemma_mul_is_distributive_sub(s.d, s.n * (x.n * y.d), s.n * (y.n * x.d));
    assert((s.n * x.n) * (s.d * y.d) == s.d * (s.n * (x.n * y.d))) by {
        lemma_ac4(s.n, x.n, s.d, y.d);
        lemma_ac4(s.d, s.n, x.n, y.d);
    }
    assert((s.n * y.n) * (s.d * x.d) == s.d * (s.n * (y.n * x.d))) by {
        lemma_ac4(s.n, y.n, s.d, x.d);
        lemma_ac4(s.d, s.n, y.n, x.d);
    }
    assert(v.n == s.d * u.n);
    assert((s.d * x.d) * (s.d * y.d) == s.d * (s.d * (x.d * y.d))) by {
        lemma_ac4(s.d, x.d, s.d, y.d);
        lemma_ac4(s.d, s.d, x.d, y.d);
    }
    assert(v.d == s.d * u.d);
    lemma_rat_eq_scaled(u, v, s.d);
}

/// Adding the same model to both operands of a difference cancels.
pub proof fn lemma_rat_cancel_sub_add(c: Rat, x: Rat, y: Rat)
    ensures
        rat_eq(rat_sub(rat_add(c, x), rat_add(c, y)), rat_sub(x, y)),
{
    let u = rat_sub(x, y);
    let v = rat_sub(rat_add(c, x), rat_add(c, y));
    lemma_mul_is_distributive_add_other_way(c.d * y.d, c.n * x.d, x.n * c.d);
    lemma_mul_is_distributive_add_other_way(c.d * x.d, c.n * y.d, y.n * c.d);
    assert((c.n * x.d) * (c.d * y.d) == (c.n * y.d) * (c.d * x.d)) by {
        lemma_ac4(c.n, x.d, c.d, y.d);
        lemma_ac4(c.n, y.d, c.d, x.d);
    }
    assert((x.n * c.d) * (c.d * y.d) == (c.d * c.d) * (x.n * y.d)) by {
        lemma_ac4(x.n, c.d, c.d, y.d);
        lemma_ac4(c.d, c.d, x.n, y.d);
    }
    assert((y.n * c.d) * (c.d * x.d) == (c.d * c.d) * (y.n * x.d)) by {
        lemma_ac4(y.n, c.d, c.d, x.d);
        lemma_ac4(c.d, c.d, y.n, x.d);
    }
    lemma_mul_is_distributive_sub(c.d * c.d, x.n * y.d, y.n * x.d);
    assert(v.n == (c.d * c.d) * u.n);
    assert((c.d * x.d) * (c.d * y.d) == (c.d * c.d) * (x.d * y.d)) by {
        lemma_ac4(c.d, x.d, c.d, y.d);
        lemma_ac4(c.d, c.d, x.d, y.d);
    }
    assert(v.d == (c.d * c.d) * u.d);
    lemma_rat_eq_scaled(u, v, c.d * c.d);
}

} // verus!
