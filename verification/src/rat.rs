//! Exact rational arithmetic.
//!
//! A [`Rat`] is a fraction of two `i64`s with a positive denominator, kept
//! reduced by a verified gcd so that values stay small in practice.  Every
//! operation is checked: it returns `None` instead of overflowing, and its
//! contract says exactly which mathematical fraction comes back and when the
//! operation succeeds.  The mathematical model is [`Frac`], a pair of
//! unbounded integers compared by cross-multiplication.

use vstd::prelude::*;
use vstd::arithmetic::div_mod::{
    lemma_fundamental_div_mod, lemma_mod_multiples_basic, lemma_mod_self_0,
    lemma_div_multiples_vanish, lemma_small_mod, lemma_div_pos_is_pos, lemma_div_of0,
    lemma_div_by_self,
};
use vstd::arithmetic::mul::{
    lemma_mul_is_associative, lemma_mul_is_commutative, lemma_mul_is_distributive_add_other_way,
};
use vstd::math::abs;

verus! {

/// Mathematical fraction `n / d`; well-formed when `d > 0`.
pub struct Frac {
    pub n: int,
    pub d: int,
}

pub open spec fn frac_wf(a: Frac) -> bool {
    a.d > 0
}

/// Value equality of fractions, by cross-multiplication.
pub open spec fn frac_eq(a: Frac, b: Frac) -> bool {
    a.n * b.d == b.n * a.d
}

pub open spec fn frac_int(i: int) -> Frac {
    Frac { n: i, d: 1 }
}

/// The fraction `num / den` brought to a positive denominator.
pub open spec fn frac_of(num: int, den: int) -> Frac
    recommends
        den != 0,
{
    if den < 0 {
        Frac { n: -num, d: -den }
    } else {
        Frac { n: num, d: den }
    }
}

/// A well-formed fraction is positive exactly when its numerator is.
pub open spec fn frac_pos(a: Frac) -> bool {
    a.n > 0
}

pub open spec fn frac_add(a: Frac, b: Frac) -> Frac {
    Frac { n: a.n * b.d + b.n * a.d, d: a.d * b.d }
}

pub open spec fn frac_sub(a: Frac, b: Frac) -> Frac {
    Frac { n: a.n * b.d - b.n * a.d, d: a.d * b.d }
}

pub open spec fn frac_mul(a: Frac, b: Frac) -> Frac {
    Frac { n: a.n * b.n, d: a.d * b.d }
}

pub open spec fn frac_neg(a: Frac) -> Frac {
    Frac { n: -a.n, d: a.d }
}

/// Division keeps the denominator positive by flipping signs when the
/// divisor's numerator is negative.
pub open spec fn frac_div(a: Frac, b: Frac) -> Frac
    recommends
        b.n != 0,
{
    if b.n >= 0 {
        Frac { n: a.n * b.d, d: a.d * b.n }
    } else {
        Frac { n: -(a.n * b.d), d: -(a.d * b.n) }
    }
}

/// The result of a checked operation: the reduced fraction when it is
/// representable, `None` otherwise.
pub open spec fn crat(f: Frac) -> Option<Frac>
    recommends
        frac_wf(f),
{
    if fits(norm(f)) {
        Some(norm(f))
    } else {
        None
    }
}

/// The arithmetic on well-formed fractions yields well-formed fractions.
pub proof fn lemma_frac_ops_wf(a: Frac, b: Frac)
    by (nonlinear_arith)
    requires
        frac_wf(a),
        frac_wf(b),
    ensures
        frac_wf(frac_add(a, b)),
        frac_wf(frac_sub(a, b)),
        frac_wf(frac_mul(a, b)),
        frac_wf(frac_neg(a)),
        b.n != 0 ==> frac_wf(frac_div(a, b)),
{
}

/// Value equality of fractions is transitive.
pub proof fn lemma_frac_eq_trans(a: Frac, b: Frac, c: Frac)
    by (nonlinear_arith)
    requires
        frac_wf(a),
        frac_wf(b),
        frac_wf(c),
        frac_eq(a, b),
        frac_eq(b, c),
    ensures
        frac_eq(a, c),
{
}

/// Four factors can be multiplied pairwise in either grouping.
pub proof fn lemma_mul4_pair(p: int, q: int, r: int, s: int)
    ensures
        (p * q) * (r * s) == (p * r) * (q * s),
{
    lemma_mul_is_associative(p, q, r * s);
    lemma_mul_is_associative(q, r, s);
    lemma_mul_is_commutative(q, r);
    lemma_mul_is_associative(r, q, s);
    lemma_mul_is_associative(p, r, q * s);
}

/// Sums of equal fractions are equal.
pub proof fn lemma_frac_add_cong(a: Frac, b: Frac, a2: Frac, b2: Frac)
    requires
        frac_wf(a),
        frac_wf(b),
        frac_wf(a2),
        frac_wf(b2),
        frac_eq(a, a2),
        frac_eq(b, b2),
    ensures
        frac_eq(frac_add(a, b), frac_add(a2, b2)),
{
    lemma_mul_is_distributive_add_other_way(a2.d * b2.d, a.n * b.d, b.n * a.d);
    lemma_mul4_pair(a.n, b.d, a2.d, b2.d);
    lemma_mul4_pair(b.n, a.d, b2.d, a2.d);
    lemma_mul_is_commutative(a2.d, b2.d);
    lemma_mul_is_distributive_add_other_way(a.d * b.d, a2.n * b2.d, b2.n * a2.d);
    lemma_mul4_pair(a2.n, b2.d, a.d, b.d);
    lemma_mul4_pair(b2.n, a2.d, b.d, a.d);
    lemma_mul_is_commutative(a.d, b.d);
    lemma_mul_is_commutative(b2.d, b.d);
    lemma_mul_is_commutative(a2.d, a.d);
    lemma_mul_is_commutative(b.d, b2.d);
    lemma_mul_is_commutative(a.d, a2.d);
    assert((a.n * a2.d) * (b.d * b2.d) == (a2.n * a.d) * (b.d * b2.d));
    assert((b.n * b2.d) * (a.d * a2.d) == (b2.n * b.d) * (a.d * a2.d));
}


/// Products of equal fractions are equal.
pub proof fn lemma_frac_mul_cong(a: Frac, b: Frac, a2: Frac, b2: Frac)
    by (nonlinear_arith)
    requires
        frac_wf(a),
        frac_wf(b),
        frac_wf(a2),
        frac_wf(b2),
        frac_eq(a, a2),
        frac_eq(b, b2),
    ensures
        frac_eq(frac_mul(a, b), frac_mul(a2, b2)),
{
}


/// A fraction equal to a positive fraction is positive.
pub proof fn lemma_frac_eq_pos(a: Frac, b: Frac)
    by (nonlinear_arith)
    requires
        frac_wf(a),
        frac_wf(b),
        frac_eq(a, b),
        frac_pos(b),
    ensures
        frac_pos(a),
{
}

/// Products of positive fractions are positive.
pub proof fn lemma_frac_mul_pos(a: Frac, b: Frac)
    by (nonlinear_arith)
    requires
        frac_wf(a),
        frac_wf(b),
        frac_pos(a),
        frac_pos(b),
    ensures
        frac_pos(frac_mul(a, b)),
        frac_wf(frac_mul(a, b)),
{
}

/// Quotients of positive fractions are positive.
pub proof fn lemma_frac_div_pos(a: Frac, b: Frac)
    by (nonlinear_arith)
    requires
        frac_wf(a),
        frac_wf(b),
        frac_pos(a),
        frac_pos(b),
    ensures
        frac_pos(frac_div(a, b)),
        frac_wf(frac_div(a, b)),
{
}


/// A fraction with zero numerator reduces to `0 / 1`.
pub proof fn lemma_norm_zero(f: Frac)
    requires
        frac_wf(f),
        f.n == 0,
    ensures
        norm(f) == frac_int(0),
{
    lemma_small_mod(0, f.d as nat);
    assert(gcd(abs(f.n), f.d as nat) == gcd(f.d as nat, 0nat));
    lemma_div_of0(f.d);
    lemma_div_by_self(f.d);
}

/// Euclid's greatest common divisor.
pub open spec fn gcd(a: nat, b: nat) -> nat
    decreases b,
{
    if b == 0 {
        a
    } else {
        gcd(b, a % b)
    }
}

/// The gcd is positive and divides both arguments (when one is nonzero).
pub proof fn lemma_gcd_divides(a: nat, b: nat)
    requires
        a > 0 || b > 0,
    ensures
        gcd(a, b) > 0,
        a % gcd(a, b) == 0,
        b % gcd(a, b) == 0,
    decreases b,
{
    let g: nat = gcd(a, b);
    if b == 0 {
        lemma_mod_self_0(a as int);
        lemma_small_mod(0, a);
    } else {
        lemma_gcd_divides(b, a % b);
        let r: nat = a % b;
        let q: int = a as int / b as int;
        lemma_fundamental_div_mod(a as int, b as int);
        lemma_fundamental_div_mod(b as int, g as int);
        lemma_fundamental_div_mod(r as int, g as int);
        let kb: int = b as int / g as int;
        let kr: int = r as int / g as int;
        assert(a as int == (q * kb + kr) * g as int) by (nonlinear_arith)
            requires
                a as int == b as int * q + r as int,
                b as int == g as int * kb + 0,
                r as int == g as int * kr + 0,
        ;
        lemma_mod_multiples_basic(q * kb + kr, g as int);
    }
}

/// Exact division: when `g` divides `|x|`, dividing gives back a true factor,
/// and the quotient's sign follows the dividend's.
pub proof fn lemma_exact_div(x: int, g: int)
    requires
        g >= 1,
        abs(x) as int % g == 0,
    ensures
        x == g * (x / g),
        x >= 0 ==> x / g == abs(x) as int / g,
        x < 0 ==> x / g == -(abs(x) as int / g),
        abs(x) as int / g >= 0,
{
    lemma_div_pos_is_pos(abs(x) as int, g);
    if x >= 0 {
        lemma_fundamental_div_mod(x, g);
    } else {
        let m: int = -x;
        lemma_fundamental_div_mod(m, g);
        let k: int = m / g;
        assert(x == g * (-k)) by (nonlinear_arith)
            requires
                m == g * k + 0,
                x == -m,
        ;
        lemma_div_multiples_vanish(-k, g);
    }
}

/// `f` reduced to lowest terms.
pub open spec fn norm(f: Frac) -> Frac
    recommends
        frac_wf(f),
{
    let g: int = gcd(abs(f.n), f.d as nat) as int;
    Frac { n: f.n / g, d: f.d / g }
}

/// Whether a fraction is representable by a `Rat` (both parts within `i64`,
/// the numerator kept symmetric so negation never overflows).
pub open spec fn fits(a: Frac) -> bool {
    &&& -(i64::MAX as int) <= a.n <= i64::MAX as int
    &&& 1 <= a.d <= i64::MAX as int
}

/// Reduction keeps the fraction well-formed and does not change its value.
pub proof fn lemma_norm_props(f: Frac)
    requires
        frac_wf(f),
    ensures
        frac_wf(norm(f)),
        norm(f).d >= 1,
        frac_eq(norm(f), f),
{
    let g: int = gcd(abs(f.n), f.d as nat) as int;
    lemma_gcd_divides(abs(f.n), f.d as nat);
    lemma_exact_div(f.n, g);
    lemma_exact_div(f.d, g);
    let nn: int = f.n / g;
    let dd: int = f.d / g;
    assert(dd >= 1) by (nonlinear_arith)
        requires
            f.d == g * dd,
            f.d >= 1,
            g >= 1,
    ;
    assert(nn * f.d == f.n * dd) by (nonlinear_arith)
        requires
            f.n == g * nn,
            f.d == g * dd,
    ;
}

/// Greatest common divisor of two machine words.
fn gcd_u128(a0: u128, b0: u128) -> (g: u128)
    ensures
        g as nat == gcd(a0 as nat, b0 as nat),
{
    let mut a: u128 = a0;
    let mut b: u128 = b0;
    while b != 0
        invariant
            gcd(a as nat, b as nat) == gcd(a0 as nat, b0 as nat),
        decreases b,
    {
        let t: u128 = a % b;
        a = b;
        b = t;
    }
    a
}

/// Products of `i64`-bounded integers stay within one `i128` product bound.
proof fn lemma_i64_mul_bound(a: int, b: int)
    by (nonlinear_arith)
    requires
        -(i64::MAX as int) <= a <= i64::MAX as int,
        -(i64::MAX as int) <= b <= i64::MAX as int,
    ensures
        -((i64::MAX as int) * (i64::MAX as int)) <= a * b <= (i64::MAX as int) * (i64::MAX as int),
{
}

/// An exact rational number: a reduced fraction of `i64`s.
#[derive(Clone, Copy, Debug)]
pub struct Rat {
    num: i64,
    den: i64,
}

impl View for Rat {
    type V = Frac;

    closed spec fn view(&self) -> Frac {
        Frac { n: self.num as int, d: self.den as int }
    }
}

/// Every `Rat` built by this module satisfies this: a well-formed,
/// representable fraction.
pub open spec fn rat_wf(r: Rat) -> bool {
    frac_wf(r@) && fits(r@)
}

impl Rat {
    /// The whole number `i` as a rational.
    pub fn from_int(i: i64) -> (r: Rat)
        requires
            i != i64::MIN,
        ensures
            rat_wf(r),
            r@ == frac_int(i as int),
    {
        Rat { num: i, den: 1 }
    }

    /// `num / den`, reduced; `None` exactly when `den` is zero or the reduced
    /// fraction does not fit.
    pub fn new(num: i64, den: i64) -> (r: Option<Rat>)
        ensures
            r is Some <==> den != 0 && fits(norm(frac_of(num as int, den as int))),
            r matches Some(v) ==> {
                &&& rat_wf(v)
                &&& v@ == norm(frac_of(num as int, den as int))
                &&& frac_eq(v@, frac_of(num as int, den as int))
            },
    {
        if den == 0 {
            return None;
        }
        let n: i128 = if den < 0 { -(num as i128) } else { num as i128 };
        let d: i128 = if den < 0 { -(den as i128) } else { den as i128 };
        Rat::reduce(n, d)
    }

    /// Reduce `n / d` (with `d >= 1`) and pack it into a `Rat` if it fits.
    fn reduce(n: i128, d: i128) -> (r: Option<Rat>)
        requires
            1 <= d,
            -i128::MAX <= n,
        ensures
            r is Some <==> fits(norm(Frac { n: n as int, d: d as int })),
            r matches Some(v) ==> {
                &&& rat_wf(v)
                &&& v@ == norm(Frac { n: n as int, d: d as int })
                &&& frac_eq(v@, Frac { n: n as int, d: d as int })
            },
    {
        let ghost f = Frac { n: n as int, d: d as int };
        let neg: bool = n < 0;
        let na: u128 = if neg { (-n) as u128 } else { n as u128 };
        let da: u128 = d as u128;
        proof {
            assert(na as int == abs(f.n) as int);
            assert(da as int == f.d);
        }
        let g: u128 = gcd_u128(na, da);
        proof {
            lemma_gcd_divides(na as nat, da as nat);
            lemma_exact_div(f.n, g as int);
            lemma_exact_div(f.d, g as int);
            lemma_norm_props(f);
        }
        let nr: u128 = na / g;
        let dr: u128 = da / g;
        proof {
            assert(norm(f).d == dr as int);
            assert(dr >= 1) by {
                assert(f.d == (g as int) * (f.d / (g as int)));
                assert(f.d / (g as int) >= 1) by (nonlinear_arith)
                    requires
                        f.d == (g as int) * (f.d / (g as int)),
                        f.d >= 1,
                        g as int >= 1,
                ;
            }
            if neg {
                assert(norm(f).n == -(nr as int));
            } else {
                assert(norm(f).n == nr as int);
            }
        }
        if nr <= (i64::MAX as u128) && dr <= (i64::MAX as u128) {
            let nv: i64 = if neg { -(nr as i64) } else { nr as i64 };
            Some(Rat { num: nv, den: dr as i64 })
        } else {
            None
        }
    }

    /// Numerator of the reduced fraction.
    pub fn num(&self) -> (r: i64)
        ensures
            r as int == self@.n,
    {
        self.num
    }

    /// Denominator of the reduced fraction.
    pub fn den(&self) -> (r: i64)
        ensures
            r as int == self@.d,
    {
        self.den
    }

    /// Value equality (`2/4` equals `1/2`).
    pub fn eqv(&self, other: &Rat) -> (r: bool)
        requires
            rat_wf(*self),
            rat_wf(*other),
        ensures
            r == frac_eq(self@, other@),
    {
        proof {
            lemma_i64_mul_bound(self@.n, other@.d);
            lemma_i64_mul_bound(other@.n, self@.d);
        }
        self.num as i128 * other.den as i128 == other.num as i128 * self.den as i128
    }

    pub fn is_zero(&self) -> (r: bool)
        ensures
            r == (self@.n == 0),
    {
        self.num == 0
    }

    /// Exact negation (never overflows thanks to the symmetric bound).
    pub fn neg(&self) -> (r: Rat)
        requires
            rat_wf(*self),
        ensures
            rat_wf(r),
            r@ == frac_neg(self@),
    {
        Rat { num: -self.num, den: self.den }
    }

    /// Checked addition: `None` exactly when the reduced sum does not fit.
    pub fn checked_add(&self, other: &Rat) -> (r: Option<Rat>)
        requires
            rat_wf(*self),
            rat_wf(*other),
        ensures
            r is Some <==> fits(norm(frac_add(self@, other@))),
            r matches Some(v) ==> {
                &&& rat_wf(v)
                &&& v@ == norm(frac_add(self@, other@))
                &&& frac_eq(v@, frac_add(self@, other@))
            },
    {
        proof {
            lemma_i64_mul_bound(self@.n, other@.d);
            lemma_i64_mul_bound(other@.n, self@.d);
            lemma_i64_mul_bound(self@.d, other@.d);
            assert((self@.d * other@.d) >= 1) by (nonlinear_arith)
                requires
                    self@.d >= 1,
                    other@.d >= 1,
            ;
        }
        let n: i128 = self.num as i128 * other.den as i128 + other.num as i128 * self.den as i128;
        let d: i128 = self.den as i128 * other.den as i128;
        Rat::reduce(n, d)
    }

    /// Checked subtraction: `None` exactly when the reduced difference does
    /// not fit.
    pub fn checked_sub(&self, other: &Rat) -> (r: Option<Rat>)
        requires
            rat_wf(*self),
            rat_wf(*other),
        ensures
            r is Some <==> fits(norm(frac_sub(self@, other@))),
            r matches Some(v) ==> {
                &&& rat_wf(v)
                &&& v@ == norm(frac_sub(self@, other@))
                &&& frac_eq(v@, frac_sub(self@, other@))
            },
    {
        proof {
            lemma_i64_mul_bound(self@.n, other@.d);
            lemma_i64_mul_bound(other@.n, self@.d);
            lemma_i64_mul_bound(self@.d, other@.d);
            assert((self@.d * other@.d) >= 1) by (nonlinear_arith)
                requires
                    self@.d >= 1,
                    other@.d >= 1,
            ;
        }
        let n: i128 = self.num as i128 * other.den as i128 - other.num as i128 * self.den as i128;
        let d: i128 = self.den as i128 * other.den as i128;
        Rat::reduce(n, d)
    }

    /// Checked multiplication: `None` exactly when the reduced product does
    /// not fit.
    pub fn checked_mul(&self, other: &Rat) -> (r: Option<Rat>)
        requires
            rat_wf(*self),
            rat_wf(*other),
        ensures
            r is Some <==> fits(norm(frac_mul(self@, other@))),
            r matches Some(v) ==> {
                &&& rat_wf(v)
                &&& v@ == norm(frac_mul(self@, other@))
                &&& frac_eq(v@, frac_mul(self@, other@))
            },
    {
        proof {
            lemma_i64_mul_bound(self@.n, other@.n);
            lemma_i64_mul_bound(self@.d, other@.d);
            assert((self@.d * other@.d) >= 1) by (nonlinear_arith)
                requires
                    self@.d >= 1,
                    other@.d >= 1,
            ;
        }
        let n: i128 = self.num as i128 * other.num as i128;
        let d: i128 = self.den as i128 * other.den as i128;
        Rat::reduce(n, d)
    }

    /// Checked division: `None` when the divisor is zero or the reduced
    /// quotient does not fit.
    pub fn checked_div(&self, other: &Rat) -> (r: Option<Rat>)
        requires
            rat_wf(*self),
            rat_wf(*other),
        ensures
            r is Some <==> other@.n != 0 && fits(norm(frac_div(self@, other@))),
            r matches Some(v) ==> {
                &&& rat_wf(v)
                &&& v@ == norm(frac_div(self@, other@))
                &&& frac_eq(v@, frac_div(self@, other@))
            },
    {
        if other.num == 0 {
            return None;
        }
        proof {
            lemma_i64_mul_bound(self@.n, other@.d);
            lemma_i64_mul_bound(self@.d, other@.n);
            assert(other@.n < 0 ==> (self@.d * other@.n) <= -1) by (nonlinear_arith)
                requires
                    self@.d >= 1,
            ;
            assert(other@.n > 0 ==> (self@.d * other@.n) >= 1) by (nonlinear_arith)
                requires
                    self@.d >= 1,
            ;
        }
        let mut n: i128 = self.num as i128 * other.den as i128;
        let mut d: i128 = self.den as i128 * other.num as i128;
        if d < 0 {
            n = -n;
            d = -d;
        }
        Rat::reduce(n, d)
    }
}

} // verus!
