//! Exact lengths: products of roots for the metric series, tenths of a
//! millimetre for the inch formats.

use vstd::prelude::*;
use crate::exact::{
    lemma_power_int_step, lemma_power_of_power, lemma_power_positive, lemma_root_is_unique, power,
    power_int,
};

verus! {

/// The positive real number `(base^(1/degree))^power`: the `degree`-th root
/// of `base`, raised to `power`.
#[derive(Clone, Copy, Debug, PartialEq, Eq, Structural)]
pub struct Radical {
    pub base: u32,
    pub degree: u32,
    pub power: u32,
}

impl Radical {
    /// Whether the three numbers name a positive real: a root is taken of a
    /// positive base only, and its degree is at least one.
    pub open spec fn wf(self) -> bool {
        self.base >= 1 && self.degree >= 1
    }

    /// Whether `x` is the number that the radical names. With `t` the
    /// positive `degree`-th root of `base`, the radical is `t^power`, and its
    /// `degree`-th power is `base^power`; `x` is the one positive real of
    /// which that holds.
    pub open spec fn denotes(self, x: real) -> bool {
        &&& x > (0 as real)
        &&& power(x, self.degree as nat) == power(self.base as real, self.power as nat)
    }

    /// The `degree`-th root of `base`.
    pub open spec fn root_of(base: u32, degree: u32) -> Radical {
        Radical { base, degree, power: 1 }
    }

    /// `self` raised to `exponent`: powers of a power multiply.
    pub open spec fn raised(self, exponent: u32) -> Radical {
        Radical { base: self.base, degree: self.degree, power: (self.power * exponent) as u32 }
    }

    /// The `degree`-th root of `base`.
    pub fn root(base: u32, degree: u32) -> (r: Radical)
        ensures
            r == Radical::root_of(base, degree),
            r.wf() <==> base >= 1 && degree >= 1,
    {
        Radical { base, degree, power: 1 }
    }

    /// The whole number `n`, as its own first root.
    pub fn whole(n: u32) -> (r: Radical)
        ensures
            r == Radical::root_of(n, 1),
            r.wf() <==> n >= 1,
    {
        Radical::root(n, 1)
    }

    /// `self` raised to `exponent`.
    pub fn pow(self, exponent: u32) -> (r: Radical)
        requires
            self.power * exponent <= u32::MAX,
        ensures
            r == self.raised(exponent),
            r.power == self.power * exponent,
            r.wf() <==> self.wf(),
    {
        Radical { base: self.base, degree: self.degree, power: self.power * exponent }
    }
}

/// One side of a sheet, in millimetres.
#[derive(Clone, Copy, Debug, PartialEq, Eq, Structural)]
pub enum Length {
    /// `aspect · scale / reduction^steps` millimetres.
    Metric { aspect: Radical, scale: Radical, reduction: Radical, steps: i128 },
    /// `tenths / 10` millimetres.
    Decimal { tenths: u64 },
}

impl Length {
    /// Whether every root in the length names a positive real.
    pub open spec fn wf(self) -> bool {
        match self {
            Length::Metric { aspect, scale, reduction, steps } => aspect.wf() && scale.wf()
                && reduction.wf(),
            Length::Decimal { tenths } => true,
        }
    }

    /// Whether `a`, `m` and `r` are the numbers that the three roots of a
    /// metric length name.
    pub open spec fn factors(
        aspect: Radical,
        scale: Radical,
        reduction: Radical,
        a: real,
        m: real,
        r: real,
    ) -> bool {
        aspect.denotes(a) && scale.denotes(m) && reduction.denotes(r)
    }

    /// Whether the length is `x` millimetres.
    pub open spec fn measures(self, x: real) -> bool {
        match self {
            Length::Metric { aspect, scale, reduction, steps } => exists|a: real, m: real, r: real|
                #[trigger] Length::factors(aspect, scale, reduction, a, m, r) && x == a * m
                    * power_int(r, -steps),
            Length::Decimal { tenths } => x * (10 as real) == tenths as real,
        }
    }
}

/// A radical names at most one number.
pub proof fn lemma_radical_is_one_number(radical: Radical, x: real, y: real)
    requires
        radical.wf(),
        radical.denotes(x),
        radical.denotes(y),
    ensures
        x == y,
{
    lemma_root_is_unique(x, y, radical.degree as nat);
}

/// The root of `base` that `root_of` gives is the positive number whose
/// `degree`-th power is `base`.
pub proof fn lemma_root_of_is_the_root(base: u32, degree: u32, x: real)
    ensures
        Radical::root_of(base, degree).denotes(x) <==> x > (0 as real) && power(x, degree as nat)
            == base as real,
{
    let b = base as real;
    assert(power(b, 1) == b * power(b, 0));
}

/// Where a radical names `x`, the radical raised to `exponent` names `x`
/// raised to `exponent`.
pub proof fn lemma_raised_is_the_power(radical: Radical, exponent: u32, x: real)
    requires
        radical.denotes(x),
        radical.power * exponent <= u32::MAX,
    ensures
        radical.raised(exponent).denotes(power(x, exponent as nat)),
{
    let d = radical.degree as nat;
    let p = radical.power as nat;
    let e = exponent as nat;
    let b = radical.base as real;
    lemma_power_positive(x, e);
    lemma_power_of_power(x, e, d);
    lemma_power_of_power(x, d, e);
    lemma_power_of_power(b, p, e);
    assert(e * d == d * e) by (nonlinear_arith);
}

/// A length is at most one number of millimetres.
pub proof fn lemma_length_is_one_number(length: Length, x: real, y: real)
    requires
        length.wf(),
        length.measures(x),
        length.measures(y),
    ensures
        x == y,
{
    match length {
        Length::Metric { aspect, scale, reduction, steps } => {
            let (a, m, r) = choose|a: real, m: real, r: real|
                #[trigger] Length::factors(aspect, scale, reduction, a, m, r) && x == a * m
                    * power_int(r, -steps);
            let (b, n, s) = choose|b: real, n: real, s: real|
                #[trigger] Length::factors(aspect, scale, reduction, b, n, s) && y == b * n
                    * power_int(s, -steps);
            lemma_radical_is_one_number(aspect, a, b);
            lemma_radical_is_one_number(scale, m, n);
            lemma_radical_is_one_number(reduction, r, s);
        },
        Length::Decimal { tenths } => {},
    }
}

/// Of two metric lengths built from the same roots, the one that takes one
/// step more is the other divided by the reduction.
pub proof fn lemma_one_step_more_divides(longer: Length, shorter: Length, r: real, x: real, y: real)
    requires
        longer.wf(),
        longer matches Length::Metric { aspect, scale, reduction, steps } && reduction.denotes(r)
            && steps < i128::MAX && shorter == (Length::Metric {
            aspect,
            scale,
            reduction,
            steps: (steps + 1) as i128,
        }),
        longer.measures(x),
        shorter.measures(y),
    ensures
        y * r == x,
        y == x * ((1 as real) / r),
{
    match longer {
        Length::Metric { aspect, scale, reduction, steps } => {
            let (a, m, r0) = choose|a: real, m: real, r0: real|
                #[trigger] Length::factors(aspect, scale, reduction, a, m, r0) && x == a * m
                    * power_int(r0, -steps);
            let (b, n, r1) = choose|b: real, n: real, r1: real|
                #[trigger] Length::factors(aspect, scale, reduction, b, n, r1) && y == b * n
                    * power_int(r1, -(steps + 1));
            lemma_radical_is_one_number(aspect, a, b);
            lemma_radical_is_one_number(scale, m, n);
            lemma_radical_is_one_number(reduction, r, r0);
            lemma_radical_is_one_number(reduction, r, r1);
            lemma_power_int_step(r, -(steps + 1));
            let p = power_int(r, -(steps + 1));
            assert(power_int(r, -steps) == r * p);
            assert(x == a * m * (r * p));
            assert(y == a * m * p);
            assert(y * r == x && y == x * ((1 as real) / r)) by (nonlinear_arith)
                requires
                    x == a * m * (r * p),
                    y == a * m * p,
                    r > (0 as real),
            ;
        },
        Length::Decimal { tenths } => {},
    }
}

} // verus!
