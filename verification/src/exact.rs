//! Whole powers of real numbers, by which roots are told apart.

use vstd::prelude::*;

verus! {

/// `x` raised to `n`: the product of `n` factors `x`.
pub open spec fn power(x: real, n: nat) -> real
    decreases n,
{
    if n == 0 {
        1 as real
    } else {
        x * power(x, (n - 1) as nat)
    }
}

/// `x` raised to `k`, for a `k` of either sign: a negative power is the
/// reciprocal of the positive one.
pub open spec fn power_int(x: real, k: int) -> real {
    if k >= 0 {
        power(x, k as nat)
    } else {
        (1 as real) / power(x, (-k) as nat)
    }
}

/// A power of a positive number is positive.
pub proof fn lemma_power_positive(x: real, n: nat)
    requires
        x > (0 as real),
    ensures
        power(x, n) > (0 as real),
    decreases n,
{
    if n > 0 {
        lemma_power_positive(x, (n - 1) as nat);
        let p = power(x, (n - 1) as nat);
        assert(x * p > (0 as real)) by (nonlinear_arith)
            requires
                x > (0 as real),
                p > (0 as real),
        ;
    }
}

/// Exponents add where powers are multiplied.
pub proof fn lemma_power_adds(x: real, m: nat, n: nat)
    ensures
        power(x, m + n) == power(x, m) * power(x, n),
    decreases m,
{
    if m > 0 {
        lemma_power_adds(x, (m - 1) as nat, n);
        let p = power(x, (m - 1) as nat);
        let q = power(x, n);
        assert(power(x, m + n) == x * power(x, ((m - 1) as nat) + n));
        assert(x * (p * q) == (x * p) * q) by (nonlinear_arith);
    }
}

/// Exponents multiply where a power is raised to a power.
pub proof fn lemma_power_of_power(x: real, m: nat, n: nat)
    ensures
        power(power(x, m), n) == power(x, m * n),
    decreases n,
{
    if n > 0 {
        lemma_power_of_power(x, m, (n - 1) as nat);
        lemma_power_adds(x, m, m * ((n - 1) as nat));
        assert(m + m * ((n - 1) as nat) == m * n) by (nonlinear_arith)
            requires
                n > 0,
        ;
    } else {
        assert(m * n == 0) by (nonlinear_arith)
            requires
                n == 0,
        ;
    }
}

/// Of two positive numbers the larger has the larger power.
pub proof fn lemma_power_increases(x: real, y: real, n: nat)
    requires
        (0 as real) < x < y,
        n >= 1,
    ensures
        power(x, n) < power(y, n),
    decreases n,
{
    if n == 1 {
        assert(power(x, 1) == x * power(x, 0));
        assert(power(y, 1) == y * power(y, 0));
    } else {
        lemma_power_increases(x, y, (n - 1) as nat);
        lemma_power_positive(x, (n - 1) as nat);
        let a = power(x, (n - 1) as nat);
        let b = power(y, (n - 1) as nat);
        assert(x * a < y * b) by (nonlinear_arith)
            requires
                (0 as real) < x < y,
                (0 as real) < a < b,
        ;
    }
}

/// A positive number has one positive root of each degree: two positive
/// numbers with the same `n`-th power are the same.
pub proof fn lemma_root_is_unique(x: real, y: real, n: nat)
    requires
        x > (0 as real),
        y > (0 as real),
        n >= 1,
        power(x, n) == power(y, n),
    ensures
        x == y,
{
    if x < y {
        lemma_power_increases(x, y, n);
    } else if y < x {
        lemma_power_increases(y, x, n);
    }
}

/// One more in the exponent is one more factor, for an exponent of either
/// sign.
pub proof fn lemma_power_int_step(x: real, k: int)
    requires
        x > (0 as real),
    ensures
        power_int(x, k + 1) == x * power_int(x, k),
        power_int(x, k) > (0 as real),
{
    if k >= 0 {
        lemma_power_positive(x, k as nat);
    } else {
        let p = power(x, (-k - 1) as nat);
        lemma_power_positive(x, (-k - 1) as nat);
        assert(power(x, (-k) as nat) == x * p);
        assert(power(x, 0) == 1 as real);
        assert((1 as real) / p == x * ((1 as real) / (x * p)) && (1 as real) / (x * p) > (0 as real))
            by (nonlinear_arith)
            requires
                x > (0 as real),
                p > (0 as real),
        ;
    }
}

} // verus!
