//! The sum of the numbers below `n`, taken modulo the prime 1000000007 at each step.
use vstd::prelude::*;

verus! {

/// The modulus the sum is taken by.
pub const MODULUS: i64 = 1000000007;

/// The sum of the numbers below `n`, reduced modulo `MODULUS` after each addition.
pub open spec fn spec_loop_sum(n: int) -> int
    decreases n,
{
    if n <= 0 {
        0
    } else {
        (spec_loop_sum(n - 1) + (n - 1)) % (MODULUS as int)
    }
}

/// The sum of the numbers from zero below `n`.
pub open spec fn triangle(n: int) -> int
    decreases n,
{
    if n <= 0 {
        0
    } else {
        triangle(n - 1) + (n - 1)
    }
}

/// The sum of the numbers from zero below `n` is `n (n - 1) / 2`.
pub proof fn lemma_triangle(n: int)
    requires
        n >= 0,
    ensures
        triangle(n) == n * (n - 1) / 2,
{
    lemma_triangle_double(n);
    let t = triangle(n);
    let p = n * (n - 1);
    assert(t == p / 2) by (nonlinear_arith)
        requires
            2 * t == p,
    ;
}

proof fn lemma_triangle_double(n: int)
    requires
        n >= 0,
    ensures
        2 * triangle(n) == n * (n - 1),
    decreases n,
{
    if n > 0 {
        let a = n - 1;
        lemma_triangle_double(a);
        assert(a * (a - 1) + 2 * a == n * (n - 1)) by (nonlinear_arith)
            requires
                a == n - 1,
        ;
        assert(triangle(n) == triangle(a) + a);
    } else {
        assert(n * (n - 1) == 0) by (nonlinear_arith)
            requires
                n == 0,
        ;
    }
}

/// Reducing after each addition gives the whole sum `n (n - 1) / 2` reduced once.
pub proof fn lemma_loop_sum_closed_form(n: int)
    requires
        n >= 0,
    ensures
        spec_loop_sum(n) == (n * (n - 1) / 2) % (MODULUS as int),
    decreases n,
{
    lemma_loop_sum_triangle(n);
    lemma_triangle(n);
}

proof fn lemma_loop_sum_triangle(n: int)
    requires
        n >= 0,
    ensures
        spec_loop_sum(n) == triangle(n) % (MODULUS as int),
    decreases n,
{
    if n > 0 {
        lemma_loop_sum_triangle(n - 1);
        let m = MODULUS as int;
        vstd::arithmetic::div_mod::lemma_add_mod_noop(triangle(n - 1), n - 1, m);
        vstd::arithmetic::div_mod::lemma_add_mod_noop(triangle(n - 1) % m, n - 1, m);
        vstd::arithmetic::div_mod::lemma_mod_twice(triangle(n - 1), m);
    }
}

/// The sum of the numbers from zero below `n`, reduced modulo `MODULUS` after each addition;
/// zero where `n` is not positive.
pub fn loopsum(n: i64) -> (r: i64)
    requires
        n <= i64::MAX - MODULUS,
    ensures
        r == spec_loop_sum(n as int),
        0 <= r < MODULUS,
{
    let mut acc: i64 = 0;
    let mut i: i64 = 0;
    while i < n
        invariant
            0 <= i,
            i <= n || i == 0,
            n <= i64::MAX - MODULUS,
            0 <= acc < MODULUS,
            acc == spec_loop_sum(i as int),
        decreases n - i,
    {
        acc = (acc + i) % 1000000007;
        i += 1;
    }
    acc
}

/// The sum of the numbers from zero below `n`, reduced modulo `MODULUS` after each addition;
/// zero where `n` is not positive.
pub fn loop_sum(n: i64) -> (r: i64)
    requires
        n <= i64::MAX - MODULUS,
    ensures
        r == spec_loop_sum(n as int),
        0 <= r < MODULUS,
{
    let mut acc = 0i64;
    if n <= 0 {
        return acc;
    }
    for i in 0..n
        invariant
            n <= i64::MAX - MODULUS,
            0 <= acc < MODULUS,
            acc == spec_loop_sum(i as int),
    {
        acc = (acc + i) % 1_000_000_007;
    }
    acc
}

} // verus!
