//! The Fibonacci numbers, computed by the doubly recursive definition.
use vstd::prelude::*;

verus! {

/// The `n`-th Fibonacci number, and `n` itself where `n` is at most one.
pub open spec fn spec_fib(n: int) -> int
    decreases n,
{
    if n <= 1 {
        n
    } else {
        spec_fib(n - 1) + spec_fib(n - 2)
    }
}

/// The Fibonacci numbers never fall: each is at least the one before it, from the first on.
pub proof fn lemma_fib_monotonic(i: int, j: int)
    requires
        0 <= i <= j,
    ensures
        0 <= spec_fib(i) <= spec_fib(j),
    decreases j,
{
    if j > 1 {
        lemma_fib_monotonic(0, j - 1);
        lemma_fib_monotonic(0, j - 2);
        if i < j {
            lemma_fib_monotonic(i, j - 1);
        }
    }
}

/// The `n`-th Fibonacci number, and `n` itself where `n` is at most one.
pub fn fib(n: i64) -> (r: i64)
    requires
        spec_fib(n as int) <= i64::MAX,
    ensures
        r == spec_fib(n as int),
    decreases n,
{
    if n <= 1 {
        n
    } else {
        proof {
            lemma_fib_monotonic(n - 2, n - 1);
            lemma_fib_monotonic(0, n - 2);
        }
        fib(n - 1) + fib(n - 2)
    }
}

} // verus!
