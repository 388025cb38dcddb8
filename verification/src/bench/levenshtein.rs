//! Edit distances between words, and the random numbers the words are drawn from.
use vstd::prelude::*;

verus! {

/// The multiplier of the random number generator.
pub const RAND_MULTIPLIER: i64 = 16807;

/// The modulus of the random number generator, the prime `2^31 - 1`.
pub const RAND_MODULUS: i64 = 2147483647;

/// The remainder of `x` divided by `m`, carrying the sign of `x`, as `%` computes it on signed
/// integers.
pub open spec fn truncated_rem(x: int, m: int) -> int {
    if x >= 0 {
        x % m
    } else {
        -((-x) % m)
    }
}

/// Advances the random number generator: the state becomes `16807 * state` modulo `2^31 - 1`,
/// and the new state is returned.
pub fn next_rand(state: &mut i64) -> (r: i64)
    requires
        -(i64::MAX / RAND_MULTIPLIER) <= *old(state) <= i64::MAX / RAND_MULTIPLIER,
    ensures
        *final(state) == truncated_rem(RAND_MULTIPLIER * *old(state), RAND_MODULUS as int),
        r == *final(state),
{
    *state = (16807 * *state) % 2147483647;
    *state
}

/// The smaller of two integers.
pub open spec fn min_int(x: int, y: int) -> int {
    if y < x {
        y
    } else {
        x
    }
}

/// The edit distance of `s` and `t`: the fewest insertions, deletions and substitutions of one
/// letter that turn `s` into `t`.
pub open spec fn lev(s: Seq<u8>, t: Seq<u8>) -> int
    decreases s.len() + t.len(),
{
    if s.len() == 0 {
        t.len() as int
    } else if t.len() == 0 {
        s.len() as int
    } else {
        let cost: int = if s.last() == t.last() {
            0
        } else {
            1
        };
        min_int(
            min_int(lev(s, t.drop_last()) + 1, lev(s.drop_last(), t) + 1),
            lev(s.drop_last(), t.drop_last()) + cost,
        )
    }
}

/// The edit distance is symmetric: turning `s` into `t` takes as many steps as turning `t`
/// into `s`.
pub proof fn lemma_lev_symmetric(s: Seq<u8>, t: Seq<u8>)
    ensures
        lev(s, t) == lev(t, s),
    decreases s.len() + t.len(),
{
    if s.len() > 0 && t.len() > 0 {
        lemma_lev_symmetric(s, t.drop_last());
        lemma_lev_symmetric(s.drop_last(), t);
        lemma_lev_symmetric(s.drop_last(), t.drop_last());
    }
}

/// The edit distance lies between zero and the sum of the two lengths.
pub proof fn lemma_lev_bounds(s: Seq<u8>, t: Seq<u8>)
    ensures
        0 <= lev(s, t) <= s.len() + t.len(),
    decreases s.len() + t.len(),
{
    if s.len() > 0 && t.len() > 0 {
        lemma_lev_bounds(s, t.drop_last());
        lemma_lev_bounds(s.drop_last(), t);
        lemma_lev_bounds(s.drop_last(), t.drop_last());
    }
}

/// A word is at distance zero from itself.
pub proof fn lemma_lev_self(s: Seq<u8>)
    ensures
        lev(s, s) == 0,
    decreases s.len(),
{
    if s.len() > 0 {
        lemma_lev_self(s.drop_last());
        lemma_lev_bounds(s, s.drop_last());
        lemma_lev_bounds(s.drop_last(), s);
    }
}

/// The distance of the first `i` letters of `a` from the first `j` letters of `b`, as the
/// recurrence of `lev` gives it from the three neighbouring prefixes.
proof fn lemma_lev_step(a: Seq<u8>, b: Seq<u8>, i: int, j: int)
    requires
        1 <= i <= a.len(),
        1 <= j <= b.len(),
    ensures
        lev(a.take(i), b.take(j)) == min_int(
            min_int(lev(a.take(i), b.take(j - 1)) + 1, lev(a.take(i - 1), b.take(j)) + 1),
            lev(a.take(i - 1), b.take(j - 1)) + (if a[i - 1] == b[j - 1] {
                0int
            } else {
                1int
            }),
        ),
{
    assert(a.take(i).drop_last() =~= a.take(i - 1));
    assert(b.take(j).drop_last() =~= b.take(j - 1));
}

/// The edit distance of the byte strings `a` and `b`: the fewest insertions, deletions and
/// substitutions of one byte that turn `a` into `b`.
pub fn distance(a: &[u8], b: &[u8]) -> (r: i64)
    requires
        a@.len() + b@.len() < i64::MAX,
        a@.len() < usize::MAX,
        b@.len() < usize::MAX,
    ensures
        r == lev(a@, b@),
{
    let ghost a0 = a@;
    let ghost b0 = b@;
    let (a, b) = if a.len() <= b.len() {
        (a, b)
    } else {
        (b, a)
    };
    proof {
        lemma_lev_symmetric(a0, b0);
    }
    let m = a.len();
    let n = b.len();
    let mut prev: Vec<i64> = Vec::new();
    let mut k: usize = 0;
    while k <= m
        invariant
            k <= m + 1,
            m == a@.len(),
            a@.len() + b@.len() < i64::MAX,
            a@.len() < usize::MAX,
            b@.len() < usize::MAX,
            prev@.len() == k,
            forall|i: int| 0 <= i < k ==> prev@[i] == lev(a@.take(i), b@.take(0)),
        decreases m + 1 - k,
    {
        proof {
            assert(b@.take(0).len() == 0);
        }
        prev.push(k as i64);
        k += 1;
    }
    let mut cur: Vec<i64> = vec![0; m + 1];
    let mut j: usize = 1;
    while j <= n
        invariant
            1 <= j <= n + 1,
            m == a@.len(),
            n == b@.len(),
            a@.len() + b@.len() < i64::MAX,
            a@.len() < usize::MAX,
            b@.len() < usize::MAX,
            prev@.len() == m + 1,
            cur@.len() == m + 1,
            forall|i: int| 0 <= i <= m ==> prev@[i] == lev(a@.take(i), b@.take(j - 1)),
        decreases n + 1 - j,
    {
        cur.set(0, j as i64);
        proof {
            assert(a@.take(0).len() == 0);
        }
        let mut i: usize = 1;
        while i <= m
            invariant
                1 <= i <= m + 1,
                1 <= j <= n,
                m == a@.len(),
                n == b@.len(),
                a@.len() + b@.len() < i64::MAX,
                a@.len() < usize::MAX,
                b@.len() < usize::MAX,
            a@.len() < usize::MAX,
            b@.len() < usize::MAX,
                prev@.len() == m + 1,
                cur@.len() == m + 1,
                forall|k: int| 0 <= k <= m ==> prev@[k] == lev(a@.take(k), b@.take(j - 1)),
                forall|k: int| 0 <= k < i ==> cur@[k] == lev(a@.take(k), b@.take(j as int)),
            decreases m + 1 - i,
        {
            proof {
                lemma_lev_step(a@, b@, i as int, j as int);
                lemma_lev_bounds(a@.take(i as int), b@.take(j - 1));
                lemma_lev_bounds(a@.take(i - 1), b@.take(j as int));
                lemma_lev_bounds(a@.take(i - 1), b@.take(j - 1));
            }
            let cost = if a[i - 1] == b[j - 1] {
                0
            } else {
                1
            };
            let mut d = prev[i] + 1;
            if cur[i - 1] + 1 < d {
                d = cur[i - 1] + 1;
            }
            if prev[i - 1] + cost < d {
                d = prev[i - 1] + cost;
            }
            cur.set(i, d);
            i += 1;
        }
        std::mem::swap(&mut prev, &mut cur);
        j += 1;
    }
    proof {
        assert(a@.take(m as int) =~= a@);
        assert(b@.take(n as int) =~= b@);
    }
    prev[m]
}

} // verus!
