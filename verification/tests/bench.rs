use fixlang::bench::binary_trees;
use fixlang::bench::boxed_trees;
use fixlang::bench::fib::fib;
use fixlang::bench::levenshtein::{distance, next_rand};
use fixlang::bench::loops::{loop_sum, loopsum};

#[test]
fn fib_gives_the_fibonacci_numbers() {
    assert_eq!(fib(0), 0);
    assert_eq!(fib(1), 1);
    assert_eq!(fib(10), 55);
    assert_eq!(fib(30), 832040);
}

#[test]
fn fib_is_monotonic_on_concrete_values() {
    let mut prev = fib(0);
    for n in 1..25 {
        let cur = fib(n);
        assert!(prev <= cur);
        prev = cur;
    }
}

#[test]
fn loop_sums_agree_with_the_closed_form() {
    assert_eq!(loopsum(0), 0);
    assert_eq!(loop_sum(0), 0);
    assert_eq!(loopsum(-5), 0);
    assert_eq!(loop_sum(-5), 0);
    assert_eq!(loopsum(10), 45);
    assert_eq!(loop_sum(10), 45);
    let n: i64 = 100_000;
    let closed = ((n * (n - 1)) / 2) % 1_000_000_007;
    assert_eq!(loopsum(n), closed);
    assert_eq!(loop_sum(n), closed);
}

#[test]
fn loop_sum_of_ten_million() {
    assert_eq!(loop_sum(10_000_000), 994_650_007);
    assert_eq!(loopsum(10_000_000), 994_650_007);
}

#[test]
fn a_full_tree_of_depth_d_has_two_to_the_d_plus_one_minus_one_nodes() {
    for d in 0..12 {
        let expected = (1i64 << (d + 1)) - 1;
        assert_eq!(binary_trees::check(&binary_trees::make(d)), expected);
        assert_eq!(boxed_trees::check(&boxed_trees::make(d)), expected);
    }
}

#[test]
fn next_rand_multiplies_modulo_the_mersenne_prime() {
    let mut state: i64 = 1;
    assert_eq!(next_rand(&mut state), 16807);
    assert_eq!(state, 16807);
    assert_eq!(next_rand(&mut state), 282475249);
    assert_eq!(next_rand(&mut state), 1622650073);
    let mut neg: i64 = -1;
    assert_eq!(next_rand(&mut neg), -16807);
}

#[test]
fn edit_distance_values() {
    assert_eq!(distance(b"kitten", b"sitting"), 3);
    assert_eq!(distance(b"", b"abc"), 3);
    assert_eq!(distance(b"abc", b""), 3);
    assert_eq!(distance(b"flaw", b"lawn"), 2);
    assert_eq!(distance(b"same", b"same"), 0);
}

#[test]
fn edit_distance_is_symmetric_and_bounded() {
    let words: [&[u8]; 5] = [b"", b"a", b"intention", b"execution", b"abcdef"];
    for a in words.iter() {
        for b in words.iter() {
            let d = distance(a, b);
            assert_eq!(d, distance(b, a));
            assert!(d <= a.len().max(b.len()) as i64);
            assert!(d >= (a.len() as i64 - b.len() as i64).abs());
        }
        assert_eq!(distance(a, a), 0);
    }
}

#[test]
fn fib_of_thirty_four() {
    assert_eq!(fib(34), 5_702_887);
}

#[test]
fn binary_trees_of_depth_twenty() {
    assert_eq!(binary_trees::check(&binary_trees::make(20)), 2_097_151);
    assert_eq!(boxed_trees::check(&boxed_trees::make(20)), 2_097_151);
}

#[test]
fn edit_distances_of_a_thousand_random_words() {
    let n: usize = 1000;
    let mut state = 1i64;
    let mut words: Vec<Vec<u8>> = Vec::with_capacity(n);
    for _ in 0..n {
        let len = 3 + next_rand(&mut state) % 8;
        let mut w: Vec<u8> = Vec::with_capacity(len as usize);
        for _ in 0..len {
            w.push(b'a' + (next_rand(&mut state) % 26) as u8);
        }
        words.push(w);
    }
    let mut sum = 0i64;
    for i in 0..n {
        for j in i + 1..n {
            sum += distance(&words[i], &words[j]);
        }
    }
    assert_eq!(sum, 3_648_154);
}
