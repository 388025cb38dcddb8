//! Ordering text as `str` orders it, and sorting by a key stably: elements whose keys tie keep
//! the order they had.
use crate::strutil::str_chars;
use vstd::prelude::*;

verus! {

/// Whether the text `a` comes before `b` in the order `str` compares by: character by character,
/// a text coming before every longer text it begins.
pub open spec fn text_lt(a: Seq<char>, b: Seq<char>) -> bool
    decreases a.len(),
{
    if a.len() == 0 {
        b.len() > 0
    } else if b.len() == 0 {
        false
    } else if a[0] != b[0] {
        (a[0] as int) < (b[0] as int)
    } else {
        text_lt(a.drop_first(), b.drop_first())
    }
}

/// Whether `a` comes before `b`, as `text_lt` says.
pub fn text_less(a: &str, b: &str) -> (r: bool)
    ensures
        r == text_lt(a@, b@),
{
    let av = str_chars(a);
    let bv = str_chars(b);
    let mut i: usize = 0;
    assert(a@.skip(0) =~= a@ && b@.skip(0) =~= b@);
    while i < av.len() && i < bv.len()
        invariant
            av@ == a@,
            bv@ == b@,
            i <= av@.len(),
            i <= bv@.len(),
            text_lt(a@, b@) == text_lt(a@.skip(i as int), b@.skip(i as int)),
        decreases av@.len() - i,
    {
        let ghost sa = a@.skip(i as int);
        let ghost sb = b@.skip(i as int);
        assert(sa[0] == av@[i as int] && sb[0] == bv@[i as int]);
        if av[i] != bv[i] {
            return av[i] < bv[i];
        }
        assert(sa.drop_first() =~= a@.skip(i + 1));
        assert(sb.drop_first() =~= b@.skip(i + 1));
        i = i + 1;
    }
    i < bv.len()
}

/// Whether the key `a` comes no later than `b`: keys are ordered by their rank, then by their
/// text.
pub open spec fn key_le(a: (u8, Seq<char>), b: (u8, Seq<char>)) -> bool {
    a.0 < b.0 || (a.0 == b.0 && !text_lt(b.1, a.1))
}

/// Whether the key `a` comes no later than `b`.
pub fn key_less_eq(a: &(u8, String), b: &(u8, String)) -> (r: bool)
    ensures
        r == key_le((a.0, a.1@), (b.0, b.1@)),
{
    a.0 < b.0 || (a.0 == b.0 && !text_less(b.1.as_str(), a.1.as_str()))
}

/// The keys `keys` by their views.
pub open spec fn key_views(keys: Seq<(u8, String)>) -> Seq<(u8, Seq<char>)> {
    keys.map_values(|k: (u8, String)| (k.0, k.1@))
}

/// The place, from the `q`-th on, at which the index `j` goes among the indices `p` sorted by
/// their keys: before the first whose key comes after that of `j`.
pub open spec fn insert_pos(p: Seq<int>, keys: Seq<(u8, Seq<char>)>, j: int, q: int) -> int
    decreases p.len() - q,
{
    if q < 0 || q >= p.len() {
        p.len() as int
    } else if !key_le(keys[p[q]], keys[j]) {
        q
    } else {
        insert_pos(p, keys, j, q + 1)
    }
}

/// The indices of the first `k` keys, in the order a stable sort by key puts them: each index
/// taken in turn goes after every one before it whose key does not come after its own.
pub open spec fn sort_order(keys: Seq<(u8, Seq<char>)>, k: int) -> Seq<int>
    decreases k,
{
    if k <= 0 {
        Seq::empty()
    } else {
        let p = sort_order(keys, k - 1);
        p.insert(insert_pos(p, keys, k - 1, 0), k - 1)
    }
}

/// The place `insert_pos` gives lies within the indices, and it lies at or after `q`.
proof fn lemma_insert_pos_range(p: Seq<int>, keys: Seq<(u8, Seq<char>)>, j: int, q: int)
    requires
        0 <= q <= p.len(),
    ensures
        q <= insert_pos(p, keys, j, q) <= p.len(),
    decreases p.len() - q,
{
    if q < p.len() && key_le(keys[p[q]], keys[j]) {
        lemma_insert_pos_range(p, keys, j, q + 1);
    }
}

/// The first `k` indices in sorted order are `k` of them, each below `k`.
pub proof fn lemma_sort_order_len(keys: Seq<(u8, Seq<char>)>, k: int)
    requires
        k >= 0,
    ensures
        sort_order(keys, k).len() == k,
        forall|q: int| 0 <= q < k ==> 0 <= #[trigger] sort_order(keys, k)[q] < k,
    decreases k,
{
    if k > 0 {
        lemma_sort_order_len(keys, k - 1);
        let p = sort_order(keys, k - 1);
        lemma_insert_pos_range(p, keys, k - 1, 0);
        let pos = insert_pos(p, keys, k - 1, 0);
        assert forall|q: int| 0 <= q < k implies 0 <= #[trigger] sort_order(keys, k)[q] < k by {
            let s = p.insert(pos, k - 1);
            if q < pos {
                assert(s[q] == p[q]);
            } else if q > pos {
                assert(s[q] == p[q - 1]);
            }
        }
    }
}

/// Sorts `items` stably by the keys `keys`, the `i`-th key being that of the `i`-th item: the
/// `q`-th item of the result is the item at the `q`-th index of `sort_order`.
pub fn stable_sort<T>(items: Vec<T>, keys: &Vec<(u8, String)>) -> (r: Vec<T>)
    requires
        items@.len() == keys@.len(),
    ensures
        r@.len() == items@.len(),
        forall|q: int| 0 <= q < r@.len() ==> #[trigger] r@[q] == items@[sort_order(key_views(keys@), items@.len() as int)[q]],
{
    let ghost orig = items@;
    let ghost kv = key_views(keys@);
    let n = items.len();
    let mut rest = items;
    let mut out: Vec<T> = Vec::new();
    let mut idx: Vec<usize> = Vec::new();
    let mut i: usize = 0;
    while i < n
        invariant
            n == orig.len(),
            n == keys@.len(),
            kv == key_views(keys@),
            i <= n,
            rest@ == orig.skip(i as int),
            idx@.len() == i,
            out@.len() == i,
            forall|q: int| 0 <= q < i ==> #[trigger] idx@[q] as int == sort_order(kv, i as int)[q],
            forall|q: int| 0 <= q < i ==> #[trigger] out@[q] == orig[sort_order(kv, i as int)[q]],
        decreases n - i,
    {
        proof {
            lemma_sort_order_len(kv, i as int);
        }
        let ghost p = sort_order(kv, i as int);
        let mut q: usize = 0;
        while q < idx.len() && key_less_eq(&keys[idx[q]], &keys[i])
            invariant
                idx@.len() == i,
                p.len() == i,
                i < n,
                n == keys@.len(),
                kv == key_views(keys@),
                q <= i,
                forall|t: int| 0 <= t < i ==> #[trigger] idx@[t] as int == p[t],
                forall|t: int| 0 <= t < i ==> 0 <= #[trigger] p[t] < i,
                insert_pos(p, kv, i as int, 0) == insert_pos(p, kv, i as int, q as int),
            decreases i - q,
        {
            proof {
                assert(kv[p[q as int]] == (keys@[idx@[q as int] as int].0, keys@[idx@[q as int] as int].1@));
                assert(kv[i as int] == (keys@[i as int].0, keys@[i as int].1@));
            }
            q = q + 1;
        }
        proof {
            if q < idx.len() {
                assert(kv[p[q as int]] == (keys@[idx@[q as int] as int].0, keys@[idx@[q as int] as int].1@));
                assert(kv[i as int] == (keys@[i as int].0, keys@[i as int].1@));
            }
            assert(insert_pos(p, kv, i as int, 0) == q);
        }
        let x = rest.remove(0);
        proof {
            assert(x == orig[i as int]);
            assert(rest@ =~= orig.skip(i + 1));
        }
        let ghost idx0 = idx@;
        let ghost out0 = out@;
        out.insert(q, x);
        idx.insert(q, i);
        proof {
            let p2 = sort_order(kv, i + 1);
            assert(p2 == p.insert(q as int, i as int));
            assert forall|t: int| 0 <= t < i + 1 implies #[trigger] idx@[t] as int == p2[t] by {
                if t < q {
                    assert(idx@[t] == idx0[t]);
                } else if t > q {
                    assert(idx@[t] == idx0[t - 1]);
                }
            }
            assert forall|t: int| 0 <= t < i + 1 implies #[trigger] out@[t] == orig[p2[t]] by {
                if t < q {
                    assert(out@[t] == out0[t]);
                } else if t > q {
                    assert(out@[t] == out0[t - 1]);
                }
            }
        }
        i = i + 1;
    }
    out
}


/// No text comes before itself.
pub proof fn lemma_text_lt_irreflexive(a: Seq<char>)
    ensures
        !text_lt(a, a),
    decreases a.len(),
{
    if a.len() > 0 {
        lemma_text_lt_irreflexive(a.drop_first());
    }
}

/// Of two texts that differ, one comes before the other, and not both.
pub proof fn lemma_text_lt_total(a: Seq<char>, b: Seq<char>)
    ensures
        a != b ==> text_lt(a, b) || text_lt(b, a),
        !(text_lt(a, b) && text_lt(b, a)),
    decreases a.len(),
{
    if a.len() > 0 && b.len() > 0 && a[0] == b[0] {
        lemma_text_lt_total(a.drop_first(), b.drop_first());
        if a.drop_first() == b.drop_first() {
            assert(a =~= seq![a[0]] + a.drop_first());
            assert(b =~= seq![b[0]] + b.drop_first());
        }
    } else if a.len() == 0 && b.len() == 0 {
        assert(a =~= b);
    } else if a.len() > 0 && b.len() > 0 {
        assert((a[0] as int) != (b[0] as int));
    }
}

/// Coming before is transitive.
pub proof fn lemma_text_lt_transitive(a: Seq<char>, b: Seq<char>, c: Seq<char>)
    requires
        text_lt(a, b),
        text_lt(b, c),
    ensures
        text_lt(a, c),
    decreases a.len(),
{
    if a.len() > 0 && b.len() > 0 && c.len() > 0 && a[0] == b[0] && b[0] == c[0] {
        lemma_text_lt_transitive(a.drop_first(), b.drop_first(), c.drop_first());
    }
}

/// Keys are ordered totally and transitively.
pub proof fn lemma_key_le_order(a: (u8, Seq<char>), b: (u8, Seq<char>), c: (u8, Seq<char>))
    ensures
        key_le(a, a),
        key_le(a, b) || key_le(b, a),
        key_le(a, b) && key_le(b, c) ==> key_le(a, c),
        !key_le(a, b) ==> key_le(b, a) && a != b,
{
    lemma_text_lt_irreflexive(a.1);
    lemma_text_lt_total(a.1, b.1);
    lemma_text_lt_total(b.1, c.1);
    lemma_text_lt_total(a.1, c.1);
    if key_le(a, b) && key_le(b, c) && a.0 == b.0 && b.0 == c.0 && text_lt(c.1, a.1) {
        if a.1 == b.1 {
        } else if b.1 == c.1 {
        } else {
            assert(text_lt(a.1, b.1) && text_lt(b.1, c.1));
            lemma_text_lt_transitive(a.1, b.1, c.1);
        }
    }
}

/// Every index before the place `insert_pos` gives has a key not after that of `j`, and the
/// index at the place, if any, has a key after it.
proof fn lemma_insert_pos_split(p: Seq<int>, keys: Seq<(u8, Seq<char>)>, j: int, q: int)
    requires
        0 <= q <= p.len(),
    ensures
        forall|t: int| q <= t < insert_pos(p, keys, j, q) ==> key_le(keys[p[t]], keys[j]),
        insert_pos(p, keys, j, q) < p.len() ==> !key_le(keys[p[insert_pos(p, keys, j, q)]], keys[j]),
    decreases p.len() - q,
{
    if q < p.len() && key_le(keys[p[q]], keys[j]) {
        lemma_insert_pos_split(p, keys, j, q + 1);
    }
}

/// A stable sort by key: the indices of the first `k` keys, each once, in an order where no
/// key comes after a later one, and where indices whose keys are the same keep their order.
pub proof fn lemma_sort_order_stable(keys: Seq<(u8, Seq<char>)>, k: int)
    requires
        0 <= k <= keys.len(),
    ensures
        sort_order(keys, k).len() == k,
        sort_order(keys, k).no_duplicates(),
        forall|q: int| 0 <= q < k ==> 0 <= #[trigger] sort_order(keys, k)[q] < k,
        forall|a: int, b: int| 0 <= a < b < k ==> key_le(
            keys[#[trigger] sort_order(keys, k)[a]],
            keys[#[trigger] sort_order(keys, k)[b]],
        ),
        forall|a: int, b: int|
            0 <= a < b < k && keys[#[trigger] sort_order(keys, k)[a]] == keys[#[trigger] sort_order(keys, k)[b]]
                ==> sort_order(keys, k)[a] < sort_order(keys, k)[b],
    decreases k,
{
    lemma_sort_order_len(keys, k);
    if k > 0 {
        let j = k - 1;
        lemma_sort_order_stable(keys, j);
        let p = sort_order(keys, j);
        lemma_insert_pos_range(p, keys, j, 0);
        lemma_insert_pos_split(p, keys, j, 0);
        let pos = insert_pos(p, keys, j, 0);
        let s = p.insert(pos, j);
        assert(s == sort_order(keys, k));
        assert forall|t: int| 0 <= t < k implies s[t] == if t < pos {
            p[t]
        } else if t == pos {
            j
        } else {
            p[t - 1]
        } by {}
        assert(s.no_duplicates()) by {
            assert forall|a: int, b: int| 0 <= a < b < k implies s[a] != s[b] by {
                if a == pos {
                    assert(s[b] == p[b - 1]);
                } else if b == pos {
                    assert(s[a] == p[a]);
                } else {
                    let pa = if a < pos { a } else { a - 1 };
                    let pb = if b < pos { b } else { b - 1 };
                    assert(s[a] == p[pa] && s[b] == p[pb]);
                    assert(p[pa] != p[pb]);
                }
            }
        }
        assert forall|a: int, b: int| 0 <= a < b < k implies key_le(keys[#[trigger] s[a]], keys[#[trigger] s[b]])
            && (keys[s[a]] == keys[s[b]] ==> s[a] < s[b]) by {
            let pa = if a < pos { a } else { a - 1 };
            let pb = if b < pos { b } else { b - 1 };
            if a == pos {
                let x = p[pos];
                lemma_key_le_order(keys[x], keys[j], keys[j]);
                lemma_key_le_order(keys[j], keys[x], keys[p[pb]]);
                if pb > pos {
                    assert(key_le(keys[p[pos]], keys[p[pb]]));
                }
                assert(s[b] == p[pb]);
                assert(key_le(keys[j], keys[x]));
                assert(keys[j] != keys[p[pb]]) by {
                    if keys[j] == keys[p[pb]] {
                        lemma_key_le_order(keys[x], keys[p[pb]], keys[j]);
                    }
                }
            } else if b == pos {
                assert(s[a] == p[a]);
                assert(key_le(keys[p[a]], keys[j]));
                assert(p[a] < j);
            } else {
                assert(s[a] == p[pa] && s[b] == p[pb]);
                assert(pa < pb);
            }
        }
    }
}


/// The keys texts are sorted by: the texts themselves.
pub open spec fn text_keys(ts: Seq<Seq<char>>) -> Seq<(u8, Seq<char>)> {
    ts.map_values(|t: Seq<char>| (0u8, t))
}

/// The texts `ts` sorted, as `str` orders them.
pub open spec fn sorted_texts(ts: Seq<Seq<char>>) -> Seq<Seq<char>> {
    Seq::new(ts.len(), |q: int| ts[sort_order(text_keys(ts), ts.len() as int)[q]])
}

/// The first `k` texts of `s`, each one that repeats the one before it left out.
pub open spec fn dedup_adjacent(s: Seq<Seq<char>>, k: int) -> Seq<Seq<char>>
    decreases k,
{
    if k <= 0 {
        Seq::empty()
    } else if k >= 2 && s[k - 1] == s[k - 2] {
        dedup_adjacent(s, k - 1)
    } else {
        dedup_adjacent(s, k - 1).push(s[k - 1])
    }
}

/// The texts `ts` sorted, each once.
pub open spec fn sort_dedup(ts: Seq<Seq<char>>) -> Seq<Seq<char>> {
    dedup_adjacent(sorted_texts(ts), ts.len() as int)
}

/// The characters of each string of `v`.
pub open spec fn string_views(v: Seq<String>) -> Seq<Seq<char>> {
    v.map_values(|s: String| s@)
}

/// The strings `v` sorted as `str` orders them, each once: a `sort` then a `dedup`.
pub fn sort_dedup_strings(v: Vec<String>) -> (r: Vec<String>)
    ensures
        string_views(r@) == sort_dedup(string_views(v@)),
{
    let ghost ts = string_views(v@);
    let mut keys: Vec<(u8, String)> = Vec::new();
    for i in 0..v.len()
        invariant
            ts == string_views(v@),
            keys@.len() == i,
            forall|j: int| 0 <= j < i ==> #[trigger] key_views(keys@)[j] == (0u8, ts[j]),
    {
        let ghost before = keys@;
        keys.push((0u8, v[i].clone()));
        assert(key_views(keys@) =~= key_views(before).push((0u8, ts[i as int])));
    }
    assert(key_views(keys@) =~= text_keys(ts));
    let n = v.len();
    let ghost vv = v@;
    let sorted = stable_sort(v, &keys);
    let ghost st = sorted_texts(ts);
    proof {
        lemma_sort_order_len(text_keys(ts), n as int);
        assert forall|q: int| 0 <= q < n implies #[trigger] string_views(sorted@)[q] == st[q] by {
            assert(sorted@[q] == vv[sort_order(key_views(keys@), n as int)[q]]);
        }
    }
    assert(string_views(sorted@) =~= st);
    let mut out: Vec<String> = Vec::new();
    for i in 0..n
        invariant
            n == sorted@.len(),
            st == string_views(sorted@),
            string_views(out@) == dedup_adjacent(st, i as int),
    {
        let ghost before = out@;
        if i == 0 || sorted[i] != sorted[i - 1] {
            out.push(sorted[i].clone());
            assert(string_views(out@) =~= string_views(before).push(st[i as int]));
        }
    }
    out
}

} // verus!
