//! Text as sequences of characters: joining, splitting and comparing names.
use vstd::prelude::*;

verus! {

/// The characters of each string of `v`.
pub open spec fn strs(v: Seq<String>) -> Seq<Seq<char>> {
    v.map_values(|s: String| s@)
}

/// The parts joined, with `sep` between each two of them.
pub open spec fn join(parts: Seq<Seq<char>>, sep: Seq<char>) -> Seq<char>
    decreases parts.len(),
{
    if parts.len() == 0 {
        Seq::empty()
    } else if parts.len() == 1 {
        parts[0]
    } else {
        join(parts.drop_last(), sep) + sep + parts.last()
    }
}

/// Whether `s` begins with `p`.
pub open spec fn starts_with(s: Seq<char>, p: Seq<char>) -> bool {
    p.len() <= s.len() && s.subrange(0, p.len() as int) == p
}

/// `s` cut at each occurrence of the non-empty `sep`, searched from the left and never
/// overlapping, as `str::split` cuts: `"a::b"` gives `["a", "b"]`, `""` gives `[""]`, and
/// `"::a"` gives `["", "a"]`.
pub open spec fn split(s: Seq<char>, sep: Seq<char>) -> Seq<Seq<char>>
    recommends
        sep.len() > 0,
    decreases s.len(),
{
    if s.len() == 0 || sep.len() == 0 {
        seq![s]
    } else if starts_with(s, sep) {
        seq![Seq::<char>::empty()] + split(s.skip(sep.len() as int), sep)
    } else {
        let rest = split(s.skip(1), sep);
        rest.update(0, seq![s[0]] + rest[0])
    }
}

/// Every occurrence of `pat` in `s` replaced by `rep`, as `str::replace` does.
pub open spec fn replace(s: Seq<char>, pat: Seq<char>, rep: Seq<char>) -> Seq<char> {
    join(split(s, pat), rep)
}

/// Whether `c` occurs in `s`.
pub open spec fn has_char(s: Seq<char>, c: char) -> bool {
    exists|i: int| 0 <= i < s.len() && s[i] == c
}

pub proof fn lemma_split_nonempty(s: Seq<char>, sep: Seq<char>)
    ensures
        split(s, sep).len() >= 1,
    decreases s.len(),
{
    if s.len() == 0 || sep.len() == 0 {
    } else if starts_with(s, sep) {
        lemma_split_nonempty(s.skip(sep.len() as int), sep);
    } else {
        lemma_split_nonempty(s.skip(1), sep);
    }
}

/// Splitting a text holding no character of `sep` gives the text whole.
pub proof fn lemma_split_without_sep(s: Seq<char>, sep: Seq<char>)
    requires
        sep.len() > 0,
        !has_char(s, sep[0]),
    ensures
        split(s, sep) == seq![s],
    decreases s.len(),
{
    if s.len() == 0 {
    } else {
        assert(s[0] != sep[0]);
        assert(!starts_with(s, sep)) by {
            if starts_with(s, sep) {
                assert(s.subrange(0, sep.len() as int)[0] == s[0]);
            }
        }
        let t = s.skip(1);
        assert(!has_char(t, sep[0])) by {
            if has_char(t, sep[0]) {
                let i = choose|i: int| 0 <= i < t.len() && t[i] == sep[0];
                assert(s[i + 1] == sep[0]);
            }
        }
        lemma_split_without_sep(t, sep);
        assert(seq![s[0]] + t =~= s);
    }
}

/// Splitting `a + sep + b` where `a` holds no character of `sep` cuts off `a` first.
pub proof fn lemma_split_prefix(a: Seq<char>, b: Seq<char>, sep: Seq<char>)
    requires
        sep.len() > 0,
        !has_char(a, sep[0]),
    ensures
        split(a + sep + b, sep) == seq![a] + split(b, sep),
    decreases a.len(),
{
    let s = a + sep + b;
    if a.len() == 0 {
        assert(s =~= sep + b);
        assert(s.subrange(0, sep.len() as int) =~= sep);
        assert(s.skip(sep.len() as int) =~= b);
        assert(a =~= Seq::<char>::empty());
    } else {
        assert(s[0] == a[0]);
        assert(!starts_with(s, sep)) by {
            if starts_with(s, sep) {
                assert(s.subrange(0, sep.len() as int)[0] == s[0]);
            }
        }
        let t = a.skip(1);
        assert(!has_char(t, sep[0])) by {
            if has_char(t, sep[0]) {
                let i = choose|i: int| 0 <= i < t.len() && t[i] == sep[0];
                assert(a[i + 1] == sep[0]);
            }
        }
        assert(s.skip(1) =~= t + sep + b);
        lemma_split_prefix(t, b, sep);
        assert(seq![a[0]] + t =~= a);
        let rest = split(s.skip(1), sep);
        assert(rest == seq![t] + split(b, sep));
        assert(rest.update(0, seq![s[0]] + rest[0]) =~= seq![a] + split(b, sep));
    }
}

/// Splitting the parts joined at `sep` gives the parts back, where no part holds a character of
/// `sep`.
pub proof fn lemma_split_join(parts: Seq<Seq<char>>, sep: Seq<char>)
    requires
        sep.len() > 0,
        parts.len() > 0,
        forall|i: int| 0 <= i < parts.len() ==> !has_char(#[trigger] parts[i], sep[0]),
    ensures
        split(join(parts, sep), sep) == parts,
    decreases parts.len(),
{
    if parts.len() == 1 {
        lemma_split_without_sep(parts[0], sep);
        assert(seq![parts[0]] =~= parts);
    } else {
        // Peel off the first part.
        let rest = parts.drop_first();
        lemma_join_first(parts, sep);
        assert forall|i: int| 0 <= i < rest.len() implies !has_char(#[trigger] rest[i], sep[0]) by {
            assert(rest[i] == parts[i + 1]);
        }
        lemma_split_join(rest, sep);
        lemma_split_prefix(parts[0], join(rest, sep), sep);
        assert(seq![parts[0]] + rest =~= parts);
    }
}

/// A join of two or more parts is the first part, `sep`, then the join of the rest.
pub proof fn lemma_join_first(parts: Seq<Seq<char>>, sep: Seq<char>)
    requires
        parts.len() >= 2,
    ensures
        join(parts, sep) == parts[0] + sep + join(parts.drop_first(), sep),
    decreases parts.len(),
{
    if parts.len() == 2 {
        assert(parts.drop_last().len() == 1);
        assert(parts.drop_first().len() == 1);
        assert(join(parts.drop_first(), sep) == parts[1]);
        assert(join(parts.drop_last(), sep) == parts[0]);
    } else {
        let init = parts.drop_last();
        lemma_join_first(init, sep);
        assert(init.drop_first() =~= parts.drop_first().drop_last());
        assert(parts.drop_first().last() == parts.last());
    }
}

/// A join of one more part is the join so far, `sep`, then the part.
pub proof fn lemma_join_push(parts: Seq<Seq<char>>, p: Seq<char>, sep: Seq<char>)
    requires
        parts.len() >= 1,
    ensures
        join(parts.push(p), sep) == join(parts, sep) + sep + p,
{
    assert(parts.push(p).drop_last() =~= parts);
}

/// The characters of `s`, in order.
pub fn str_chars(s: &str) -> (v: Vec<char>)
    ensures
        v@ == s@,
{
    let mut v: Vec<char> = Vec::new();
    for c in it: s.chars()
        invariant
            it.seq() == s@,
            v@ == s@.take(it.index() as int),
    {
        v.push(c);
        assert(v@ =~= s@.take(it.index() + 1));
    }
    assert(v@ =~= s@);
    v
}

/// Appends `c` to `s`; `String::push`.
#[verifier::external_body]
pub fn push_char(s: &mut String, c: char)
    ensures
        final(s)@ == old(s)@.push(c),
{
    s.push(c);
}

/// The string of the characters of `v`, in order.
pub fn string_from_chars(v: &[char]) -> (s: String)
    ensures
        s@ == v@,
{
    let mut s = String::new();
    let mut i: usize = 0;
    while i < v.len()
        invariant
            i <= v@.len(),
            s@ == v@.subrange(0, i as int),
        decreases v@.len() - i,
    {
        push_char(&mut s, v[i]);
        i = i + 1;
        assert(s@ =~= v@.subrange(0, i as int));
    }
    assert(v@.subrange(0, v@.len() as int) =~= v@);
    s
}

/// The string holding the characters of `s`.
pub fn to_string(s: &str) -> (r: String)
    ensures
        r@ == s@,
{
    s.to_owned()
}

/// A copy of each string of `v`.
pub fn clone_strings(v: &Vec<String>) -> (r: Vec<String>)
    ensures
        r@ == v@,
        strs(r@) == strs(v@),
{
    let mut r: Vec<String> = Vec::new();
    for i in 0..v.len()
        invariant
            r@ == v@.subrange(0, i as int),
    {
        r.push(v[i].clone());
        assert(r@ =~= v@.subrange(0, i + 1));
    }
    assert(v@.subrange(0, v@.len() as int) =~= v@);
    r
}

/// Whether the two sequences of characters are equal.
pub fn chars_eq(a: &Vec<char>, b: &Vec<char>) -> (r: bool)
    ensures
        r == (a@ == b@),
{
    if a.len() != b.len() {
        return false;
    }
    for i in 0..a.len()
        invariant
            a@.len() == b@.len(),
            forall|j: int| 0 <= j < i ==> a@[j] == b@[j],
    {
        if a[i] != b[i] {
            return false;
        }
    }
    assert(a@ =~= b@);
    true
}

/// Whether `s` begins with the characters of `p`.
pub fn str_starts_with(s: &str, p: &str) -> (r: bool)
    ensures
        r == starts_with(s@, p@),
{
    let sv = str_chars(s);
    let pv = str_chars(p);
    if pv.len() > sv.len() {
        return false;
    }
    for i in 0..pv.len()
        invariant
            pv@.len() <= sv@.len(),
            sv@ == s@,
            pv@ == p@,
            forall|j: int| 0 <= j < i ==> sv@[j] == pv@[j],
    {
        if sv[i] != pv[i] {
            assert(s@.subrange(0, p@.len() as int)[i as int] != p@[i as int]);
            return false;
        }
    }
    assert(s@.subrange(0, p@.len() as int) =~= p@);
    true
}

/// The strings of `parts` joined, with `sep` between each two of them.
pub fn join_strings(parts: &Vec<String>, sep: &str) -> (r: String)
    ensures
        r@ == join(strs(parts@), sep@),
{
    let mut r = String::new();
    let ghost ps = strs(parts@);
    for i in 0..parts.len()
        invariant
            ps == strs(parts@),
            r@ == join(ps.subrange(0, i as int), sep@),
    {
        let ghost prev = ps.subrange(0, i as int);
        if i == 0 {
            r.append(parts[i].as_str());
            assert(ps.subrange(0, 1) =~= seq![ps[0]]);
        } else {
            r.append(sep);
            r.append(parts[i].as_str());
            assert(ps.subrange(0, i + 1) =~= prev.push(ps[i as int]));
            proof {
                lemma_join_push(prev, ps[i as int], sep@);
            }
        }
    }
    assert(ps.subrange(0, parts@.len() as int) =~= ps);
    r
}

/// Whether `sep` occurs in `s` at position `i`.
fn matches_at(s: &Vec<char>, i: usize, sep: &Vec<char>) -> (r: bool)
    requires
        i <= s@.len(),
    ensures
        r == starts_with(s@.skip(i as int), sep@),
{
    let t = Ghost(s@.skip(i as int));
    if sep.len() > s.len() - i {
        return false;
    }
    let mut k: usize = 0;
    while k < sep.len()
        invariant
            i + sep@.len() <= s@.len(),
            k <= sep@.len(),
            t@ == s@.skip(i as int),
            forall|j: int| 0 <= j < k ==> s@[i + j] == sep@[j],
        decreases sep@.len() - k,
    {
        let n = s.len();
        assert(i + k < n);
        if s[i + k] != sep[k] {
            assert(t@.subrange(0, sep@.len() as int)[k as int] != sep@[k as int]);
            return false;
        }
        k = k + 1;
    }
    assert(t@.subrange(0, sep@.len() as int) =~= sep@);
    true
}

/// The characters of each vector of `v`.
pub open spec fn char_vecs(v: Seq<Vec<char>>) -> Seq<Seq<char>> {
    v.map_values(|p: Vec<char>| p@)
}

/// The parts joined, with `sep` between each two of them.
pub fn join_chars(parts: &Vec<Vec<char>>, sep: &Vec<char>) -> (r: Vec<char>)
    ensures
        r@ == join(char_vecs(parts@), sep@),
{
    let mut r: Vec<char> = Vec::new();
    let ghost ps = char_vecs(parts@);
    for i in 0..parts.len()
        invariant
            ps == char_vecs(parts@),
            r@ == join(ps.subrange(0, i as int), sep@),
    {
        let ghost prev = ps.subrange(0, i as int);
        if i == 0 {
            append_chars(&mut r, &parts[i]);
            assert(ps.subrange(0, 1) =~= seq![ps[0]]);
        } else {
            append_chars(&mut r, sep);
            append_chars(&mut r, &parts[i]);
            assert(ps.subrange(0, i + 1) =~= prev.push(ps[i as int]));
            proof {
                lemma_join_push(prev, ps[i as int], sep@);
            }
        }
    }
    assert(ps.subrange(0, parts@.len() as int) =~= ps);
    r
}

/// Appends the characters of `b` to `a`.
pub fn append_chars(a: &mut Vec<char>, b: &Vec<char>)
    ensures
        final(a)@ == old(a)@ + b@,
{
    let ghost a0 = a@;
    for i in 0..b.len()
        invariant
            a@ == a0 + b@.subrange(0, i as int),
    {
        a.push(b[i]);
        assert(a@ =~= a0 + b@.subrange(0, i + 1));
    }
    assert(b@.subrange(0, b@.len() as int) =~= b@);
}

/// Whether the two sequences of texts are equal.
pub fn char_vecs_eq(a: &Vec<Vec<char>>, b: &Vec<Vec<char>>) -> (r: bool)
    ensures
        r == (char_vecs(a@) == char_vecs(b@)),
{
    if a.len() != b.len() {
        assert(char_vecs(a@).len() != char_vecs(b@).len());
        return false;
    }
    for i in 0..a.len()
        invariant
            a@.len() == b@.len(),
            forall|j: int| 0 <= j < i ==> a@[j]@ == b@[j]@,
    {
        if !chars_eq(&a[i], &b[i]) {
            assert(char_vecs(a@)[i as int] != char_vecs(b@)[i as int]);
            return false;
        }
    }
    assert(char_vecs(a@) =~= char_vecs(b@));
    true
}

/// The text of `s` cut at each occurrence of the non-empty `sep`, as `str::split` cuts it.
pub fn split_chars(s: &Vec<char>, sep: &Vec<char>) -> (r: Vec<Vec<char>>)
    requires
        sep@.len() > 0,
    ensures
        char_vecs(r@) == split(s@, sep@),
{
    let mut done: Vec<Vec<char>> = Vec::new();
    let mut cur: Vec<char> = Vec::new();
    let mut i: usize = 0;
    proof {
        assert(s@.skip(0) =~= s@);
        lemma_split_nonempty(s@, sep@);
        assert(split(s@, sep@).update(0, seq![] + split(s@, sep@)[0]) =~= split(s@, sep@));
    }
    while i < s.len()
        invariant
            i <= s@.len(),
            sep@.len() > 0,
            split(s@, sep@) == char_vecs(done@) + {
                let rest = split(s@.skip(i as int), sep@);
                rest.update(0, cur@ + rest[0])
            },
        decreases s@.len() - i,
    {
        let ghost t = s@.skip(i as int);
        proof {
            lemma_split_nonempty(t, sep@);
        }
        let matches = matches_at(s, i, sep);
        assert(matches == starts_with(t, sep@));
        if matches {
            let ghost old_done = char_vecs(done@);
            let ghost old_cur = cur@;
            let mut piece: Vec<char> = Vec::new();
            std::mem::swap(&mut piece, &mut cur);
            done.push(piece);
            i = i + sep.len();
            proof {
                assert(t.skip(sep@.len() as int) =~= s@.skip(i as int));
                let rest = split(s@.skip(i as int), sep@);
                lemma_split_nonempty(s@.skip(i as int), sep@);
                assert(split(t, sep@) == seq![Seq::<char>::empty()] + rest);
                assert(char_vecs(done@) =~= old_done.push(old_cur));
                assert(rest.update(0, cur@ + rest[0]) =~= rest);
                assert(old_done + (seq![Seq::<char>::empty()] + rest).update(0, old_cur + (seq![Seq::<char>::empty()] + rest)[0])
                    =~= old_done.push(old_cur) + rest);
            }
        } else {
            let ghost old_cur = cur@;
            let c = s[i];
            cur.push(c);
            i = i + 1;
            proof {
                assert(t.skip(1) =~= s@.skip(i as int));
                let rest = split(s@.skip(i as int), sep@);
                lemma_split_nonempty(s@.skip(i as int), sep@);
                assert(t[0] == c);
                assert(split(t, sep@) == rest.update(0, seq![c] + rest[0]));
                let r0 = rest[0];
                assert(cur@ =~= old_cur.push(c));
                assert(old_cur + (seq![c] + r0) =~= cur@ + r0);
                assert(rest.update(0, seq![c] + r0).update(0, old_cur + (seq![c] + r0))
                    =~= rest.update(0, cur@ + r0));
            }
        }
    }
    let ghost old_done = char_vecs(done@);
    let ghost old_cur = cur@;
    done.push(cur);
    proof {
        assert(s@.skip(i as int) =~= Seq::<char>::empty());
        assert(split(s@.skip(i as int), sep@) =~= seq![Seq::<char>::empty()]);
        assert(char_vecs(done@) =~= old_done.push(old_cur));
        assert(seq![Seq::<char>::empty()].update(0, old_cur + Seq::<char>::empty()) =~= seq![old_cur]);
    }
    done
}


/// Whether `c` is one of the digits `0` to `9`.
pub open spec fn is_digit(c: char) -> bool {
    '0' <= c && c <= '9'
}

/// Whether `s` is one or more digits.
pub open spec fn all_digits(s: Seq<char>) -> bool {
    s.len() > 0 && forall|i: int| 0 <= i < s.len() ==> #[trigger] is_digit(s[i])
}

/// The number the digits `s` write in decimal.
pub open spec fn digits_value(s: Seq<char>) -> nat
    decreases s.len(),
{
    if s.len() == 0 {
        0
    } else {
        digits_value(s.drop_last()) * 10 + ((s.last() as int - '0' as int) as nat)
    }
}

/// The decimal digits of `n`, with no leading zero; `0` is written `0`.
pub open spec fn nat_text(n: nat) -> Seq<char>
    decreases n,
{
    if n < 10 {
        seq![(n + '0' as nat) as char]
    } else {
        nat_text(n / 10).push(((n % 10) + '0' as nat) as char)
    }
}

/// The number the digits `s` write, where they write one that fits in a `u32`.
pub fn parse_u32(s: &[char]) -> (r: Option<u32>)
    ensures
        match r {
            Some(v) => all_digits(s@) && v == digits_value(s@),
            None => !all_digits(s@) || digits_value(s@) > u32::MAX,
        },
{
    if s.len() == 0 {
        return None;
    }
    let mut v: u64 = 0;
    let mut i: usize = 0;
    while i < s.len()
        invariant
            i <= s@.len(),
            s@.len() > 0,
            v == digits_value(s@.subrange(0, i as int)),
            v <= u32::MAX,
            forall|j: int| 0 <= j < i ==> #[trigger] is_digit(s@[j]),
        decreases s@.len() - i,
    {
        let c = s[i];
        if !('0' <= c && c <= '9') {
            assert(!is_digit(s@[i as int]));
            return None;
        }
        let d = (c as u64) - ('0' as u64);
        assert(s@.subrange(0, i + 1).drop_last() =~= s@.subrange(0, i as int));
        v = v * 10 + d;
        if v > 0xffff_ffff {
            proof {
                lemma_digits_value_grows(s@, i as int + 1);
            }
            return None;
        }
        i = i + 1;
    }
    assert(s@.subrange(0, s@.len() as int) =~= s@);
    Some(v as u32)
}

/// The value of a prefix of digits is no more than the value of a longer prefix.
pub proof fn lemma_digits_value_grows(s: Seq<char>, k: int)
    requires
        0 <= k <= s.len(),
    ensures
        digits_value(s.subrange(0, k)) <= digits_value(s),
    decreases s.len() - k,
{
    if k < s.len() {
        lemma_digits_value_grows(s, k + 1);
        assert(s.subrange(0, k + 1).drop_last() =~= s.subrange(0, k));
    } else {
        assert(s.subrange(0, k) =~= s);
    }
}

/// The decimal digits of `n`.
pub fn u64_text(n: u64) -> (r: Vec<char>)
    ensures
        r@ == nat_text(n as nat),
    decreases n,
{
    if n < 10 {
        let mut r: Vec<char> = Vec::new();
        let c = ((n as u8) + ('0' as u8)) as char;
        r.push(c);
        assert(r@ =~= nat_text(n as nat));
        r
    } else {
        let mut r = u64_text(n / 10);
        let c = (((n % 10) as u8) + ('0' as u8)) as char;
        r.push(c);
        r
    }
}

/// The decimal digits of `n`, as a string.
pub fn usize_string(n: usize) -> (r: String)
    ensures
        r@ == nat_text(n as nat),
{
    let v = u64_text(n as u64);
    string_from_chars(v.as_slice())
}

/// Reading back the digits a number writes gives the number.
pub proof fn lemma_nat_text_digits(n: nat)
    ensures
        all_digits(nat_text(n)),
        digits_value(nat_text(n)) == n,
    decreases n,
{
    if n >= 10 {
        lemma_nat_text_digits(n / 10);
        let t = nat_text(n);
        assert(t.drop_last() == nat_text(n / 10));
        assert forall|i: int| 0 <= i < t.len() implies #[trigger] is_digit(t[i]) by {
            if i < t.len() - 1 {
                assert(t[i] == nat_text(n / 10)[i]);
            }
        }
        let d = n % 10;
        assert(t.last() == ((d + '0' as nat) as char));
        assert((t.last() as int - '0' as int) == d);
        assert(digits_value(t) == (n / 10) * 10 + d);
        vstd::arithmetic::div_mod::lemma_fundamental_div_mod(n as int, 10);
        assert(digits_value(t) == n);
    } else {
        let t = nat_text(n);
        assert(t.drop_last() =~= Seq::<char>::empty());
        assert((t.last() as int - '0' as int) == n);
        assert(digits_value(t.drop_last()) == 0);
        assert(digits_value(t) == n);
    }
}

} // verus!
