//! Types written with their type variables renamed `a`, `b`, ... in the order they appear, and
//! the MD5 digests of types written that way, which name the code generated for a type.
use crate::ast::types::{
    push_free_vars, type_text, Kind, TyVar, Type, TypeNode, headed_by, lemma_assoc_arg_decreases,
};
use crate::builtin::std_key;
use crate::strutil::{nat_text, push_char, usize_string};
use std::sync::Arc;
use vstd::prelude::*;

verus! {

/// The name of the `n`-th type variable of a normalized type: `a` to `z`, then the letter
/// followed by how many times the alphabet has been gone through before, as `a1` for the 27th.
pub open spec fn varname(n: nat) -> Seq<char> {
    let letter = ((n % 26) + ('a' as nat)) as char;
    if n < 26 {
        seq![letter]
    } else {
        seq![letter] + nat_text(n / 26)
    }
}

/// The name of the `n`-th type variable of a normalized type.
pub fn number_to_varname(n: usize) -> (r: String)
    ensures
        r@ == varname(n as nat),
{
    let letter: u8 = 97 + (n % 26) as u8;
    let mut r = String::new();
    push_char(&mut r, letter as char);
    if n >= 26 {
        let rest = usize_string(n / 26);
        r.append(rest.as_str());
    }
    r
}

/// The position of the first of the type variables `fvs` named `name`, from the `i`-th on.
pub open spec fn var_position(fvs: Seq<Arc<TyVar>>, name: Seq<char>, i: int) -> Option<nat>
    decreases fvs.len() - i,
{
    if i < 0 || i >= fvs.len() {
        None
    } else if fvs[i].name@ == name {
        Some(i as nat)
    } else {
        var_position(fvs, name, i + 1)
    }
}

/// The name a type variable named `name` takes where the variables `fvs` are renamed in order:
/// the name of its position among them, or its own name where it is none of them.
pub open spec fn normal_name(fvs: Seq<Arc<TyVar>>, name: Seq<char>) -> Seq<char> {
    match var_position(fvs, name, 0) {
        Some(i) => varname(i),
        None => name,
    }
}

/// Whether `r` is the type `n` with each type variable renamed as `normal_name` over `fvs` says,
/// its kind kept, and the rest of the type unchanged.
pub open spec fn tyvars_renamed(r: TypeNode, n: TypeNode, fvs: Seq<Arc<TyVar>>) -> bool
    decreases n, 1nat,
{
    &&& r.info == n.info
    &&& match n.ty {
        Type::TyVar(tv) => r.ty is TyVar && r.ty->TyVar_0.name@ == normal_name(fvs, tv.name@)
            && r.ty->TyVar_0.kind == tv.kind,
        Type::TyCon(_) => r.ty == n.ty,
        Type::TyApp(f, a) => r.ty is TyApp && tyvars_renamed(*r.ty->TyApp_0, *f, fvs)
            && tyvars_renamed(*r.ty->TyApp_1, *a, fvs),
        Type::AssocTy(at, args) => r.ty is AssocTy && r.ty->AssocTy_0.name@ == at.name@
            && r.ty->AssocTy_0.src == at.src && r.ty->AssocTy_1@.len() == args@.len()
            && tyvars_renamed_args(r.ty->AssocTy_1@, n, fvs, args@.len() as int),
    }
}

/// `tyvars_renamed` of the first `k` arguments of the associated type application `n`, against
/// `rs`.
pub open spec fn tyvars_renamed_args(rs: Seq<Arc<TypeNode>>, n: TypeNode, fvs: Seq<Arc<TyVar>>, k: int) -> bool
    decreases n, 0nat, k,
{
    match n.ty {
        Type::AssocTy(_, args) => if k <= 0 || k > args@.len() {
            true
        } else {
            tyvars_renamed_args(rs, n, fvs, k - 1) && tyvars_renamed(*rs[k - 1], *args@[k - 1], fvs)
        },
        _ => true,
    }
}

/// The relation on a prefix of the arguments reads only that prefix of the renamed ones.
proof fn lemma_renamed_args_prefix(
    before: Seq<Arc<TypeNode>>,
    after: Seq<Arc<TypeNode>>,
    n: TypeNode,
    fvs: Seq<Arc<TyVar>>,
    k: int,
)
    requires
        n.ty is AssocTy,
        0 <= k <= n.ty->AssocTy_1@.len(),
        before.len() >= k,
        after.len() >= k,
        forall|j: int| 0 <= j < k ==> before[j] == after[j],
        tyvars_renamed_args(before, n, fvs, k),
    ensures
        tyvars_renamed_args(after, n, fvs, k),
    decreases k,
{
    if k > 0 {
        lemma_renamed_args_prefix(before, after, n, fvs, k - 1);
    }
}

/// The name the type variable named `name` takes where the variables `fvs` are renamed in
/// order.
fn normal_var_name(fvs: &Vec<Arc<TyVar>>, name: &String) -> (r: String)
    ensures
        r@ == normal_name(fvs@, name@),
{
    let mut i: usize = 0;
    while i < fvs.len()
        invariant
            i <= fvs@.len(),
            var_position(fvs@, name@, 0) == var_position(fvs@, name@, i as int),
        decreases fvs@.len() - i,
    {
        if fvs[i].name == *name {
            return number_to_varname(i);
        }
        i = i + 1;
    }
    name.clone()
}

impl TypeNode {
    /// This type with each type variable renamed by its position among `fvs`, as `a`, `b`, ...;
    /// a variable none of `fvs` names keeps its name.
    pub fn rename_tyvars(self: &Arc<TypeNode>, fvs: &Vec<Arc<TyVar>>) -> (r: Arc<TypeNode>)
        ensures
            tyvars_renamed(*r, **self, fvs@),
        decreases self,
    {
        match &self.ty {
            Type::TyVar(tv) => {
                let name = normal_var_name(fvs, &tv.name);
                self.set_tyvar(Arc::new(TyVar { name, kind: tv.kind.clone() }))
            },
            Type::TyCon(_) => self.clone(),
            Type::TyApp(fun, arg) => {
                let f = fun.rename_tyvars(fvs);
                let a = arg.rename_tyvars(fvs);
                self.set_tyapp_fun(f).set_tyapp_arg(a)
            },
            Type::AssocTy(_, args) => {
                let node: &TypeNode = &**self;
                let mut new_args: Vec<Arc<TypeNode>> = Vec::new();
                let mut i: usize = 0;
                while i < args.len()
                    invariant
                        node.ty == Type::AssocTy(node.ty->AssocTy_0, *args),
                        *node == **self,
                        i <= args@.len(),
                        new_args@.len() == i,
                        tyvars_renamed_args(new_args@, *node, fvs@, i as int),
                    decreases args@.len() - i,
                {
                    proof {
                        lemma_assoc_arg_decreases(*node, i as int);
                    }
                    let a = args[i].rename_tyvars(fvs);
                    let ghost before = new_args@;
                    new_args.push(a);
                    proof {
                        lemma_renamed_args_prefix(before, new_args@, *node, fvs@, i as int);
                    }
                    i = i + 1;
                }
                self.set_assocty_args(new_args)
            },
        }
    }
}


/// The type variables of the first `k` of the types `tys`, each once, in the order they first
/// stand in them.
pub open spec fn list_free_vars(tys: Seq<Arc<TypeNode>>, k: int) -> Seq<Arc<TyVar>>
    decreases k,
{
    if k <= 0 {
        Seq::empty()
    } else {
        push_free_vars(list_free_vars(tys, k - 1), *tys[k - 1])
    }
}

/// Whether `t` is the text of the type `n` written with its type variables renamed in order
/// over `fvs`.
pub open spec fn renamed_text(t: Seq<char>, n: TypeNode, fvs: Seq<Arc<TyVar>>) -> bool {
    exists|x: TypeNode| #[trigger] tyvars_renamed(x, n, fvs) && t == type_text(x)
}

impl TypeNode {
    /// The types `tys` written in source syntax under one renaming of their type variables to
    /// `a`, `b`, ... in the order they first stand across the whole list, so that a variable two
    /// of them share is written with one name in both.
    pub fn to_string_normalize_many(tys: &Vec<Arc<TypeNode>>) -> (r: Vec<String>)
        ensures
            r@.len() == tys@.len(),
            forall|i: int| 0 <= i < tys@.len() ==> renamed_text(
                #[trigger] r@[i]@,
                *tys@[i],
                list_free_vars(tys@, tys@.len() as int),
            ),
    {
        let mut free_vars: Vec<Arc<TyVar>> = Vec::new();
        for i in 0..tys.len()
            invariant
                free_vars@ == list_free_vars(tys@, i as int),
        {
            tys[i].free_vars_to_vec(&mut free_vars);
        }
        let mut r: Vec<String> = Vec::new();
        for i in 0..tys.len()
            invariant
                free_vars@ == list_free_vars(tys@, tys@.len() as int),
                r@.len() == i,
                forall|j: int| 0 <= j < i ==> renamed_text(#[trigger] r@[j]@, *tys@[j], free_vars@),
        {
            let renamed = tys[i].rename_tyvars(&free_vars);
            let text = renamed.to_string();
            proof {
                assert(tyvars_renamed(*renamed, *tys@[i as int], free_vars@));
            }
            r.push(text);
        }
        r
    }

    /// This type written in source syntax with its type variables renamed `a`, `b`, ... in the
    /// order they first stand in it, so that two types alike up to the names of their type
    /// variables are written alike.
    pub fn to_string_normalize(self: &Arc<TypeNode>) -> (r: String)
        ensures
            renamed_text(r@, **self, push_free_vars(Seq::empty(), **self)),
    {
        let mut tys: Vec<Arc<TypeNode>> = Vec::new();
        tys.push(self.clone());
        let mut texts = Self::to_string_normalize_many(&tys);
        proof {
            assert(list_free_vars(tys@, 1) == push_free_vars(list_free_vars(tys@, 0), *tys@[0]));
            assert(renamed_text(texts@[0]@, *tys@[0], list_free_vars(tys@, 1)));
        }
        texts.remove(0)
    }
}


/// The MD5 digest of the UTF-8 encoding of the text `s`.
pub uninterp spec fn md5_digest(s: Seq<char>) -> Seq<u8>;

/// `md5::compute` over the UTF-8 bytes of `s`: the 16 bytes of their MD5 digest, which the crate
/// holds as `Digest([u8; 16])`. What the bytes are is named, not stated.
#[verifier::external_body]
fn md5_compute(s: &str) -> (r: Vec<u8>)
    ensures
        r@ == md5_digest(s@),
        r@.len() == 16,
{
    md5::compute(s.as_bytes()).0.to_vec()
}

/// The lower-case hexadecimal digit of `d`, below 16.
pub open spec fn hex_digit(d: nat) -> char {
    if d < 10 {
        (d + ('0' as nat)) as char
    } else {
        ((d - 10) + ('a' as nat)) as char
    }
}

/// The bytes `bs` written in lower-case hexadecimal, two digits a byte, the high digit first.
pub open spec fn hex_text(bs: Seq<u8>) -> Seq<char>
    decreases bs.len(),
{
    if bs.len() == 0 {
        Seq::empty()
    } else {
        hex_text(bs.drop_last()) + seq![hex_digit((bs.last() / 16) as nat), hex_digit((bs.last() % 16) as nat)]
    }
}

/// The lower-case hexadecimal digit of `d`, below 16.
fn hex_char(d: u8) -> (r: char)
    requires
        d < 16,
    ensures
        r == hex_digit(d as nat),
{
    if d < 10 {
        (48 + d) as char
    } else {
        (97 + (d - 10)) as char
    }
}

/// The bytes `digest` written in lower-case hexadecimal, two digits a byte, as a digest is
/// printed with `{:x}`.
pub fn digest_hex(digest: &Vec<u8>) -> (r: String)
    ensures
        r@ == hex_text(digest@),
{
    let mut r = String::new();
    for i in 0..digest.len()
        invariant
            r@ == hex_text(digest@.take(i as int)),
    {
        let b = digest[i];
        push_char(&mut r, hex_char(b / 16));
        push_char(&mut r, hex_char(b % 16));
        proof {
            let t = digest@.take(i + 1);
            assert(t.drop_last() =~= digest@.take(i as int));
            assert(t.last() == b);
        }
    }
    assert(digest@.take(digest@.len() as int) =~= digest@);
    r
}

/// The key a dynamic object's type is digested under: the type's text, then, where there are
/// captured types, `_capturing[` and the text of each after `, `, then `]`.
pub open spec fn capture_key(t: Seq<char>, cs: Seq<Seq<char>>) -> Seq<char> {
    if cs.len() == 0 {
        t
    } else {
        t + "_capturing["@ + capture_list(cs, cs.len() as int) + "]"@
    }
}

/// The first `k` texts `cs`, each after `, `.
pub open spec fn capture_list(cs: Seq<Seq<char>>, k: int) -> Seq<char>
    decreases k,
{
    if k <= 0 {
        Seq::empty()
    } else {
        capture_list(cs, k - 1) + ", "@ + cs[k - 1]
    }
}

impl TypeNode {
    /// A digest of this type, short enough to stand in a symbol's name: the MD5 digest, in
    /// lower-case hexadecimal, of the type written with its type variables renamed in order, so
    /// that two types alike up to those names hash alike.
    pub fn hash(self: &Arc<TypeNode>) -> (r: String)
        ensures
            exists|t: Seq<char>|
                renamed_text(t, **self, push_free_vars(Seq::empty(), **self)) && r@ == hex_text(
                    #[trigger] md5_digest(t),
                ),
    {
        let type_string = self.to_string_normalize();
        let digest = md5_compute(type_string.as_str());
        digest_hex(&digest)
    }

    /// A digest of this type together with the types `capture` a dynamic object of it captures,
    /// which tell apart two dynamic objects of one type: the MD5 digest, in lower-case
    /// hexadecimal, of the key `capture_key` builds from the texts of this type and of each
    /// captured type, each written with its own type variables renamed in order. Only a dynamic
    /// object's type has captured types.
    pub fn hash_with_capture(self: &Arc<TypeNode>, capture: &Vec<Arc<TypeNode>>) -> (r: String)
        requires
            headed_by(**self, std_key("#DynamicObject"@)) || capture@.len() == 0,
        ensures
            exists|t: Seq<char>, cs: Seq<Seq<char>>|
                renamed_text(t, **self, push_free_vars(Seq::empty(), **self)) && cs.len()
                    == capture@.len() && (forall|j: int| 0 <= j < cs.len() ==> renamed_text(
                    #[trigger] cs[j],
                    *capture@[j],
                    push_free_vars(Seq::empty(), *capture@[j]),
                )) && r@ == hex_text(#[trigger] md5_digest(capture_key(t, cs))),
    {
        let mut key = String::new();
        let own = self.to_string_normalize();
        key.append(own.as_str());
        let ghost t = own@;
        let ghost mut cs: Seq<Seq<char>> = Seq::empty();
        if capture.len() > 0 {
            key.append("_capturing[");
        }
        for i in 0..capture.len()
            invariant
                cs.len() == i,
                forall|j: int| 0 <= j < i ==> renamed_text(
                    #[trigger] cs[j],
                    *capture@[j],
                    push_free_vars(Seq::empty(), *capture@[j]),
                ),
                key@ == if capture@.len() == 0 {
                    t
                } else {
                    t + "_capturing["@ + capture_list(cs, i as int)
                },
        {
            key.append(", ");
            let c = capture[i].to_string_normalize();
            key.append(c.as_str());
            proof {
                let old_cs = cs;
                cs = cs.push(c@);
                assert(capture_list(cs, i as int) == capture_list(old_cs, i as int)) by {
                    lemma_capture_list_prefix(old_cs, cs, i as int);
                }
                assert(cs[i as int] == c@);
            }
        }
        if capture.len() > 0 {
            key.append("]");
        }
        proof {
            reveal_strlit("_capturing[");
            reveal_strlit(", ");
            reveal_strlit("]");
            assert(key@ == capture_key(t, cs));
        }
        let digest = md5_compute(key.as_str());
        digest_hex(&digest)
    }
}

/// `capture_list` up to `k` reads only the first `k` texts.
proof fn lemma_capture_list_prefix(a: Seq<Seq<char>>, b: Seq<Seq<char>>, k: int)
    requires
        0 <= k <= a.len(),
        k <= b.len(),
        forall|j: int| 0 <= j < k ==> a[j] == b[j],
    ensures
        capture_list(a, k) == capture_list(b, k),
    decreases k,
{
    if k > 0 {
        lemma_capture_list_prefix(a, b, k - 1);
    }
}


/// The type variables standing in the type `n`, by their names; of two variables of one name
/// the one standing further right counts.
pub open spec fn fv_map(n: TypeNode) -> Map<Seq<char>, Arc<TyVar>>
    decreases n, 1nat,
{
    match n.ty {
        Type::TyVar(tv) => map![tv.name@ => tv],
        Type::TyCon(_) => Map::empty(),
        Type::TyApp(f, a) => fv_map(*f).union_prefer_right(fv_map(*a)),
        Type::AssocTy(_, args) => fv_args_map(n, args@.len() as int),
    }
}

/// `fv_map` over the first `k` arguments of the associated type application `n`.
pub open spec fn fv_args_map(n: TypeNode, k: int) -> Map<Seq<char>, Arc<TyVar>>
    decreases n, 0nat, k,
{
    match n.ty {
        Type::AssocTy(_, args) => if k <= 0 || k > args@.len() {
            Map::empty()
        } else {
            fv_args_map(n, k - 1).union_prefer_right(fv_map(*args@[k - 1]))
        },
        _ => Map::empty(),
    }
}

/// The value the first entry of `v` named `k` holds, if any.
pub open spec fn pair_lookup(v: Seq<(String, Arc<TyVar>)>, k: Seq<char>) -> Option<Arc<TyVar>>
    decreases v.len(),
{
    if v.len() == 0 {
        None
    } else if v[0].0@ == k {
        Some(v[0].1)
    } else {
        pair_lookup(v.drop_first(), k)
    }
}

/// Whether the entries `v` name each name once and hold what `m` does.
pub open spec fn holds_map(v: Seq<(String, Arc<TyVar>)>, m: Map<Seq<char>, Arc<TyVar>>) -> bool {
    &&& forall|a: int, b: int| 0 <= a < b < v.len() ==> (#[trigger] v[a]).0@ != (#[trigger] v[b]).0@
    &&& forall|k: Seq<char>| #[trigger] pair_lookup(v, k) == if m.contains_key(k) {
        Some(m[k])
    } else {
        None
    }
}

/// Replacing the entry at `i` by one of the same name, where no earlier entry has it, makes it
/// hold the new value and leaves the others.
proof fn lemma_pair_update(v: Seq<(String, Arc<TyVar>)>, i: int, e: (String, Arc<TyVar>), k: Seq<char>)
    requires
        0 <= i < v.len(),
        e.0@ == v[i].0@,
        forall|j: int| 0 <= j < i ==> (#[trigger] v[j]).0@ != e.0@,
    ensures
        pair_lookup(v.update(i, e), k) == if k == e.0@ {
            Some(e.1)
        } else {
            pair_lookup(v, k)
        },
    decreases i,
{
    let u = v.update(i, e);
    if i > 0 {
        assert(u.drop_first() =~= v.drop_first().update(i - 1, e));
        assert forall|j: int| 0 <= j < i - 1 implies (#[trigger] v.drop_first()[j]).0@ != e.0@ by {
            assert(v.drop_first()[j] == v[j + 1]);
        }
        lemma_pair_update(v.drop_first(), i - 1, e, k);
        assert(u[0] == v[0]);
        assert(pair_lookup(u, k) == if u[0].0@ == k {
            Some(u[0].1)
        } else {
            pair_lookup(u.drop_first(), k)
        });
    } else {
        assert(u.drop_first() =~= v.drop_first());
        assert(u[0] == e);
        assert(pair_lookup(u, k) == if u[0].0@ == k {
            Some(u[0].1)
        } else {
            pair_lookup(u.drop_first(), k)
        });
    }
}

/// Adding an entry of a name no entry has makes it hold its value and leaves the others.
proof fn lemma_pair_push(v: Seq<(String, Arc<TyVar>)>, e: (String, Arc<TyVar>), k: Seq<char>)
    requires
        forall|j: int| 0 <= j < v.len() ==> (#[trigger] v[j]).0@ != e.0@,
    ensures
        pair_lookup(v.push(e), k) == if k == e.0@ {
            Some(e.1)
        } else {
            pair_lookup(v, k)
        },
    decreases v.len(),
{
    let p = v.push(e);
    if v.len() > 0 {
        assert(p.drop_first() =~= v.drop_first().push(e));
        assert forall|j: int| 0 <= j < v.drop_first().len() implies (#[trigger] v.drop_first()[j]).0@ != e.0@ by {
            assert(v.drop_first()[j] == v[j + 1]);
        }
        lemma_pair_push(v.drop_first(), e, k);
        assert(p[0] == v[0]);
        assert(pair_lookup(p, k) == if p[0].0@ == k {
            Some(p[0].1)
        } else {
            pair_lookup(p.drop_first(), k)
        });
    } else {
        assert(p.drop_first() =~= Seq::<(String, Arc<TyVar>)>::empty());
        assert(p[0] == e);
        assert(pair_lookup(p, k) == if p[0].0@ == k {
            Some(p[0].1)
        } else {
            pair_lookup(p.drop_first(), k)
        });
    }
}

/// Binds `name` to `tv` in the entries `v`: the entry of that name changes where there is one,
/// and one is added where there is none.
fn set_pair(v: &mut Vec<(String, Arc<TyVar>)>, name: &String, tv: Arc<TyVar>)
    requires
        forall|a: int, b: int| 0 <= a < b < old(v)@.len() ==> (#[trigger] old(v)@[a]).0@ != (#[trigger] old(v)@[b]).0@,
    ensures
        forall|a: int, b: int| 0 <= a < b < final(v)@.len() ==> (#[trigger] final(v)@[a]).0@ != (#[trigger] final(v)@[b]).0@,
        forall|k: Seq<char>| #[trigger] pair_lookup(final(v)@, k) == if k == name@ {
            Some(tv)
        } else {
            pair_lookup(old(v)@, k)
        },
{
    let ghost before = v@;
    let mut i: usize = 0;
    while i < v.len()
        invariant
            v@ == before,
            before == old(v)@,
            forall|a: int, b: int| 0 <= a < b < before.len() ==> (#[trigger] before[a]).0@ != (#[trigger] before[b]).0@,
            i <= before.len(),
            forall|j: int| 0 <= j < i ==> (#[trigger] before[j]).0@ != name@,
        decreases before.len() - i,
    {
        if v[i].0 == *name {
            let n = v[i].0.clone();
            v.set(i, (n, tv));
            proof {
                assert forall|a: int, b: int| 0 <= a < b < v@.len() implies (#[trigger] v@[a]).0@ != (#[trigger] v@[b]).0@ by {
                    if a != i && b != i {
                        assert(v@[a] == before[a] && v@[b] == before[b]);
                    } else if a == i {
                        assert(v@[b] == before[b]);
                    } else {
                        assert(v@[a] == before[a]);
                    }
                }
                assert forall|k: Seq<char>| #[trigger] pair_lookup(v@, k) == if k == name@ {
                    Some(tv)
                } else {
                    pair_lookup(before, k)
                } by {
                    lemma_pair_update(before, i as int, (n, tv), k);
                }
            }
            return;
        }
        i = i + 1;
    }
    v.push((name.clone(), tv));
    proof {
        assert forall|k: Seq<char>| #[trigger] pair_lookup(v@, k) == if k == name@ {
            Some(tv)
        } else {
            pair_lookup(before, k)
        } by {
            lemma_pair_push(before, v@.last(), k);
        }
    }
}

/// Sets each entry of `src` in `dst`, in order, as `extend` on a map does.
fn extend_pairs(dst: &mut Vec<(String, Arc<TyVar>)>, src: Vec<(String, Arc<TyVar>)>, Ghost(m1): Ghost<Map<Seq<char>, Arc<TyVar>>>, Ghost(m2): Ghost<Map<Seq<char>, Arc<TyVar>>>)
    requires
        holds_map(old(dst)@, m1),
        holds_map(src@, m2),
    ensures
        holds_map(final(dst)@, m1.union_prefer_right(m2)),
{
    let ghost s0 = src@;
    for i in 0..src.len()
        invariant
            s0 == src@,
            holds_map(s0, m2),
            forall|a: int, b: int| 0 <= a < b < dst@.len() ==> (#[trigger] dst@[a]).0@ != (#[trigger] dst@[b]).0@,
            forall|k: Seq<char>| #[trigger] pair_lookup(dst@, k) == if (exists|j: int| 0 <= j < i && s0[j].0@ == k) {
                Some(m2[k])
            } else if m1.contains_key(k) {
                Some(m1[k])
            } else {
                None
            },
    {
        let ghost before = dst@;
        set_pair(dst, &src[i].0, src[i].1.clone());
        proof {
            assert forall|k: Seq<char>| #[trigger] pair_lookup(dst@, k) == if (exists|j: int| 0 <= j < i + 1 && s0[j].0@ == k) {
                Some(m2[k])
            } else if m1.contains_key(k) {
                Some(m1[k])
            } else {
                None
            } by {
                if k == s0[i as int].0@ {
                    assert(pair_lookup(dst@, k) == Some(s0[i as int].1));
                    assert(pair_lookup(s0, k) == Some(s0[i as int].1)) by {
                        lemma_pair_lookup_at(s0, i as int);
                    }
                    assert(m2.contains_key(k));
                    assert(pair_lookup(s0, k) == Some(m2[k]));
                    assert(exists|j: int| 0 <= j < i + 1 && s0[j].0@ == k);
                } else {
                    assert(pair_lookup(dst@, k) == pair_lookup(before, k));
                    if exists|j: int| 0 <= j < i + 1 && s0[j].0@ == k {
                        let j = choose|j: int| 0 <= j < i + 1 && s0[j].0@ == k;
                        assert(j < i);
                        assert(exists|j: int| 0 <= j < i && s0[j].0@ == k);
                    }
                    if exists|j: int| 0 <= j < i && s0[j].0@ == k {
                        let j = choose|j: int| 0 <= j < i && s0[j].0@ == k;
                        assert(exists|j: int| 0 <= j < i + 1 && s0[j].0@ == k);
                    }
                }
            }
        }
    }
    proof {
        assert forall|k: Seq<char>| #[trigger] pair_lookup(dst@, k) == if m1.union_prefer_right(m2).contains_key(k) {
            Some(m1.union_prefer_right(m2)[k])
        } else {
            None
        } by {
            if exists|j: int| 0 <= j < s0.len() && s0[j].0@ == k {
                let j = choose|j: int| 0 <= j < s0.len() && s0[j].0@ == k;
                lemma_pair_lookup_at(s0, j);
            } else {
                if m2.contains_key(k) {
                    lemma_pair_lookup_none(s0, k);
                }
            }
        }
    }
}

/// The entry at `i` of entries naming each name once is the one its name looks up.
proof fn lemma_pair_lookup_at(v: Seq<(String, Arc<TyVar>)>, i: int)
    requires
        0 <= i < v.len(),
        forall|a: int, b: int| 0 <= a < b < v.len() ==> (#[trigger] v[a]).0@ != (#[trigger] v[b]).0@,
    ensures
        pair_lookup(v, v[i].0@) == Some(v[i].1),
    decreases i,
{
    if i > 0 {
        assert forall|a: int, b: int| 0 <= a < b < v.drop_first().len() implies (#[trigger] v.drop_first()[a]).0@ != (#[trigger] v.drop_first()[b]).0@ by {
            assert(v.drop_first()[a] == v[a + 1] && v.drop_first()[b] == v[b + 1]);
        }
        assert(v.drop_first()[i - 1] == v[i]);
        lemma_pair_lookup_at(v.drop_first(), i - 1);
        assert(v[0].0@ != v[i].0@);
    }
}

/// A name no entry has looks up nothing.
proof fn lemma_pair_lookup_none(v: Seq<(String, Arc<TyVar>)>, k: Seq<char>)
    requires
        !(exists|j: int| 0 <= j < v.len() && v[j].0@ == k),
    ensures
        pair_lookup(v, k) is None,
    decreases v.len(),
{
    if v.len() > 0 {
        assert(v[0].0@ != k);
        assert forall|j: int| 0 <= j < v.drop_first().len() implies v.drop_first()[j].0@ != k by {
            assert(v.drop_first()[j] == v[j + 1]);
        }
        lemma_pair_lookup_none(v.drop_first(), k);
    }
}

impl TypeNode {
    /// The type variables standing in this type, by their names, each name once; of two
    /// variables of one name the one standing further right is kept.
    pub fn free_vars(self: &Arc<TypeNode>) -> (r: Vec<(String, Arc<TyVar>)>)
        ensures
            holds_map(r@, fv_map(**self)),
        decreases self,
    {
        let mut free_vars: Vec<(String, Arc<TyVar>)> = Vec::new();
        proof {
            assert(holds_map(free_vars@, Map::empty()));
        }
        match &self.ty {
            Type::TyVar(tv) => {
                set_pair(&mut free_vars, &tv.name, tv.clone());
                proof {
                    assert forall|k: Seq<char>| #[trigger] pair_lookup(free_vars@, k) == if fv_map(**self).contains_key(k) {
                        Some(fv_map(**self)[k])
                    } else {
                        None
                    } by {}
                }
            },
            Type::TyApp(tyfun, arg) => {
                let tf: &TypeNode = &**tyfun;
                let ta: &TypeNode = &**arg;
                let f = tyfun.free_vars();
                extend_pairs(&mut free_vars, f, Ghost(Map::empty()), Ghost(fv_map(*tf)));
                let a = arg.free_vars();
                extend_pairs(&mut free_vars, a, Ghost(Map::empty().union_prefer_right(fv_map(*tf))), Ghost(fv_map(*ta)));
                proof {
                    assert(Map::<Seq<char>, Arc<TyVar>>::empty().union_prefer_right(fv_map(*tf)).union_prefer_right(fv_map(*ta)) =~= fv_map(**self));
                }
            },
            Type::TyCon(_) => {
                proof {
                    assert(fv_map(**self) =~= Map::empty());
                }
            },
            Type::AssocTy(_, args) => {
                let node: &TypeNode = &**self;
                let mut i: usize = 0;
                proof {
                    assert(fv_args_map(*node, 0) =~= Map::<Seq<char>, Arc<TyVar>>::empty());
                }
                while i < args.len()
                    invariant
                        node.ty == Type::AssocTy(node.ty->AssocTy_0, *args),
                        *node == **self,
                        i <= args@.len(),
                        holds_map(free_vars@, fv_args_map(*node, i as int)),
                    decreases args@.len() - i,
                {
                    proof {
                        crate::ast::types::lemma_assoc_arg_decreases(*node, i as int);
                    }
                    let ai: &TypeNode = &*args[i];
                    let a = args[i].free_vars();
                    extend_pairs(&mut free_vars, a, Ghost(fv_args_map(*node, i as int)), Ghost(fv_map(*ai)));
                    i = i + 1;
                }
            },
        }
        free_vars
    }
}

} // verus!
