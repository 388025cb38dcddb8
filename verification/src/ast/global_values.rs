//! The global values a program defines: each definition paired with the type signature of the
//! same name, and registered under that name.
use crate::ast::expr::ExprNode;
use crate::ast::name::{fullname_text, FullName, FullNameView};
use crate::ast::pattern::name_key;
use crate::ast::program::{errs_view, GlobalValueDecl};
use crate::ast::scheme::Scheme;
use crate::ast::typedecl::{head_char_of, head_char_span};
use crate::error::Errors;
use crate::source::Span;
use std::sync::Arc;
use vstd::prelude::*;

verus! {

/// The definition of a global value: its name and the expression it is bound to, as in
/// `main = println("Hello World")`.
pub struct GlobalValueDefn {
    /// The defined name.
    pub name: FullName,
    /// The expression the name is bound to.
    pub expr: Arc<ExprNode>,
    /// Where the left side of the definition was written, as `main` above.
    pub src: Option<Span>,
}

/// A registered global value: its type, its expression, and where it was declared and
/// defined.
pub struct GlobalValue {
    /// Its type scheme.
    pub scm: Arc<Scheme>,
    /// The expression that computes it.
    pub expr: Arc<ExprNode>,
    /// Where its type signature was written.
    pub decl_src: Option<Span>,
    /// Where the left side of its definition was written.
    pub defn_src: Option<Span>,
    /// Its documentation, for a value whose declaration is not in a source file.
    pub document: Option<String>,
    /// Whether it is a method the compiler makes for a type, left out of generated documents.
    pub compiler_defined_method: bool,
}

/// The global values registered so far, each under its name.
pub struct GlobalValues {
    /// The registered values, in the order they were registered.
    pub entries: Vec<(FullName, GlobalValue)>,
}

/// A report seen as its text and the places it points at.
pub type ErrView = (Seq<char>, Seq<Option<Span>>);

/// The key a name is told apart by.
pub open spec fn gkey(n: FullNameView) -> (Seq<Seq<char>>, Seq<char>) {
    name_key(n)
}

/// The keys of the names of the definitions `ds`.
pub open spec fn defn_keys(ds: Seq<GlobalValueDefn>) -> Seq<(Seq<Seq<char>>, Seq<char>)> {
    ds.map_values(|d: GlobalValueDefn| gkey(d.name@))
}

/// The keys of the names of the signatures `cs`.
pub open spec fn decl_keys(cs: Seq<GlobalValueDecl>) -> Seq<(Seq<Seq<char>>, Seq<char>)> {
    cs.map_values(|c: GlobalValueDecl| gkey(c.name@))
}

/// The first of the first `n` of `keys` equal to `k`; -1 where none is.
pub open spec fn first_with(keys: Seq<(Seq<Seq<char>>, Seq<char>)>, k: (Seq<Seq<char>>, Seq<char>), n: int) -> int
    decreases n,
{
    if n <= 0 {
        -1
    } else {
        let p = first_with(keys, k, n - 1);
        if p >= 0 {
            p
        } else if keys[n - 1] == k {
            n - 1
        } else {
            -1
        }
    }
}

/// The reports on the definitions among the first `n` of `ds` whose name an earlier one
/// already carries, each pointing at itself and at the first definition of the name.
pub open spec fn dup_defn_errs(ds: Seq<GlobalValueDefn>, n: int) -> Seq<ErrView>
    decreases n,
{
    if n <= 0 {
        Seq::empty()
    } else {
        let f = first_with(defn_keys(ds), gkey(ds[n - 1].name@), n - 1);
        if f >= 0 {
            dup_defn_errs(ds, n - 1).push(
                (
                    "Duplicate definition for global value: `"@ + fullname_text(ds[n - 1].name@) + "`."@,
                    seq![head_char_span(ds[n - 1].src), head_char_span(ds[f].src)],
                ),
            )
        } else {
            dup_defn_errs(ds, n - 1)
        }
    }
}

/// The reports on the signatures among the first `n` of `cs` whose name an earlier one already
/// carries, each pointing at itself and at the first signature of the name.
pub open spec fn dup_decl_errs(cs: Seq<GlobalValueDecl>, n: int) -> Seq<ErrView>
    decreases n,
{
    if n <= 0 {
        Seq::empty()
    } else {
        let f = first_with(decl_keys(cs), gkey(cs[n - 1].name@), n - 1);
        if f >= 0 {
            dup_decl_errs(cs, n - 1).push(
                (
                    "Duplicate declaration for `"@ + fullname_text(cs[n - 1].name@) + "`."@,
                    seq![head_char_span(cs[n - 1].src), head_char_span(cs[f].src)],
                ),
            )
        } else {
            dup_decl_errs(cs, n - 1)
        }
    }
}

/// The names met, each once, in the order first met, with the places of the first definition
/// and the first signature carrying each (-1 where there is none): those of the first `n`
/// definitions.
pub open spec fn order_defns(ds: Seq<GlobalValueDefn>, cs: Seq<GlobalValueDecl>, n: int) -> Seq<(FullNameView, int, int)>
    decreases n,
{
    if n <= 0 {
        Seq::empty()
    } else if first_with(defn_keys(ds), gkey(ds[n - 1].name@), n - 1) < 0 {
        order_defns(ds, cs, n - 1).push(
            (ds[n - 1].name@, n - 1, first_with(decl_keys(cs), gkey(ds[n - 1].name@), cs.len() as int)),
        )
    } else {
        order_defns(ds, cs, n - 1)
    }
}

/// The names of the first `m` signatures that no definition carries, each once, in the order
/// first met, with the place of the first signature carrying each.
pub open spec fn order_decls(ds: Seq<GlobalValueDefn>, cs: Seq<GlobalValueDecl>, m: int) -> Seq<(FullNameView, int, int)>
    decreases m,
{
    if m <= 0 {
        Seq::empty()
    } else if first_with(defn_keys(ds), gkey(cs[m - 1].name@), ds.len() as int) < 0 && first_with(
        decl_keys(cs),
        gkey(cs[m - 1].name@),
        m - 1,
    ) < 0 {
        order_decls(ds, cs, m - 1).push((cs[m - 1].name@, -1, m - 1))
    } else {
        order_decls(ds, cs, m - 1)
    }
}

/// Every name met, each once: those of the definitions in the order first met, then those of
/// the signatures alone.
pub open spec fn name_order(ds: Seq<GlobalValueDefn>, cs: Seq<GlobalValueDecl>) -> Seq<(FullNameView, int, int)> {
    order_defns(ds, cs, ds.len() as int) + order_decls(ds, cs, cs.len() as int)
}

/// The first of the registered values `reg` under the key `k`; -1 where none is.
pub open spec fn reg_first(reg: Seq<(FullName, GlobalValue)>, k: (Seq<Seq<char>>, Seq<char>)) -> int {
    first_with(reg.map_values(|e: (FullName, GlobalValue)| gkey(e.0@)), k, reg.len() as int)
}

/// The value a name paired with its definition `d` and its signature `c` is registered as.
pub open spec fn paired_value(d: GlobalValueDefn, c: GlobalValueDecl) -> GlobalValue {
    GlobalValue {
        scm: c.ty,
        expr: d.expr,
        decl_src: c.src,
        defn_src: d.src,
        document: None,
        compiler_defined_method: false,
    }
}

/// The report on the name `item` of the pairing, where there is one: it lacks a definition, or a
/// signature, or a value is registered under it already in `reg`.
pub open spec fn pair_err(
    item: (FullNameView, int, int),
    ds: Seq<GlobalValueDefn>,
    cs: Seq<GlobalValueDecl>,
    reg: Seq<(FullName, GlobalValue)>,
) -> Option<ErrView> {
    let t = fullname_text(item.0);
    if item.1 < 0 {
        Some(("Global value `"@ + t + "` lacks its definition."@, seq![head_char_span(cs[item.2].src)]))
    } else if item.2 < 0 {
        Some(("Global value `"@ + t + "` lacks its type signature."@, seq![head_char_span(ds[item.1].src)]))
    } else if reg_first(reg, gkey(item.0)) >= 0 {
        Some(
            (
                "Duplicated definition for global value: `"@ + t + "`"@,
                seq![head_char_span(cs[item.2].src), head_char_span(reg[reg_first(reg, gkey(item.0))].1.decl_src)],
            ),
        )
    } else {
        None
    }
}

/// The reports of the pairing of the first `n` names of `order`.
pub open spec fn pair_errs(
    order: Seq<(FullNameView, int, int)>,
    ds: Seq<GlobalValueDefn>,
    cs: Seq<GlobalValueDecl>,
    reg: Seq<(FullName, GlobalValue)>,
    n: int,
) -> Seq<ErrView>
    decreases n,
{
    if n <= 0 {
        Seq::empty()
    } else {
        match pair_err(order[n - 1], ds, cs, reg) {
            Some(e) => pair_errs(order, ds, cs, reg, n - 1).push(e),
            None => pair_errs(order, ds, cs, reg, n - 1),
        }
    }
}

/// The values registered by the pairing of the first `n` names of `order`: each name with a
/// definition and a signature and not registered in `reg` yet, with its value.
pub open spec fn pair_adds(
    order: Seq<(FullNameView, int, int)>,
    ds: Seq<GlobalValueDefn>,
    cs: Seq<GlobalValueDecl>,
    reg: Seq<(FullName, GlobalValue)>,
    n: int,
) -> Seq<(FullNameView, GlobalValue)>
    decreases n,
{
    if n <= 0 {
        Seq::empty()
    } else if order[n - 1].1 >= 0 && order[n - 1].2 >= 0 && reg_first(reg, gkey(order[n - 1].0)) < 0 {
        pair_adds(order, ds, cs, reg, n - 1).push(
            (order[n - 1].0, paired_value(ds[order[n - 1].1], cs[order[n - 1].2])),
        )
    } else {
        pair_adds(order, ds, cs, reg, n - 1)
    }
}

/// The registered values seen with their names as views.
pub open spec fn reg_view(reg: Seq<(FullName, GlobalValue)>) -> Seq<(FullNameView, GlobalValue)> {
    reg.map_values(|e: (FullName, GlobalValue)| (e.0@, e.1))
}

/// All the reports of adding the definitions `ds` and the signatures `cs` to the values `reg`.
pub open spec fn add_errs(reg: Seq<(FullName, GlobalValue)>, ds: Seq<GlobalValueDefn>, cs: Seq<GlobalValueDecl>) -> Seq<ErrView> {
    let order = name_order(ds, cs);
    dup_defn_errs(ds, ds.len() as int) + dup_decl_errs(cs, cs.len() as int) + pair_errs(
        order,
        ds,
        cs,
        reg,
        order.len() as int,
    )
}

/// `first_with` is -1 or the place of a key equal to `k` among the first `n`, with none before.
proof fn lemma_first_with(keys: Seq<(Seq<Seq<char>>, Seq<char>)>, k: (Seq<Seq<char>>, Seq<char>), n: int)
    requires
        0 <= n <= keys.len(),
    ensures
        -1 <= first_with(keys, k, n) < n,
        first_with(keys, k, n) >= 0 ==> keys[first_with(keys, k, n)] == k,
        first_with(keys, k, n) < 0 ==> forall|j: int| 0 <= j < n ==> keys[j] != k,
    decreases n,
{
    if n > 0 {
        lemma_first_with(keys, k, n - 1);
    }
}

/// Once a key equal to `k` is met, `first_with` keeps its place.
proof fn lemma_first_with_stays(keys: Seq<(Seq<Seq<char>>, Seq<char>)>, k: (Seq<Seq<char>>, Seq<char>), m: int, n: int)
    requires
        0 <= m <= n,
        first_with(keys, k, m) >= 0,
    ensures
        first_with(keys, k, n) == first_with(keys, k, m),
    decreases n - m,
{
    if m < n {
        lemma_first_with_stays(keys, k, m, n - 1);
    }
}

/// Adds the report `msg`, pointing at `srcs`, to `errors`.
fn report(errors: &mut Errors, msg: String, srcs: Vec<Option<Span>>)
    ensures
        errs_view(final(errors).errs@) == errs_view(old(errors).errs@).push((msg@, srcs@)),
{
    let ghost before = errors.errs@;
    errors.append(Errors::from_msg_srcs(msg, srcs));
    assert(errs_view(errors.errs@) =~= errs_view(before).push((msg@, srcs@)));
}

/// The two places `a` and `b`.
fn two_srcs(a: Option<Span>, b: Option<Span>) -> (r: Vec<Option<Span>>)
    ensures
        r@ == seq![a, b],
{
    let mut r: Vec<Option<Span>> = Vec::new();
    r.push(a);
    r.push(b);
    assert(r@ =~= seq![a, b]);
    r
}

/// The one place `a`.
fn one_src(a: Option<Span>) -> (r: Vec<Option<Span>>)
    ensures
        r@ == seq![a],
{
    let mut r: Vec<Option<Span>> = Vec::new();
    r.push(a);
    assert(r@ =~= seq![a]);
    r
}

/// The first of the first `n` definitions named as `name`.
fn find_defn(ds: &Vec<GlobalValueDefn>, name: &FullName, n: usize) -> (r: Option<usize>)
    requires
        n <= ds@.len(),
    ensures
        match r {
            Some(i) => i as int == first_with(defn_keys(ds@), gkey(name@), n as int),
            None => first_with(defn_keys(ds@), gkey(name@), n as int) < 0,
        },
{
    for i in 0..n
        invariant
            n <= ds@.len(),
            first_with(defn_keys(ds@), gkey(name@), i as int) < 0,
    {
        if ds[i].name == *name {
            assert(defn_keys(ds@)[i as int] == gkey(name@));
            proof {
                lemma_first_with_stays(defn_keys(ds@), gkey(name@), i + 1, n as int);
            }
            return Some(i);
        }
        assert(defn_keys(ds@)[i as int] != gkey(name@));
    }
    None
}

/// The first of the first `n` signatures named as `name`.
fn find_decl(cs: &Vec<GlobalValueDecl>, name: &FullName, n: usize) -> (r: Option<usize>)
    requires
        n <= cs@.len(),
    ensures
        match r {
            Some(i) => i as int == first_with(decl_keys(cs@), gkey(name@), n as int),
            None => first_with(decl_keys(cs@), gkey(name@), n as int) < 0,
        },
{
    for i in 0..n
        invariant
            n <= cs@.len(),
            first_with(decl_keys(cs@), gkey(name@), i as int) < 0,
    {
        if cs[i].name == *name {
            assert(decl_keys(cs@)[i as int] == gkey(name@));
            proof {
                lemma_first_with_stays(decl_keys(cs@), gkey(name@), i + 1, n as int);
            }
            return Some(i);
        }
        assert(decl_keys(cs@)[i as int] != gkey(name@));
    }
    None
}

/// The first of the first `n` registered values named as `name`.
fn find_reg(reg: &Vec<(FullName, GlobalValue)>, name: &FullName, n: usize) -> (r: Option<usize>)
    requires
        n <= reg@.len(),
    ensures
        match r {
            Some(i) => i as int == reg_first(reg@.take(n as int), gkey(name@)),
            None => reg_first(reg@.take(n as int), gkey(name@)) < 0,
        },
{
    let ghost keys = reg@.take(n as int).map_values(|e: (FullName, GlobalValue)| gkey(e.0@));
    for i in 0..n
        invariant
            n <= reg@.len(),
            keys == reg@.take(n as int).map_values(|e: (FullName, GlobalValue)| gkey(e.0@)),
            first_with(keys, gkey(name@), i as int) < 0,
    {
        if reg[i].0 == *name {
            assert(keys[i as int] == gkey(name@));
            proof {
                lemma_first_with_stays(keys, gkey(name@), i + 1, n as int);
            }
            return Some(i);
        }
        assert(keys[i as int] != gkey(name@));
    }
    None
}

/// Whether every place a report on adding `ds` and `cs` to `reg` may point at can be cut to its
/// first character.
pub open spec fn srcs_cuttable(reg: Seq<(FullName, GlobalValue)>, ds: Seq<GlobalValueDefn>, cs: Seq<GlobalValueDecl>) -> bool {
    &&& forall|i: int| 0 <= i < ds.len() ==> ((#[trigger] ds[i]).src is Some ==> ds[i].src->0.start < usize::MAX)
    &&& forall|i: int| 0 <= i < cs.len() ==> ((#[trigger] cs[i]).src is Some ==> cs[i].src->0.start < usize::MAX)
    &&& forall|i: int| 0 <= i < reg.len() ==> ((#[trigger] reg[i]).1.decl_src is Some ==> reg[i].1.decl_src->0.start < usize::MAX)
}

impl GlobalValues {
    /// Pairs the name `name` with its first definition `di` and its first signature `ci`:
    /// registers the value where both are there and no value is registered under the name among
    /// the first `old_len` values, and reports the pairing's failure otherwise.
    fn pair_one(
        &mut self,
        errors: &mut Errors,
        name: &FullName,
        di: Option<usize>,
        ci: Option<usize>,
        defns: &Vec<GlobalValueDefn>,
        decls: &Vec<GlobalValueDecl>,
        old_len: usize,
    )
        requires
            old_len <= old(self).entries@.len(),
            di matches Some(i) ==> i < defns@.len(),
            ci matches Some(j) ==> j < decls@.len(),
            di is Some || ci is Some,
            srcs_cuttable(old(self).entries@.take(old_len as int), defns@, decls@),
        ensures
            final(self).entries@.take(old_len as int) == old(self).entries@.take(old_len as int),
            ({
                let item = (name@, match di { Some(i) => i as int, None => -1 }, match ci { Some(j) => j as int, None => -1 });
                let reg = old(self).entries@.take(old_len as int);
                &&& errs_view(final(errors).errs@) == errs_view(old(errors).errs@) + match pair_err(item, defns@, decls@, reg) {
                    Some(e) => seq![e],
                    None => Seq::empty(),
                }
                &&& reg_view(final(self).entries@) == reg_view(old(self).entries@) + if di is Some && ci is Some && reg_first(reg, gkey(name@)) < 0 {
                    seq![(name@, paired_value(defns@[di->0 as int], decls@[ci->0 as int]))]
                } else {
                    Seq::empty()
                }
            }),
    {
        let ghost e0 = errs_view(errors.errs@);
        let ghost r0 = self.entries@;
        match (di, ci) {
            (None, Some(j)) => {
                let mut msg = crate::strutil::to_string("Global value `");
                msg.append(name.to_string().as_str());
                msg.append("` lacks its definition.");
                report(errors, msg, one_src(head_char_of(&decls[j].src)));
            },
            (Some(i), None) => {
                let mut msg = crate::strutil::to_string("Global value `");
                msg.append(name.to_string().as_str());
                msg.append("` lacks its type signature.");
                report(errors, msg, one_src(head_char_of(&defns[i].src)));
            },
            (Some(i), Some(j)) => {
                match find_reg(&self.entries, name, old_len) {
                    Some(f) => {
                        proof {
                            let reg = self.entries@.take(old_len as int);
                            lemma_first_with(reg.map_values(|e: (FullName, GlobalValue)| gkey(e.0@)), gkey(name@), old_len as int);
                            assert(reg[f as int] == self.entries@[f as int]);
                        }
                        let mut msg = crate::strutil::to_string("Duplicated definition for global value: `");
                        msg.append(name.to_string().as_str());
                        msg.append("`");
                        let srcs = two_srcs(head_char_of(&decls[j].src), head_char_of(&self.entries[f].1.decl_src));
                        report(errors, msg, srcs);
                    },
                    None => {
                        let gv = GlobalValue {
                            scm: decls[j].ty.clone(),
                            expr: defns[i].expr.clone(),
                            decl_src: crate::source::clone_span_opt(&decls[j].src),
                            defn_src: crate::source::clone_span_opt(&defns[i].src),
                            document: None,
                            compiler_defined_method: false,
                        };
                        self.entries.push((name.clone(), gv));
                        proof {
                            assert(self.entries@.take(old_len as int) =~= r0.take(old_len as int));
                            assert(reg_view(self.entries@) =~= reg_view(r0) + seq![(name@, paired_value(defns@[i as int], decls@[j as int]))]);
                        }
                    },
                }
            },
            (None, None) => unreached(),
        }
        proof {
            if self.entries@ == r0 {
                assert(reg_view(self.entries@) =~= reg_view(r0) + Seq::empty());
            }
            assert(errs_view(errors.errs@) =~= e0 + match pair_err(
                (name@, match di { Some(i) => i as int, None => -1 }, match ci { Some(j) => j as int, None => -1 }),
                defns@,
                decls@,
                r0.take(old_len as int),
            ) {
                Some(e) => seq![e],
                None => Seq::empty(),
            });
        }
    }
}

/// The names met among the first `m` definitions begin those met among the first `n`.
proof fn lemma_order_defns_prefix(ds: Seq<GlobalValueDefn>, cs: Seq<GlobalValueDecl>, m: int, n: int)
    requires
        0 <= m <= n,
    ensures
        order_defns(ds, cs, m).len() <= order_defns(ds, cs, n).len(),
        order_defns(ds, cs, n).take(order_defns(ds, cs, m).len() as int) == order_defns(ds, cs, m),
    decreases n - m,
{
    if m < n {
        lemma_order_defns_prefix(ds, cs, m, n - 1);
        let a = order_defns(ds, cs, m);
        let b = order_defns(ds, cs, n - 1);
        assert(order_defns(ds, cs, n).take(a.len() as int) =~= b.take(a.len() as int));
    } else {
        assert(order_defns(ds, cs, n).take(order_defns(ds, cs, n).len() as int) =~= order_defns(ds, cs, n));
    }
}

/// The names met among the first `m` signatures alone begin those met among the first `n`.
proof fn lemma_order_decls_prefix(ds: Seq<GlobalValueDefn>, cs: Seq<GlobalValueDecl>, m: int, n: int)
    requires
        0 <= m <= n,
    ensures
        order_decls(ds, cs, m).len() <= order_decls(ds, cs, n).len(),
        order_decls(ds, cs, n).take(order_decls(ds, cs, m).len() as int) == order_decls(ds, cs, m),
    decreases n - m,
{
    if m < n {
        lemma_order_decls_prefix(ds, cs, m, n - 1);
        let a = order_decls(ds, cs, m);
        let b = order_decls(ds, cs, n - 1);
        assert(order_decls(ds, cs, n).take(a.len() as int) =~= b.take(a.len() as int));
    } else {
        assert(order_decls(ds, cs, n).take(order_decls(ds, cs, n).len() as int) =~= order_decls(ds, cs, n));
    }
}

impl GlobalValues {
    /// Pairs each definition `defns` with the type signature `decls` of the same name and
    /// registers each pair under its name. A name defined twice or declared twice is reported
    /// at each repetition; a name with no definition, or with no signature, or under which a
    /// value is registered already, is reported instead of being registered. The reports come
    /// in that order, the names in the order first met, those of definitions first; see
    /// `add_errs`. The pairs that succeed are registered even where another fails.
    pub fn add_global_values(&mut self, defns: Vec<GlobalValueDefn>, decls: Vec<GlobalValueDecl>) -> (r: Result<(), Errors>)
        requires
            srcs_cuttable(old(self).entries@, defns@, decls@),
        ensures
            reg_view(final(self).entries@) == reg_view(old(self).entries@) + pair_adds(
                name_order(defns@, decls@),
                defns@,
                decls@,
                old(self).entries@,
                name_order(defns@, decls@).len() as int,
            ),
            r is Ok <==> add_errs(old(self).entries@, defns@, decls@).len() == 0,
            r matches Err(e) ==> errs_view(e.errs@) == add_errs(old(self).entries@, defns@, decls@),
    {
        let ghost reg0 = self.entries@;
        let ghost ds = defns@;
        let ghost cs = decls@;
        let ghost order = name_order(ds, cs);
        let old_len = self.entries.len();
        assert(reg0.take(old_len as int) =~= reg0);
        let mut errors = Errors::empty();
        assert(errs_view(errors.errs@) =~= Seq::empty());
        for i in 0..defns.len()
            invariant
                ds == defns@,
                srcs_cuttable(reg0, ds, cs),
                errs_view(errors.errs@) == dup_defn_errs(ds, i as int),
        {
            let f = find_defn(&defns, &defns[i].name, i);
            match f {
                Some(f) => {
                    proof {
                        lemma_first_with(defn_keys(ds), gkey(ds[i as int].name@), i as int);
                    }
                    let mut msg = crate::strutil::to_string("Duplicate definition for global value: `");
                    msg.append(defns[i].name.to_string().as_str());
                    msg.append("`.");
                    let srcs = two_srcs(head_char_of(&defns[i].src), head_char_of(&defns[f].src));
                    report(&mut errors, msg, srcs);
                },
                None => {},
            }
        }
        let ghost e1 = errs_view(errors.errs@);
        for j in 0..decls.len()
            invariant
                cs == decls@,
                srcs_cuttable(reg0, ds, cs),
                errs_view(errors.errs@) == e1 + dup_decl_errs(cs, j as int),
        {
            let f = find_decl(&decls, &decls[j].name, j);
            match f {
                Some(f) => {
                    proof {
                        lemma_first_with(decl_keys(cs), gkey(cs[j as int].name@), j as int);
                    }
                    let mut msg = crate::strutil::to_string("Duplicate declaration for `");
                    msg.append(decls[j].name.to_string().as_str());
                    msg.append("`.");
                    let srcs = two_srcs(head_char_of(&decls[j].src), head_char_of(&decls[f].src));
                    report(&mut errors, msg, srcs);
                },
                None => {},
            }
            assert(errs_view(errors.errs@) =~= e1 + dup_decl_errs(cs, j + 1));
        }
        let ghost e2 = errs_view(errors.errs@);
        assert(e2 =~= e2 + pair_errs(order, ds, cs, reg0, 0));
        assert(reg_view(self.entries@) =~= reg_view(reg0) + pair_adds(order, ds, cs, reg0, 0));
        for i in 0..defns.len()
            invariant
                ds == defns@,
                cs == decls@,
                order == name_order(ds, cs),
                old_len == reg0.len(),
                srcs_cuttable(reg0, ds, cs),
                old_len <= self.entries@.len(),
                self.entries@.take(old_len as int) == reg0,
                errs_view(errors.errs@) == e2 + pair_errs(order, ds, cs, reg0, order_defns(ds, cs, i as int).len() as int),
                reg_view(self.entries@) == reg_view(reg0) + pair_adds(order, ds, cs, reg0, order_defns(ds, cs, i as int).len() as int),
        {
            let f = find_defn(&defns, &defns[i].name, i);
            if f.is_none() {
                let ci = find_decl(&decls, &defns[i].name, decls.len());
                let ghost k = order_defns(ds, cs, i as int).len() as int;
                let ghost item = (ds[i as int].name@, i as int, match ci { Some(j) => j as int, None => -1 });
                proof {
                    lemma_first_with(decl_keys(cs), gkey(ds[i as int].name@), cs.len() as int);
                    assert(order_defns(ds, cs, i + 1) == order_defns(ds, cs, i as int).push(item));
                    lemma_order_defns_prefix(ds, cs, i + 1, ds.len() as int);
                    assert(order_defns(ds, cs, ds.len() as int).take(k + 1)[k] == item);
                    assert(order[k] == item);
                }
                self.pair_one(&mut errors, &defns[i].name, Some(i), ci, &defns, &decls, old_len);
                proof {
                    assert(errs_view(errors.errs@) =~= e2 + pair_errs(order, ds, cs, reg0, k + 1));
                    assert(reg_view(self.entries@) =~= reg_view(reg0) + pair_adds(order, ds, cs, reg0, k + 1));
                }
            }
        }
        let ghost kd = order_defns(ds, cs, ds.len() as int).len() as int;
        for j in 0..decls.len()
            invariant
                ds == defns@,
                cs == decls@,
                order == name_order(ds, cs),
                kd == order_defns(ds, cs, ds.len() as int).len(),
                old_len == reg0.len(),
                srcs_cuttable(reg0, ds, cs),
                old_len <= self.entries@.len(),
                self.entries@.take(old_len as int) == reg0,
                errs_view(errors.errs@) == e2 + pair_errs(order, ds, cs, reg0, kd + order_decls(ds, cs, j as int).len()),
                reg_view(self.entries@) == reg_view(reg0) + pair_adds(order, ds, cs, reg0, kd + order_decls(ds, cs, j as int).len()),
        {
            let fd = find_defn(&defns, &decls[j].name, defns.len());
            let fc = find_decl(&decls, &decls[j].name, j);
            if fd.is_none() && fc.is_none() {
                let ghost k = kd + order_decls(ds, cs, j as int).len();
                let ghost item = (cs[j as int].name@, -1int, j as int);
                proof {
                    assert(order_decls(ds, cs, j + 1) == order_decls(ds, cs, j as int).push(item));
                    lemma_order_decls_prefix(ds, cs, j + 1, cs.len() as int);
                    let od = order_decls(ds, cs, cs.len() as int);
                    assert(od.take((order_decls(ds, cs, j as int).len() + 1) as int)[order_decls(ds, cs, j as int).len() as int] == item);
                    assert(order[k] == od[k - kd]);
                    assert(order[k] == item);
                }
                self.pair_one(&mut errors, &decls[j].name, None, Some(j), &defns, &decls, old_len);
                proof {
                    assert(errs_view(errors.errs@) =~= e2 + pair_errs(order, ds, cs, reg0, k + 1));
                    assert(reg_view(self.entries@) =~= reg_view(reg0) + pair_adds(order, ds, cs, reg0, k + 1));
                }
            }
        }
        assert(errs_view(errors.errs@) =~= add_errs(reg0, ds, cs));
        proof {
            assert(errors.errs@.len() == errs_view(errors.errs@).len());
        }
        errors.to_result()
    }
}

} // verus!
