//! The names an expression refers to: the free variables recorded on every node, and the global
//! values an expression depends on.
use crate::ast::expr::{clone_names, fields_set, opt_indices_view, same_attrs, Expr, ExprNode, Var};
use crate::ast::name::{FullName, Name};
use crate::ast::pattern::{insert_fullname, name_key, name_keys, pattern_var_names};
use crate::ast::name::fullname_text;
use crate::constants::{cap_name, spec_cap_name};
use crate::order::{sort_order, stable_sort, text_keys};
use std::sync::Arc;
use vstd::prelude::*;

verus! {

/// The number of listed parts of `e`: the arguments of an application or a foreign call, the
/// fields of a struct construction, and the elements of an array literal.
pub open spec fn child_count(e: Expr) -> int {
    match e {
        Expr::App(_, a) => a@.len() as int,
        Expr::MakeStruct(_, fs) => fs@.len() as int,
        Expr::ArrayLit(es) => es@.len() as int,
        Expr::FFICall(_, _, _, a, _) => a@.len() as int,
        _ => 0,
    }
}

/// The `i`-th listed part of `e`.
pub open spec fn child(e: Expr, i: int) -> Arc<ExprNode> {
    match e {
        Expr::App(_, a) => a@[i],
        Expr::MakeStruct(_, fs) => fs@[i].1,
        Expr::ArrayLit(es) => es@[i],
        Expr::FFICall(_, _, _, a, _) => a@[i],
        _ => arbitrary(),
    }
}

/// A listed part of a node is smaller than the node.
pub proof fn lemma_child_decreases(n: ExprNode, i: int)
    requires
        0 <= i < child_count(*n.expr),
    ensures
        decreases_to!(n => *child(*n.expr, i)),
{
    assert(decreases_to!(n => n.expr));
    match *n.expr {
        Expr::App(_, a) => {
            assert(decreases_to!(a => a@[i]));
        },
        Expr::MakeStruct(_, fs) => {
            assert(decreases_to!(fs => fs@[i]));
        },
        Expr::ArrayLit(es) => {
            assert(decreases_to!(es => es@[i]));
        },
        Expr::FFICall(_, _, _, a, _) => {
            assert(decreases_to!(a => a@[i]));
        },
        _ => {},
    }
}

/// The key the variable of the capture a closure's code reads is told apart by.
pub open spec fn cap_key() -> (Seq<Seq<char>>, Seq<char>) {
    (Seq::empty(), spec_cap_name())
}

/// The keys of the names of the variables `vs`.
pub open spec fn var_keys(vs: Seq<Arc<Var>>) -> Set<(Seq<Seq<char>>, Seq<char>)> {
    vs.map_values(|v: Arc<Var>| name_key(v.name@)).to_set()
}

/// The names occurring free in the expression of `n`, by their keys: a variable's own name, the
/// names LLVM code refers to, and those of the parts, less the parameters of a lambda and the
/// capture in its body, and less the variables a `let` pattern binds in the expression the
/// binding is visible in (the bound expression does not see them).
pub open spec fn free_keys(n: ExprNode) -> Set<(Seq<Seq<char>>, Seq<char>)>
    decreases n, 1nat, 0int,
{
    match *n.expr {
        Expr::Var(v) => set![name_key(v.name@)],
        Expr::LLVM(l) => name_keys(l.free_vars@).to_set(),
        Expr::App(f, _) => free_keys(*f) + list_free_keys(n, child_count(*n.expr)),
        Expr::Lam(xs, body) => free_keys(*body).difference(var_keys(xs@)).remove(cap_key()),
        Expr::Let(p, b, v) => free_keys(*v).difference(pattern_var_names(p.pattern).to_set())
            + free_keys(*b),
        Expr::If(c, t, e) => free_keys(*c) + free_keys(*t) + free_keys(*e),
        Expr::TyAnno(e, _) => free_keys(*e),
        _ => list_free_keys(n, child_count(*n.expr)),
    }
}

/// A `let` is not recursive: in `let p = b in v` the variables `p` binds are bound in `v` only.
/// Every name free in `b` is free in the whole `let`, whatever `p` binds; a name free in `v` is
/// free in the `let` unless `p` binds it; and no other name is.
pub proof fn law_let_is_non_recursive(n: ExprNode)
    requires
        *n.expr is Let,
    ensures
        ({
            let bound = *n.expr->Let_1;
            let val = *n.expr->Let_2;
            let binds = pattern_var_names(n.expr->Let_0.pattern);
            &&& forall|k| #[trigger] free_keys(bound).contains(k) ==> free_keys(n).contains(k)
            &&& forall|k| #[trigger] free_keys(val).contains(k) && !binds.contains(k) ==> free_keys(n).contains(k)
            &&& forall|k| #[trigger] free_keys(n).contains(k) ==> free_keys(bound).contains(k) || (
            free_keys(val).contains(k) && !binds.contains(k))
        }),
{
}

/// A name is free in the first `k` listed parts of `n` exactly where it is free in one of them.
proof fn lemma_list_free_keys(n: ExprNode, k: int)
    requires
        0 <= k <= child_count(*n.expr),
    ensures
        forall|i: int, x| 0 <= i < k && #[trigger] free_keys(*child(*n.expr, i)).contains(x) ==> list_free_keys(n, k).contains(x),
        forall|x| #[trigger] list_free_keys(n, k).contains(x) ==> exists|i: int|
            0 <= i < k && #[trigger] free_keys(*child(*n.expr, i)).contains(x),
    decreases k,
{
    if k > 0 {
        lemma_list_free_keys(n, k - 1);
        assert forall|x| #[trigger] list_free_keys(n, k).contains(x) implies exists|i: int|
            0 <= i < k && #[trigger] free_keys(*child(*n.expr, i)).contains(x) by {
            if !list_free_keys(n, k - 1).contains(x) {
                assert(free_keys(*child(*n.expr, k - 1)).contains(x));
            }
        }
    }
}

/// The names free in an application are those free in the applied function and those free in
/// its arguments: each of them, and nothing else.
pub proof fn law_application_free_names(n: ExprNode)
    requires
        *n.expr is App,
    ensures
        ({
            let f = *n.expr->App_0;
            let args = n.expr->App_1@;
            &&& forall|x| #[trigger] free_keys(f).contains(x) ==> free_keys(n).contains(x)
            &&& forall|i: int, x| 0 <= i < args.len() && #[trigger] free_keys(*args[i]).contains(x) ==> free_keys(n).contains(x)
            &&& forall|x| #[trigger] free_keys(n).contains(x) ==> free_keys(f).contains(x) || exists|i: int|
                0 <= i < args.len() && #[trigger] free_keys(*args[i]).contains(x)
        }),
{
    let e: &Expr = &*n.expr;
    match e {
        Expr::App(_, a) => {
            lemma_list_free_keys(n, a@.len() as int);
            assert forall|i: int| 0 <= i < a@.len() implies child(*n.expr, i) == #[trigger] a@[i] by {}
            assert forall|x| #[trigger] free_keys(n).contains(x) implies free_keys(*n.expr->App_0).contains(x)
                || exists|i: int| 0 <= i < a@.len() && #[trigger] free_keys(*a@[i]).contains(x) by {
                if !free_keys(*n.expr->App_0).contains(x) {
                    assert(list_free_keys(n, a@.len() as int).contains(x));
                    let i = choose|i: int| 0 <= i < a@.len() && #[trigger] free_keys(*child(*n.expr, i)).contains(x);
                    assert(child(*n.expr, i) == a@[i]);
                }
            }
        },
        _ => {},
    }
}

/// A lambda binds its parameters: none of them is free in the lambda, nor is the name its body
/// uses for the captured closure; every other name free in the body is free in the lambda, and
/// no name is free in the lambda that is not free in its body.
pub proof fn law_lambda_binds_its_parameters(n: ExprNode)
    requires
        *n.expr is Lam,
    ensures
        ({
            let params = n.expr->Lam_0@;
            let body = *n.expr->Lam_1;
            &&& forall|i: int| 0 <= i < params.len() ==> !free_keys(n).contains(name_key((#[trigger] params[i]).name@))
            &&& !free_keys(n).contains(cap_key())
            &&& forall|k| #[trigger] free_keys(n).contains(k) ==> free_keys(body).contains(k)
            &&& forall|k|
                #[trigger] free_keys(body).contains(k) && !var_keys(params).contains(k) && k != cap_key()
                    ==> free_keys(n).contains(k)
        }),
{
    let e: &Expr = &*n.expr;
    match e {
        Expr::Lam(xs, _) => {
            let params = xs@;
            assert forall|i: int| 0 <= i < params.len() implies !free_keys(n).contains(
                name_key((#[trigger] params[i]).name@),
            ) by {
                let ks = params.map_values(|v: Arc<Var>| name_key(v.name@));
                assert(ks[i] == name_key(params[i].name@));
                assert(ks.to_set().contains(ks[i]));
            }
        },
        _ => {},
    }
}

/// The names occurring free in the first `k` listed parts of `n`.
pub open spec fn list_free_keys(n: ExprNode, k: int) -> Set<(Seq<Seq<char>>, Seq<char>)>
    decreases n, 0nat, k,
{
    if k <= 0 || k > child_count(*n.expr) {
        Set::empty()
    } else {
        proof {
            lemma_child_decreases(n, k - 1);
        }
        list_free_keys(n, k - 1) + free_keys(*child(*n.expr, k - 1))
    }
}

/// The last of the first `k` fields of `fs` named `name`; -1 where there is none.
pub open spec fn last_named(fs: Seq<(Name, Arc<ExprNode>)>, name: Seq<char>, k: int) -> int
    decreases k,
{
    if k <= 0 {
        -1
    } else if fs[k - 1].0@ == name {
        k - 1
    } else {
        last_named(fs, name, k - 1)
    }
}

/// The last field named as the `i`-th field is at `i` or after it.
pub proof fn lemma_last_named_range(fs: Seq<(Name, Arc<ExprNode>)>, i: int, k: int)
    requires
        0 <= i < k <= fs.len(),
    ensures
        i <= last_named(fs, fs[i].0@, k) < k,
        fs[last_named(fs, fs[i].0@, k)].0@ == fs[i].0@,
    decreases k,
{
    if fs[k - 1].0@ != fs[i].0@ {
        lemma_last_named_range(fs, i, k - 1);
    }
}

/// Where the listed part recorded at place `i` of `e` comes from: the same place, but in a struct
/// construction the last field of the same name, whose result is written over every field of
/// that name.
pub open spec fn source_index(e: Expr, i: int) -> int {
    match e {
        Expr::MakeStruct(_, fs) => last_named(fs@, fs@[i].0@, fs@.len() as int),
        _ => i,
    }
}

/// The place a listed part is recorded from lies among the listed parts.
pub proof fn lemma_source_index_range(e: Expr, i: int)
    requires
        0 <= i < child_count(e),
    ensures
        0 <= source_index(e, i) < child_count(e),
{
    if e is MakeStruct {
        lemma_last_named_range(e->MakeStruct_1@, i, child_count(e));
    }
}

/// Whether `r` is `e` with the free names of every node recorded: each node of `r` is built as
/// the node of `e` is, keeping what it carries besides, and holds the keys of the names free in
/// it, each once.
pub open spec fn fv_annotated(r: ExprNode, e: ExprNode) -> bool
    decreases e, 1nat, 0int,
{
    &&& r.free_vars is Some
    &&& name_keys(r.free_vars->0@).no_duplicates()
    &&& name_keys(r.free_vars->0@).to_set() == free_keys(e)
    &&& r.source == e.source
    &&& r.app_order == e.app_order
    &&& r.ty == e.ty
    &&& opt_indices_view(r.released_params_indices) == opt_indices_view(e.released_params_indices)
    &&& child_count(*r.expr) == child_count(*e.expr)
    &&& match (*e.expr, *r.expr) {
        (Expr::Var(_), _) => *r.expr == *e.expr,
        (Expr::LLVM(_), _) => *r.expr == *e.expr,
        (Expr::App(f, a), Expr::App(rf, _)) => fv_annotated(*rf, *f) && list_annotated(
            r,
            e,
            a@.len() as int,
        ),
        (Expr::Lam(xs, b), Expr::Lam(rxs, rb)) => rxs@ == xs@ && fv_annotated(*rb, *b),
        (Expr::Let(p, b, v), Expr::Let(rp, rb, rv)) => rp == p && fv_annotated(*rb, *b)
            && fv_annotated(*rv, *v),
        (Expr::If(c, t, f), Expr::If(rc, rt, rf)) => fv_annotated(*rc, *c) && fv_annotated(*rt, *t)
            && fv_annotated(*rf, *f),
        (Expr::TyAnno(x, t), Expr::TyAnno(rx, rt)) => rt == t && fv_annotated(*rx, *x),
        (Expr::MakeStruct(tc, fs), Expr::MakeStruct(rtc, rfs)) => rtc == tc && (forall|i: int|
            0 <= i < fs@.len() ==> #[trigger] rfs@[i].0 == fs@[i].0) && list_annotated(
            r,
            e,
            fs@.len() as int,
        ),
        (Expr::ArrayLit(es), Expr::ArrayLit(_)) => list_annotated(r, e, es@.len() as int),
        (Expr::FFICall(nm, rt, pts, a, io), Expr::FFICall(rnm, rrt, rpts, _, rio)) => rnm == nm
            && rrt == rt && rpts@ == pts@ && rio == io && list_annotated(r, e, a@.len() as int),
        _ => false,
    }
}

/// Whether the first `k` listed parts of `r` are those of `e` with their free names recorded.
pub open spec fn list_annotated(r: ExprNode, e: ExprNode, k: int) -> bool
    decreases e, 0nat, k,
{
    if k <= 0 || k > child_count(*e.expr) {
        true
    } else {
        proof {
            lemma_source_index_range(*e.expr, k - 1);
            lemma_child_decreases(e, source_index(*e.expr, k - 1));
        }
        list_annotated(r, e, k - 1) && fv_annotated(
            *child(*r.expr, k - 1),
            *child(*e.expr, source_index(*e.expr, k - 1)),
        )
    }
}

/// Adds the names `more` to the names `names`, which hold each key once.
fn extend_names(names: &mut Vec<FullName>, more: &Vec<FullName>)
    requires
        name_keys(old(names)@).no_duplicates(),
    ensures
        name_keys(final(names)@).no_duplicates(),
        name_keys(final(names)@).to_set() == name_keys(old(names)@).to_set() + name_keys(
            more@,
        ).to_set(),
{
    let ghost start = name_keys(names@).to_set();
    for i in 0..more.len()
        invariant
            name_keys(names@).no_duplicates(),
            name_keys(names@).to_set() == start + name_keys(more@.take(i as int)).to_set(),
    {
        insert_fullname(names, &more[i]);
        proof {
            let t = more@.take(i + 1);
            assert(name_keys(t) =~= name_keys(more@.take(i as int)).push(name_key(more@[i as int]@)));
            name_keys(more@.take(i as int)).lemma_push_to_set_commute(name_key(more@[i as int]@));
            assert(name_keys(names@).to_set() =~= start + name_keys(t).to_set());
        }
    }
    assert(more@.take(more@.len() as int) =~= more@);
}

/// Removes the name of key `k` from the names `names`, which hold each key once.
fn remove_name(names: &mut Vec<FullName>, name: &FullName)
    requires
        name_keys(old(names)@).no_duplicates(),
    ensures
        name_keys(final(names)@).no_duplicates(),
        name_keys(final(names)@).to_set() == name_keys(old(names)@).to_set().remove(name_key(name@)),
{
    let ghost before = name_keys(names@);
    let mut i: usize = 0;
    while i < names.len()
        invariant
            i <= names@.len(),
            names@.len() == before.len(),
            name_keys(names@) == before,
            before == name_keys(old(names)@),
            before.no_duplicates(),
            forall|j: int| 0 <= j < i ==> before[j] != name_key(name@),
        decreases names@.len() - i,
    {
        if names[i] == *name {
            let ghost old_names = names@;
            names.remove(i);
            proof {
                let k = name_key(name@);
                assert(before[i as int] == k);
                assert(name_keys(names@) =~= before.remove(i as int));
                assert(name_keys(names@).to_set() =~= before.to_set().remove(k)) by {
                    assert forall|x| #[trigger] before.to_set().remove(k).contains(x) implies name_keys(
                        names@,
                    ).to_set().contains(x) by {
                        let j = choose|j: int| 0 <= j < before.len() && before[j] == x;
                        if j < i {
                            assert(name_keys(names@)[j] == x);
                        } else {
                            assert(j != i);
                            assert(name_keys(names@)[j - 1] == x);
                        }
                    }
                    assert forall|x| #[trigger] name_keys(names@).to_set().contains(x) implies before.to_set().remove(
                        k,
                    ).contains(x) by {
                        let j = choose|j: int| 0 <= j < name_keys(names@).len() && name_keys(names@)[j] == x;
                        if j < i {
                            assert(before[j] == x);
                            assert(j != i);
                        } else {
                            assert(before[j + 1] == x);
                            assert(j + 1 != i);
                        }
                    }
                }
                assert(name_keys(names@).no_duplicates()) by {
                    assert forall|a: int, b: int| 0 <= a < b < name_keys(names@).len() implies #[trigger] name_keys(names@)[a] != #[trigger] name_keys(names@)[b] by {
                        let a2 = if a < i { a } else { a + 1 };
                        let b2 = if b < i { b } else { b + 1 };
                        assert(before[a2] != before[b2]);
                    }
                }
            }
            return;
        }
        i = i + 1;
    }
    proof {
        let k = name_key(name@);
        assert(!before.to_set().contains(k)) by {
            if before.to_set().contains(k) {
                let j = choose|j: int| 0 <= j < before.len() && before[j] == k;
                assert(before[j] != k);
            }
        }
        assert(before.to_set().remove(k) =~= before.to_set());
    }
}

/// The first `k` listed parts of `r` are recorded from those of `e` where each of them is.
proof fn lemma_list_annotated(r: ExprNode, e: ExprNode, k: int)
    requires
        0 <= k <= child_count(*e.expr),
        forall|j: int|
            0 <= j < k ==> #[trigger] fv_annotated(
                *child(*r.expr, j),
                *child(*e.expr, source_index(*e.expr, j)),
            ),
    ensures
        list_annotated(r, e, k),
    decreases k,
{
    if k > 0 {
        lemma_list_annotated(r, e, k - 1);
        assert(fv_annotated(*child(*r.expr, k - 1), *child(*e.expr, source_index(*e.expr, k - 1))));
    }
}

/// The free names of `names` less those of the keys in `keys`, removed one after another.
proof fn lemma_var_keys_take(xs: Seq<Arc<Var>>, i: int)
    requires
        0 <= i < xs.len(),
    ensures
        var_keys(xs.take(i + 1)) == var_keys(xs.take(i)).insert(name_key(xs[i].name@)),
{
    let f = |v: Arc<Var>| name_key(v.name@);
    assert(xs.take(i + 1).map_values(f) =~= xs.take(i).map_values(f).push(name_key(xs[i].name@)));
    xs.take(i).map_values(f).lemma_push_to_set_commute(name_key(xs[i].name@));
}

/// The expression of `ei` with the names occurring free in each of its nodes recorded on the
/// node, each name once.
pub fn calculate_free_vars(ei: Arc<ExprNode>) -> (r: Arc<ExprNode>)
    ensures
        fv_annotated(*r, *ei),
    decreases *ei, 1nat,
{
    match &*ei.expr {
        Expr::Var(var) => {
            let mut fv: Vec<FullName> = Vec::new();
            fv.push(var.name.clone());
            proof {
                let k = name_key(var.name@);
                assert(name_keys(fv@) =~= seq![k]);
                assert(seq![k].to_set() =~= set![k]) by {
                    assert(seq![k][0] == k);
                }
            }
            ei.set_free_vars(fv)
        },
        Expr::LLVM(lit) => {
            let mut fv: Vec<FullName> = Vec::new();
            assert(name_keys(fv@).to_set() =~= Set::empty());
            extend_names(&mut fv, &lit.free_vars);
            assert(name_keys(fv@).to_set() =~= name_keys(lit.free_vars@).to_set());
            ei.set_free_vars(fv)
        },
        Expr::App(_, _) => calc_app(&ei),
        Expr::Lam(_, _) => calc_lam(&ei),
        Expr::Let(_, _, _) => calc_let(&ei),
        Expr::If(_, _, _) => calc_if(&ei),
        Expr::TyAnno(e, _) => {
            let e2 = calculate_free_vars(e.clone());
            let fv = clone_names(e2.free_vars());
            ei.set_tyanno_expr(e2).set_free_vars(fv)
        },
        Expr::MakeStruct(_, _) => calc_make_struct(&ei),
        Expr::ArrayLit(_) => calc_array_lit(&ei),
        Expr::FFICall(_, _, _, _, _) => calc_ffi_call(&ei),
    }
}

/// `calculate_free_vars` of an application.
fn calc_app(ei: &Arc<ExprNode>) -> (r: Arc<ExprNode>)
    requires
        *ei.expr is App,
    ensures
        fv_annotated(*r, **ei),
    decreases **ei, 0nat,
{
    let ee: &ExprNode = &**ei;
    match &*ei.expr {
        Expr::App(func, args) => {
            let func2 = calculate_free_vars(func.clone());
            let mut fv = clone_names(func2.free_vars());
            let mut new_args: Vec<Arc<ExprNode>> = Vec::new();
            for i in 0..args.len()
                invariant
                    *ee == **ei,
                    *ei.expr == Expr::App(*func, *args),
                    new_args@.len() == i,
                    forall|j: int|
                        0 <= j < i ==> #[trigger] fv_annotated(*new_args@[j], *args@[j]),
                    name_keys(fv@).no_duplicates(),
                    name_keys(fv@).to_set() == free_keys(**func) + list_free_keys(**ei, i as int),
            {
                proof {
                    lemma_child_decreases(*ee, i as int);
                }
                let a = calculate_free_vars(args[i].clone());
                extend_names(&mut fv, a.free_vars());
                new_args.push(a);
                proof {
                    assert(list_free_keys(**ei, i + 1) == list_free_keys(**ei, i as int) + free_keys(
                        *args@[i as int],
                    ));
                    assert(name_keys(fv@).to_set() =~= free_keys(**func) + list_free_keys(
                        **ei,
                        i + 1,
                    ));
                }
            }
            let r = ei.set_app_func(func2).set_app_args(new_args).set_free_vars(fv);
            proof {
                let rr: &ExprNode = &*r;
                lemma_list_annotated(*rr, *ee, args@.len() as int);
            }
            r
        },
        _ => unreached(),
    }
}

/// `calculate_free_vars` of a lambda.
fn calc_lam(ei: &Arc<ExprNode>) -> (r: Arc<ExprNode>)
    requires
        *ei.expr is Lam,
    ensures
        fv_annotated(*r, **ei),
    decreases **ei, 0nat,
{
    let ee: &ExprNode = &**ei;
    match &*ei.expr {
        Expr::Lam(args, body) => {
            let body2 = calculate_free_vars(body.clone());
            let mut fv = clone_names(body2.free_vars());
            for i in 0..args.len()
                invariant
                    name_keys(fv@).no_duplicates(),
                    name_keys(fv@).to_set() == free_keys(**body).difference(
                        var_keys(args@.take(i as int)),
                    ),
            {
                remove_name(&mut fv, &args[i].name);
                proof {
                    lemma_var_keys_take(args@, i as int);
                    assert(name_keys(fv@).to_set() =~= free_keys(**body).difference(
                        var_keys(args@.take(i + 1)),
                    ));
                }
            }
            assert(args@.take(args@.len() as int) =~= args@);
            let cap = FullName::local(cap_name());
            assert(name_key(cap@) == cap_key()) by {
                assert(cap@.namespace.names =~= Seq::<Seq<char>>::empty());
            }
            remove_name(&mut fv, &cap);
            ei.set_lam_body(body2).set_free_vars(fv)
        },
        _ => unreached(),
    }
}

/// `calculate_free_vars` of a `let`.
fn calc_let(ei: &Arc<ExprNode>) -> (r: Arc<ExprNode>)
    requires
        *ei.expr is Let,
    ensures
        fv_annotated(*r, **ei),
    decreases **ei, 0nat,
{
    let ee: &ExprNode = &**ei;
    match &*ei.expr {
        Expr::Let(pat, bound, val) => {
            let bound2 = calculate_free_vars(bound.clone());
            let val2 = calculate_free_vars(val.clone());
            let mut fv = clone_names(val2.free_vars());
            let vs = pat.pattern.vars();
            for i in 0..vs.len()
                invariant
                    name_keys(fv@).no_duplicates(),
                    name_keys(fv@).to_set() == free_keys(**val).difference(
                        name_keys(vs@.take(i as int)).to_set(),
                    ),
            {
                remove_name(&mut fv, &vs[i]);
                proof {
                    let k = name_key(vs@[i as int]@);
                    assert(name_keys(vs@.take(i + 1)) =~= name_keys(vs@.take(i as int)).push(k));
                    name_keys(vs@.take(i as int)).lemma_push_to_set_commute(k);
                    assert(name_keys(fv@).to_set() =~= free_keys(**val).difference(
                        name_keys(vs@.take(i + 1)).to_set(),
                    ));
                }
            }
            assert(vs@.take(vs@.len() as int) =~= vs@);
            extend_names(&mut fv, bound2.free_vars());
            ei.set_let_bound(bound2).set_let_value(val2).set_free_vars(fv)
        },
        _ => unreached(),
    }
}

/// `calculate_free_vars` of an `if`.
fn calc_if(ei: &Arc<ExprNode>) -> (r: Arc<ExprNode>)
    requires
        *ei.expr is If,
    ensures
        fv_annotated(*r, **ei),
    decreases **ei, 0nat,
{
    let ee: &ExprNode = &**ei;
    match &*ei.expr {
        Expr::If(cond, then_expr, else_expr) => {
            let cond2 = calculate_free_vars(cond.clone());
            let then2 = calculate_free_vars(then_expr.clone());
            let else2 = calculate_free_vars(else_expr.clone());
            let mut fv = clone_names(cond2.free_vars());
            extend_names(&mut fv, then2.free_vars());
            extend_names(&mut fv, else2.free_vars());
            ei.set_if_cond(cond2).set_if_then(then2).set_if_else(else2).set_free_vars(fv)
        },
        _ => unreached(),
    }
}

/// `calculate_free_vars` of an array literal.
fn calc_array_lit(ei: &Arc<ExprNode>) -> (r: Arc<ExprNode>)
    requires
        *ei.expr is ArrayLit,
    ensures
        fv_annotated(*r, **ei),
    decreases **ei, 0nat,
{
    let ee: &ExprNode = &**ei;
    match &*ei.expr {
        Expr::ArrayLit(elems) => {
            let mut fv: Vec<FullName> = Vec::new();
            let mut cur = ei.clone();
            assert(name_keys(fv@).to_set() =~= Set::empty());
            for i in 0..elems.len()
                invariant
                    *ee == **ei,
                    *ei.expr == Expr::ArrayLit(*elems),
                    *cur.expr is ArrayLit,
                    (*cur.expr)->ArrayLit_0@.len() == elems@.len(),
                    forall|j: int|
                        0 <= j < i ==> #[trigger] fv_annotated(
                            *(*cur.expr)->ArrayLit_0@[j],
                            *elems@[j],
                        ),
                    same_attrs(*cur, **ei),
                    name_keys(fv@).no_duplicates(),
                    name_keys(fv@).to_set() == list_free_keys(**ei, i as int),
            {
                proof {
                    lemma_child_decreases(*ee, i as int);
                }
                let e = calculate_free_vars(elems[i].clone());
                extend_names(&mut fv, e.free_vars());
                cur = cur.set_array_lit_elem(e, i);
                proof {
                    assert(list_free_keys(**ei, i + 1) == list_free_keys(**ei, i as int) + free_keys(
                        *elems@[i as int],
                    ));
                }
            }
            let r = cur.set_free_vars(fv);
            proof {
                let rr: &ExprNode = &*r;
                lemma_list_annotated(*rr, *ee, elems@.len() as int);
            }
            r
        },
        _ => unreached(),
    }
}

/// `calculate_free_vars` of a foreign call.
fn calc_ffi_call(ei: &Arc<ExprNode>) -> (r: Arc<ExprNode>)
    requires
        *ei.expr is FFICall,
    ensures
        fv_annotated(*r, **ei),
    decreases **ei, 0nat,
{
    let ee: &ExprNode = &**ei;
    match &*ei.expr {
        Expr::FFICall(_, _, _, args, _) => {
            let mut fv: Vec<FullName> = Vec::new();
            let mut cur = ei.clone();
            assert(name_keys(fv@).to_set() =~= Set::empty());
            for i in 0..args.len()
                invariant
                    *ee == **ei,
                    *ei.expr is FFICall,
                    (*ei.expr)->FFICall_3 == *args,
                    *cur.expr is FFICall,
                    (*cur.expr)->FFICall_0 == (*ei.expr)->FFICall_0,
                    (*cur.expr)->FFICall_1 == (*ei.expr)->FFICall_1,
                    (*cur.expr)->FFICall_2@ == (*ei.expr)->FFICall_2@,
                    (*cur.expr)->FFICall_4 == (*ei.expr)->FFICall_4,
                    (*cur.expr)->FFICall_3@.len() == args@.len(),
                    forall|j: int|
                        0 <= j < i ==> #[trigger] fv_annotated(*(*cur.expr)->FFICall_3@[j], *args@[j]),
                    same_attrs(*cur, **ei),
                    name_keys(fv@).no_duplicates(),
                    name_keys(fv@).to_set() == list_free_keys(**ei, i as int),
            {
                proof {
                    lemma_child_decreases(*ee, i as int);
                }
                let e = calculate_free_vars(args[i].clone());
                extend_names(&mut fv, e.free_vars());
                cur = cur.set_ffi_call_arg(e, i);
                proof {
                    assert(list_free_keys(**ei, i + 1) == list_free_keys(**ei, i as int) + free_keys(
                        *args@[i as int],
                    ));
                }
            }
            let r = cur.set_free_vars(fv);
            proof {
                let rr: &ExprNode = &*r;
                lemma_list_annotated(*rr, *ee, args@.len() as int);
            }
            r
        },
        _ => unreached(),
    }
}

/// `calculate_free_vars` of a struct construction: the result for each field is written over
/// every field of its name, so that where names repeat, the last of them is kept for all.
fn calc_make_struct(ei: &Arc<ExprNode>) -> (r: Arc<ExprNode>)
    requires
        *ei.expr is MakeStruct,
    ensures
        fv_annotated(*r, **ei),
    decreases **ei, 0nat,
{
    let ee: &ExprNode = &**ei;
    match &*ei.expr {
        Expr::MakeStruct(_, fields) => {
            let ghost fs = fields@;
            let ghost mut comp: Seq<Arc<ExprNode>> = Seq::empty();
            let mut fv: Vec<FullName> = Vec::new();
            let mut cur = ei.clone();
            assert(name_keys(fv@).to_set() =~= Set::empty());
            for i in 0..fields.len()
                invariant
                    *ee == **ei,
                    fs == fields@,
                    *ei.expr is MakeStruct,
                    (*ei.expr)->MakeStruct_1 == *fields,
                    *cur.expr is MakeStruct,
                    (*cur.expr)->MakeStruct_0 == (*ei.expr)->MakeStruct_0,
                    (*cur.expr)->MakeStruct_1@.len() == fs.len(),
                    comp.len() == i,
                    forall|j: int| 0 <= j < i ==> #[trigger] fv_annotated(*comp[j], *fs[j].1),
                    field_state((*cur.expr)->MakeStruct_1@, fs, comp, i as int),
                    same_attrs(*cur, **ei),
                    name_keys(fv@).no_duplicates(),
                    name_keys(fv@).to_set() == list_free_keys(**ei, i as int),
            {
                proof {
                    lemma_child_decreases(*ee, i as int);
                }
                let e = calculate_free_vars(fields[i].1.clone());
                extend_names(&mut fv, e.free_vars());
                let cur_expr: &Expr = &*cur.expr;
                let ghost before = cur_expr->MakeStruct_1@;
                let ghost old_comp = comp;
                proof {
                    comp = comp.push(e);
                }
                cur = cur.set_make_struct_field(&fields[i].0, e);
                proof {
                    assert(list_free_keys(**ei, i + 1) == list_free_keys(**ei, i as int) + free_keys(
                        *fs[i as int].1,
                    ));
                    lemma_field_state_step(before, fs, old_comp, i as int, e);
                }
            }
            let r = cur.set_free_vars(fv);
            proof {
                assert forall|p: int| 0 <= p < fs.len() implies #[trigger] fv_annotated(
                    *child(*r.expr, p),
                    *child(*ei.expr, source_index(*ei.expr, p)),
                ) by {
                    lemma_last_named_range(fs, p, fs.len() as int);
                    assert(field_state((*r.expr)->MakeStruct_1@, fs, comp, fs.len() as int));
                    assert(field_holds((*r.expr)->MakeStruct_1@, fs, comp, fs.len() as int, p));
                }
                let rr: &ExprNode = &*r;
                lemma_list_annotated(*rr, *ee, fs.len() as int);
                assert forall|p: int| 0 <= p < fs.len() implies #[trigger] (*r.expr)->MakeStruct_1@[p].0
                    == fs[p].0 by {
                    assert(field_holds((*r.expr)->MakeStruct_1@, fs, comp, fs.len() as int, p));
                }
            }
            r
        },
        _ => unreached(),
    }
}

/// What the `p`-th field of a struct construction holds once the results for its first `i`
/// fields `comp` are written: its own name, and the result for the last of those fields of its
/// name, or its own expression where none is named so.
pub open spec fn field_holds(
    rfs: Seq<(Name, Arc<ExprNode>)>,
    fs: Seq<(Name, Arc<ExprNode>)>,
    comp: Seq<Arc<ExprNode>>,
    i: int,
    p: int,
) -> bool {
    let q = last_named(fs, fs[p].0@, i);
    &&& rfs[p].0 == fs[p].0
    &&& q >= 0 ==> rfs[p].1 == comp[q]
    &&& q < 0 ==> rfs[p].1 == fs[p].1
}

/// `field_holds` of every field.
pub open spec fn field_state(
    rfs: Seq<(Name, Arc<ExprNode>)>,
    fs: Seq<(Name, Arc<ExprNode>)>,
    comp: Seq<Arc<ExprNode>>,
    i: int,
) -> bool {
    &&& rfs.len() == fs.len()
    &&& forall|p: int| 0 <= p < fs.len() ==> #[trigger] field_holds(rfs, fs, comp, i, p)
}

/// Writing the result for the `i`-th field over the fields of its name keeps `field_state`.
proof fn lemma_field_state_step(
    rfs: Seq<(Name, Arc<ExprNode>)>,
    fs: Seq<(Name, Arc<ExprNode>)>,
    comp: Seq<Arc<ExprNode>>,
    i: int,
    e: Arc<ExprNode>,
)
    requires
        field_state(rfs, fs, comp, i),
        comp.len() == i,
        0 <= i < fs.len(),
    ensures
        field_state(fields_set(rfs, fs[i].0@, e), fs, comp.push(e), i + 1),
{
    let nfs = fields_set(rfs, fs[i].0@, e);
    assert forall|p: int| 0 <= p < fs.len() implies #[trigger] field_holds(nfs, fs, comp.push(e), i + 1, p) by {
        assert(field_holds(rfs, fs, comp, i, p));
        let q = last_named(fs, fs[p].0@, i);
        if q >= 0 {
            assert(q < i) by {
                lemma_last_named_below(fs, fs[p].0@, i);
            }
        }
    }
}

/// The last field named so among the first `k` is one of them.
proof fn lemma_last_named_below(fs: Seq<(Name, Arc<ExprNode>)>, name: Seq<char>, k: int)
    requires
        0 <= k <= fs.len(),
    ensures
        last_named(fs, name, k) < k,
        last_named(fs, name, k) >= -1,
    decreases k,
{
    if k > 0 && fs[k - 1].0@ != name {
        lemma_last_named_below(fs, name, k - 1);
    }
}

/// The keys among `s` of names written under a namespace: the global values'.
pub open spec fn global_keys(s: Set<(Seq<Seq<char>>, Seq<char>)>) -> Set<(Seq<Seq<char>>, Seq<char>)> {
    s.filter(|k: (Seq<Seq<char>>, Seq<char>)| k.0.len() > 0)
}

/// The global values the expression of `n` depends on, by their keys: the global names it
/// refers to, but none that is referred to only inside a lambda.
pub open spec fn dep_keys(n: ExprNode) -> Set<(Seq<Seq<char>>, Seq<char>)>
    decreases n, 1nat, 0int,
{
    match *n.expr {
        Expr::Var(v) => global_keys(set![name_key(v.name@)]),
        Expr::LLVM(l) => global_keys(name_keys(l.free_vars@).to_set()),
        Expr::App(f, _) => dep_keys(*f) + list_dep_keys(n, child_count(*n.expr)),
        Expr::Lam(_, _) => Set::empty(),
        Expr::Let(_, b, v) => dep_keys(*b) + dep_keys(*v),
        Expr::If(c, t, e) => dep_keys(*c) + dep_keys(*t) + dep_keys(*e),
        Expr::TyAnno(e, _) => dep_keys(*e),
        _ => list_dep_keys(n, child_count(*n.expr)),
    }
}

/// `dep_keys` of the first `k` listed parts of `n`, together.
pub open spec fn list_dep_keys(n: ExprNode, k: int) -> Set<(Seq<Seq<char>>, Seq<char>)>
    decreases n, 0nat, k,
{
    if k <= 0 || k > child_count(*n.expr) {
        Set::empty()
    } else {
        proof {
            lemma_child_decreases(n, k - 1);
        }
        list_dep_keys(n, k - 1) + dep_keys(*child(*n.expr, k - 1))
    }
}

/// The names among `names` written under a namespace, each key once.
fn filter_out_local(names: &Vec<FullName>) -> (r: Vec<FullName>)
    ensures
        name_keys(r@).no_duplicates(),
        name_keys(r@).to_set() == global_keys(name_keys(names@).to_set()),
{
    let mut r: Vec<FullName> = Vec::new();
    assert(name_keys(r@).to_set() =~= Set::empty());
    for i in 0..names.len()
        invariant
            name_keys(r@).no_duplicates(),
            name_keys(r@).to_set() == global_keys(name_keys(names@.take(i as int)).to_set()),
    {
        let ghost k = name_key(names@[i as int]@);
        proof {
            assert(name_keys(names@.take(i + 1)) =~= name_keys(names@.take(i as int)).push(k));
            name_keys(names@.take(i as int)).lemma_push_to_set_commute(k);
        }
        if !names[i].is_local() {
            insert_fullname(&mut r, &names[i]);
        }
        assert(name_keys(r@).to_set() =~= global_keys(name_keys(names@.take(i + 1)).to_set()));
    }
    assert(names@.take(names@.len() as int) =~= names@);
    r
}

impl ExprNode {
    /// The global values this expression depends on, each once: a global value used only in the
    /// body of a lambda is not among them.
    pub fn depending_global_values(self: &Arc<ExprNode>) -> (r: Vec<FullName>)
        ensures
            name_keys(r@).no_duplicates(),
            name_keys(r@).to_set() == dep_keys(**self),
        decreases **self,
    {
        let ee: &ExprNode = &**self;
        match &*self.expr {
            Expr::Var(var) => {
                let mut one: Vec<FullName> = Vec::new();
                one.push(var.name.clone());
                proof {
                    let k = name_key(var.name@);
                    assert(name_keys(one@) =~= seq![k]);
                    assert(seq![k].to_set() =~= set![k]) by {
                        assert(seq![k][0] == k);
                    }
                }
                filter_out_local(&one)
            },
            Expr::LLVM(lit) => filter_out_local(&lit.free_vars),
            Expr::App(func, args) => {
                let mut r = func.depending_global_values();
                for i in 0..args.len()
                    invariant
                        *ee == **self,
                        *self.expr == Expr::App(*func, *args),
                        name_keys(r@).no_duplicates(),
                        name_keys(r@).to_set() == dep_keys(**func) + list_dep_keys(*ee, i as int),
                {
                    proof {
                        lemma_child_decreases(*ee, i as int);
                    }
                    let more = args[i].depending_global_values();
                    extend_names(&mut r, &more);
                    assert(name_keys(r@).to_set() =~= dep_keys(**func) + list_dep_keys(*ee, i + 1));
                }
                r
            },
            Expr::Lam(_, _) => {
                let r: Vec<FullName> = Vec::new();
                assert(name_keys(r@).to_set() =~= Set::empty());
                r
            },
            Expr::Let(_, bound, val) => {
                let mut r = bound.depending_global_values();
                let more = val.depending_global_values();
                extend_names(&mut r, &more);
                r
            },
            Expr::If(cond, then_expr, else_expr) => {
                let mut r = cond.depending_global_values();
                let more = then_expr.depending_global_values();
                extend_names(&mut r, &more);
                let more = else_expr.depending_global_values();
                extend_names(&mut r, &more);
                r
            },
            Expr::TyAnno(e, _) => e.depending_global_values(),
            _ => {
                let mut r: Vec<FullName> = Vec::new();
                assert(name_keys(r@).to_set() =~= Set::empty());
                let n = list_len(&self.expr);
                for i in 0..n
                    invariant
                        *ee == **self,
                        n == child_count(*self.expr),
                        !(*self.expr is App),
                        name_keys(r@).no_duplicates(),
                        name_keys(r@).to_set() == list_dep_keys(*ee, i as int),
                {
                    proof {
                        lemma_child_decreases(*ee, i as int);
                    }
                    let more = list_item(&self.expr, i).depending_global_values();
                    extend_names(&mut r, &more);
                    assert(name_keys(r@).to_set() =~= list_dep_keys(*ee, i + 1));
                }
                r
            },
        }
    }
}

/// The number of listed parts of `e`.
pub(crate) fn list_len(e: &Expr) -> (r: usize)
    ensures
        r == child_count(*e),
{
    match e {
        Expr::App(_, a) => a.len(),
        Expr::MakeStruct(_, fs) => fs.len(),
        Expr::ArrayLit(es) => es.len(),
        Expr::FFICall(_, _, _, a, _) => a.len(),
        _ => 0,
    }
}

/// The `i`-th listed part of `e`.
pub(crate) fn list_item(e: &Expr, i: usize) -> (r: &Arc<ExprNode>)
    requires
        i < child_count(*e),
    ensures
        *r == child(*e, i as int),
{
    match e {
        Expr::App(_, a) => &a[i],
        Expr::MakeStruct(_, fs) => &fs[i].1,
        Expr::ArrayLit(es) => &es[i],
        Expr::FFICall(_, _, _, a, _) => &a[i],
        _ => unreached(),
    }
}

/// The full names `v` written out.
pub open spec fn name_texts(v: Seq<FullName>) -> Seq<Seq<char>> {
    v.map_values(|f: FullName| fullname_text(f@))
}

impl ExprNode {
    /// The names occurring free in this expression, once they are computed, sorted by their
    /// full names written out, as `str` orders them.
    pub fn free_vars_sorted(&self) -> (r: Vec<FullName>)
        requires
            self.free_vars is Some,
        ensures
            r@.len() == self.free_vars->0@.len(),
            forall|q: int|
                0 <= q < r@.len() ==> #[trigger] r@[q]@ == self.free_vars->0@[sort_order(
                    text_keys(name_texts(self.free_vars->0@)),
                    r@.len() as int,
                )[q]]@,
    {
        let fv = clone_names(self.free_vars());
        let ghost orig = self.free_vars->0@;
        proof {
            assert(crate::ast::expr::names_view(fv@).len() == fv@.len());
            assert(crate::ast::expr::names_view(orig).len() == orig.len());
        }
        let mut keys: Vec<(u8, String)> = Vec::new();
        let n = fv.len();
        let mut i: usize = 0;
        while i < n
            invariant
                n == fv@.len(),
                i <= n,
                keys@.len() == i,
                forall|j: int| 0 <= j < i ==> #[trigger] crate::order::key_views(keys@)[j] == (0u8, fullname_text(fv@[j]@)),
            decreases n - i,
        {
            let t = fv[i].to_string();
            let ghost before = keys@;
            keys.push((0u8, t));
            proof {
                assert forall|j: int| 0 <= j < i + 1 implies #[trigger] crate::order::key_views(keys@)[j] == (0u8, fullname_text(fv@[j]@)) by {
                    if j < i {
                        assert(keys@[j] == before[j]);
                        assert(crate::order::key_views(before)[j] == (0u8, fullname_text(fv@[j]@)));
                    }
                }
            }
            i = i + 1;
        }
        proof {
            assert(crate::order::key_views(keys@) =~= text_keys(name_texts(orig))) by {
                assert forall|j: int| 0 <= j < keys@.len() implies #[trigger] crate::order::key_views(keys@)[j] == text_keys(name_texts(orig))[j] by {
                    assert(crate::ast::expr::names_view(fv@)[j] == crate::ast::expr::names_view(orig)[j]);
                }
            }
        }
        let r = stable_sort(fv, &keys);
        proof {
            assert forall|q: int| 0 <= q < r@.len() implies #[trigger] r@[q]@ == orig[sort_order(
                text_keys(name_texts(orig)),
                r@.len() as int,
            )[q]]@ by {
                crate::order::lemma_sort_order_len(text_keys(name_texts(orig)), r@.len() as int);
                let j = sort_order(text_keys(name_texts(orig)), r@.len() as int)[q];
                assert(crate::ast::expr::names_view(fv@)[j] == crate::ast::expr::names_view(orig)[j]);
            }
        }
        r
    }
}

} // verus!
