//! Expressions written out in source syntax.
use crate::ast::expr::{Expr, ExprNode, Var};
use crate::ast::free_vars::{child, child_count, list_item, list_len};
use crate::ast::name::fullname_text;
use crate::ast::pattern::{one_tuples_ok, pattern_text};
use crate::ast::types::{tycon_text, type_text};
use crate::strutil::{join, join_strings, strs, to_string};
use std::sync::Arc;
use vstd::prelude::*;

verus! {

/// A listed part of an expression is smaller than the expression.
pub proof fn lemma_expr_child_decreases(e: Expr, i: int)
    requires
        0 <= i < child_count(e),
    ensures
        decreases_to!(e => *child(e, i).expr),
{
    match e {
        Expr::App(_, a) => {
            assert(decreases_to!(a => a@[i]));
        },
        Expr::MakeStruct(_, fs) => {
            assert(decreases_to!(fs => fs@[i]));
        },
        Expr::ArrayLit(es) => {
            assert(decreases_to!(es => es@[i]));
        },
        Expr::FFICall(_, _, _, a, _) => {
            assert(decreases_to!(a => a@[i]));
        },
        _ => {},
    }
}

/// Whether every pattern a `let` in `e` binds can be written out: a one-element tuple pattern
/// has a pattern for its element.
pub open spec fn lets_writable(e: Expr) -> bool
    decreases e, 1nat, 0int,
{
    match e {
        Expr::Var(_) => true,
        Expr::LLVM(_) => true,
        Expr::App(f, _) => lets_writable(*f.expr) && list_lets_writable(e, child_count(e)),
        Expr::Lam(_, b) => lets_writable(*b.expr),
        Expr::Let(p, b, v) => one_tuples_ok(p.pattern) && lets_writable(*b.expr) && lets_writable(
            *v.expr,
        ),
        Expr::If(c, t, f) => lets_writable(*c.expr) && lets_writable(*t.expr) && lets_writable(
            *f.expr,
        ),
        Expr::TyAnno(x, _) => lets_writable(*x.expr),
        _ => list_lets_writable(e, child_count(e)),
    }
}

/// `lets_writable` of each of the first `k` listed parts of `e`.
pub open spec fn list_lets_writable(e: Expr, k: int) -> bool
    decreases e, 0nat, k,
{
    if k <= 0 || k > child_count(e) {
        true
    } else {
        proof {
            lemma_expr_child_decreases(e, k - 1);
        }
        list_lets_writable(e, k - 1) && lets_writable(*child(e, k - 1).expr)
    }
}

/// The names of the variables `xs` written out.
pub open spec fn var_texts(xs: Seq<Arc<Var>>) -> Seq<Seq<char>> {
    xs.map_values(|x: Arc<Var>| fullname_text(x.name@))
}

/// An expression written out: a variable by its full name, LLVM code by the name it is shown by,
/// an application chain `f(x,y)` (the function in parentheses unless it is a variable or LLVM
/// code), `|x, y| body`, `let p = bound in value`, `if c { t } else { e }`, `e: type`,
/// `S {x: e, y: f}`, `[a, b]` and a foreign call `FFI_CALLf[_IO , a, b]`.
pub open spec fn expr_text(e: Expr) -> Seq<char>
    decreases e, 2nat, 0int,
{
    match e {
        Expr::Var(v) => fullname_text(v.name@),
        Expr::LLVM(l) => l.name@,
        Expr::App(f, _) => fun_text(*f.expr) + "("@ + join(app_texts(e), ","@) + ")"@,
        Expr::Lam(xs, body) => "|"@ + join(var_texts(xs@), ", "@) + "| "@ + expr_text(*body.expr),
        Expr::Let(p, b, v) => "let "@ + pattern_text(p.pattern, false) + " = "@ + expr_text(*b.expr)
            + " in "@ + expr_text(*v.expr),
        Expr::If(c, t, f) => "if "@ + expr_text(*c.expr) + " { "@ + expr_text(*t.expr)
            + " } else { "@ + expr_text(*f.expr) + " }"@,
        Expr::TyAnno(x, t) => expr_text(*x.expr) + ": "@ + type_text(*t),
        Expr::MakeStruct(tc, _) => tycon_text(*tc) + " {"@ + join(list_texts(e, child_count(e)), ", "@)
            + "}"@,
        Expr::ArrayLit(_) => "["@ + join(list_texts(e, child_count(e)), ", "@) + "]"@,
        Expr::FFICall(name, _, _, _, is_io) => "FFI_CALL"@ + name@ + "["@ + (if is_io {
            "_IO "@
        } else {
            ""@
        }) + join(comma_prefixed(list_texts(e, child_count(e))), ""@) + "]"@,
    }
}

/// Each of `ts` preceded by `, `.
pub open spec fn comma_prefixed(ts: Seq<Seq<char>>) -> Seq<Seq<char>> {
    ts.map_values(|t: Seq<char>| ", "@ + t)
}

/// The function of an application chain written out: in parentheses unless it is a variable or
/// LLVM code.
pub open spec fn fun_text(e: Expr) -> Seq<char>
    decreases e, 3nat, 0int,
{
    match e {
        Expr::App(f, _) => fun_text(*f.expr),
        Expr::Var(_) => expr_text(e),
        Expr::LLVM(_) => expr_text(e),
        _ => "("@ + expr_text(e) + ")"@,
    }
}

/// The arguments of an application chain written out, the innermost application's first.
pub open spec fn app_texts(e: Expr) -> Seq<Seq<char>>
    decreases e, 1nat, 0int,
{
    match e {
        Expr::App(f, _) => app_texts(*f.expr) + list_texts(e, child_count(e)),
        _ => Seq::empty(),
    }
}

/// The first `k` listed parts of `e` written out; a field of a struct construction is written
/// `name: value`.
pub open spec fn list_texts(e: Expr, k: int) -> Seq<Seq<char>>
    decreases e, 0nat, k,
{
    if k <= 0 || k > child_count(e) {
        Seq::empty()
    } else {
        proof {
            lemma_expr_child_decreases(e, k - 1);
        }
        list_texts(e, k - 1).push(
            match e {
                Expr::MakeStruct(_, fs) => fs@[k - 1].0@ + ": "@ + expr_text(*fs@[k - 1].1.expr),
                _ => expr_text(*child(e, k - 1).expr),
            },
        )
    }
}

/// What `list_lets_writable` up to `k` says of a listed part below `k`.
proof fn lemma_list_lets_writable(e: Expr, k: int, j: int)
    requires
        list_lets_writable(e, k),
        0 <= j < k <= child_count(e),
    ensures
        lets_writable(*child(e, j).expr),
    decreases k,
{
    if j < k - 1 {
        lemma_list_lets_writable(e, k - 1, j);
    }
}

/// The listed parts of `e` written out.
fn list_strings(e: &Expr) -> (r: Vec<String>)
    requires
        list_lets_writable(*e, child_count(*e)),
    ensures
        strs(r@) == list_texts(*e, child_count(*e)),
    decreases *e, 0nat,
{
    let n = list_len(e);
    let mut out: Vec<String> = Vec::new();
    for i in 0..n
        invariant
            n == child_count(*e),
            list_lets_writable(*e, child_count(*e)),
            strs(out@) == list_texts(*e, i as int),
    {
        proof {
            lemma_expr_child_decreases(*e, i as int);
            lemma_list_lets_writable(*e, n as int, i as int);
        }
        let t = match e {
            Expr::MakeStruct(_, fs) => {
                let mut t = fs[i].0.clone();
                t.append(": ");
                t.append(fs[i].1.expr.to_string().as_str());
                t
            },
            _ => list_item(e, i).expr.to_string(),
        };
        out.push(t);
        assert(strs(out@) =~= list_texts(*e, i + 1));
    }
    out
}

/// The arguments of the application chain `e` written out.
fn app_strings(e: &Expr) -> (r: Vec<String>)
    requires
        lets_writable(*e),
    ensures
        strs(r@) == app_texts(*e),
    decreases *e, 1nat,
{
    match e {
        Expr::App(f, _) => {
            let mut r = app_strings(&f.expr);
            let mut more = list_strings(e);
            let ghost left = strs(r@);
            let ghost right = strs(more@);
            r.append(&mut more);
            assert(strs(r@) =~= left + right);
            r
        },
        _ => {
            let r: Vec<String> = Vec::new();
            assert(strs(r@) =~= Seq::empty());
            r
        },
    }
}

/// The function of the application chain `e` written out.
fn fun_string(e: &Expr) -> (r: String)
    requires
        lets_writable(*e),
    ensures
        r@ == fun_text(*e),
    decreases *e, 3nat,
{
    match e {
        Expr::App(f, _) => fun_string(&f.expr),
        Expr::Var(_) => e.to_string(),
        Expr::LLVM(_) => e.to_string(),
        _ => {
            let mut r = to_string("(");
            r.append(e.to_string().as_str());
            r.append(")");
            r
        },
    }
}

/// The names of the variables `xs` written out.
fn var_strings(xs: &Vec<Arc<Var>>) -> (r: Vec<String>)
    ensures
        strs(r@) == var_texts(xs@),
{
    let mut out: Vec<String> = Vec::new();
    for i in 0..xs.len()
        invariant
            out@.len() == i,
            strs(out@) == var_texts(xs@.take(i as int)),
    {
        let ghost before = out@;
        out.push(xs[i].name.to_string());
        assert forall|j: int| 0 <= j <= i implies #[trigger] strs(out@)[j] == var_texts(
            xs@.take(i + 1),
        )[j] by {
            if j < i {
                assert(strs(before)[j] == var_texts(xs@.take(i as int))[j]);
            }
        }
        assert(strs(out@) =~= var_texts(xs@.take(i + 1)));
    }
    assert(xs@.take(xs@.len() as int) =~= xs@);
    out
}

impl Expr {
    /// This expression written in source syntax; see `expr_text`.
    pub fn to_string(&self) -> (r: String)
        requires
            lets_writable(*self),
        ensures
            r@ == expr_text(*self),
        decreases *self, 2nat,
    {
        match self {
            Expr::Var(v) => v.name.to_string(),
            Expr::LLVM(l) => l.name.clone(),
            Expr::App(f, _) => {
                let mut r = fun_string(&f.expr);
                r.append("(");
                r.append(join_strings(&app_strings(self), ",").as_str());
                r.append(")");
                r
            },
            Expr::Lam(xs, fx) => {
                let mut r = to_string("|");
                r.append(join_strings(&var_strings(xs), ", ").as_str());
                r.append("| ");
                r.append(fx.expr.to_string().as_str());
                r
            },
            Expr::Let(p, b, v) => {
                let mut r = to_string("let ");
                r.append(p.pattern.to_string().as_str());
                r.append(" = ");
                r.append(b.expr.to_string().as_str());
                r.append(" in ");
                r.append(v.expr.to_string().as_str());
                r
            },
            Expr::If(c, t, e) => {
                let mut r = to_string("if ");
                r.append(c.expr.to_string().as_str());
                r.append(" { ");
                r.append(t.expr.to_string().as_str());
                r.append(" } else { ");
                r.append(e.expr.to_string().as_str());
                r.append(" }");
                r
            },
            Expr::TyAnno(e, t) => {
                let mut r = e.expr.to_string();
                r.append(": ");
                r.append(t.to_string().as_str());
                r
            },
            Expr::MakeStruct(tc, _) => {
                let mut r = tc.to_string();
                r.append(" {");
                r.append(join_strings(&list_strings(self), ", ").as_str());
                r.append("}");
                r
            },
            Expr::ArrayLit(_) => {
                let mut r = to_string("[");
                r.append(join_strings(&list_strings(self), ", ").as_str());
                r.append("]");
                r
            },
            Expr::FFICall(fun_name, _, _, _, is_io) => {
                proof {
                    reveal_strlit("");
                }
                let mut r = to_string("FFI_CALL");
                r.append(fun_name.as_str());
                r.append("[");
                if *is_io {
                    r.append("_IO ");
                }
                let args = list_strings(self);
                let ghost ts = strs(args@);
                let ghost before = r@;
                let mut tail = String::new();
                for i in 0..args.len()
                    invariant
                        ts == strs(args@),
                        tail@ == join(comma_prefixed(ts.take(i as int)), ""@),
                {
                    let ghost prev = comma_prefixed(ts.take(i as int));
                    let ghost old_tail = tail@;
                    tail.append(", ");
                    tail.append(args[i].as_str());
                    proof {
                        reveal_strlit("");
                        let x = ", "@ + ts[i as int];
                        let next = comma_prefixed(ts.take(i + 1));
                        assert(next =~= prev.push(x));
                        assert(tail@ =~= old_tail + x);
                        if i == 0 {
                            assert(next.len() == 1);
                            assert(old_tail =~= Seq::<char>::empty());
                            assert(join(next, ""@) == next[0]);
                            assert(next[0] == x);
                        } else {
                            crate::strutil::lemma_join_push(prev, x, ""@);
                            assert(join(next, ""@) =~= join(prev, ""@) + ""@ + x);
                        }
                    }
                }
                assert(ts.take(ts.len() as int) =~= ts);
                r.append(tail.as_str());
                r.append("]");
                r
            },
        }
    }
}

} // verus!
