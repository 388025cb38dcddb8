use fixlang::ast::expr::{
    collect_app, expr_abs, expr_abs_many, expr_app, expr_array_lit, expr_ffi_call, expr_if,
    expr_let, expr_make_struct, expr_tyanno, expr_var, var_local, Expr, ExprNode,
};
use fixlang::ast::free_vars::calculate_free_vars;
use fixlang::ast::name::FullName;
use fixlang::ast::pattern::PatternNode;
use fixlang::ast::program::EndNode;
use fixlang::ast::types::{tycon, type_tycon};
use fixlang::source::{SourcePos, Span};
use std::sync::Arc;

fn local(name: &str) -> Arc<ExprNode> {
    expr_var(FullName::local(name), None)
}

fn global(name: &str) -> Arc<ExprNode> {
    expr_var(FullName::from_strs(&["Main"], name), None)
}

fn names(v: &[FullName]) -> Vec<String> {
    v.iter().map(|n| n.to_string()).collect()
}

fn span(start: usize, end: usize) -> Option<Span> {
    Some(Span { file: "main.fix".to_string(), start, end })
}

fn pos(p: usize) -> SourcePos {
    SourcePos { file: "main.fix".to_string(), pos: p }
}

#[test]
fn test_free_vars_of_let_and_lambda() {
    // let x = y in |z| Main::f(x, z, w)
    let body = expr_app(global("f"), vec![local("x"), local("z"), local("w")], None);
    let lam = expr_abs(vec![var_local("z")], body, None);
    let e = expr_let(PatternNode::make_var(var_local("x"), None), local("y"), lam, None);
    let r = calculate_free_vars(e);
    assert_eq!(names(&r.free_vars_sorted()), vec!["Main::f", "w", "y"]);
    match &*r.expr {
        Expr::Let(_, bound, val) => {
            assert_eq!(names(&bound.free_vars_sorted()), vec!["y"]);
            assert_eq!(names(&val.free_vars_sorted()), vec!["Main::f", "w", "x"]);
            let (_, body) = val.destructure_lam();
            assert_eq!(names(&body.free_vars_sorted()), vec!["Main::f", "w", "x", "z"]);
        }
        _ => panic!("a let stays a let"),
    }
}

#[test]
fn test_free_vars_drop_the_capture() {
    let e = expr_abs(vec![var_local("a")], expr_app(local("%CAP%"), vec![local("a"), local("b")], None), None);
    let r = calculate_free_vars(e);
    assert_eq!(names(r.free_vars()), vec!["b"]);
}

#[test]
fn test_free_vars_of_lists_are_each_once() {
    let arr = expr_array_lit(vec![local("a"), local("b"), local("a")], None);
    let r = calculate_free_vars(arr);
    assert_eq!(names(&r.free_vars_sorted()), vec!["a", "b"]);
    let ffi = expr_ffi_call("puts".to_string(), tycon(FullName::from_strs(&["Std"], "I32")), vec![], vec![local("s"), local("s")], true, None);
    let r = calculate_free_vars(ffi);
    assert_eq!(names(r.free_vars()), vec!["s"]);
}

#[test]
fn test_free_vars_of_struct_with_repeated_field_names() {
    let tc = tycon(FullName::from_strs(&["Main"], "S"));
    let e = expr_make_struct(tc, vec![("a".to_string(), local("p")), ("a".to_string(), local("q"))]);
    let r = calculate_free_vars(e);
    assert_eq!(names(&r.free_vars_sorted()), vec!["p", "q"]);
    match &*r.expr {
        Expr::MakeStruct(_, fields) => {
            assert_eq!(fields[0].1.get_var().name.to_string(), "q");
            assert_eq!(fields[1].1.get_var().name.to_string(), "q");
        }
        _ => panic!("a struct construction stays one"),
    }
}

#[test]
fn test_depending_global_values_skip_lambdas_and_locals() {
    let lam = expr_abs(vec![var_local("x")], global("h"), None);
    let e = expr_app(global("f"), vec![global("g"), local("a"), lam, global("f")], None);
    let mut deps = names(&e.depending_global_values());
    deps.sort();
    assert_eq!(deps, vec!["Main::f", "Main::g"]);
}

#[test]
fn test_expr_to_string() {
    let nested = expr_app(expr_app(local("f"), vec![local("x")], None), vec![local("y")], None);
    assert_eq!(nested.expr.to_string(), "f(x,y)");
    let lam = expr_abs(vec![var_local("x"), var_local("y")], local("x"), None);
    assert_eq!(lam.expr.to_string(), "|x, y| x");
    let applied_lam = expr_app(expr_abs(vec![var_local("x")], local("x"), None), vec![local("a")], None);
    assert_eq!(applied_lam.expr.to_string(), "(|x| x)(a)");
    let e = expr_if(local("c"), local("t"), local("e"), None);
    assert_eq!(e.expr.to_string(), "if c { t } else { e }");
    let e = expr_let(PatternNode::make_var(var_local("x"), None), local("y"), local("x"), None);
    assert_eq!(e.expr.to_string(), "let x = y in x");
    let i64_ty = type_tycon(&tycon(FullName::from_strs(&["Std"], "I64")));
    let e = expr_tyanno(local("x"), i64_ty, None);
    assert_eq!(e.expr.to_string(), "x: Std::I64");
    let e = expr_array_lit(vec![local("a"), global("b")], None);
    assert_eq!(e.expr.to_string(), "[a, Main::b]");
    let e = expr_make_struct(tycon(FullName::from_strs(&["Std"], "Tuple2")), vec![("0".to_string(), local("a")), ("1".to_string(), local("b"))]);
    assert_eq!(e.expr.to_string(), "Std::Tuple2 {0: a, 1: b}");
    let e = expr_ffi_call("puts".to_string(), tycon(FullName::from_strs(&["Std"], "I32")), vec![], vec![local("a"), local("b")], true, None);
    assert_eq!(e.expr.to_string(), "FFI_CALLputs[_IO , a, b]");
    let e = expr_ffi_call("f".to_string(), tycon(FullName::from_strs(&["Std"], "I32")), vec![], vec![], false, None);
    assert_eq!(e.expr.to_string(), "FFI_CALLf[]");
}

#[test]
fn test_collect_app_flattens_the_chain() {
    let e = expr_app(expr_app(local("f"), vec![local("a")], None), vec![local("b"), local("c")], None);
    let (fun, args) = collect_app(&e);
    assert_eq!(fun.get_var().name.to_string(), "f");
    let args: Vec<String> = args.iter().map(|a| a.get_var().name.to_string()).collect();
    assert_eq!(args, vec!["a", "b", "c"]);
    let (fun, args) = collect_app(&local("g"));
    assert_eq!(fun.get_var().name.to_string(), "g");
    assert!(args.is_empty());
}

#[test]
fn test_find_node_at() {
    // f(x) written at 0..4, with `f` at 0..1 and `x` at 2..3.
    let e = expr_app(expr_var(FullName::local("f"), span(0, 1)), vec![expr_var(FullName::local("x"), span(2, 3))], span(0, 4));
    match e.find_node_at(&pos(2)) {
        Some(EndNode::Expr(n, _)) => assert_eq!(n.to_string(), "x"),
        _ => panic!("the cursor stands on x"),
    }
    match e.find_node_at(&pos(0)) {
        Some(EndNode::Expr(n, _)) => assert_eq!(n.to_string(), "f"),
        _ => panic!("the cursor stands on f"),
    }
    assert!(e.find_node_at(&pos(3)).is_none());
    assert!(e.find_node_at(&pos(4)).is_none());
    assert!(local("x").find_node_at(&pos(0)).is_none());
    let tc = tycon(FullName::from_strs(&["Main"], "S"));
    let s = expr_make_struct(tc, vec![("a".to_string(), expr_var(FullName::local("x"), span(5, 6)))]).set_source(span(0, 8));
    match s.find_node_at(&pos(1)) {
        Some(EndNode::Type(tc)) => assert_eq!(tc.name.to_string(), "Main::S"),
        _ => panic!("the cursor stands on the struct's name"),
    }
    match s.find_node_at(&pos(5)) {
        Some(EndNode::Expr(n, _)) => assert_eq!(n.to_string(), "x"),
        _ => panic!("the cursor stands on the field"),
    }
}

#[test]
fn test_setters_of_lists() {
    let tc = tycon(FullName::from_strs(&["Main"], "S"));
    let s = expr_make_struct(tc, vec![("a".to_string(), local("p")), ("b".to_string(), local("q")), ("a".to_string(), local("r"))]);
    let s = s.set_make_struct_field(&"a".to_string(), local("z"));
    assert_eq!(s.expr.to_string(), "Main::S {a: z, b: q, a: z}");
    let arr = expr_array_lit(vec![local("a"), local("b")], None).set_array_lit_elem(local("c"), 1);
    assert_eq!(arr.expr.to_string(), "[a, c]");
    let lams = expr_abs_many(vec![var_local("x"), var_local("y")], local("x"));
    assert_eq!(lams.expr.to_string(), "|x| |y| x");
    assert_eq!(lams.get_lam_params().len(), 1);
    assert!(lams.get_lam_body().is_lam());
}
