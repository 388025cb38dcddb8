use fixlang::ast::expr::expr_var;
use fixlang::ast::global_values::{GlobalValueDefn, GlobalValues};
use fixlang::ast::name::FullName;
use fixlang::ast::program::GlobalValueDecl;
use fixlang::ast::scheme::Scheme;
use fixlang::ast::types::{tycon, type_tycon};
use fixlang::error::Errors;
use fixlang::source::Span;

fn span(start: usize) -> Option<Span> {
    Some(Span { file: "main.fix".to_string(), start, end: start + 4 })
}

fn main_name(n: &str) -> FullName {
    FullName::from_strs(&["Main"], n)
}

fn defn(n: &str, at: usize) -> GlobalValueDefn {
    GlobalValueDefn { name: main_name(n), expr: expr_var(FullName::local("x"), None), src: span(at) }
}

fn decl(n: &str, at: usize) -> GlobalValueDecl {
    let i64_ty = type_tycon(&tycon(FullName::from_strs(&["Std"], "I64")));
    GlobalValueDecl { name: main_name(n), ty: Scheme::from_type(i64_ty), src: span(at) }
}

fn starts(srcs: &[Option<Span>]) -> Vec<(usize, usize)> {
    srcs.iter().map(|s| {
        let s = s.as_ref().unwrap();
        (s.start, s.end)
    }).collect()
}

fn messages(e: &Errors) -> Vec<String> {
    e.errs.iter().map(|e| e.msg.clone()).collect()
}

#[test]
fn a_definition_and_its_signature_are_registered_together() {
    let mut gv = GlobalValues { entries: vec![] };
    let r = gv.add_global_values(vec![defn("main", 20)], vec![decl("main", 3)]);
    assert!(r.is_ok());
    assert_eq!(gv.entries.len(), 1);
    let (name, v) = &gv.entries[0];
    assert_eq!(name.to_string(), "Main::main");
    assert_eq!(v.decl_src.as_ref().unwrap().start, 3);
    assert_eq!(v.defn_src.as_ref().unwrap().start, 20);
    assert!(v.document.is_none());
    assert!(!v.compiler_defined_method);
}

#[test]
fn a_second_definition_is_reported_at_both_places() {
    let mut gv = GlobalValues { entries: vec![] };
    let r = gv.add_global_values(vec![defn("main", 20), defn("main", 40)], vec![decl("main", 3)]);
    let e = r.err().unwrap();
    assert_eq!(messages(&e), vec!["Duplicate definition for global value: `Main::main`."]);
    assert_eq!(starts(&e.errs[0].srcs), vec![(40, 41), (20, 21)]);
    // The first definition is still paired and registered.
    assert_eq!(gv.entries.len(), 1);
    assert_eq!(gv.entries[0].1.defn_src.as_ref().unwrap().start, 20);
}

#[test]
fn a_second_signature_is_reported_at_both_places() {
    let mut gv = GlobalValues { entries: vec![] };
    let r = gv.add_global_values(vec![defn("main", 20)], vec![decl("main", 3), decl("main", 9)]);
    let e = r.err().unwrap();
    assert_eq!(messages(&e), vec!["Duplicate declaration for `Main::main`."]);
    assert_eq!(starts(&e.errs[0].srcs), vec![(9, 10), (3, 4)]);
    assert_eq!(gv.entries.len(), 1);
    assert_eq!(gv.entries[0].1.decl_src.as_ref().unwrap().start, 3);
}

#[test]
fn a_half_without_its_partner_is_reported_and_not_registered() {
    let mut gv = GlobalValues { entries: vec![] };
    let r = gv.add_global_values(
        vec![defn("f", 30), defn("main", 20)],
        vec![decl("g", 5), decl("main", 3)],
    );
    let e = r.err().unwrap();
    assert_eq!(
        messages(&e),
        vec!["Global value `Main::f` lacks its type signature.", "Global value `Main::g` lacks its definition."]
    );
    assert_eq!(starts(&e.errs[0].srcs), vec![(30, 31)]);
    assert_eq!(starts(&e.errs[1].srcs), vec![(5, 6)]);
    assert_eq!(gv.entries.len(), 1);
    assert_eq!(gv.entries[0].0.to_string(), "Main::main");
}

#[test]
fn a_name_registered_already_is_reported() {
    let mut gv = GlobalValues { entries: vec![] };
    assert!(gv.add_global_values(vec![defn("main", 20)], vec![decl("main", 3)]).is_ok());
    let e = gv.add_global_values(vec![defn("main", 70)], vec![decl("main", 50)]).err().unwrap();
    assert_eq!(messages(&e), vec!["Duplicated definition for global value: `Main::main`"]);
    assert_eq!(starts(&e.errs[0].srcs), vec![(50, 51), (3, 4)]);
    assert_eq!(gv.entries.len(), 1);
    assert_eq!(gv.entries[0].1.decl_src.as_ref().unwrap().start, 3);
}

#[test]
fn nothing_to_add_succeeds() {
    let mut gv = GlobalValues { entries: vec![] };
    assert!(gv.add_global_values(vec![], vec![]).is_ok());
    assert!(gv.entries.is_empty());
}
