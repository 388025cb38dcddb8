use fixlang::ast::expr::var_local;
use fixlang::ast::name::FullName;
use fixlang::ast::pattern::{Pattern, PatternNode};
use fixlang::ast::typedecl::Field;
use fixlang::ast::types::{kind_star, tycon, type_tycon, TyCon, TyConInfo, TyConVariant};
use fixlang::source::Span;
use std::sync::Arc;

fn var(name: &str) -> Arc<PatternNode> {
    PatternNode::make_var(var_local(name), None)
}

fn pair(a: Arc<PatternNode>, b: Arc<PatternNode>) -> Arc<PatternNode> {
    PatternNode::make_struct(
        tycon(FullName::from_strs(&["Std"], "Tuple2")),
        vec![("0".to_string(), a), ("1".to_string(), b)],
    )
}

fn union_info(variants: &[&str]) -> TyConInfo {
    let unit = type_tycon(&tycon(FullName::from_strs(&["Std"], "I64")));
    TyConInfo {
        kind: kind_star(),
        variant: TyConVariant::Union,
        is_unbox: false,
        tyvars: vec![],
        fields: variants
            .iter()
            .map(|v| Field { name: v.to_string(), ty: unit.clone(), syn_ty: unit.clone(), is_punched: false, source: None })
            .collect(),
        source: None,
        document: None,
        punched_from: None,
    }
}

fn span(start: usize) -> Span {
    Span { file: "main.fix".to_string(), start, end: start + 3 }
}

#[test]
fn a_pattern_binding_a_variable_twice_is_told_apart() {
    let ok = pair(var("x"), var("y"));
    assert!(!ok.pattern.has_duplicate_vars());
    assert_eq!(ok.pattern.vars().len(), 2);
    let dup = pair(var("x"), pair(var("y"), var("x")));
    assert!(dup.pattern.has_duplicate_vars());
    assert_eq!(dup.pattern.vars().len(), 2);
}

#[test]
fn the_variables_of_a_pattern_come_left_to_right() {
    let p = pair(var("a"), pair(var("b"), var("c")));
    let names: Vec<String> = p.vars_with_types().iter().map(|(n, _)| n.to_string()).collect();
    assert_eq!(names, vec!["a", "b", "c"]);
}

#[test]
fn patterns_are_written_in_source_syntax() {
    assert_eq!(pair(var("x"), var("y")).to_string(), "(x, y)");
    let one = PatternNode::make_struct(
        tycon(FullName::from_strs(&["Std"], "Tuple1")),
        vec![("0".to_string(), var("x"))],
    );
    assert_eq!(one.to_string(), "(x,)");
    let s = PatternNode::make_struct(
        tycon(FullName::from_strs(&["Main"], "Point")),
        vec![("x".to_string(), var("a")), ("y".to_string(), var("b"))],
    );
    assert_eq!(s.to_string(), "Main::Point {x: a, y: b}");
    let u = PatternNode::make_union(FullName::from_strs(&["Main", "Option"], "some"), var("v"));
    assert_eq!(u.to_string(), "Main::Option::some(v)");
    assert_eq!(var("x").to_string_with_type(), "x<na>");
}

#[test]
fn renaming_renames_the_bound_variables_only_as_told() {
    let p = pair(var("x"), var("y"));
    let rename = vec![(FullName::local("x"), FullName::local("z"))];
    let q = p.rename_by_map(&rename);
    assert_eq!(q.to_string(), "(z, y)");
}

#[test]
fn match_cases_covering_every_variant_are_accepted() {
    let tc = TyCon { name: FullName::from_strs(&["Main"], "Opt") };
    let ti = union_info(&["none", "some"]);
    let cases = vec![
        PatternNode::make_union(FullName::from_strs(&["Main", "Opt"], "some"), var("v")),
        PatternNode::make_union(FullName::from_strs(&["Main", "Opt"], "none"), var("u")),
    ];
    assert!(Pattern::validate_match_cases_exhaustiveness(&tc, &ti, &None, &cases).is_ok());
    let with_default = vec![
        PatternNode::make_union(FullName::from_strs(&["Main", "Opt"], "some"), var("v")),
        var("_"),
    ];
    assert!(Pattern::validate_match_cases_exhaustiveness(&tc, &ti, &None, &with_default).is_ok());
}

#[test]
fn a_missing_variant_is_reported_at_the_match() {
    let tc = TyCon { name: FullName::from_strs(&["Main"], "Opt") };
    let ti = union_info(&["none", "some"]);
    let cases = vec![PatternNode::make_union(FullName::from_strs(&["Main", "Opt"], "some"), var("v"))];
    let e = Pattern::validate_match_cases_exhaustiveness(&tc, &ti, &Some(span(7)), &cases).err().unwrap();
    assert_eq!(e.errs[0].msg, "Variant `none` of union `Main::Opt` is not covered.");
    assert_eq!(e.errs[0].srcs[0].as_ref().unwrap().start, 7);
    let ti3 = union_info(&["a", "b", "c"]);
    let e = Pattern::validate_match_cases_exhaustiveness(&tc, &ti3, &None, &vec![]).err().unwrap();
    assert_eq!(e.errs[0].msg, "Variants `a`, `b`, `c` of union `Main::Opt` are not covered.");
}

#[test]
fn an_unknown_or_repeated_variant_is_reported_at_its_case() {
    let tc = TyCon { name: FullName::from_strs(&["Main"], "Opt") };
    let ti = union_info(&["none", "some"]);
    let unknown = vec![PatternNode::make_union(FullName::from_strs(&["Main", "Opt"], "many"), var("v")).set_source(span(3))];
    let e = Pattern::validate_match_cases_exhaustiveness(&tc, &ti, &None, &unknown).err().unwrap();
    assert_eq!(e.errs[0].msg, "`Main::Opt::many` is not a variant of union `Main::Opt`.");
    assert_eq!(e.errs[0].srcs[0].as_ref().unwrap().start, 3);
    let twice = vec![
        PatternNode::make_union(FullName::from_strs(&["Main", "Opt"], "some"), var("v")),
        PatternNode::make_union(FullName::from_strs(&["Main", "Opt"], "some"), var("w")),
    ];
    let e = Pattern::validate_match_cases_exhaustiveness(&tc, &ti, &None, &twice).err().unwrap();
    assert_eq!(e.errs[0].msg, "`Main::Opt::some` is not a variant of union `Main::Opt`.");
}

#[test]
fn a_variant_name_is_checked_and_completed() {
    let tc = TyCon { name: FullName::from_strs(&["Main"], "Opt") };
    let ti = union_info(&["none", "some"]);
    let short = PatternNode::make_union(FullName::from_strs(&["Opt"], "some"), var("v"));
    let done = short.validate_variant_name(&tc, &ti).ok().unwrap();
    assert_eq!(done.get_union_variant().to_string(), "Main::Opt::some");
    let wrong = PatternNode::make_union(FullName::from_strs(&["Other"], "some"), var("v"));
    let e = wrong.validate_variant_name(&tc, &ti).err().unwrap();
    assert_eq!(e.errs[0].msg, "`Other::some` is not a variant of union `Main::Opt`.");
    let missing = PatternNode::make_union(FullName::from_strs(&["Opt"], "many"), var("v"));
    assert!(missing.validate_variant_name(&tc, &ti).is_err());
}
