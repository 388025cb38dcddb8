use fixlang::ast::predicate::Predicate;
use fixlang::ast::traits::{TraitAlias, TraitAliasEnv, TraitId};
use fixlang::ast::name::FullName;
use fixlang::ast::types::{kind_star, make_tyvar, type_from_tyvar};
use fixlang::source::Span;

fn tr(name: &str) -> TraitId {
    TraitId::from_fullname(FullName::from_strs(&["Main"], name))
}

fn span(start: usize) -> Span {
    Span { file: "main.fix".to_string(), start, end: start + 1 }
}

fn alias(name: &str, targets: &[&str], at: usize) -> TraitAlias {
    TraitAlias {
        id: tr(name),
        value: targets.iter().enumerate().map(|(i, t)| (tr(t), span(at + i + 1))).collect(),
        source: Some(span(at)),
        name_src: None,
        kind: kind_star(),
    }
}

fn names(v: &[TraitId]) -> Vec<String> {
    let mut r: Vec<String> = v.iter().map(|t| t.to_string()).collect();
    r.sort();
    r
}

#[test]
fn an_alias_stands_for_the_traits_it_reaches_each_once() {
    let env = TraitAliasEnv {
        data: vec![
            alias("Num", &["Add", "Mul", "Zero"], 0),
            alias("Ring", &["Num", "Sub", "Add"], 10),
        ],
    };
    let r = env.resolve_alias(&tr("Ring")).ok().unwrap();
    assert_eq!(names(&r), vec!["Main::Add", "Main::Mul", "Main::Sub", "Main::Zero"]);
    assert!(env.is_alias(&tr("Ring")));
    assert!(!env.is_alias(&tr("Add")));
}

#[test]
fn a_trait_that_is_not_an_alias_stands_for_itself() {
    let env = TraitAliasEnv { data: vec![alias("Num", &["Add"], 0)] };
    let r = env.resolve_alias(&tr("Eq")).ok().unwrap();
    assert_eq!(names(&r), vec!["Main::Eq"]);
}

#[test]
fn an_alias_standing_for_itself_is_reported() {
    let env = TraitAliasEnv {
        data: vec![alias("A", &["B", "Eq"], 0), alias("B", &["C"], 10), alias("C", &["A"], 20)],
    };
    let e = env.resolve_alias(&tr("A")).err().unwrap();
    assert_eq!(e.errs.len(), 1);
    let msg = &e.errs[0].msg;
    assert!(
        msg == "Circular aliasing detected in trait alias `Main::A`."
            || msg == "Circular aliasing detected in trait alias `Main::B`."
            || msg == "Circular aliasing detected in trait alias `Main::C`."
    );
    // The walk from `A` meets `A` again first.
    assert_eq!(msg, "Circular aliasing detected in trait alias `Main::A`.");
    assert_eq!(e.errs[0].srcs.len(), 1);
    assert_eq!(e.errs[0].srcs[0].as_ref().unwrap().start, 0);
}

#[test]
fn an_alias_reaching_a_cycle_is_reported_even_if_it_is_not_on_it() {
    let env = TraitAliasEnv { data: vec![alias("Top", &["Loop"], 0), alias("Loop", &["Loop"], 10)] };
    let e = env.resolve_alias(&tr("Top")).err().unwrap();
    assert_eq!(e.errs[0].msg, "Circular aliasing detected in trait alias `Main::Loop`.");
    assert_eq!(e.errs[0].srcs[0].as_ref().unwrap().start, 10);
}

#[test]
fn a_shared_alias_is_no_cycle() {
    let env = TraitAliasEnv {
        data: vec![
            alias("Top", &["Left", "Right"], 0),
            alias("Left", &["Base"], 10),
            alias("Right", &["Base"], 20),
            alias("Base", &["Eq", "Hash"], 30),
        ],
    };
    let r = env.resolve_alias(&tr("Top")).ok().unwrap();
    assert_eq!(names(&r), vec!["Main::Eq", "Main::Hash"]);
    assert_eq!(r.len(), 2);
}

#[test]
fn a_predicate_on_an_alias_becomes_one_per_trait() {
    let env = TraitAliasEnv { data: vec![alias("Num", &["Add", "Mul"], 0)] };
    let a = type_from_tyvar(make_tyvar("a", &kind_star()));
    let p = Predicate::make(tr("Num"), a.clone());
    let ps = p.resolve_trait_aliases(&env).ok().unwrap();
    let traits: Vec<TraitId> = ps.iter().map(|p| p.trait_id.clone()).collect();
    assert_eq!(names(&traits), vec!["Main::Add", "Main::Mul"]);
    for q in &ps {
        assert_eq!(q.ty.to_string(), "a");
    }
    let plain = Predicate::make(tr("Eq"), a);
    let ps = plain.resolve_trait_aliases(&env).ok().unwrap();
    assert_eq!(ps.len(), 1);
    assert_eq!(ps[0].trait_id.to_string(), "Main::Eq");
}
