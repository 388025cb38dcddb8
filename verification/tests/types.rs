use fixlang::ast::program::validate_type_defns;
use fixlang::ast::typedecl::{Struct, TypeDeclValue, TypeDefn};
use fixlang::ast::types::{kind_arrow, kind_star, make_tyvar};
use std::collections::HashSet;

/// Two type variables of one name are one variable whatever kinds they carry, and hashing agrees
/// with that.
#[test]
fn a_type_variable_is_identified_by_its_name_alone() {
    let star = make_tyvar("a", &kind_star());
    let higher = make_tyvar("a", &kind_arrow(kind_star(), kind_star()));
    let other_name = make_tyvar("b", &kind_star());

    assert!(star == higher, "`a : *` and `a : *->*` are one variable.");
    assert!(star != other_name, "`a` and `b` are two variables.");

    let mut set = HashSet::new();
    set.insert(star.clone());
    set.insert(higher.clone());
    set.insert(other_name.clone());
    assert_eq!(set.len(), 2);
}

use fixlang::ast::digest::{digest_hex, number_to_varname};
use fixlang::ast::module::{NameResolutionContext, NameResolutionType};
use fixlang::ast::name::FullName;
use fixlang::ast::predicate::Predicate;
use fixlang::ast::scheme::Scheme;
use fixlang::ast::traits::TraitId;
use fixlang::ast::type_env::TypeEnv;
use fixlang::ast::typedecl::Field;
use fixlang::ast::types::{
    tycon, type_fun, type_funptr, type_tyapp, type_tycon, type_tyvar, TyCon, TyConInfo, TyConVariant,
    TypeNode,
};
use fixlang::ast::equality::Equality;
use fixlang::ast::types::{type_assocty, type_tyvar_star, AssocType};
use fixlang::order::text_less;
use std::sync::Arc;

fn std_ty(name: &str) -> Arc<TypeNode> {
    type_tycon(&tycon(FullName::from_strs(&["Std"], name)))
}

fn tv(name: &str) -> Arc<TypeNode> {
    type_tyvar(name, &kind_star())
}

#[test]
fn type_variable_names_of_a_normalized_type() {
    assert_eq!(number_to_varname(0), "a");
    assert_eq!(number_to_varname(1), "b");
    assert_eq!(number_to_varname(25), "z");
    assert_eq!(number_to_varname(26), "a1");
    assert_eq!(number_to_varname(53), "b2");
}

#[test]
fn normalizing_renames_type_variables_in_order() {
    let t = type_fun(tv("x"), type_fun(tv("y"), tv("x")));
    assert_eq!(t.to_string(), "x -> y -> x");
    assert_eq!(t.to_string_normalize(), "a -> b -> a");
    let many = TypeNode::to_string_normalize_many(&vec![tv("q"), type_fun(tv("p"), tv("q"))]);
    assert_eq!(many, vec!["a".to_string(), "b -> a".to_string()]);
}

#[test]
fn the_digest_of_a_type_is_the_md5_of_its_normalized_text() {
    // md5("a") is 0cc175b9c0f1b6a831c399e269772661.
    assert_eq!(tv("x").hash(), "0cc175b9c0f1b6a831c399e269772661");
    assert_eq!(tv("y").hash(), tv("x").hash());
    assert_ne!(std_ty("I64").hash(), tv("x").hash());
    // md5("") is d41d8cd98f00b204e9800998ecf8427e.
    assert_eq!(digest_hex(&vec![0xd4, 0x1d, 0x8c, 0xd9]), "d41d8cd9");
    assert_eq!(digest_hex(&vec![0x00, 0xff, 0x0a]), "00ff0a");
}

#[test]
fn the_digest_with_captures_reads_the_captured_types() {
    let dynamic = std_ty("#DynamicObject");
    let plain = dynamic.hash_with_capture(&vec![]);
    assert_eq!(plain, dynamic.hash());
    let with_i64 = dynamic.hash_with_capture(&vec![std_ty("I64")]);
    let with_bool = dynamic.hash_with_capture(&vec![std_ty("Bool")]);
    assert_ne!(with_i64, plain);
    assert_ne!(with_i64, with_bool);
    assert_eq!(with_i64.len(), 32);
}

#[test]
fn text_order_is_the_order_of_str() {
    assert!(text_less("a", "b"));
    assert!(text_less("ab", "abc"));
    assert!(!text_less("abc", "ab"));
    assert!(!text_less("a", "a"));
    assert!(text_less("B", "a"));
}

#[test]
fn a_trait_may_be_implemented_for_a_type_headed_by_a_type_constructor() {
    let array_a = type_tyapp(std_ty("Array"), tv("a"));
    assert!(array_a.is_implementable().is_ok());
    let e = type_tyapp(tv("f"), std_ty("I64")).is_implementable().err().unwrap();
    assert_eq!(
        e.errs[0].msg,
        "Implementing trait for type `f Std::I64` is not allowed. The head (in this case, `f`) of the type should be a type constructor."
    );
}

#[test]
fn function_pointer_types_apply_their_constructor() {
    let t = type_funptr(vec![std_ty("I64"), std_ty("Bool")], std_ty("U8"));
    assert!(t.is_funptr());
    assert_eq!(t.collect_type_arguments().len(), 3);
    let f = type_fun(std_ty("I64"), std_ty("Bool"));
    assert!(f.is_closure());
    assert_eq!(f.to_string(), "Std::I64 -> Std::Bool");
}

fn struct_info(fields: &[&str]) -> TyConInfo {
    TyConInfo {
        kind: kind_star(),
        variant: TyConVariant::Struct,
        is_unbox: false,
        tyvars: vec![],
        fields: fields
            .iter()
            .map(|f| Field { name: f.to_string(), ty: std_ty("I64"), syn_ty: std_ty("I64"), is_punched: false, source: None })
            .collect(),
        source: None,
        document: None,
        punched_from: None,
    }
}

#[test]
fn the_type_environment_answers_from_its_declarations() {
    let point = TyCon { name: FullName::from_strs(&["Main"], "Point") };
    let env = TypeEnv::new(vec![(point.clone(), struct_info(&["x", "y"]))], vec![]);
    let p = type_tycon(&Arc::new(point.clone()));
    assert!(p.is_struct(&env));
    assert!(!p.is_union(&env));
    assert!(p.is_box(&env));
    assert_eq!(p.field_index(&env, "y"), Some(1));
    assert_eq!(p.field_index(&env, "z"), None);
    assert!(!env.is_unwrapped_newtype(&point));
    let act = env.is_struct_act(&FullName::from_strs(&["Main", "Point"], "act_y")).unwrap();
    assert_eq!(act.1, "y");
    assert!(env.is_struct_act(&FullName::from_strs(&["Main", "Point"], "act_z")).is_none());
    assert!(env.is_struct_act(&FullName::local("act_x")).is_none());
    let kinds = env.kinds();
    assert_eq!(kinds.len(), 1);
}

#[test]
fn a_name_resolves_to_the_one_declaration_it_may_stand_for() {
    let ctx = NameResolutionContext {
        types: vec![
            FullName::from_strs(&["Main"], "Vec"),
            FullName::from_strs(&["Lib"], "Vec"),
            FullName::from_strs(&["Lib"], "Map"),
        ],
        traits: vec![],
        module_name: "Main".to_string(),
    };
    let map = ctx.resolve(&FullName::local("Map"), NameResolutionType::Type).ok().unwrap();
    assert_eq!(map.to_string(), "Lib::Map");
    let vec_ = ctx.resolve(&FullName::local("Vec"), NameResolutionType::Type).ok().unwrap();
    assert_eq!(vec_.to_string(), "Main::Vec");
    let e = ctx.resolve(&FullName::local("Set"), NameResolutionType::Type).err().unwrap();
    assert_eq!(e, "unknown name: Set");
    let e = ctx.resolve(&FullName::local("Vec"), NameResolutionType::Trait).err().unwrap();
    assert_eq!(e, "unknown name: Vec");
}

#[test]
fn a_scheme_writes_its_constraints_sorted_and_once() {
    let show = TraitId::from_fullname(FullName::from_strs(&["Std"], "ToString"));
    let eq = TraitId::from_fullname(FullName::from_strs(&["Std"], "Eq"));
    let x = make_tyvar("x", &kind_star());
    let y = make_tyvar("y", &kind_star());
    let scm = Scheme::new_arc(
        vec![x.clone(), y.clone()],
        vec![],
        vec![
            Predicate::make(show.clone(), tv("y")),
            Predicate::make(eq.clone(), tv("x")),
            Predicate::make(show.clone(), tv("y")),
        ],
        vec![],
        type_fun(tv("x"), tv("y")),
    );
    assert_eq!(scm.to_string(), "[x : Std::Eq, y : Std::ToString] x -> y");
    assert_eq!(scm.to_string_normalize(), "[a : Std::Eq, b : Std::ToString] a -> b");
    let bare = Scheme::from_type(type_fun(tv("x"), tv("x")));
    assert_eq!(bare.to_string(), "x -> x");
}

#[test]
fn the_head_of_an_associated_type_definition_is_checked() {
    let elem = type_tycon(&tycon(FullName::local("Elem")));
    let c = tv("c");
    let head = type_tyapp(elem.clone(), c.clone());
    let h = head.validate_as_associated_type_impl_defn(&c, &None, false).ok().unwrap();
    assert_eq!(h.name, "Elem");
    assert_eq!(h.params.len(), 1);
    assert_eq!(h.params[0].name, "#impl_type");
    let bad = type_tyapp(type_tyapp(elem.clone(), c.clone()), c.clone());
    let e = bad.validate_as_associated_type_impl_defn(&c, &None, false).err().unwrap();
    assert_eq!(
        e.errs[0].msg,
        "In associated type definition, each type variable should be free from the implemented type (`c` here)."
    );
    let twice = type_tyapp(type_tyapp(type_tyapp(elem.clone(), c.clone()), tv("a")), tv("a"));
    let e = twice.validate_as_associated_type_impl_defn(&c, &None, true).err().unwrap();
    assert_eq!(e.errs[0].msg, "In associated type implementation, each type variable should be different.");
    let qualified = type_tyapp(type_tycon(&tycon(FullName::from_strs(&["Main"], "Elem"))), c.clone());
    let e = qualified.validate_as_associated_type_impl_defn(&c, &None, true).err().unwrap();
    assert_eq!(
        e.errs[0].msg,
        "Do not specify namespace of the associated type here; the namespace of an associated type is determined by the trait name."
    );
}

#[test]
fn the_free_variables_of_a_type_each_once() {
    let t = type_fun(tv("x"), type_fun(tv("y"), tv("x")));
    let mut names: Vec<String> = t.free_vars().iter().map(|(n, _)| n.clone()).collect();
    names.sort();
    assert_eq!(names, vec!["x".to_string(), "y".to_string()]);
}

fn i64_field(name: &str) -> fixlang::ast::typedecl::Field {
    let ty = fixlang::ast::types::type_tycon(&fixlang::ast::types::tycon(fixlang::ast::name::FullName::from_strs(&["Std"], "I64")));
    fixlang::ast::typedecl::Field { name: name.to_string(), ty: ty.clone(), syn_ty: ty, is_punched: false, source: None }
}

fn struct_defn(name: &str, tyvars: &[&str], fields: &[&str], start: usize) -> TypeDefn {
    TypeDefn {
        name: fixlang::ast::name::FullName::from_strs(&["Main"], name),
        value: TypeDeclValue::Struct(Struct { fields: fields.iter().map(|f| i64_field(f)).collect(), is_unbox: false }),
        tyvars: tyvars.iter().map(|t| fixlang::ast::types::make_tyvar(t, &fixlang::ast::types::kind_star())).collect(),
        source: Some(fixlang::source::Span { file: "main.fix".to_string(), start, end: start + 10 }),
    }
}

#[test]
fn test_validate_type_defns_reports() {
    assert!(validate_type_defns(&vec![struct_defn("S", &["a"], &["x", "y"], 0)]).is_ok());
    let err = validate_type_defns(&vec![struct_defn("S", &[], &["x", "y", "x"], 7)]).unwrap_err();
    assert_eq!(err.errs.len(), 1);
    assert_eq!(err.errs[0].msg, "Duplicate field `x` in the definition of struct `Main::S`.");
    let src = err.errs[0].srcs[0].as_ref().unwrap();
    assert_eq!((src.start, src.end), (7, 8));
    // After the first report, the right-hand sides of later declarations are not checked.
    let err = validate_type_defns(&vec![
        struct_defn("T", &["?a"], &["x"], 0),
        struct_defn("S", &[], &["x", "x"], 20),
    ])
    .unwrap_err();
    let msgs: Vec<&str> = err.errs.iter().map(|e| e.msg.as_str()).collect();
    assert_eq!(msgs, vec!["Opaque type variable `?a` is not allowed in a type definition."]);
    let err = validate_type_defns(&vec![struct_defn("U", &["a", "a"], &["x"], 0)]).unwrap_err();
    assert_eq!(err.errs[0].msg, "Type variable `a` is duplicated in the definition of type `Main::U`.");
}

#[test]
fn test_find_var_in_constraint_gives_the_first_constraint() {
    let span = |start: usize| Some(fixlang::source::Span { file: "main.fix".to_string(), start, end: start + 1 });
    let show = TraitId { name: FullName::from_strs(&["Std"], "ToString") };
    let eq = TraitId { name: FullName::from_strs(&["Std"], "Eq") };
    let mut p1 = Predicate::make(show.clone(), tv("a"));
    p1.source = span(3);
    let mut p2 = Predicate::make(eq.clone(), tv("b"));
    p2.source = span(7);
    let mut p3 = Predicate::make(eq, tv("b"));
    p3.source = span(9);
    let q = fixlang::ast::qual_type::QualType { preds: vec![p1, p2, p3], eqs: vec![], kind_signs: vec![], ty: tv("a") };
    assert_eq!(q.find_var_in_constraint(&"b".to_string()).map(|s| s.start), Some(7));
    assert_eq!(q.find_var_in_constraint(&"a".to_string()).map(|s| s.start), Some(3));
    assert!(q.find_var_in_constraint(&"c".to_string()).is_none());
}

#[test]
fn test_nested_quantifiers_are_written_outermost_first() {
    let t = fixlang::ast::type_forall(
        fixlang::ast::var_tyvar("a"),
        fixlang::ast::type_forall(
            fixlang::ast::var_tyvar("b"),
            fixlang::ast::type_forall(fixlang::ast::var_tyvar("c"), fixlang::ast::type_tyvar("t")),
        ),
    );
    assert_eq!(t.to_string(), "for<a, b, c> t");
    let two = fixlang::ast::type_forall(
        fixlang::ast::var_tyvar("b"),
        fixlang::ast::type_forall(fixlang::ast::var_tyvar("c"), fixlang::ast::type_tyvar("a")),
    );
    assert_eq!(two.to_string(), "for<b, c> a");
}

#[test]
fn an_equality_refers_to_its_associated_type_and_the_type_names_in_it() {
    let item = AssocType { name: FullName::from_strs(&["Std", "Iterator"], "Item"), src: None };
    let array = type_tycon(&tycon(FullName::from_strs(&["Std"], "Array")));
    let i64_ty = type_tycon(&tycon(FullName::from_strs(&["Std"], "I64")));
    let size = AssocType { name: FullName::from_strs(&["Std", "Sized"], "Size"), src: None };
    // Item (Array I64) = Size a
    let eq = Equality {
        assoc_type: item,
        args: vec![type_tyapp(array, i64_ty.clone())],
        value: type_assocty(size, vec![type_tyvar_star("a")]),
        source: None,
    };
    let mut names = vec![FullName::from_strs(&["Std"], "I64")];
    eq.collect_referenced_names(&mut names);
    let mut got: Vec<String> = names.iter().map(|n| n.to_string()).collect();
    got.sort();
    assert_eq!(got, vec!["Std::Array", "Std::I64", "Std::Iterator::Item", "Std::Sized::Size"]);
}
