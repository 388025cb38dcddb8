//! What a program declares, as far as the syntax trees need it: the node a source position
//! stands on.
use crate::ast::name::{fullname_text, FullName, Name};
use crate::ast::scheme::{is_opaque_tyvar, opaque_name};
use crate::ast::traits::TraitId;
use crate::ast::typedecl::{
    all_known_upto, defn_free_vars, duplicated_tyvar_message, field_names_distinct_upto,
    head_char_of, head_char_span, names_tyvar, single_report, tyvar_names_distinct_upto,
    unknown_tyvar_message, Field, TypeDeclValue, TypeDefn,
};
use crate::ast::types::{assoc_free, AssocType, TyCon, TyVar, TypeNode};
use crate::error::{Error, Errors};
use crate::source::Span;
use std::sync::Arc;
use vstd::prelude::*;

verus! {

/// The entity a position in a source file stands on, which an editor shows or jumps to.
pub enum EndNode {
    /// A value, by its name, with the type inferred for it where one is known.
    Expr(FullName, Option<Arc<TypeNode>>),
    /// A variable a pattern binds, with its type where one is known.
    Pattern(FullName, Option<Arc<TypeNode>>),
    /// A type constructor.
    Type(TyCon),
    /// A trait.
    Trait(TraitId),
    /// A name that is a type's or a trait's, not known which.
    TypeOrTrait(FullName),
    /// A module.
    Module(Name),
    /// The name a global value is declared under.
    ValueDecl(FullName),
    /// An associated type.
    AssocType(AssocType),
    /// A field of a struct.
    Field(TyCon, Name),
    /// A variant of a union.
    Variant(TyCon, Name),
    /// The type inferred for a `_` written in a type.
    InferredType(Arc<TypeNode>),
}


/// The declaration of a global value: its name and its type, as in `main : IO ()`.
pub struct GlobalValueDecl {
    /// The declared name.
    pub name: FullName,
    /// The declared type scheme.
    pub ty: Arc<crate::ast::scheme::Scheme>,
    /// Where the declared name was written, as `main` in `main : IO ()`.
    pub src: Option<crate::source::Span>,
}

/// A report seen as its text and the places it points at.
pub open spec fn err_view(e: Error) -> (Seq<char>, Seq<Option<Span>>) {
    (e.msg@, e.srcs@)
}

/// The reports `es` seen as texts and places.
pub open spec fn errs_view(es: Seq<Error>) -> Seq<(Seq<char>, Seq<Option<Span>>)> {
    es.map_values(|e: Error| err_view(e))
}

/// Whether the `i`-th of `tvs` is the first parameter declared a second time.
pub open spec fn first_dup_tyvar(tvs: Seq<Arc<TyVar>>, i: int) -> bool {
    &&& 0 <= i < tvs.len()
    &&& tyvar_names_distinct_upto(tvs, i)
    &&& exists|j: int| 0 <= j < i && tvs[j].name@ == tvs[i].name@
}

/// Whether, the parameters `tvs` being distinct, the `i`-th of the type variables `fv` of a
/// declaration is the first that is none of them.
pub open spec fn first_unknown_tyvar(fv: Seq<Arc<TyVar>>, tvs: Seq<Arc<TyVar>>, i: int) -> bool {
    &&& tyvar_names_distinct_upto(tvs, tvs.len() as int)
    &&& 0 <= i < fv.len()
    &&& all_known_upto(fv, tvs, i)
    &&& !names_tyvar(tvs, fv[i].name@)
}

/// The report the check of the parameters of `d` makes: the first parameter declared twice, or
/// else the first type variable of the right-hand side that is no parameter; none where there
/// is neither.
pub open spec fn tyvars_report(d: TypeDefn) -> Seq<(Seq<char>, Seq<Option<Span>>)> {
    let tvs = d.tyvars@;
    let fv = defn_free_vars(d.value);
    let ty = fullname_text(d.name@);
    let src = seq![head_char_span(d.source)];
    if exists|i: int| first_dup_tyvar(tvs, i) {
        let i = choose|i: int| first_dup_tyvar(tvs, i);
        seq![(duplicated_tyvar_message(tvs[i].name@, ty), src)]
    } else if exists|i: int| first_unknown_tyvar(fv, tvs, i) {
        let i = choose|i: int| first_unknown_tyvar(fv, tvs, i);
        seq![(unknown_tyvar_message(fv[i].name@, ty), src)]
    } else {
        Seq::empty()
    }
}

/// What `TypeDefn::validate_tyvars` answers is `tyvars_report`.
proof fn lemma_tyvars_report(d: TypeDefn, r: Result<(), Errors>)
    requires
        r is Ok <==> (tyvar_names_distinct_upto(d.tyvars@, d.tyvars@.len() as int) && all_known_upto(
            defn_free_vars(d.value),
            d.tyvars@,
            defn_free_vars(d.value).len() as int,
        )),
        r is Err ==> ((exists|i: int|
            0 <= i < d.tyvars@.len() && tyvar_names_distinct_upto(d.tyvars@, i) && (exists|j: int|
                0 <= j < i && d.tyvars@[j].name@ == d.tyvars@[i].name@) && single_report(
                r->Err_0,
                duplicated_tyvar_message(d.tyvars@[i].name@, fullname_text(d.name@)),
                head_char_span(d.source),
            )) || (tyvar_names_distinct_upto(d.tyvars@, d.tyvars@.len() as int) && exists|i: int|
            0 <= i < defn_free_vars(d.value).len() && all_known_upto(defn_free_vars(d.value), d.tyvars@, i)
                && !names_tyvar(d.tyvars@, defn_free_vars(d.value)[i].name@) && single_report(
                r->Err_0,
                unknown_tyvar_message(defn_free_vars(d.value)[i].name@, fullname_text(d.name@)),
                head_char_span(d.source),
            ))),
    ensures
        r is Ok ==> tyvars_report(d).len() == 0,
        r is Err ==> errs_view(r->Err_0.errs@) == tyvars_report(d),
{
    let tvs = d.tyvars@;
    let fv = defn_free_vars(d.value);
    assert forall|a: int, b: int| first_dup_tyvar(tvs, a) && first_dup_tyvar(tvs, b) implies a == b by {
        if a < b {
            let j = choose|j: int| 0 <= j < a && tvs[j].name@ == tvs[a].name@;
            assert(tvs[j].name@ != tvs[a].name@);
        } else if b < a {
            let j = choose|j: int| 0 <= j < b && tvs[j].name@ == tvs[b].name@;
            assert(tvs[j].name@ != tvs[b].name@);
        }
    }
    assert forall|a: int, b: int| first_unknown_tyvar(fv, tvs, a) && first_unknown_tyvar(fv, tvs, b) implies a == b by {
        if a < b {
            assert(names_tyvar(tvs, fv[a].name@));
        } else if b < a {
            assert(names_tyvar(tvs, fv[b].name@));
        }
    }
    if r is Ok {
        assert(!exists|i: int| first_dup_tyvar(tvs, i)) by {
            if exists|i: int| first_dup_tyvar(tvs, i) {
                let i = choose|i: int| first_dup_tyvar(tvs, i);
                let j = choose|j: int| 0 <= j < i && tvs[j].name@ == tvs[i].name@;
                assert(tvs[j].name@ != tvs[i].name@);
            }
        }
        assert(!exists|i: int| first_unknown_tyvar(fv, tvs, i)) by {
            if exists|i: int| first_unknown_tyvar(fv, tvs, i) {
                let i = choose|i: int| first_unknown_tyvar(fv, tvs, i);
                assert(names_tyvar(tvs, fv[i].name@));
            }
        }
    } else {
        let e = r->Err_0;
        if exists|i: int|
            0 <= i < d.tyvars@.len() && tyvar_names_distinct_upto(d.tyvars@, i) && (exists|j: int|
                0 <= j < i && d.tyvars@[j].name@ == d.tyvars@[i].name@) && single_report(
                e,
                duplicated_tyvar_message(d.tyvars@[i].name@, fullname_text(d.name@)),
                head_char_span(d.source),
            ) {
            let i = choose|i: int|
                0 <= i < d.tyvars@.len() && tyvar_names_distinct_upto(d.tyvars@, i) && (exists|j: int|
                    0 <= j < i && d.tyvars@[j].name@ == d.tyvars@[i].name@) && single_report(
                    e,
                    duplicated_tyvar_message(d.tyvars@[i].name@, fullname_text(d.name@)),
                    head_char_span(d.source),
                );
            assert(first_dup_tyvar(tvs, i));
            assert(errs_view(e.errs@) =~= tyvars_report(d));
        } else {
            let i = choose|i: int|
                0 <= i < defn_free_vars(d.value).len() && all_known_upto(defn_free_vars(d.value), d.tyvars@, i)
                    && !names_tyvar(d.tyvars@, defn_free_vars(d.value)[i].name@) && single_report(
                    e,
                    unknown_tyvar_message(defn_free_vars(d.value)[i].name@, fullname_text(d.name@)),
                    head_char_span(d.source),
                );
            assert(first_unknown_tyvar(fv, tvs, i));
            assert(!exists|k: int| first_dup_tyvar(tvs, k)) by {
                if exists|k: int| first_dup_tyvar(tvs, k) {
                    let k = choose|k: int| first_dup_tyvar(tvs, k);
                    let j = choose|j: int| 0 <= j < k && tvs[j].name@ == tvs[k].name@;
                    assert(tvs[j].name@ != tvs[k].name@);
                }
            }
            assert(errs_view(e.errs@) =~= tyvars_report(d));
        }
    }
}

/// The report that the parameter `tv` of a type declaration is an opaque type variable.
pub open spec fn opaque_param_message(tv: Seq<char>) -> Seq<char> {
    "Opaque type variable `"@ + tv + "` is not allowed in a type definition."@
}

/// The reports of the parameters among the first `k` of `d` that are opaque type variables.
pub open spec fn opaque_reports(d: TypeDefn, k: int) -> Seq<(Seq<char>, Seq<Option<Span>>)>
    decreases k,
{
    if k <= 0 || k > d.tyvars@.len() {
        Seq::empty()
    } else if opaque_name(d.tyvars@[k - 1].name@) {
        opaque_reports(d, k - 1).push(
            (opaque_param_message(d.tyvars@[k - 1].name@), seq![head_char_span(d.source)]),
        )
    } else {
        opaque_reports(d, k - 1)
    }
}

/// The report `msg` of each of the first `k` of `fields` whose type holds an associated type.
pub open spec fn assoc_field_reports(fields: Seq<Field>, k: int, msg: Seq<char>, src: Option<Span>) -> Seq<
    (Seq<char>, Seq<Option<Span>>),
>
    decreases k,
{
    if k <= 0 || k > fields.len() {
        Seq::empty()
    } else if !assoc_free(*fields[k - 1].ty) {
        assoc_field_reports(fields, k - 1, msg, src).push((msg, seq![src]))
    } else {
        assoc_field_reports(fields, k - 1, msg, src)
    }
}

/// Whether the `i`-th of `fields` is the first that shares its name with a field before it.
pub open spec fn first_dup_field(fields: Seq<Field>, i: int) -> bool {
    &&& 0 <= i < fields.len()
    &&& field_names_distinct_upto(fields, i)
    &&& exists|j: int| 0 <= j < i && fields[j].name@ == fields[i].name@
}

/// The report that the field `field` is declared twice in the declaration of the `what`
/// (struct or union) `ty`.
pub open spec fn dup_field_message(field: Seq<char>, what: Seq<char>, ty: Seq<char>) -> Seq<char> {
    "Duplicate field `"@ + field + "` in the definition of "@ + what + " `"@ + ty + "`."@
}

/// The reports on the fields of a struct or a union (`what`) named `ty`: a field type holding an
/// associated type, each, then the first field declared twice.
pub open spec fn fields_reports(fields: Seq<Field>, what: Seq<char>, ty: Seq<char>, src: Option<Span>) -> Seq<
    (Seq<char>, Seq<Option<Span>>),
> {
    assoc_field_reports(
        fields,
        fields.len() as int,
        "Associated type is not allowed in the field type of a "@ + what + "."@,
        src,
    ) + if exists|i: int| first_dup_field(fields, i) {
        let i = choose|i: int| first_dup_field(fields, i);
        seq![(dup_field_message(fields[i].name@, what, ty), seq![src])]
    } else {
        Seq::empty()
    }
}

/// The reports on the right-hand side of `d`: on the fields of a struct or a union, and on an
/// associated type in the type an alias stands for.
pub open spec fn value_reports(d: TypeDefn) -> Seq<(Seq<char>, Seq<Option<Span>>)> {
    let ty = fullname_text(d.name@);
    let src = head_char_span(d.source);
    match d.value {
        TypeDeclValue::Struct(st) => fields_reports(st.fields@, "struct"@, ty, src),
        TypeDeclValue::Union(un) => fields_reports(un.fields@, "union"@, ty, src),
        TypeDeclValue::Alias(ta) => if !assoc_free(*ta.value) {
            seq![
                ("Associated type is not allowed in the right-hand side of a type alias."@, seq![src]),
            ]
        } else {
            Seq::empty()
        },
    }
}

/// The reports on the first `k` declarations of `ds`, in order: for each, its opaque
/// parameters and the check of its parameters, then, while nothing at all has been reported,
/// the check of its right-hand side.
pub open spec fn defns_report(ds: Seq<TypeDefn>, k: int) -> Seq<(Seq<char>, Seq<Option<Span>>)>
    decreases k,
{
    if k <= 0 || k > ds.len() {
        Seq::empty()
    } else {
        let d = ds[k - 1];
        let so_far = defns_report(ds, k - 1) + opaque_reports(d, d.tyvars@.len() as int)
            + tyvars_report(d);
        if so_far.len() > 0 {
            so_far
        } else {
            value_reports(d)
        }
    }
}

/// Adds the report `msg`, pointing at `src`, to `errors`.
fn report(errors: &mut Errors, msg: String, src: Option<Span>)
    ensures
        errs_view(final(errors).errs@) == errs_view(old(errors).errs@).push((msg@, seq![src])),
{
    let ghost before = errors.errs@;
    errors.append(Errors::from_msg_src(msg, src));
    assert(errs_view(errors.errs@) =~= errs_view(before).push((msg@, seq![src])));
}

/// Adds the reports on the fields of a struct or a union (`what`) named `ty` to `errors`.
fn check_fields(errors: &mut Errors, fields: &Vec<Field>, what: &str, ty: &FullName, src: &Option<Span>)
    ensures
        errs_view(final(errors).errs@) == errs_view(old(errors).errs@) + fields_reports(
            fields@,
            what@,
            fullname_text(ty@),
            *src,
        ),
{
    let ghost before = errs_view(errors.errs@);
    let mut msg = crate::strutil::to_string("Associated type is not allowed in the field type of a ");
    msg.append(what);
    msg.append(".");
    for i in 0..fields.len()
        invariant
            errs_view(errors.errs@) == before + assoc_field_reports(fields@, i as int, msg@, *src),
    {
        if !fields[i].ty.is_assoc_ty_free() {
            report(errors, msg.clone(), crate::source::clone_span_opt(src));
        }
        assert(errs_view(errors.errs@) =~= before + assoc_field_reports(fields@, i + 1, msg@, *src));
    }
    let ghost mid = errs_view(errors.errs@);
    match Field::check_duplication(fields) {
        Some(field_name) => {
            let mut m = crate::strutil::to_string("Duplicate field `");
            m.append(field_name.as_str());
            m.append("` in the definition of ");
            m.append(what);
            m.append(" `");
            m.append(ty.to_string().as_str());
            m.append("`.");
            proof {
                let i = choose|i: int|
                    0 <= i < fields@.len() && field_names_distinct_upto(fields@, i)
                        && fields@[i].name@ == field_name@ && exists|j: int|
                        0 <= j < i && fields@[j].name@ == field_name@;
                assert(first_dup_field(fields@, i));
                assert forall|a: int| first_dup_field(fields@, a) implies a == i by {
                    if a < i {
                        let j = choose|j: int| 0 <= j < a && fields@[j].name@ == fields@[a].name@;
                        assert(fields@[j].name@ != fields@[a].name@);
                    } else if i < a {
                        let j = choose|j: int| 0 <= j < i && fields@[j].name@ == fields@[i].name@;
                        assert(fields@[j].name@ != fields@[i].name@);
                    }
                }
            }
            report(errors, m, crate::source::clone_span_opt(src));
        },
        None => {
            assert(!exists|i: int| first_dup_field(fields@, i)) by {
                if exists|i: int| first_dup_field(fields@, i) {
                    let i = choose|i: int| first_dup_field(fields@, i);
                    let j = choose|j: int| 0 <= j < i && fields@[j].name@ == fields@[i].name@;
                    assert(fields@[j].name@ != fields@[i].name@);
                }
            }
            assert(errs_view(errors.errs@) =~= mid + Seq::empty());
        },
    }
}

/// Checks the type declarations `type_defns`, all of them, and reports what is wrong with
/// them; see `defns_report`.
pub fn validate_type_defns(type_defns: &Vec<TypeDefn>) -> (r: Result<(), Errors>)
    requires
        forall|i: int|
            0 <= i < type_defns@.len() ==> (#[trigger] type_defns@[i]).source is Some
                ==> type_defns@[i].source->0.start < usize::MAX,
    ensures
        r is Ok <==> defns_report(type_defns@, type_defns@.len() as int).len() == 0,
        r matches Err(e) ==> errs_view(e.errs@) == defns_report(type_defns@, type_defns@.len() as int),
{
    let mut errors = Errors::empty();
    assert(errs_view(errors.errs@) =~= Seq::empty());
    for i in 0..type_defns.len()
        invariant
            forall|k: int|
                0 <= k < type_defns@.len() ==> (#[trigger] type_defns@[k]).source is Some
                    ==> type_defns@[k].source->0.start < usize::MAX,
            errs_view(errors.errs@) == defns_report(type_defns@, i as int),
    {
        let d = &type_defns[i];
        let ghost start = errs_view(errors.errs@);
        for j in 0..d.tyvars.len()
            invariant
                d.source is Some ==> d.source->0.start < usize::MAX,
                errs_view(errors.errs@) == start + opaque_reports(*d, j as int),
        {
            let tv = &d.tyvars[j];
            if is_opaque_tyvar(tv.name.as_str()) {
                let mut msg = crate::strutil::to_string("Opaque type variable `");
                msg.append(tv.name.as_str());
                msg.append("` is not allowed in a type definition.");
                report(&mut errors, msg, head_char_of(&d.source));
            }
            assert(errs_view(errors.errs@) =~= start + opaque_reports(*d, j + 1));
        }
        let ghost mid = errs_view(errors.errs@);
        let res = d.validate_tyvars();
        proof {
            lemma_tyvars_report(*d, res);
        }
        errors.eat_err(res);
        assert(errs_view(errors.errs@) =~= mid + tyvars_report(*d));
        if errors.is_empty() {
            assert(defns_report(type_defns@, i as int).len() == 0);
            let src = head_char_of(&d.source);
            match &d.value {
                TypeDeclValue::Struct(st) => {
                    check_fields(&mut errors, &st.fields, "struct", &d.name, &src);
                },
                TypeDeclValue::Union(un) => {
                    check_fields(&mut errors, &un.fields, "union", &d.name, &src);
                },
                TypeDeclValue::Alias(ta) => {
                    if !ta.value.is_assoc_ty_free() {
                        report(
                            &mut errors,
                            crate::strutil::to_string(
                                "Associated type is not allowed in the right-hand side of a type alias.",
                            ),
                            src,
                        );
                    }
                },
            }
            assert(errs_view(errors.errs@) =~= defns_report(type_defns@, i + 1));
        }
    }
    errors.to_result()
}

} // verus!
