//! The check of the constraints of a type scheme: that each is in a form the type checker can
//! work with, and that a use site can determine every variable the scheme is generalized over.
use crate::ast::equality::Equality;
use crate::ast::kind_scope::trait_key;
use crate::ast::name::{fullname_text, FullNameView, NameSpaceView};
use crate::ast::predicate::{predicate_text, Predicate};
use crate::ast::scheme::{
    args_names, contains_name, eq_on_opaque, eq_values_fixed, eqs_occurrences, is_opaque_tyvar, opaque_name,
    opaque_params, preds_occurrences, push_free_vars_span, unfixed_message, unfixed_type_variable_error, Scheme,
};
use crate::ast::traits::{
    alias_on_cycle, alias_reaches, alias_targets, declares_alias, first_alias, trait_keys, TraitAlias,
    TraitAliasEnv, TraitId,
};
use crate::ast::typedecl::single_report;
use crate::ast::types::{
    arg_text, assoc_free, assoc_texts, fixed_names, insert_name, name_set, names_distinct, type_text, tyvar_names,
    union_names, TyVar, Type, TypeNode,
};
use crate::ast::name::Name;
use crate::strutil::join;
use crate::error::Errors;
use crate::source::Span;
use std::sync::Arc;
use vstd::prelude::*;

verus! {

/// The report on a trait constraint not on a type variable.
pub open spec fn msg_pred_form() -> Seq<char> {
    "Trait constraint should be in the form of `{type_var} : {Trait}`. NOTE: If you want to put a constraint on an associated type application, e.g., `Elem c : ToString`, you should write `Elem c = e, e : ToString` instead. We will support more general constraints by implementing such conversion in a future."@
}

/// Whether the first `k` of `preds` are each on a type variable.
pub open spec fn preds_on_tyvars(preds: Seq<Predicate>, k: int) -> bool {
    forall|i: int| 0 <= i < k ==> (#[trigger] preds[i]).ty.ty is TyVar
}

/// Whether every trait constraint of `s` is on a type variable.
pub open spec fn preds_form_ok(s: Scheme) -> bool {
    preds_on_tyvars(s.predicates@, s.predicates@.len() as int)
}

/// Whether `e` reports the first trait constraint of `s` that is not on a type variable.
pub open spec fn preds_form_err(s: Scheme, e: Errors) -> bool {
    exists|i: int|
        0 <= i < s.predicates@.len() && preds_on_tyvars(s.predicates@, i)
            && !(s.predicates@[i].ty.ty is TyVar) && single_report(e, msg_pred_form(), s.predicates@[i].source)
}

/// Whether the trait of `p` resolves: it is no alias, or no alias it leads to lies on a cycle.
pub open spec fn pred_resolves(data: Seq<TraitAlias>, p: Predicate) -> bool {
    declares_alias(data, p.trait_id) ==> forall|x| alias_reaches(data, trait_key(p.trait_id), x)
        ==> !#[trigger] alias_on_cycle(data, x)
}

/// Whether the trait of every constraint of `s` resolves.
pub open spec fn aliases_ok(s: Scheme, data: Seq<TraitAlias>) -> bool {
    forall|i: int| 0 <= i < s.predicates@.len() ==> pred_resolves(data, #[trigger] s.predicates@[i])
}

/// Whether `e` is the report that the trait of `p` leads to an alias on a cycle.
pub open spec fn cycle_report(data: Seq<TraitAlias>, p: Predicate, e: Errors) -> bool {
    exists|t: TraitId, i: int|
        #![trigger first_alias(data, trait_key(t), i)]
        first_alias(data, trait_key(t), i) && alias_reaches(data, trait_key(p.trait_id), trait_key(t))
            && alias_on_cycle(data, trait_key(t)) && e.errs@.len() == 1 && e.errs@[0].srcs@
            == seq![data[i].source] && e.errs@[0].msg@ == "Circular aliasing detected in trait alias `"@
            + fullname_text(t.name@) + "`."@
}

/// Whether `e` reports the first constraint of `s` whose trait does not resolve.
pub open spec fn aliases_err(s: Scheme, data: Seq<TraitAlias>, e: Errors) -> bool {
    exists|i: int|
        0 <= i < s.predicates@.len() && (forall|j: int| 0 <= j < i ==> pred_resolves(data, #[trigger] s.predicates@[j]))
            && !pred_resolves(data, s.predicates@[i]) && cycle_report(data, s.predicates@[i], e)
}

/// Whether the constraint `p` gives the trait of key `t`: its trait is `t`, or an alias that
/// stands for `t`.
pub open spec fn pred_provides(data: Seq<TraitAlias>, p: Predicate, t: (Seq<Seq<char>>, Seq<char>)) -> bool {
    if declares_alias(data, p.trait_id) {
        alias_targets(data, trait_key(p.trait_id)).contains(t)
    } else {
        trait_key(p.trait_id) == t
    }
}

/// Whether a constraint among `preds` gives the trait `t` to a type written `x`.
pub open spec fn provides(data: Seq<TraitAlias>, preds: Seq<Predicate>, t: (Seq<Seq<char>>, Seq<char>), x: Seq<char>) -> bool {
    exists|i: int| 0 <= i < preds.len() && pred_provides(data, #[trigger] preds[i], t) && type_text(*preds[i].ty) == x
}

/// Whether one of the constraints `v` is on the trait `t` and a type written `x`.
pub open spec fn lists(v: Seq<Predicate>, t: (Seq<Seq<char>>, Seq<char>), x: Seq<char>) -> bool {
    exists|i: int| 0 <= i < v.len() && trait_key((#[trigger] v[i]).trait_id) == t && type_text(*v[i].ty) == x
}

impl Scheme {
    /// Checks that every trait constraint is on a type variable.
    fn check_preds_form(&self) -> (r: Result<(), Errors>)
        ensures
            r is Ok <==> preds_form_ok(*self),
            r matches Err(e) ==> preds_form_err(*self, e),
    {
        for i in 0..self.predicates.len()
            invariant
                preds_on_tyvars(self.predicates@, i as int),
        {
            if !self.predicates[i].ty.is_tyvar() {
                let e = Errors::from_msg_src(
                    crate::strutil::to_string(
                        "Trait constraint should be in the form of `{type_var} : {Trait}`. NOTE: If you want to put a constraint on an associated type application, e.g., `Elem c : ToString`, you should write `Elem c = e, e : ToString` instead. We will support more general constraints by implementing such conversion in a future.",
                    ),
                    crate::source::clone_span_opt(&self.predicates[i].source),
                );
                assert(preds_on_tyvars(self.predicates@, i as int));
                return Err(e);
            }
        }
        Ok(())
    }

    /// The trait constraints with their trait aliases expanded, one after another.
    fn resolve_preds(&self, aliases: &TraitAliasEnv) -> (r: Result<Vec<Predicate>, Errors>)
        ensures
            r is Ok <==> aliases_ok(*self, aliases.data@),
            r matches Err(e) ==> aliases_err(*self, aliases.data@, e),
            r matches Ok(v) ==> forall|t: (Seq<Seq<char>>, Seq<char>), x: Seq<char>|
                lists(v@, t, x) == provides(aliases.data@, self.predicates@, t, x),
    {
        let ghost data = aliases.data@;
        let mut out: Vec<Predicate> = Vec::new();
        for i in 0..self.predicates.len()
            invariant
                data == aliases.data@,
                forall|j: int| 0 <= j < i ==> pred_resolves(data, #[trigger] self.predicates@[j]),
                forall|t: (Seq<Seq<char>>, Seq<char>), x: Seq<char>|
                    lists(out@, t, x) == provides(data, self.predicates@.take(i as int), t, x),
        {
            let p = &self.predicates[i];
            match p.resolve_trait_aliases(aliases) {
                Ok(mut v) => {
                    let ghost before = out@;
                    let ghost got = v@;
                    out.append(&mut v);
                    proof {
                        assert(out@ == before + got);
                        assert forall|t: (Seq<Seq<char>>, Seq<char>), x: Seq<char>|
                            lists(out@, t, x) == provides(data, self.predicates@.take(i + 1), t, x) by {
                            let ps = self.predicates@.take(i + 1);
                            assert(ps[i as int] == *p);
                            if lists(out@, t, x) {
                                let k = choose|k: int| 0 <= k < out@.len() && trait_key((#[trigger] out@[k]).trait_id) == t && type_text(*out@[k].ty) == x;
                                if k < before.len() {
                                    assert(before[k] == out@[k]);
                                    assert(lists(before, t, x));
                                    let j = choose|j: int| 0 <= j < i && pred_provides(data, #[trigger] self.predicates@.take(i as int)[j], t) && type_text(*self.predicates@.take(i as int)[j].ty) == x;
                                    assert(ps[j] == self.predicates@.take(i as int)[j]);
                                } else {
                                    let m = k - before.len();
                                    assert(got[m] == out@[k]);
                                    if declares_alias(data, p.trait_id) {
                                        assert(trait_keys(crate::ast::predicate::pred_traits(got))[m] == t);
                                        assert(trait_keys(crate::ast::predicate::pred_traits(got)).to_set().contains(t));
                                    }
                                    assert(pred_provides(data, ps[i as int], t));
                                }
                            }
                            if provides(data, ps, t, x) {
                                let j = choose|j: int| 0 <= j < ps.len() && pred_provides(data, #[trigger] ps[j], t) && type_text(*ps[j].ty) == x;
                                if j < i {
                                    assert(self.predicates@.take(i as int)[j] == ps[j]);
                                    assert(provides(data, self.predicates@.take(i as int), t, x));
                                    assert(lists(before, t, x));
                                    let k = choose|k: int| 0 <= k < before.len() && trait_key((#[trigger] before[k]).trait_id) == t && type_text(*before[k].ty) == x;
                                    assert(out@[k] == before[k]);
                                } else {
                                    if declares_alias(data, p.trait_id) {
                                        let ks = trait_keys(crate::ast::predicate::pred_traits(got));
                                        assert(ks.to_set().contains(t));
                                        let m = choose|m: int| 0 <= m < ks.len() && ks[m] == t;
                                        assert(out@[before.len() + m] == got[m]);
                                        assert(trait_key(out@[before.len() + m].trait_id) == t);
                                    } else {
                                        assert(out@[before.len() as int] == got[0]);
                                    }
                                }
                            }
                        }
                    }
                },
                Err(e) => {
                    proof {
                        assert(!pred_resolves(data, *p)) by {
                            let (tt, ii) = choose|tt: TraitId, ii: int| #![trigger first_alias(data, trait_key(tt), ii)]
                                first_alias(data, trait_key(tt), ii) && alias_reaches(data, trait_key(p.trait_id), trait_key(tt))
                                    && alias_on_cycle(data, trait_key(tt)) && e.errs@.len() == 1 && e.errs@[0].srcs@ == seq![data[ii].source]
                                    && e.errs@[0].msg@ == "Circular aliasing detected in trait alias `"@ + fullname_text(tt.name@) + "`."@;
                            assert(alias_on_cycle(data, trait_key(tt)));
                        }
                        assert(cycle_report(data, *p, e));
                    }
                    return Err(e);
                },
            }
        }
        proof {
            assert(self.predicates@.take(self.predicates@.len() as int) =~= self.predicates@);
        }
        Ok(out)
    }
}

/// The key of the trait declaring the associated type of `eq`.
pub open spec fn eq_trait_key(eq: Equality) -> (Seq<Seq<char>>, Seq<char>) {
    (eq.assoc_type.name@.namespace.names.drop_last(), eq.assoc_type.name@.namespace.names.last())
}

/// The name of the trait declaring the associated type of `eq`.
pub open spec fn eq_trait_view(eq: Equality) -> FullNameView {
    FullNameView {
        namespace: NameSpaceView {
            names: eq.assoc_type.name@.namespace.names.drop_last(),
            is_absolute: false,
        },
        name: eq.assoc_type.name@.namespace.names.last(),
    }
}

/// The types `args` written out as arguments, each in parentheses where it needs them.
pub open spec fn arg_texts_of(args: Seq<Arc<TypeNode>>) -> Seq<Seq<char>> {
    args.map_values(|a: Arc<TypeNode>| arg_text(*a, type_text(*a)))
}

/// The left side of `eq` written out: `Item c`.
pub open spec fn lhs_text(eq: Equality) -> Seq<char> {
    fullname_text(eq.assoc_type.name@) + seq![' '] + join(arg_texts_of(eq.args@), seq![' '])
}

/// The equality constraint `eq` written out: `Item c = e`.
pub open spec fn eq_text(eq: Equality) -> Seq<char> {
    lhs_text(eq) + " = "@ + type_text(*eq.value)
}

/// The texts of the first `k` arguments of an associated type application are those of its
/// arguments.
proof fn lemma_assoc_texts(n: TypeNode, k: int)
    requires
        n.ty is AssocTy,
        0 <= k <= n.ty->AssocTy_1@.len(),
    ensures
        assoc_texts(n, k) == arg_texts_of(n.ty->AssocTy_1@.take(k)),
    decreases k,
{
    if k > 0 {
        lemma_assoc_texts(n, k - 1);
        assert(arg_texts_of(n.ty->AssocTy_1@.take(k)) =~= arg_texts_of(n.ty->AssocTy_1@.take(k - 1)).push(
            arg_text(*n.ty->AssocTy_1@[k - 1], type_text(*n.ty->AssocTy_1@[k - 1])),
        ));
    } else {
        assert(arg_texts_of(n.ty->AssocTy_1@.take(0)) =~= Seq::empty());
    }
}

/// An associated type application written out is the left side it stands for.
proof fn lemma_lhs_text(l: TypeNode, eq: Equality)
    requires
        l.ty is AssocTy,
        l.ty->AssocTy_0.name@ == eq.assoc_type.name@,
        l.ty->AssocTy_1@ == eq.args@,
    ensures
        type_text(l) == lhs_text(eq),
{
    lemma_assoc_texts(l, eq.args@.len() as int);
    assert(eq.args@.take(eq.args@.len() as int) =~= eq.args@);
}

/// Whether every equality constraint of `s` has an argument and its associated type a trait.
pub open spec fn eqs_well_formed(s: Scheme) -> bool {
    forall|i: int|
        0 <= i < s.equalities@.len() ==> (#[trigger] s.equalities@[i]).args@.len() > 0
            && s.equalities@[i].assoc_type.name@.namespace.names.len() > 0
}

/// Whether the arguments of `eq` after the first are free of associated types.
pub open spec fn tail_assoc_free(eq: Equality) -> bool {
    forall|j: int| 1 <= j < eq.args@.len() ==> assoc_free(*#[trigger] eq.args@[j])
}

/// Whether `eq` is in the form the type checker takes: on an opaque type variable, or with a
/// value free of associated types and a left side applied first to a type variable and then
/// to types free of associated types.
pub open spec fn eq_shape_ok(eq: Equality) -> bool {
    eq_on_opaque(eq) || (assoc_free(*eq.value) && eq.args@[0].ty is TyVar && tail_assoc_free(eq))
}

/// Whether the constraints `preds` assume the trait declaring the associated type of `eq` of its
/// first argument.
pub open spec fn eq_assumed(data: Seq<TraitAlias>, preds: Seq<Predicate>, eq: Equality) -> bool {
    provides(data, preds, eq_trait_key(eq), type_text(*eq.args@[0]))
}

/// Whether `eq` passes the checks of equality constraints.
pub open spec fn eq_ok(data: Seq<TraitAlias>, preds: Seq<Predicate>, eq: Equality) -> bool {
    eq_shape_ok(eq) && eq_assumed(data, preds, eq)
}

/// Whether every equality constraint of `s` passes the checks of equality constraints.
pub open spec fn eqs_ok(s: Scheme, data: Seq<TraitAlias>) -> bool {
    forall|i: int| 0 <= i < s.equalities@.len() ==> eq_ok(data, s.predicates@, #[trigger] s.equalities@[i])
}

/// The report on an equality constraint with an associated type in its value.
pub open spec fn msg_eq_value() -> Seq<char> {
    "Right side of an equality constraint cannot contain an associated type. NOTE: Instead of using associated type in the right side, e.g., `Elem c1 = Elem c2`, you can write `Elem c1 = e, Elem c2 = e`. We will support more general constraints by implementing such conversion in a future."@
}

/// The report on an equality constraint whose left side is not applied first to a type
/// variable.
pub open spec fn msg_eq_first() -> Seq<char> {
    "The first argument of the left side of an equality constraint should be a type variable or an opaque type."@
}

/// The report on an equality constraint with an associated type in an argument of its left side.
pub open spec fn msg_eq_args() -> Seq<char> {
    "In left side of an equality constraint, arguments of an associated type cannot contain an associated type. NOTE: Instead of using associated type in the argument, e.g., `Elem (Elem c) = I64`, you can write `Elem c = e, Elem e = I64`. We will support more general constraints by implementing such conversion in a future."@
}

/// The report on an equality constraint whose trait is not assumed of its first argument.
pub open spec fn not_assumed_msg(eq: Equality) -> Seq<char> {
    "The equality constraint `"@ + eq_text(eq) + "` is invalid here because `"@ + type_text(*eq.args@[0]) + " : "@
        + fullname_text(eq_trait_view(eq)) + "` is not assumed."@
}

/// Whether `e` is the report on `eq`, which fails the checks of equality constraints: the first
/// check that fails decides.
pub open spec fn eq_report(eq: Equality, e: Errors) -> bool {
    if !eq_on_opaque(eq) && !assoc_free(*eq.value) {
        single_report(e, msg_eq_value(), eq.source)
    } else if !eq_on_opaque(eq) && !(eq.args@[0].ty is TyVar) {
        single_report(e, msg_eq_first(), eq.source)
    } else if !eq_on_opaque(eq) && !tail_assoc_free(eq) {
        single_report(e, msg_eq_args(), eq.source)
    } else {
        single_report(e, not_assumed_msg(eq), eq.source)
    }
}

/// Whether `e` reports the first equality constraint of `s` that fails the checks.
pub open spec fn eqs_err(s: Scheme, data: Seq<TraitAlias>, e: Errors) -> bool {
    exists|i: int|
        0 <= i < s.equalities@.len() && (forall|k: int| 0 <= k < i ==> eq_ok(data, s.predicates@, #[trigger] s.equalities@[k]))
            && !eq_ok(data, s.predicates@, s.equalities@[i]) && eq_report(s.equalities@[i], e)
}

impl Scheme {
    /// Checks each equality constraint: its form, and that its trait is assumed of its first
    /// argument by the constraints `resolved`, those of the scheme with their aliases expanded.
    fn check_eqs(&self, aliases: &TraitAliasEnv, resolved: &Vec<Predicate>) -> (r: Result<(), Errors>)
        requires
            eqs_well_formed(*self),
            forall|t: (Seq<Seq<char>>, Seq<char>), x: Seq<char>|
                lists(resolved@, t, x) == provides(aliases.data@, self.predicates@, t, x),
        ensures
            r is Ok <==> eqs_ok(*self, aliases.data@),
            r matches Err(e) ==> eqs_err(*self, aliases.data@, e),
    {
        let ghost data = aliases.data@;
        for i in 0..self.equalities.len()
            invariant
                data == aliases.data@,
                eqs_well_formed(*self),
                forall|t: (Seq<Seq<char>>, Seq<char>), x: Seq<char>|
                    lists(resolved@, t, x) == provides(data, self.predicates@, t, x),
                forall|k: int| 0 <= k < i ==> eq_ok(data, self.predicates@, #[trigger] self.equalities@[k]),
        {
            let eq = &self.equalities[i];
            assert(eq.args@.len() > 0 && eq.assoc_type.name@.namespace.names.len() > 0);
            if !eq.on_opaque_tyvar() {
                if !eq.value.is_assoc_ty_free() {
                    return Err(Errors::from_msg_src(
                        crate::strutil::to_string(
                            "Right side of an equality constraint cannot contain an associated type. NOTE: Instead of using associated type in the right side, e.g., `Elem c1 = Elem c2`, you can write `Elem c1 = e, Elem c2 = e`. We will support more general constraints by implementing such conversion in a future.",
                        ),
                        crate::source::clone_span_opt(&eq.source),
                    ));
                }
                if !eq.args[0].is_tyvar() {
                    return Err(Errors::from_msg_src(
                        crate::strutil::to_string(
                            "The first argument of the left side of an equality constraint should be a type variable or an opaque type.",
                        ),
                        crate::source::clone_span_opt(&eq.source),
                    ));
                }
                let mut j: usize = 1;
                while j < eq.args.len()
                    invariant
                        data == aliases.data@,
                        i < self.equalities@.len(),
                        *eq == self.equalities@[i as int],
                        forall|k: int| 0 <= k < i ==> eq_ok(data, self.predicates@, #[trigger] self.equalities@[k]),
                        !eq_on_opaque(*eq),
                        assoc_free(*eq.value),
                        eq.args@[0].ty is TyVar,
                        1 <= j <= eq.args@.len(),
                        forall|m: int| 1 <= m < j ==> assoc_free(*#[trigger] eq.args@[m]),
                    decreases eq.args@.len() - j,
                {
                    if !eq.args[j].is_assoc_ty_free() {
                        return Err(Errors::from_msg_src(
                            crate::strutil::to_string(
                                "In left side of an equality constraint, arguments of an associated type cannot contain an associated type. NOTE: Instead of using associated type in the argument, e.g., `Elem (Elem c) = I64`, you can write `Elem c = e, Elem e = I64`. We will support more general constraints by implementing such conversion in a future.",
                            ),
                            crate::source::clone_span_opt(&eq.source),
                        ));
                    }
                    j = j + 1;
                }
            }
            let trait_id = eq.assoc_type.trait_id();
            let arg0 = eq.args[0].to_string();
            let mut ok = false;
            let mut k: usize = 0;
            while k < resolved.len()
                invariant
                    k <= resolved@.len(),
                    trait_key(trait_id) == eq_trait_key(*eq),
                    ok == lists(resolved@.take(k as int), eq_trait_key(*eq), arg0@),
                decreases resolved@.len() - k,
            {
                let ghost before = resolved@.take(k as int);
                let same_trait = resolved[k].trait_id == trait_id;
                let ty_text = resolved[k].ty.to_string();
                let same_ty = ty_text == arg0;
                if same_trait && same_ty {
                    ok = true;
                }
                proof {
                    let now = resolved@.take(k + 1);
                    assert(now =~= before.push(resolved@[k as int]));
                    if lists(before, eq_trait_key(*eq), arg0@) {
                        let m = choose|m: int| 0 <= m < before.len() && trait_key((#[trigger] before[m]).trait_id) == eq_trait_key(*eq) && type_text(*before[m].ty) == arg0@;
                        assert(now[m] == before[m]);
                    }
                    if lists(now, eq_trait_key(*eq), arg0@) {
                        let m = choose|m: int| 0 <= m < now.len() && trait_key((#[trigger] now[m]).trait_id) == eq_trait_key(*eq) && type_text(*now[m].ty) == arg0@;
                        if m < k {
                            assert(before[m] == now[m]);
                        } else {
                            assert(now[m] == resolved@[k as int]);
                            assert(same_trait && same_ty);
                        }
                    }
                    if same_trait && same_ty {
                        assert(trait_key(now[k as int].trait_id) == eq_trait_key(*eq));
                        assert(lists(now, eq_trait_key(*eq), arg0@));
                    }
                }
                k = k + 1;
            }
            proof {
                assert(resolved@.take(resolved@.len() as int) =~= resolved@);
            }
            if !ok {
                let pred = Predicate::make(trait_id, eq.args[0].clone());
                let mut msg = crate::strutil::to_string("The equality constraint `");
                let et = eq.to_string();
                proof {
                    let l = choose|l: TypeNode| l.ty is AssocTy && l.ty->AssocTy_0.name@ == eq.assoc_type.name@
                        && l.ty->AssocTy_1@ == eq.args@ && et@ == type_text(l) + " = "@ + type_text(*eq.value);
                    lemma_lhs_text(l, *eq);
                }
                msg.append(et.as_str());
                msg.append("` is invalid here because `");
                msg.append(pred.to_string().as_str());
                msg.append("` is not assumed.");
                assert(pred.trait_id.name@ == eq_trait_view(*eq));
                assert(!eq_assumed(data, self.predicates@, *eq));
                assert(msg@ =~= not_assumed_msg(*eq));
                let e = Errors::from_msg_src(msg, crate::source::clone_span_opt(&eq.source));
                assert(eq_report(*eq, e));
                assert(eqs_err(*self, data, e));
                return Err(e);
            }
        }
        Ok(())
    }
}

/// The names of the type variables standing in `eq`, its arguments and its value.
pub open spec fn eq_names(eq: Equality) -> Set<Seq<char>> {
    args_names(eq.args@) + tyvar_names(*eq.value)
}

/// Whether `eq` is on an opaque type variable, or names none.
pub open spec fn opaque_use_ok(eq: Equality) -> bool {
    eq_on_opaque(eq) || !(exists|n: Seq<char>| eq_names(eq).contains(n) && opaque_name(n))
}

/// Whether every equality constraint of `s` naming an opaque type variable is on one.
pub open spec fn opaque_uses_ok(s: Scheme) -> bool {
    forall|i: int| 0 <= i < s.equalities@.len() ==> opaque_use_ok(#[trigger] s.equalities@[i])
}

/// The report on an equality constraint naming an opaque type variable without being on one.
pub open spec fn msg_opaque_first() -> Seq<char> {
    "The first argument of the left side of an equality constraint involving an opaque type should be an opaque type."@
}

/// Whether `e` reports the first equality constraint of `s` naming an opaque type variable
/// without being on one.
pub open spec fn opaque_uses_err(s: Scheme, e: Errors) -> bool {
    exists|i: int|
        0 <= i < s.equalities@.len() && (forall|k: int| 0 <= k < i ==> opaque_use_ok(#[trigger] s.equalities@[k]))
            && !opaque_use_ok(s.equalities@[i]) && single_report(e, msg_opaque_first(), s.equalities@[i].source)
}

/// The names of the type variables of the types `args`, each once.
fn args_var_names(args: &Vec<Arc<TypeNode>>, names: &mut Vec<Name>)
    requires
        names_distinct(old(names)@),
    ensures
        names_distinct(final(names)@),
        name_set(final(names)@) == name_set(old(names)@) + args_names(args@),
{
    let ghost b = name_set(names@);
    for j in 0..args.len()
        invariant
            names_distinct(names@),
            name_set(names@) == b + args_names(args@.take(j as int)),
    {
        args[j].collect_tyvar_names(names);
        proof {
            assert(args@.take(j + 1).drop_last() =~= args@.take(j as int));
            assert(name_set(names@) =~= b + args_names(args@.take(j + 1)));
        }
    }
    proof {
        assert(args@.take(args@.len() as int) =~= args@);
    }
}

/// The names of the type variables standing in `eq`, each once.
fn eq_var_names(eq: &Equality) -> (r: Vec<Name>)
    ensures
        names_distinct(r@),
        name_set(r@) == eq_names(*eq),
{
    let mut names: Vec<Name> = Vec::new();
    proof {
        assert(crate::strutil::strs(names@) =~= Seq::<Seq<char>>::empty());
        assert(name_set(names@) =~= Set::<Seq<char>>::empty());
    }
    args_var_names(&eq.args, &mut names);
    eq.value.collect_tyvar_names(&mut names);
    assert(name_set(names@) =~= eq_names(*eq));
    names
}

/// Whether one of `names` is the name of an opaque type variable.
fn any_opaque(names: &Vec<Name>) -> (r: bool)
    ensures
        r == exists|n: Seq<char>| name_set(names@).contains(n) && opaque_name(n),
{
    for i in 0..names.len()
        invariant
            forall|j: int| 0 <= j < i ==> !opaque_name(#[trigger] names@[j]@),
    {
        if is_opaque_tyvar(names[i].as_str()) {
            assert(crate::strutil::strs(names@)[i as int] == names@[i as int]@);
            assert(name_set(names@).contains(names@[i as int]@));
            return true;
        }
    }
    proof {
        if exists|n: Seq<char>| name_set(names@).contains(n) && opaque_name(n) {
            let n = choose|n: Seq<char>| name_set(names@).contains(n) && opaque_name(n);
            let j = choose|j: int| 0 <= j < crate::strutil::strs(names@).len() && crate::strutil::strs(names@)[j] == n;
            assert(names@[j]@ == n);
        }
    }
    false
}

impl Scheme {
    /// Checks that every equality constraint naming an opaque type variable is on one.
    fn check_opaque_uses(&self) -> (r: Result<(), Errors>)
        ensures
            r is Ok <==> opaque_uses_ok(*self),
            r matches Err(e) ==> opaque_uses_err(*self, e),
    {
        for i in 0..self.equalities.len()
            invariant
                forall|k: int| 0 <= k < i ==> opaque_use_ok(#[trigger] self.equalities@[k]),
        {
            let eq = &self.equalities[i];
            if !eq.on_opaque_tyvar() {
                let names = eq_var_names(eq);
                if any_opaque(&names) {
                    let e = Errors::from_msg_src(
                        crate::strutil::to_string(
                            "The first argument of the left side of an equality constraint involving an opaque type should be an opaque type.",
                        ),
                        crate::source::clone_span_opt(&eq.source),
                    );
                    assert(opaque_uses_err(*self, e));
                    return Err(e);
                }
            }
        }
        Ok(())
    }
}

/// The names of the type variables of the types of `preds`.
pub open spec fn preds_names(preds: Seq<Predicate>) -> Set<Seq<char>>
    decreases preds.len(),
{
    if preds.len() == 0 {
        Set::empty()
    } else {
        preds_names(preds.drop_last()) + tyvar_names(*preds.last().ty)
    }
}

/// The names of the type variables of those of `eqs` that are not on an opaque type variable.
pub open spec fn plain_eqs_names(eqs: Seq<Equality>) -> Set<Seq<char>>
    decreases eqs.len(),
{
    if eqs.len() == 0 {
        Set::empty()
    } else if eq_on_opaque(eqs.last()) {
        plain_eqs_names(eqs.drop_last())
    } else {
        plain_eqs_names(eqs.drop_last()) + eq_names(eqs.last())
    }
}

/// The names standing in `s` outside the equality constraints on opaque type variables and
/// the parameters of the first `k` of those: the names the parameters of the next such
/// constraint may not take.
pub open spec fn outside_at(s: Scheme, k: int) -> Set<Seq<char>> {
    tyvar_names(*s.ty) + preds_names(s.predicates@) + plain_eqs_names(s.equalities@) + opaque_params(
        s.equalities@.take(k),
    )
}

/// Whether `a` is a type variable, and not an opaque one.
pub open spec fn plain_tyvar_arg(a: Arc<TypeNode>) -> bool {
    a.ty is TyVar && !opaque_name(a.ty->TyVar_0.name@)
}

/// Whether the arguments of `eq` after the first are type variables and none opaque.
pub open spec fn params_plain(eq: Equality) -> bool {
    forall|j: int| 1 <= j < eq.args@.len() ==> plain_tyvar_arg(#[trigger] eq.args@[j])
}

/// Whether no two of the arguments of `eq` after the first carry one name.
pub open spec fn params_distinct(eq: Equality) -> bool {
    forall|a: int, b: int|
        1 <= a < b < eq.args@.len() ==> (#[trigger] eq.args@[a]).ty->TyVar_0.name@ != (
        #[trigger] eq.args@[b]).ty->TyVar_0.name@
}

/// Whether none of the arguments of `eq` after the first carries a name of `outside`.
pub open spec fn params_fresh(eq: Equality, outside: Set<Seq<char>>) -> bool {
    forall|j: int| 1 <= j < eq.args@.len() ==> !outside.contains((#[trigger] eq.args@[j]).ty->TyVar_0.name@)
}

/// Whether the parameters of the equality constraint `eq` on an opaque type variable are
/// distinct plain type variables with names of none of `outside`.
pub open spec fn params_ok(eq: Equality, outside: Set<Seq<char>>) -> bool {
    params_plain(eq) && params_distinct(eq) && params_fresh(eq, outside)
}

/// Whether the parameters of each equality constraint of `s` on an opaque type variable pass.
pub open spec fn opaque_params_ok(s: Scheme) -> bool {
    forall|i: int|
        0 <= i < s.equalities@.len() ==> eq_on_opaque(#[trigger] s.equalities@[i]) ==> params_ok(
            s.equalities@[i],
            outside_at(s, i),
        )
}

/// Whether `e` is the report on the parameters of the equality constraint `eq` on an opaque
/// type variable, which fail with the names `outside` standing elsewhere.
pub open spec fn params_report(eq: Equality, outside: Set<Seq<char>>, e: Errors) -> bool {
    if !params_plain(eq) {
        single_report(
            e,
            "Extra arguments on the left side of an equality constraint involving an opaque type must be type variables."@,
            eq.source,
        )
    } else if !params_distinct(eq) {
        single_report(
            e,
            "Extra arguments on the left side of an equality constraint involving an opaque type must be mutually distinct type variables."@,
            eq.source,
        )
    } else {
        single_report(
            e,
            "Extra arguments on the left side of an equality constraint involving an opaque type must not appear elsewhere in the type signature."@,
            eq.source,
        )
    }
}

/// Whether `e` reports the first equality constraint of `s` on an opaque type variable whose
/// parameters fail.
pub open spec fn opaque_params_err(s: Scheme, e: Errors) -> bool {
    exists|i: int|
        0 <= i < s.equalities@.len() && (forall|k: int|
            0 <= k < i ==> eq_on_opaque(#[trigger] s.equalities@[k]) ==> params_ok(
                s.equalities@[k],
                outside_at(s, k),
            )) && eq_on_opaque(s.equalities@[i]) && !params_ok(s.equalities@[i], outside_at(s, i))
            && params_report(s.equalities@[i], outside_at(s, i), e)
}

/// The names of plain type variables of the parameters of `eq` are the names they carry.
proof fn lemma_params_names(eq: Equality, k: int)
    requires
        params_plain(eq),
        1 <= k <= eq.args@.len(),
    ensures
        args_names(eq.args@.drop_first().take(k - 1)) == Set::new(
            |n: Seq<char>| exists|j: int| 1 <= j < k && (#[trigger] eq.args@[j]).ty->TyVar_0.name@ == n,
        ),
    decreases k,
{
    let tail = eq.args@.drop_first();
    if k > 1 {
        lemma_params_names(eq, k - 1);
        assert(tail.take(k - 1).drop_last() =~= tail.take(k - 2));
        assert(tail.take(k - 1).last() == eq.args@[k - 1]);
        assert(tyvar_names(*eq.args@[k - 1]) =~= set![eq.args@[k - 1].ty->TyVar_0.name@]);
        assert(args_names(tail.take(k - 1)) =~= Set::new(
            |n: Seq<char>| exists|j: int| 1 <= j < k && (#[trigger] eq.args@[j]).ty->TyVar_0.name@ == n,
        )) by {
            assert forall|n: Seq<char>| #[trigger] args_names(tail.take(k - 1)).contains(n) implies exists|j: int|
                1 <= j < k && (#[trigger] eq.args@[j]).ty->TyVar_0.name@ == n by {
                if !args_names(tail.take(k - 2)).contains(n) {
                    assert(eq.args@[k - 1].ty->TyVar_0.name@ == n);
                }
            }
        }
    } else {
        assert(tail.take(0) =~= Seq::<Arc<TypeNode>>::empty());
        assert(Set::new(
            |n: Seq<char>| exists|j: int| 1 <= j < k && (#[trigger] eq.args@[j]).ty->TyVar_0.name@ == n,
        ) =~= Set::<Seq<char>>::empty());
    }
}

/// The name of the type variable `a`.
fn tyvar_name_of(a: &Arc<TypeNode>) -> (r: &Name)
    requires
        a.ty is TyVar,
    ensures
        r@ == a.ty->TyVar_0.name@,
{
    match &a.ty {
        Type::TyVar(tv) => &tv.name,
        _ => unreached(),
    }
}

impl Scheme {
    /// The names standing in the scheme outside the equality constraints on opaque type
    /// variables, each once.
    fn outside_names(&self) -> (r: Vec<Name>)
        ensures
            names_distinct(r@),
            name_set(r@) == outside_at(*self, 0),
    {
        let mut names: Vec<Name> = Vec::new();
        proof {
            assert(crate::strutil::strs(names@) =~= Seq::<Seq<char>>::empty());
            assert(name_set(names@) =~= Set::<Seq<char>>::empty());
        }
        self.ty.collect_tyvar_names(&mut names);
        let ghost b = name_set(names@);
        for i in 0..self.predicates.len()
            invariant
                names_distinct(names@),
                name_set(names@) == b + preds_names(self.predicates@.take(i as int)),
        {
            self.predicates[i].ty.collect_tyvar_names(&mut names);
            proof {
                assert(self.predicates@.take(i + 1).drop_last() =~= self.predicates@.take(i as int));
                assert(name_set(names@) =~= b + preds_names(self.predicates@.take(i + 1)));
            }
        }
        assert(self.predicates@.take(self.predicates@.len() as int) =~= self.predicates@);
        let ghost c = name_set(names@);
        for i in 0..self.equalities.len()
            invariant
                names_distinct(names@),
                name_set(names@) == c + plain_eqs_names(self.equalities@.take(i as int)),
        {
            let eq = &self.equalities[i];
            proof {
                assert(self.equalities@.take(i + 1).drop_last() =~= self.equalities@.take(i as int));
            }
            if !eq.on_opaque_tyvar() {
                args_var_names(&eq.args, &mut names);
                eq.value.collect_tyvar_names(&mut names);
                assert(name_set(names@) =~= c + plain_eqs_names(self.equalities@.take(i + 1)));
            }
        }
        assert(self.equalities@.take(self.equalities@.len() as int) =~= self.equalities@);
        assert(self.equalities@.take(0) =~= Seq::<Equality>::empty());
        assert(name_set(names@) =~= outside_at(*self, 0));
        names
    }

    /// Checks the parameters of each equality constraint on an opaque type variable: distinct
    /// plain type variables, named nowhere else in the scheme.
    fn check_opaque_params(&self) -> (r: Result<(), Errors>)
        ensures
            r is Ok <==> opaque_params_ok(*self),
            r matches Err(e) ==> opaque_params_err(*self, e),
    {
        let mut outside = self.outside_names();
        for i in 0..self.equalities.len()
            invariant
                names_distinct(outside@),
                name_set(outside@) == outside_at(*self, i as int),
                forall|k: int|
                    0 <= k < i ==> eq_on_opaque(#[trigger] self.equalities@[k]) ==> params_ok(
                        self.equalities@[k],
                        outside_at(*self, k),
                    ),
        {
            let eq = &self.equalities[i];
            proof {
                assert(self.equalities@.take(i + 1).drop_last() =~= self.equalities@.take(i as int));
                assert(self.equalities@.take(i + 1).last() == *eq);
            }
            if eq.on_opaque_tyvar() {
                let n = eq.args.len();
                let mut j: usize = 1;
                while j < n
                    invariant
                        i < self.equalities@.len(),
                        *eq == self.equalities@[i as int],
                        eq_on_opaque(*eq),
                        names_distinct(outside@),
                        name_set(outside@) == outside_at(*self, i as int),
                        forall|k: int|
                            0 <= k < i ==> eq_on_opaque(#[trigger] self.equalities@[k]) ==> params_ok(
                                self.equalities@[k],
                                outside_at(*self, k),
                            ),
                        n == eq.args@.len(),
                        1 <= j <= n,
                        forall|m: int| 1 <= m < j ==> plain_tyvar_arg(#[trigger] eq.args@[m]),
                    decreases n - j,
                {
                    let plain = match &eq.args[j].ty {
                        Type::TyVar(tv) => !is_opaque_tyvar(tv.name.as_str()),
                        _ => false,
                    };
                    if !plain {
                        let e = Errors::from_msg_src(
                            crate::strutil::to_string(
                                "Extra arguments on the left side of an equality constraint involving an opaque type must be type variables.",
                            ),
                            crate::source::clone_span_opt(&eq.source),
                        );
                        assert(!params_plain(*eq));
                        assert(opaque_params_err(*self, e));
                        return Err(e);
                    }
                    j = j + 1;
                }
                let mut params: Vec<Name> = Vec::new();
                proof {
                    assert(crate::strutil::strs(params@) =~= Seq::<Seq<char>>::empty());
                    assert(name_set(params@) =~= Set::<Seq<char>>::empty());
                }
                let mut j: usize = 1;
                while j < n
                    invariant
                        i < self.equalities@.len(),
                        *eq == self.equalities@[i as int],
                        eq_on_opaque(*eq),
                        names_distinct(outside@),
                        name_set(outside@) == outside_at(*self, i as int),
                        forall|k: int|
                            0 <= k < i ==> eq_on_opaque(#[trigger] self.equalities@[k]) ==> params_ok(
                                self.equalities@[k],
                                outside_at(*self, k),
                            ),
                        n == eq.args@.len(),
                        1 <= j <= n,
                        params_plain(*eq),
                        names_distinct(params@),
                        name_set(params@) == Set::new(
                            |nm: Seq<char>| exists|m: int| 1 <= m < j && (#[trigger] eq.args@[m]).ty->TyVar_0.name@ == nm,
                        ),
                        forall|a: int, b: int|
                            1 <= a < b < j ==> (#[trigger] eq.args@[a]).ty->TyVar_0.name@ != (
                            #[trigger] eq.args@[b]).ty->TyVar_0.name@,
                    decreases n - j,
                {
                    assert(plain_tyvar_arg(eq.args@[j as int]));
                    let name = tyvar_name_of(&eq.args[j]);
                    if contains_name(&params, name) {
                        let e = Errors::from_msg_src(
                            crate::strutil::to_string(
                                "Extra arguments on the left side of an equality constraint involving an opaque type must be mutually distinct type variables.",
                            ),
                            crate::source::clone_span_opt(&eq.source),
                        );
                        proof {
                            let m = choose|m: int| 1 <= m < j && (#[trigger] eq.args@[m]).ty->TyVar_0.name@ == name@;
                            assert(!params_distinct(*eq)) by {
                                assert(eq.args@[m].ty->TyVar_0.name@ == eq.args@[j as int].ty->TyVar_0.name@);
                            }
                            assert(opaque_params_err(*self, e));
                        }
                        return Err(e);
                    }
                    insert_name(&mut params, name);
                    proof {
                        assert(name_set(params@) =~= Set::new(
                            |nm: Seq<char>| exists|m: int| 1 <= m < j + 1 && (#[trigger] eq.args@[m]).ty->TyVar_0.name@ == nm,
                        )) by {
                            assert forall|nm: Seq<char>| #[trigger] name_set(params@).contains(nm) implies exists|m: int|
                                1 <= m < j + 1 && (#[trigger] eq.args@[m]).ty->TyVar_0.name@ == nm by {
                                if nm == name@ {
                                    assert(eq.args@[j as int].ty->TyVar_0.name@ == nm);
                                }
                            }
                        }
                        assert forall|a: int, b: int|
                            1 <= a < b < j + 1 implies (#[trigger] eq.args@[a]).ty->TyVar_0.name@ != (
                            #[trigger] eq.args@[b]).ty->TyVar_0.name@ by {
                            if b == j {
                                if eq.args@[a].ty->TyVar_0.name@ == name@ {
                                    assert(Set::new(
                                        |nm: Seq<char>| exists|m: int| 1 <= m < j && (#[trigger] eq.args@[m]).ty->TyVar_0.name@ == nm,
                                    ).contains(name@));
                                }
                            }
                        }
                    }
                    j = j + 1;
                }
                let mut j: usize = 1;
                while j < n
                    invariant
                        i < self.equalities@.len(),
                        *eq == self.equalities@[i as int],
                        eq_on_opaque(*eq),
                        names_distinct(outside@),
                        name_set(outside@) == outside_at(*self, i as int),
                        forall|k: int|
                            0 <= k < i ==> eq_on_opaque(#[trigger] self.equalities@[k]) ==> params_ok(
                                self.equalities@[k],
                                outside_at(*self, k),
                            ),
                        n == eq.args@.len(),
                        1 <= j <= n,
                        params_plain(*eq),
                        params_distinct(*eq),
                        name_set(outside@) == outside_at(*self, i as int),
                        forall|m: int| 1 <= m < j ==> !outside_at(*self, i as int).contains((#[trigger] eq.args@[m]).ty->TyVar_0.name@),
                    decreases n - j,
                {
                    assert(plain_tyvar_arg(eq.args@[j as int]));
                    let name = tyvar_name_of(&eq.args[j]);
                    if contains_name(&outside, name) {
                        let e = Errors::from_msg_src(
                            crate::strutil::to_string(
                                "Extra arguments on the left side of an equality constraint involving an opaque type must not appear elsewhere in the type signature.",
                            ),
                            crate::source::clone_span_opt(&eq.source),
                        );
                        assert(!params_fresh(*eq, outside_at(*self, i as int)));
                        assert(opaque_params_err(*self, e));
                        return Err(e);
                    }
                    j = j + 1;
                }
                union_names(&mut outside, &params);
                proof {
                    lemma_params_names(*eq, n as int);
                    assert(eq.args@.drop_first().take(n - 1) =~= eq.args@.drop_first());
                    assert(name_set(outside@) =~= outside_at(*self, i + 1));
                }
            } else {
                assert(outside_at(*self, i + 1) =~= outside_at(*self, i as int));
            }
        }
        Ok(())
    }
}

/// Whether no two equality constraints of `s` have left sides written alike.
pub open spec fn lhs_unique(s: Scheme) -> bool {
    forall|a: int, b: int|
        0 <= a < b < s.equalities@.len() ==> lhs_text(#[trigger] s.equalities@[a]) != lhs_text(
            #[trigger] s.equalities@[b],
        )
}

/// Whether `e` reports the first pair of equality constraints of `s`, by the first of them and
/// then the second, whose left sides are written alike.
pub open spec fn lhs_dup_err(s: Scheme, e: Errors) -> bool {
    exists|i: int, j: int|
        #![trigger s.equalities@[i], s.equalities@[j]]
        0 <= i < j < s.equalities@.len() && lhs_text(s.equalities@[i]) == lhs_text(s.equalities@[j])
            && (forall|a: int, b: int|
            0 <= a < b < s.equalities@.len() && (a < i || (a == i && b < j)) ==> lhs_text(
                #[trigger] s.equalities@[a],
            ) != lhs_text(#[trigger] s.equalities@[b])) && e.errs@.len() == 1 && e.errs@[0].msg@
            == "Multiple equality constraints with the same left side are not allowed."@ && e.errs@[0].srcs@
            == seq![s.equalities@[i].source, s.equalities@[j].source]
}

/// Each type variable standing in the body of `s`, with where it first stands.
pub open spec fn occurrences(s: Scheme) -> Seq<(Arc<TyVar>, Option<Span>)> {
    push_free_vars_span(eqs_occurrences(preds_occurrences(Seq::empty(), s.predicates@), s.equalities@), *s.ty)
}

/// The names the body of `s` fixes.
pub open spec fn fixed_set(s: Scheme) -> Set<Seq<char>> {
    fixed_names(*s.ty) + eq_values_fixed(s.equalities@)
}

/// Whether the `j`-th of `occ` is the first type variable named `name`.
pub open spec fn first_occ(occ: Seq<(Arc<TyVar>, Option<Span>)>, name: Seq<char>, j: int) -> bool {
    &&& 0 <= j < occ.len()
    &&& occ[j].0.name@ == name
    &&& forall|m: int| 0 <= m < j ==> (#[trigger] occ[m]).0.name@ != name
}

/// Whether the `k`-th variable `s` is generalized over is fixed by its body, or does not stand
/// in it.
pub open spec fn gen_fixed(s: Scheme, k: int) -> bool {
    fixed_set(s).contains(s.gen_vars@[k].name@) || !exists|j: int|
        0 <= j < occurrences(s).len() && (#[trigger] occurrences(s)[j]).0.name@ == s.gen_vars@[k].name@
}

/// Whether every variable `s` is generalized over that stands in its body is fixed by it.
pub open spec fn gens_fixed(s: Scheme) -> bool {
    forall|k: int| 0 <= k < s.gen_vars@.len() ==> #[trigger] gen_fixed(s, k)
}

/// Whether `e` reports the first variable `s` is generalized over that stands in its body
/// without being fixed, pointing where it first stands.
pub open spec fn unfixed_err(s: Scheme, e: Errors) -> bool {
    exists|k: int, j: int|
        #![trigger gen_fixed(s, k), first_occ(occurrences(s), s.gen_vars@[k].name@, j)]
        0 <= k < s.gen_vars@.len() && (forall|m: int| 0 <= m < k ==> #[trigger] gen_fixed(s, m)) && !gen_fixed(s, k)
            && first_occ(occurrences(s), s.gen_vars@[k].name@, j) && e.errs@.len() == 1 && e.errs@[0].msg@
            == unfixed_message(s.gen_vars@[k].name@, "outside of any associated type application"@)
            && e.errs@[0].srcs@ == seq![occurrences(s)[j].1]
}

impl Scheme {
    /// Checks that no two equality constraints have left sides written alike.
    fn check_lhs_unique(&self) -> (r: Result<(), Errors>)
        ensures
            r is Ok <==> lhs_unique(*self),
            r matches Err(e) ==> lhs_dup_err(*self, e),
    {
        let n = self.equalities.len();
        let mut texts: Vec<String> = Vec::new();
        for i in 0..n
            invariant
                n == self.equalities@.len(),
                texts@.len() == i,
                forall|a: int| 0 <= a < i ==> (#[trigger] texts@[a])@ == lhs_text(self.equalities@[a]),
        {
            let l = self.equalities[i].lhs();
            let t = l.to_string();
            let lr: &TypeNode = &*l;
            proof {
                lemma_lhs_text(*lr, self.equalities@[i as int]);
            }
            texts.push(t);
        }
        let mut i: usize = 0;
        while i < n
            invariant
                n == self.equalities@.len(),
                texts@.len() == n,
                forall|a: int| 0 <= a < n ==> (#[trigger] texts@[a])@ == lhs_text(self.equalities@[a]),
                i <= n,
                forall|a: int, b: int|
                    0 <= a < b < n && a < i ==> lhs_text(#[trigger] self.equalities@[a]) != lhs_text(
                        #[trigger] self.equalities@[b],
                    ),
            decreases n - i,
        {
            let mut j: usize = i + 1;
            while j < n
                invariant
                    n == self.equalities@.len(),
                    texts@.len() == n,
                    forall|a: int| 0 <= a < n ==> (#[trigger] texts@[a])@ == lhs_text(self.equalities@[a]),
                    i < n,
                    i + 1 <= j <= n,
                    forall|a: int, b: int|
                        0 <= a < b < n && a < i ==> lhs_text(#[trigger] self.equalities@[a]) != lhs_text(
                            #[trigger] self.equalities@[b],
                        ),
                    forall|b: int| i < b < j ==> lhs_text(self.equalities@[i as int]) != lhs_text(
                        #[trigger] self.equalities@[b],
                    ),
                decreases n - j,
            {
                if texts[i] == texts[j] {
                    let mut srcs: Vec<Option<Span>> = Vec::new();
                    srcs.push(crate::source::clone_span_opt(&self.equalities[i].source));
                    srcs.push(crate::source::clone_span_opt(&self.equalities[j].source));
                    let e = Errors::from_msg_srcs(
                        crate::strutil::to_string(
                            "Multiple equality constraints with the same left side are not allowed.",
                        ),
                        srcs,
                    );
                    proof {
                        assert(texts@[i as int]@ == texts@[j as int]@);
                        assert(e.errs@[0].srcs@ =~= seq![self.equalities@[i as int].source, self.equalities@[j as int].source]);
                        assert forall|a: int, b: int|
                            0 <= a < b < self.equalities@.len() && (a < i || (a == i && b < j)) implies lhs_text(
                            #[trigger] self.equalities@[a],
                        ) != lhs_text(#[trigger] self.equalities@[b]) by {
                            if a == i {
                                assert(i < b < j);
                            }
                        }
                        assert(lhs_dup_err(*self, e));
                    }
                    return Err(e);
                }
                j = j + 1;
            }
            i = i + 1;
        }
        Ok(())
    }

    /// Checks that every variable the scheme is generalized over that stands in its body is fixed
    /// by it.
    fn check_fixed(&self) -> (r: Result<(), Errors>)
        ensures
            r is Ok <==> gens_fixed(*self),
            r matches Err(e) ==> unfixed_err(*self, e),
    {
        let fixed = self.fixed_vars();
        let occ = self.all_tyvar_occurrences_with_span();
        let ghost os = occurrences(*self);
        for k in 0..self.gen_vars.len()
            invariant
                name_set(fixed@) == fixed_set(*self),
                occ@ == os,
                os == occurrences(*self),
                forall|m: int| 0 <= m < k ==> #[trigger] gen_fixed(*self, m),
        {
            let gv = &self.gen_vars[k];
            if !contains_name(&fixed, &gv.name) {
                let mut j: usize = 0;
                while j < occ.len()
                    invariant
                        occ@ == os,
                        os == occurrences(*self),
                        k < self.gen_vars@.len(),
                        *gv == self.gen_vars@[k as int],
                        !fixed_set(*self).contains(gv.name@),
                        forall|m: int| 0 <= m < k ==> #[trigger] gen_fixed(*self, m),
                        j <= occ@.len(),
                        forall|m: int| 0 <= m < j ==> (#[trigger] os[m]).0.name@ != gv.name@,
                    decreases occ@.len() - j,
                {
                    if occ[j].0.name == gv.name {
                        let e = unfixed_type_variable_error(
                            &gv.name,
                            "outside of any associated type application",
                            &occ[j].1,
                        );
                        proof {
                            assert(first_occ(os, gv.name@, j as int));
                            assert(!gen_fixed(*self, k as int));
                            assert(unfixed_err(*self, e));
                        }
                        return Err(e);
                    }
                    j = j + 1;
                }
                proof {
                    assert(gen_fixed(*self, k as int)) by {
                        if exists|j: int| 0 <= j < os.len() && (#[trigger] os[j]).0.name@ == gv.name@ {
                            let j = choose|j: int| 0 <= j < os.len() && (#[trigger] os[j]).0.name@ == gv.name@;
                            assert(os[j].0.name@ != gv.name@);
                        }
                    }
                }
            }
        }
        Ok(())
    }
}

/// Whether the constraints of `s` pass every check, the trait aliases being `data`.
pub open spec fn constraints_ok(s: Scheme, data: Seq<TraitAlias>) -> bool {
    &&& preds_form_ok(s)
    &&& aliases_ok(s, data)
    &&& eqs_ok(s, data)
    &&& opaque_uses_ok(s)
    &&& opaque_params_ok(s)
    &&& lhs_unique(s)
    &&& gens_fixed(s)
}

/// Whether `e` is the report of the first check of the constraints of `s` that fails: the form
/// of the trait constraints, their aliases, the equality constraints, the use of opaque type
/// variables, the parameters of constraints on them, repeated left sides, and unfixed
/// variables, in that order.
pub open spec fn constraints_err(s: Scheme, data: Seq<TraitAlias>, e: Errors) -> bool {
    if !preds_form_ok(s) {
        preds_form_err(s, e)
    } else if !aliases_ok(s, data) {
        aliases_err(s, data, e)
    } else if !eqs_ok(s, data) {
        eqs_err(s, data, e)
    } else if !opaque_uses_ok(s) {
        opaque_uses_err(s, e)
    } else if !opaque_params_ok(s) {
        opaque_params_err(s, e)
    } else if !lhs_unique(s) {
        lhs_dup_err(s, e)
    } else {
        unfixed_err(s, e)
    }
}

impl Scheme {
    /// Rejects a scheme whose constraints are in a form the type checker cannot work with, or
    /// whose generalized variables a use site could not determine; `aliases` are the trait
    /// aliases the trait constraints are resolved with. The first check that fails decides the
    /// report; see `constraints_err`.
    pub fn validate_constraints(&self, aliases: &TraitAliasEnv) -> (r: Result<(), Errors>)
        requires
            eqs_well_formed(*self),
        ensures
            r is Ok <==> constraints_ok(*self, aliases.data@),
            r matches Err(e) ==> constraints_err(*self, aliases.data@, e),
    {
        self.check_preds_form()?;
        let resolved = self.resolve_preds(aliases)?;
        self.check_eqs(aliases, &resolved)?;
        self.check_opaque_uses()?;
        self.check_opaque_params()?;
        self.check_lhs_unique()?;
        self.check_fixed()
    }
}

} // verus!
