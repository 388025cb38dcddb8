//! Type schemes: a type with the constraints it carries, generalized over type variables, as a
//! global value, a trait member or a method implementation is checked against.
use crate::ast::equality::{
    eq_read_kinds_known, eqs_node_at, find_in_eqs, kinds_fit_seq, push_free_vars_seq, Equality,
};
use crate::ast::kind_scope::{
    assoc_key, env_assoc_info, env_trait_kind, eq_assoc_known, extend_all, extend_signs,
    lemma_extend_signs_stop, mismatch_message, pred_known, trait_key, KindEnv, KindScope,
};
use crate::ast::name::Name;
use crate::ast::predicate::{
    predicate_text,
    as_node_at, find_in_preds, lemma_part_found, node_at_found, preds_node_at, Predicate,
};
use crate::ast::program::EndNode;
use crate::ast::traits::{clone_signs, KindSignature};
use crate::ast::types::{
    fixed_names, has_var_named, insert_name, name_set, names_distinct, push_free_vars,
    tyvar_names, kind_of, kinds_known, kinds_set, part_at, type_text, absolute_names, name_made_absolute,
    TyVar, Type, TypeNode,
};
use crate::constants::{spec_type_wildcard_prefix, type_wildcard_prefix};
use crate::error::Errors;
use crate::source::{clone_span_opt, SourcePos, Span};
use crate::strutil::{join, join_strings, starts_with, str_starts_with, strs, to_string};
use crate::order::{sort_dedup, sort_dedup_strings, string_views};
use crate::ast::digest::{renamed_text, tyvars_renamed};
use crate::ast::name::fullname_text;
use std::sync::Arc;
use vstd::prelude::*;

verus! {

broadcast use vstd::std_specs::vec::axiom_vec_index_decreases;

/// A type with the constraints it carries, generalized over a set of type variables.
pub struct Scheme {
    /// The type variables the scheme is generalized over; a use site chooses a type for each.
    pub gen_vars: Vec<Arc<TyVar>>,
    /// Kind annotations on type variables, as the signature writes them.
    pub kind_signs: Vec<KindSignature>,
    /// Trait constraints, e.g. `a : Show`.
    pub predicates: Vec<Predicate>,
    /// Equality constraints on associated types, e.g. `Item c = e`.
    pub equalities: Vec<Equality>,
    /// The type the constraints qualify.
    pub ty: Arc<TypeNode>,
}

/// Whether `name` is the name of an opaque type variable, which is written with a leading `?`.
pub open spec fn opaque_name(name: Seq<char>) -> bool {
    starts_with(name, "?"@)
}

/// Whether a type variable name stands for an opaque type variable, which a source line
/// writes with a leading `?`.
pub fn is_opaque_tyvar(name: &str) -> (r: bool)
    ensures
        r == opaque_name(name@),
{
    str_starts_with(name, "?")
}

/// Whether a type variable name stands for a `_` written in a type, which the compiler names
/// with the type wildcard prefix.
pub fn is_type_wildcard_tyvar(name: &str) -> (r: bool)
    ensures
        r == starts_with(name@, spec_type_wildcard_prefix()),
{
    str_starts_with(name, type_wildcard_prefix())
}

/// `buf` followed by each type variable the types of the trait constraints `preds` hold that it
/// lacks, in the order they first stand in them.
pub open spec fn preds_free_vars(buf: Seq<Arc<TyVar>>, preds: Seq<Predicate>) -> Seq<Arc<TyVar>>
    decreases preds.len(),
{
    if preds.len() == 0 {
        buf
    } else {
        push_free_vars(preds_free_vars(buf, preds.drop_last()), *preds.last().ty)
    }
}

/// `buf` followed by each type variable the equality constraints `eqs` hold that it lacks, the
/// arguments of each before its value.
pub open spec fn eqs_free_vars(buf: Seq<Arc<TyVar>>, eqs: Seq<Equality>) -> Seq<Arc<TyVar>>
    decreases eqs.len(),
{
    if eqs.len() == 0 {
        buf
    } else {
        push_free_vars(push_free_vars_seq(eqs_free_vars(buf, eqs.drop_last()), eqs.last().args@), *eqs.last().value)
    }
}

/// The type variables standing in `preds`, `eqs` and `ty`, each once, in the order they first
/// stand there.
pub open spec fn constraint_free_vars(preds: Seq<Predicate>, eqs: Seq<Equality>, ty: TypeNode) -> Seq<Arc<TyVar>> {
    push_free_vars(eqs_free_vars(preds_free_vars(Seq::empty(), preds), eqs), ty)
}

/// The type variables standing in the trait constraints `preds`, the equality constraints `eqs`
/// and the type `ty`, each once, in the order they first stand there.
pub fn collect_free_vars(preds: &[Predicate], eqs: &[Equality], ty: &Arc<TypeNode>) -> (r: Vec<Arc<TyVar>>)
    ensures
        r@ == constraint_free_vars(preds@, eqs@, **ty),
{
    let mut vars: Vec<Arc<TyVar>> = Vec::new();
    for i in 0..preds.len()
        invariant
            vars@ == preds_free_vars(Seq::empty(), preds@.take(i as int)),
    {
        preds[i].free_vars_to_vec(&mut vars);
        proof {
            assert(preds@.take(i + 1).drop_last() =~= preds@.take(i as int));
        }
    }
    proof {
        assert(preds@.take(preds@.len() as int) =~= preds@);
    }
    let ghost after_preds = vars@;
    for i in 0..eqs.len()
        invariant
            vars@ == eqs_free_vars(after_preds, eqs@.take(i as int)),
    {
        eqs[i].free_vars_to_vec(&mut vars);
        proof {
            assert(eqs@.take(i + 1).drop_last() =~= eqs@.take(i as int));
        }
    }
    proof {
        assert(eqs@.take(eqs@.len() as int) =~= eqs@);
    }
    ty.free_vars_to_vec(&mut vars);
    vars
}

/// The report that a type signature leaves `tyvar` undetermined.
pub open spec fn unfixed_message(tyvar: Seq<char>, where_it_must_appear: Seq<char>) -> Seq<char> {
    "Type variable `"@ + tyvar
        + "` is not fixed by this type signature, which makes it ambiguous. NOTE: `"@ + tyvar
        + "` must appear "@ + where_it_must_appear + "."@
}

/// The report that a type signature leaves `tyvar_name` undetermined, so that a use site cannot
/// tell which types the signature is instantiated at: `where_it_must_appear` completes "must
/// appear ...", and `src` is where the report points.
pub fn unfixed_type_variable_error(tyvar_name: &Name, where_it_must_appear: &str, src: &Option<Span>) -> (r: Errors)
    ensures
        r.errs@.len() == 1,
        r.errs@[0].msg@ == unfixed_message(tyvar_name@, where_it_must_appear@),
        r.errs@[0].srcs@ == seq![*src],
{
    let mut msg = to_string("Type variable `");
    msg.append(tyvar_name.as_str());
    msg.append("` is not fixed by this type signature, which makes it ambiguous. NOTE: `");
    msg.append(tyvar_name.as_str());
    msg.append("` must appear ");
    msg.append(where_it_must_appear);
    msg.append(".");
    let mut srcs: Vec<Option<Span>> = Vec::new();
    srcs.push(clone_span_opt(src));
    let r = Errors::from_msg_srcs(msg, srcs);
    assert(r.errs@[0].srcs@ =~= seq![*src]);
    r
}

/// Whether the equality constraint `eq` is on an opaque type variable: the type its associated
/// type is applied to first is one.
pub open spec fn eq_on_opaque(eq: Equality) -> bool {
    &&& eq.args@.len() > 0
    &&& eq.args@[0].ty is TyVar
    &&& opaque_name(eq.args@[0].ty->TyVar_0.name@)
}

impl Equality {
    /// Whether the constraint is on an opaque type variable: the type its associated type is
    /// applied to first is one.
    pub fn on_opaque_tyvar(&self) -> (r: bool)
        ensures
            r == eq_on_opaque(*self),
    {
        if self.args.len() == 0 {
            return false;
        }
        match &self.args[0].ty {
            Type::TyVar(tv) => is_opaque_tyvar(tv.name.as_str()),
            _ => false,
        }
    }
}

/// The names of the type variables standing in the arguments after the first of each equality
/// constraint of `eqs` on an opaque type variable: the formal parameters of those constraints.
pub open spec fn opaque_params(eqs: Seq<Equality>) -> Set<Seq<char>>
    decreases eqs.len(),
{
    if eqs.len() == 0 {
        Set::empty()
    } else if eq_on_opaque(eqs.last()) {
        opaque_params(eqs.drop_last()) + args_names(eqs.last().args@.drop_first())
    } else {
        opaque_params(eqs.drop_last())
    }
}

/// The names of the type variables standing in the types `args`.
pub open spec fn args_names(args: Seq<Arc<TypeNode>>) -> Set<Seq<char>>
    decreases args.len(),
{
    if args.len() == 0 {
        Set::empty()
    } else {
        args_names(args.drop_last()) + tyvar_names(*args.last())
    }
}

/// The variables of `vars` a scheme is generalized over: all but the opaque ones and those
/// named in `params`, in order.
pub open spec fn generalizable(vars: Seq<Arc<TyVar>>, params: Set<Seq<char>>) -> Seq<Arc<TyVar>>
    decreases vars.len(),
{
    if vars.len() == 0 {
        Seq::empty()
    } else {
        let rest = generalizable(vars.drop_last(), params);
        let tv = vars.last();
        if !opaque_name(tv.name@) && !params.contains(tv.name@) {
            rest.push(tv)
        } else {
            rest
        }
    }
}

/// The variables of `vars` kept for generalization are exactly those of `vars` that are neither
/// opaque (named with a leading `?`) nor named in `params`.
pub proof fn lemma_generalizable_members(vars: Seq<Arc<TyVar>>, params: Set<Seq<char>>)
    ensures
        forall|i: int| 0 <= i < generalizable(vars, params).len() ==> {
            let v = #[trigger] generalizable(vars, params)[i];
            &&& !starts_with(v.name@, "?"@)
            &&& !params.contains(v.name@)
            &&& vars.contains(v)
        },
        forall|i: int|
            0 <= i < vars.len() && !starts_with((#[trigger] vars[i]).name@, "?"@) && !params.contains(
                vars[i].name@,
            ) ==> generalizable(vars, params).contains(vars[i]),
    decreases vars.len(),
{
    if vars.len() > 0 {
        let rest = vars.drop_last();
        lemma_generalizable_members(rest, params);
        let g = generalizable(vars, params);
        let gr = generalizable(rest, params);
        assert forall|i: int| 0 <= i < g.len() implies ({
            let v = #[trigger] g[i];
            &&& !starts_with(v.name@, "?"@)
            &&& !params.contains(v.name@)
            &&& vars.contains(v)
        }) by {
            if i < gr.len() {
                let v = gr[i];
                let j = choose|j: int| 0 <= j < rest.len() && rest[j] == v;
                assert(vars[j] == v);
            } else {
                assert(vars[vars.len() - 1] == vars.last());
            }
        }
        assert forall|i: int|
            0 <= i < vars.len() && !starts_with((#[trigger] vars[i]).name@, "?"@) && !params.contains(
                vars[i].name@,
            ) implies g.contains(vars[i]) by {
            if i < rest.len() {
                assert(rest[i] == vars[i]);
                let j = choose|j: int| 0 <= j < gr.len() && gr[j] == rest[i];
                assert(g[j] == gr[j]);
            } else {
                assert(g[g.len() - 1] == vars.last());
            }
        }
    }
}

/// `Scheme::generalize` quantifies over no opaque type variable, one whose name begins with `?`:
/// such a variable, and every variable an opaque equality takes as a parameter, stays free in
/// the scheme. Every other variable standing in the constraints or the type is quantified.
pub proof fn law_generalize_leaves_opaque_variables_free(preds: Seq<Predicate>, eqs: Seq<Equality>, ty: TypeNode)
    ensures
        ({
            let vars = constraint_free_vars(preds, eqs, ty);
            let gen = generalizable(vars, opaque_params(eqs));
            &&& forall|i: int| 0 <= i < gen.len() ==> !starts_with((#[trigger] gen[i]).name@, "?"@)
            &&& forall|i: int| 0 <= i < gen.len() ==> !opaque_params(eqs).contains((#[trigger] gen[i]).name@)
            &&& forall|i: int| 0 <= i < gen.len() ==> vars.contains(#[trigger] gen[i])
            &&& forall|i: int|
                0 <= i < vars.len() && !starts_with((#[trigger] vars[i]).name@, "?"@) && !opaque_params(
                    eqs,
                ).contains(vars[i].name@) ==> gen.contains(vars[i])
        }),
{
    lemma_generalizable_members(constraint_free_vars(preds, eqs, ty), opaque_params(eqs));
}

/// The variables of `vars` not named as one of `gen_vars`, in order.
pub open spec fn not_generalized(vars: Seq<Arc<TyVar>>, gen_vars: Seq<Arc<TyVar>>) -> Seq<Arc<TyVar>>
    decreases vars.len(),
{
    if vars.len() == 0 {
        Seq::empty()
    } else {
        let rest = not_generalized(vars.drop_last(), gen_vars);
        if has_var_named(gen_vars, vars.last().name@) {
            rest
        } else {
            rest.push(vars.last())
        }
    }
}

/// A copy of each kind annotation of `v`.
fn clone_kind_signs(v: &[KindSignature]) -> (r: Vec<KindSignature>)
    ensures
        r@ == v@,
{
    let mut r: Vec<KindSignature> = Vec::new();
    for i in 0..v.len()
        invariant
            r@ == v@.take(i as int),
    {
        r.push(v[i].clone());
        assert(r@ =~= v@.take(i + 1));
    }
    assert(v@.take(v@.len() as int) =~= v@);
    r
}

impl Scheme {
    /// The scheme generalized over exactly `vars`.
    pub fn new_arc(
        vars: Vec<Arc<TyVar>>,
        kind_signs: Vec<KindSignature>,
        preds: Vec<Predicate>,
        eqs: Vec<Equality>,
        ty: Arc<TypeNode>,
    ) -> (r: Arc<Scheme>)
        ensures
            r.gen_vars == vars,
            r.kind_signs == kind_signs,
            r.predicates == preds,
            r.equalities == eqs,
            r.ty == ty,
    {
        Arc::new(Scheme { gen_vars: vars, kind_signs, predicates: preds, equalities: eqs, ty })
    }

    /// The scheme of `ty` alone, carrying no constraint and generalized over nothing.
    pub fn from_type(ty: Arc<TypeNode>) -> (r: Arc<Scheme>)
        ensures
            r.gen_vars@.len() == 0,
            r.kind_signs@.len() == 0,
            r.predicates@.len() == 0,
            r.equalities@.len() == 0,
            r.ty == ty,
    {
        Scheme::new_arc(Vec::new(), Vec::new(), Vec::new(), Vec::new(), ty)
    }

    /// The scheme generalized over the type variables standing in the constraints and in the
    /// type, in the order they first stand there. An opaque type variable stays free, and so
    /// does a variable serving as a formal parameter of an equality on one.
    pub fn generalize(kind_signs: &[KindSignature], preds: Vec<Predicate>, eqs: Vec<Equality>, ty: Arc<TypeNode>) -> (r: Arc<Scheme>)
        ensures
            r.gen_vars@ == generalizable(constraint_free_vars(preds@, eqs@, *ty), opaque_params(eqs@)),
            r.kind_signs@ == kind_signs@,
            r.predicates == preds,
            r.equalities == eqs,
            r.ty == ty,
    {
        let vars = collect_free_vars(preds.as_slice(), eqs.as_slice(), &ty);
        let mut params: Vec<String> = Vec::new();
        proof {
            lemma_no_names();
        }
        for i in 0..eqs.len()
            invariant
                names_distinct(params@),
                name_set(params@) == opaque_params(eqs@.take(i as int)),
        {
            proof {
                assert(eqs@.take(i + 1).drop_last() =~= eqs@.take(i as int));
                assert(eqs@.take(i + 1).last() == eqs@[i as int]);
            }
            if eqs[i].on_opaque_tyvar() {
                let args = &eqs[i].args;
                let ghost before = params@;
                for j in 1..args.len()
                    invariant
                        args@ == eqs@[i as int].args@,
                        args@.len() > 0,
                        names_distinct(params@),
                        name_set(params@) == name_set(before) + args_names(args@.drop_first().take(j - 1)),
                {
                    args[j].collect_tyvar_names(&mut params);
                    proof {
                        assert(args@.drop_first().take(j as int).drop_last() =~= args@.drop_first().take(j - 1));
                        assert(name_set(before) + args_names(args@.drop_first().take(j as int)) =~= name_set(before) + args_names(args@.drop_first().take(j - 1)) + tyvar_names(*args@[j as int]));
                    }
                }
                proof {
                    assert(args@.drop_first().take(args@.len() - 1) =~= args@.drop_first());
                }
            }
        }
        proof {
            assert(eqs@.take(eqs@.len() as int) =~= eqs@);
        }
        let mut gen: Vec<Arc<TyVar>> = Vec::new();
        for i in 0..vars.len()
            invariant
                name_set(params@) == opaque_params(eqs@),
                gen@ == generalizable(vars@.take(i as int), opaque_params(eqs@)),
        {
            let tv = &vars[i];
            proof {
                assert(vars@.take(i + 1).drop_last() =~= vars@.take(i as int));
            }
            if !is_opaque_tyvar(tv.name.as_str()) && !contains_name(&params, &tv.name) {
                gen.push(tv.clone());
            }
        }
        proof {
            assert(vars@.take(vars@.len() as int) =~= vars@);
        }
        Scheme::new_arc(gen, clone_kind_signs(kind_signs), preds, eqs, ty)
    }

    /// Appends to `buf` the type variables standing in the constraints and in the type that the
    /// scheme leaves free, that is, all but those named as generalized ones, in the order they
    /// first stand there.
    pub fn free_vars_to_vec(&self, buf: &mut Vec<Arc<TyVar>>)
        ensures
            final(buf)@ == old(buf)@ + not_generalized(
                constraint_free_vars(self.predicates@, self.equalities@, *self.ty),
                self.gen_vars@,
            ),
    {
        let free_vars = collect_free_vars(self.predicates.as_slice(), self.equalities.as_slice(), &self.ty);
        let ghost start = buf@;
        for i in 0..free_vars.len()
            invariant
                buf@ == start + not_generalized(free_vars@.take(i as int), self.gen_vars@),
        {
            let tv = &free_vars[i];
            proof {
                assert(free_vars@.take(i + 1).drop_last() =~= free_vars@.take(i as int));
            }
            if !crate::ast::types::contains_var_named(&self.gen_vars, &tv.name) {
                buf.push(tv.clone());
            }
        }
        proof {
            assert(free_vars@.take(free_vars@.len() as int) =~= free_vars@);
        }
    }

    /// The names of the type variables this scheme's body fixes: those standing outside every
    /// associated type application in the type or in the value of an equality constraint.
    pub fn fixed_vars(&self) -> (r: Vec<Name>)
        ensures
            names_distinct(r@),
            name_set(r@) == fixed_names(*self.ty) + eq_values_fixed(self.equalities@),
    {
        let mut out: Vec<Name> = Vec::new();
        proof {
            lemma_no_names();
        }
        self.ty.fixed_vars_to_set(&mut out);
        for i in 0..self.equalities.len()
            invariant
                names_distinct(out@),
                name_set(out@) == fixed_names(*self.ty) + eq_values_fixed(self.equalities@.take(i as int)),
        {
            self.equalities[i].value.fixed_vars_to_set(&mut out);
            proof {
                assert(self.equalities@.take(i + 1).drop_last() =~= self.equalities@.take(i as int));
            }
        }
        proof {
            assert(self.equalities@.take(self.equalities@.len() as int) =~= self.equalities@);
        }
        out
    }
}

/// The names of the type variables the values of the equality constraints `eqs` fix.
pub open spec fn eq_values_fixed(eqs: Seq<Equality>) -> Set<Seq<char>>
    decreases eqs.len(),
{
    if eqs.len() == 0 {
        Set::empty()
    } else {
        eq_values_fixed(eqs.drop_last()) + fixed_names(*eqs.last().value)
    }
}

/// The names of no strings are no names.
proof fn lemma_no_names()
    ensures
        name_set(Seq::<String>::empty()) == Set::<Seq<char>>::empty(),
        names_distinct(Seq::<String>::empty()),
{
    assert(crate::strutil::strs(Seq::<String>::empty()).to_set() =~= Set::<Seq<char>>::empty());
    assert(crate::strutil::strs(Seq::<String>::empty()) =~= Seq::<Seq<char>>::empty());
}

/// Whether `names` holds the text of `name`.
pub(crate) fn contains_name(names: &Vec<String>, name: &String) -> (r: bool)
    ensures
        r == name_set(names@).contains(name@),
{
    for i in 0..names.len()
        invariant
            forall|j: int| 0 <= j < i ==> names@[j]@ != name@,
    {
        if names[i] == *name {
            assert(crate::strutil::strs(names@)[i as int] == name@);
            return true;
        }
    }
    proof {
        if name_set(names@).contains(name@) {
            let j = choose|j: int| 0 <= j < crate::strutil::strs(names@).len() && crate::strutil::strs(names@)[j] == name@;
            assert(names@[j]@ == name@);
        }
    }
    false
}

/// Whether `buf` holds a variable named `name`.
pub open spec fn has_pair_named(buf: Seq<(Arc<TyVar>, Option<Span>)>, name: Seq<char>) -> bool {
    exists|i: int| 0 <= i < buf.len() && (#[trigger] buf[i]).0.name@ == name
}

/// `buf` followed by each type variable of the type that `buf` lacks, with where that
/// occurrence was written, in the order they first stand in the type, left to right.
pub open spec fn push_free_vars_span(buf: Seq<(Arc<TyVar>, Option<Span>)>, n: TypeNode) -> Seq<(Arc<TyVar>, Option<Span>)>
    decreases n, 1nat,
{
    match n.ty {
        Type::TyVar(tv) => if has_pair_named(buf, tv.name@) {
            buf
        } else {
            buf.push((tv, n.info.source))
        },
        Type::TyCon(_) => buf,
        Type::TyApp(f, a) => push_free_vars_span(push_free_vars_span(buf, *f), *a),
        Type::AssocTy(_, args) => push_free_vars_span_args(buf, n, args@.len() as int),
    }
}

/// `push_free_vars_span` over the first `k` arguments of the associated type application `n`.
pub open spec fn push_free_vars_span_args(buf: Seq<(Arc<TyVar>, Option<Span>)>, n: TypeNode, k: int) -> Seq<(Arc<TyVar>, Option<Span>)>
    decreases n, 0nat, k,
{
    match n.ty {
        Type::AssocTy(_, args) => if k <= 0 || k > args@.len() {
            buf
        } else {
            push_free_vars_span(push_free_vars_span_args(buf, n, k - 1), *args@[k - 1])
        },
        _ => buf,
    }
}

/// Whether `buf` holds a variable named `name`.
fn contains_pair_named(buf: &Vec<(Arc<TyVar>, Option<Span>)>, name: &String) -> (r: bool)
    ensures
        r == has_pair_named(buf@, name@),
{
    for i in 0..buf.len()
        invariant
            forall|j: int| 0 <= j < i ==> buf@[j].0.name@ != name@,
    {
        if buf[i].0.name == *name {
            assert(buf@[i as int].0.name@ == name@);
            return true;
        }
    }
    false
}

impl TypeNode {
    /// Appends to `buf` each type variable standing in this type that `buf` lacks, together with
    /// where that occurrence was written, so that a report about a variable can point at it.
    pub fn free_vars_to_vec_with_span(&self, buf: &mut Vec<(Arc<TyVar>, Option<Span>)>)
        ensures
            final(buf)@ == push_free_vars_span(old(buf)@, *self),
        decreases self,
    {
        match &self.ty {
            Type::TyVar(tv) => {
                if contains_pair_named(buf, &tv.name) {
                    return;
                }
                buf.push((tv.clone(), clone_span_opt(&self.info.source)));
            },
            Type::TyApp(tyfun, arg) => {
                tyfun.free_vars_to_vec_with_span(buf);
                arg.free_vars_to_vec_with_span(buf);
            },
            Type::TyCon(_) => {},
            Type::AssocTy(_, args) => {
                let ghost b0 = buf@;
                let mut i: usize = 0;
                while i < args.len()
                    invariant
                        self.ty == Type::AssocTy(self.ty->AssocTy_0, *args),
                        i <= args@.len(),
                        buf@ == push_free_vars_span_args(b0, *self, i as int),
                    decreases args@.len() - i,
                {
                    proof {
                        crate::ast::types::lemma_assoc_arg_decreases(*self, i as int);
                    }
                    args[i].free_vars_to_vec_with_span(buf);
                    i = i + 1;
                }
            },
        }
    }
}

/// `buf` followed by the variables the types `nodes` hold that it lacks, with where each was
/// first written.
pub open spec fn push_free_vars_span_seq(buf: Seq<(Arc<TyVar>, Option<Span>)>, nodes: Seq<Arc<TypeNode>>) -> Seq<(Arc<TyVar>, Option<Span>)>
    decreases nodes.len(),
{
    if nodes.len() == 0 {
        buf
    } else {
        push_free_vars_span(push_free_vars_span_seq(buf, nodes.drop_last()), *nodes.last())
    }
}

/// `buf` followed by the variables of the types of the trait constraints `preds` it lacks.
pub open spec fn preds_occurrences(buf: Seq<(Arc<TyVar>, Option<Span>)>, preds: Seq<Predicate>) -> Seq<(Arc<TyVar>, Option<Span>)>
    decreases preds.len(),
{
    if preds.len() == 0 {
        buf
    } else {
        push_free_vars_span(preds_occurrences(buf, preds.drop_last()), *preds.last().ty)
    }
}

/// `buf` followed by the variables of the equality constraints `eqs` it lacks, the arguments of
/// each before its value.
pub open spec fn eqs_occurrences(buf: Seq<(Arc<TyVar>, Option<Span>)>, eqs: Seq<Equality>) -> Seq<(Arc<TyVar>, Option<Span>)>
    decreases eqs.len(),
{
    if eqs.len() == 0 {
        buf
    } else {
        push_free_vars_span(push_free_vars_span_seq(eqs_occurrences(buf, eqs.drop_last()), eqs.last().args@), *eqs.last().value)
    }
}

impl Scheme {
    /// Each type variable standing in the scheme body, in the predicates, the equalities and the
    /// type in that order, with where its first occurrence was written.
    pub fn all_tyvar_occurrences_with_span(&self) -> (r: Vec<(Arc<TyVar>, Option<Span>)>)
        ensures
            r@ == push_free_vars_span(eqs_occurrences(preds_occurrences(Seq::empty(), self.predicates@), self.equalities@), *self.ty),
    {
        let mut out: Vec<(Arc<TyVar>, Option<Span>)> = Vec::new();
        for i in 0..self.predicates.len()
            invariant
                out@ == preds_occurrences(Seq::empty(), self.predicates@.take(i as int)),
        {
            self.predicates[i].ty.free_vars_to_vec_with_span(&mut out);
            proof {
                assert(self.predicates@.take(i + 1).drop_last() =~= self.predicates@.take(i as int));
            }
        }
        proof {
            assert(self.predicates@.take(self.predicates@.len() as int) =~= self.predicates@);
        }
        let ghost after = out@;
        for i in 0..self.equalities.len()
            invariant
                out@ == eqs_occurrences(after, self.equalities@.take(i as int)),
        {
            let eq = &self.equalities[i];
            let ghost b = out@;
            for j in 0..eq.args.len()
                invariant
                    out@ == push_free_vars_span_seq(b, eq.args@.take(j as int)),
            {
                eq.args[j].free_vars_to_vec_with_span(&mut out);
                proof {
                    assert(eq.args@.take(j + 1).drop_last() =~= eq.args@.take(j as int));
                }
            }
            proof {
                assert(eq.args@.take(eq.args@.len() as int) =~= eq.args@);
            }
            eq.value.free_vars_to_vec_with_span(&mut out);
            proof {
                assert(self.equalities@.take(i + 1).drop_last() =~= self.equalities@.take(i as int));
            }
        }
        proof {
            assert(self.equalities@.take(self.equalities@.len() as int) =~= self.equalities@);
        }
        self.ty.free_vars_to_vec_with_span(&mut out);
        out
    }
}


/// Whether the trait constraint `p` constrains a type of the kind its trait constrains types of.
pub open spec fn pred_kind_ok(p: Predicate, env: KindEnv) -> bool {
    kind_of(*p.ty, env) == Some(*env_trait_kind(env.traits_and_aliases@, trait_key(p.trait_id))->0)
}

/// Whether the equality constraint `eq` applies its associated type to as many arguments as it
/// takes, each of the kind it takes there, and equates it to a type of the application's kind.
pub open spec fn eq_kind_ok(eq: Equality, env: KindEnv) -> bool {
    let info = env_assoc_info(env.assoc_tys@, assoc_key(eq.assoc_type))->0;
    &&& eq.args@.len() == info.param_kinds@.len()
    &&& kinds_fit_seq(eq.args@, info.param_kinds@, env)
    &&& kind_of(*eq.value, env) == Some(*info.value_kind)
}

/// Whether every kind that checking the kinds of the scheme `s` reads is recorded in `env`: the
/// check reads each trait constraint while those before it pass, each equality constraint while
/// all trait constraints and the equality constraints before it pass, and the type once every
/// constraint passes.
pub open spec fn scheme_kinds_known(s: Scheme, env: KindEnv) -> bool {
    &&& forall|i: int|
        0 <= i < s.predicates@.len() && (forall|j: int| 0 <= j < i ==> pred_kind_ok(#[trigger] s.predicates@[j], env))
            ==> kinds_known(*(#[trigger] s.predicates@[i]).ty, env) && env_trait_kind(
            env.traits_and_aliases@,
            trait_key(s.predicates@[i].trait_id),
        ) is Some
    &&& (forall|j: int| 0 <= j < s.predicates@.len() ==> pred_kind_ok(#[trigger] s.predicates@[j], env))
        ==> forall|i: int|
        0 <= i < s.equalities@.len() && (forall|j: int| 0 <= j < i ==> eq_kind_ok(#[trigger] s.equalities@[j], env))
            ==> {
            let eq = #[trigger] s.equalities@[i];
            &&& env_assoc_info(env.assoc_tys@, assoc_key(eq.assoc_type)) is Some
            &&& eq_read_kinds_known(eq, env)
        }
    &&& (forall|j: int| 0 <= j < s.predicates@.len() ==> pred_kind_ok(#[trigger] s.predicates@[j], env))
        && (forall|j: int| 0 <= j < s.equalities@.len() ==> eq_kind_ok(#[trigger] s.equalities@[j], env))
        ==> kinds_known(*s.ty, env)
}

/// The smallest span covering both optional spans, where there is one.
pub open spec fn united(a: Option<Span>, b: Option<Span>) -> Option<Span> {
    match (a, b) {
        (None, None) => None,
        (Some(x), None) => Some(x),
        (None, Some(y)) => Some(y),
        (Some(x), Some(y)) => Some(
            Span {
                file: x.file,
                start: if x.start <= y.start { x.start } else { y.start },
                end: if x.end >= y.end { x.end } else { y.end },
            },
        ),
    }
}

/// The span covering the spans of the first `k` trait constraints, from the first one on.
pub open spec fn preds_span(preds: Seq<Predicate>, k: int) -> Option<Span>
    decreases k,
{
    if k <= 1 {
        preds[0].source
    } else {
        united(preds_span(preds, k - 1), preds[k - 1].source)
    }
}

impl Scheme {
    /// The smallest node covering `pos`: in the first trait constraint that has one, then in
    /// the first equality constraint that has one, then in the type.
    pub fn find_node_at(&self, pos: &SourcePos) -> (r: Option<EndNode>)
        ensures
            node_at_found(
                r,
                match preds_node_at(self.predicates@, *pos) {
                    Some(p) => Some(p),
                    None => match eqs_node_at(self.equalities@, *pos) {
                        Some(p) => Some(p),
                        None => as_node_at(part_at(*self.ty, *pos)),
                    },
                },
            ),
    {
        let node = find_in_preds(&self.predicates, pos);
        if node.is_some() {
            return node;
        }
        let node = find_in_eqs(&self.equalities, pos);
        if node.is_some() {
            return node;
        }
        let node = self.ty.find_node_at(pos);
        proof {
            let t: &TypeNode = &*self.ty;
            lemma_part_found(node, part_at(*t, *pos));
        }
        node
    }

    /// Checks that the kinds the constraints and the type demand agree: each trait constraint
    /// constrains a type of its trait's kind, each equality constraint fits its associated
    /// type, and the type has a kind. The kinds are read from `kind_env`.
    pub fn check_kinds(&self, kind_env: &KindEnv) -> (r: Result<(), Errors>)
        requires
            scheme_kinds_known(*self, *kind_env),
        ensures
            r is Ok <==> (forall|i: int| 0 <= i < self.predicates@.len() ==> pred_kind_ok(
                #[trigger] self.predicates@[i],
                *kind_env,
            )) && (forall|i: int| 0 <= i < self.equalities@.len() ==> eq_kind_ok(
                #[trigger] self.equalities@[i],
                *kind_env,
            )) && kind_of(*self.ty, *kind_env) is Some,
    {
        for i in 0..self.predicates.len()
            invariant
                scheme_kinds_known(*self, *kind_env),
                forall|j: int| 0 <= j < i ==> pred_kind_ok(#[trigger] self.predicates@[j], *kind_env),
        {
            assert(kinds_known(*self.predicates@[i as int].ty, *kind_env));
            let res = self.predicates[i].check_kinds(kind_env);
            if res.is_err() {
                assert(!pred_kind_ok(self.predicates@[i as int], *kind_env));
                return res;
            }
        }
        for i in 0..self.equalities.len()
            invariant
                scheme_kinds_known(*self, *kind_env),
                forall|j: int| 0 <= j < self.predicates@.len() ==> pred_kind_ok(#[trigger] self.predicates@[j], *kind_env),
                forall|j: int| 0 <= j < i ==> eq_kind_ok(#[trigger] self.equalities@[j], *kind_env),
        {
            let ghost eq = self.equalities@[i as int];
            assert(env_assoc_info(kind_env.assoc_tys@, assoc_key(eq.assoc_type)) is Some);
            let res = self.equalities[i].check_kinds(kind_env);
            if res.is_err() {
                assert(!eq_kind_ok(self.equalities@[i as int], *kind_env));
                return res;
            }
        }
        match self.ty.kind(kind_env) {
            Ok(_) => Ok(()),
            Err(e) => Err(e),
        }
    }

    /// The same scheme with every type variable carrying its kind: the kinds its annotations
    /// give, then those the trait constraints and the left sides of the equality constraints
    /// demand, as `KindScope::extend` gathers them. A variable annotated with two kinds is
    /// reported at the type; a conflict in what the constraints demand, at the span covering
    /// the trait constraints, of which there is one at least where the constraints conflict.
    pub fn set_kinds(&self, kind_env: &KindEnv) -> (r: Result<Arc<Scheme>, Errors>)
        requires
            forall|i: int| 0 <= i < self.predicates@.len() ==> pred_known(#[trigger] self.predicates@[i], *kind_env),
            forall|i: int| 0 <= i < self.equalities@.len() ==> eq_assoc_known(#[trigger] self.equalities@[i], *kind_env),
            ({
                let signs = extend_signs(Map::empty(), self.kind_signs@, self.kind_signs@.len() as int);
                signs is Some && extend_all(signs->0, self.predicates@, self.equalities@, Seq::empty(), *kind_env) is None
                    ==> self.predicates@.len() > 0
            }),
        ensures
            ({
                let signs = extend_signs(Map::empty(), self.kind_signs@, self.kind_signs@.len() as int);
                match r {
                    Ok(s) => signs is Some && extend_all(signs->0, self.predicates@, self.equalities@, Seq::empty(), *kind_env) is Some && {
                        let m = extend_all(signs->0, self.predicates@, self.equalities@, Seq::empty(), *kind_env)->0;
                        &&& s.kind_signs@ == self.kind_signs@
                        &&& s.gen_vars@.len() == self.gen_vars@.len()
                        &&& forall|i: int| 0 <= i < self.gen_vars@.len() ==> (#[trigger] s.gen_vars@[i]).name
                            == self.gen_vars@[i].name && s.gen_vars@[i].kind == if m.contains_key(self.gen_vars@[i].name@) {
                            m[self.gen_vars@[i].name@]
                        } else {
                            self.gen_vars@[i].kind
                        }
                        &&& s.predicates@.len() == self.predicates@.len()
                        &&& forall|i: int| 0 <= i < self.predicates@.len() ==> (#[trigger] s.predicates@[i]).trait_id.name@
                            == self.predicates@[i].trait_id.name@ && s.predicates@[i].source == self.predicates@[i].source
                            && kinds_set(*s.predicates@[i].ty, *self.predicates@[i].ty, m)
                        &&& s.equalities@.len() == self.equalities@.len()
                        &&& forall|i: int| 0 <= i < self.equalities@.len() ==> {
                            let e = #[trigger] s.equalities@[i];
                            let o = self.equalities@[i];
                            &&& e.assoc_type.name@ == o.assoc_type.name@
                            &&& e.assoc_type.src == o.assoc_type.src
                            &&& e.source == o.source
                            &&& e.args@.len() == o.args@.len()
                            &&& forall|j: int| 0 <= j < o.args@.len() ==> kinds_set(*#[trigger] e.args@[j], *o.args@[j], m)
                            &&& kinds_set(*e.value, *o.value, m)
                        }
                        &&& kinds_set(*s.ty, *self.ty, m)
                    },
                    Err(e) => e.errs@.len() == 1 && ((signs is None && e.errs@[0].srcs@ == seq![self.ty.info.source]
                        && exists|j: int| 0 <= j < self.kind_signs@.len() && extend_signs(Map::empty(), self.kind_signs@, j) is Some
                            && #[trigger] extend_signs(Map::empty(), self.kind_signs@, j + 1) is None
                            && e.errs@[0].msg@ == mismatch_message(self.kind_signs@[j].tyvar@))
                        || (signs is Some && extend_all(signs->0, self.predicates@, self.equalities@, Seq::empty(), *kind_env) is None
                            && e.errs@[0].srcs@ == seq![preds_span(self.predicates@, self.predicates@.len() as int)])),
                }
            }),
    {
        let mut scope = KindScope::new();
        for i in 0..self.kind_signs.len()
            invariant
                extend_signs(Map::empty(), self.kind_signs@, i as int) == Some(scope@),
        {
            let ghost before = scope@;
            let res = scope.insert(self.kind_signs[i].tyvar.clone(), self.kind_signs[i].kind.clone());
            match res {
                Err(msg) => {
                    proof {
                        lemma_extend_signs_stop(Map::empty(), self.kind_signs@, i as int + 1, self.kind_signs@.len() as int);
                        assert(extend_signs(Map::empty(), self.kind_signs@, i as int + 1) is None);
                    }
                    return Err(Errors::from_msg_src(msg, clone_span_opt(self.ty.get_source())));
                },
                Ok(()) => {},
            }
        }
        let ghost m1 = scope@;
        let empty_signs: Vec<KindSignature> = Vec::new();
        proof {
            assert(extend_signs(m1, empty_signs@, 0) == Some(m1));
        }
        match scope.extend(&self.predicates, &self.equalities, &empty_signs, kind_env) {
            Err(msg) => {
                proof {
                    assert(empty_signs@ =~= Seq::<KindSignature>::empty());
                }
                let mut span = clone_span_opt(&self.predicates[0].source);
                let mut i: usize = 1;
                while i < self.predicates.len()
                    invariant
                        1 <= i <= self.predicates@.len(),
                        span == preds_span(self.predicates@, i as int),
                    decreases self.predicates@.len() - i,
                {
                    span = Span::unite_opt(&span, &self.predicates[i].source);
                    i = i + 1;
                }
                return Err(Errors::from_msg_src(msg, span));
            },
            Ok(()) => {},
        }
        proof {
            assert(empty_signs@ =~= Seq::<KindSignature>::empty());
        }
        let mut preds: Vec<Predicate> = Vec::new();
        for i in 0..self.predicates.len()
            invariant
                preds@.len() == i,
                forall|j: int| 0 <= j < i ==> (#[trigger] preds@[j]).trait_id.name@ == self.predicates@[j].trait_id.name@
                    && preds@[j].source == self.predicates@[j].source
                    && kinds_set(*preds@[j].ty, *self.predicates@[j].ty, scope@),
        {
            let mut p = self.predicates[i].clone();
            p.set_kinds(&scope);
            preds.push(p);
        }
        let mut eqs: Vec<Equality> = Vec::new();
        for i in 0..self.equalities.len()
            invariant
                eqs@.len() == i,
                forall|k: int| 0 <= k < i ==> {
                    let e = #[trigger] eqs@[k];
                    let o = self.equalities@[k];
                    &&& e.assoc_type.name@ == o.assoc_type.name@
                    &&& e.assoc_type.src == o.assoc_type.src
                    &&& e.source == o.source
                    &&& e.args@.len() == o.args@.len()
                    &&& forall|j: int| 0 <= j < o.args@.len() ==> kinds_set(*#[trigger] e.args@[j], *o.args@[j], scope@)
                    &&& kinds_set(*e.value, *o.value, scope@)
                },
        {
            let mut e = self.equalities[i].clone();
            e.set_kinds(&scope);
            eqs.push(e);
        }
        let ty = self.ty.set_kinds(&scope);
        let mut gen_vars: Vec<Arc<TyVar>> = Vec::new();
        for i in 0..self.gen_vars.len()
            invariant
                gen_vars@.len() == i,
                forall|j: int| 0 <= j < i ==> (#[trigger] gen_vars@[j]).name == self.gen_vars@[j].name
                    && gen_vars@[j].kind == if scope@.contains_key(self.gen_vars@[j].name@) {
                    scope@[self.gen_vars@[j].name@]
                } else {
                    self.gen_vars@[j].kind
                },
        {
            gen_vars.push(scope.set_tv(&self.gen_vars[i]));
        }
        Ok(Arc::new(Scheme { gen_vars, kind_signs: clone_signs(&self.kind_signs), predicates: preds, equalities: eqs, ty }))
    }
}


/// A scheme written out from the texts of its trait constraints `pts`, of its equality
/// constraints `ets` and of its type `t`: the constraints, each kind sorted and each text once,
/// in brackets in front of the type; the type alone where there is no constraint.
pub open spec fn scheme_text(pts: Seq<Seq<char>>, ets: Seq<Seq<char>>, t: Seq<char>) -> Seq<char> {
    if pts.len() == 0 && ets.len() == 0 {
        t
    } else {
        "["@ + join(sort_dedup(pts) + sort_dedup(ets), ", "@) + "] "@ + t
    }
}

/// The texts of the trait constraints `preds`.
pub open spec fn pred_texts(preds: Seq<Predicate>) -> Seq<Seq<char>> {
    preds.map_values(|p: Predicate| predicate_text(p))
}

/// Whether `t` is the text of the equality constraint `e` written out: its left side, ` = `,
/// then its value.
pub open spec fn eq_text_of(t: Seq<char>, e: Equality) -> bool {
    exists|l: TypeNode| #![trigger type_text(l)] l.ty is AssocTy && l.ty->AssocTy_0.name@ == e.assoc_type.name@
        && l.ty->AssocTy_1@ == e.args@ && t == type_text(l) + " = "@ + type_text(*e.value)
}

/// Whether `t` is the text of the trait constraint `p` with its type variables renamed in order
/// over `fvs`.
pub open spec fn renamed_pred_text(t: Seq<char>, p: Predicate, fvs: Seq<Arc<TyVar>>) -> bool {
    exists|x: TypeNode| #[trigger] tyvars_renamed(x, *p.ty, fvs) && t == type_text(x) + " : "@
        + fullname_text(p.trait_id.name@)
}

/// Whether `t` is the text of the equality constraint `e` with its type variables renamed in
/// order over `fvs`.
pub open spec fn renamed_eq_text(t: Seq<char>, e: Equality, fvs: Seq<Arc<TyVar>>) -> bool {
    exists|l: TypeNode, v: TypeNode|
        #![trigger type_text(l), tyvars_renamed(v, *e.value, fvs)]
        l.ty is AssocTy && l.ty->AssocTy_0.name@ == e.assoc_type.name@ && l.ty->AssocTy_1@.len()
            == e.args@.len() && (forall|j: int| 0 <= j < e.args@.len() ==> tyvars_renamed(
            *#[trigger] l.ty->AssocTy_1@[j],
            *e.args@[j],
            fvs,
        )) && tyvars_renamed(v, *e.value, fvs) && t == type_text(l) + " = "@ + type_text(v)
}

/// The scheme written out from the strings of its constraints and of its type.
fn scheme_string(pred_strs: Vec<String>, eq_strs: Vec<String>, ty_str: String) -> (r: String)
    ensures
        r@ == scheme_text(string_views(pred_strs@), string_views(eq_strs@), ty_str@),
{
    if pred_strs.len() == 0 && eq_strs.len() == 0 {
        return ty_str;
    }
    let ghost pv = string_views(pred_strs@);
    let ghost ev = string_views(eq_strs@);
    let mut ps = sort_dedup_strings(pred_strs);
    let mut es = sort_dedup_strings(eq_strs);
    let ghost psv = ps@;
    let ghost esv = es@;
    ps.append(&mut es);
    proof {
        assert(strs(ps@) =~= sort_dedup(pv) + sort_dedup(ev)) by {
            assert(string_views(psv) == sort_dedup(pv));
            assert(string_views(esv) == sort_dedup(ev));
            assert(ps@ == psv + esv);
            assert forall|i: int| 0 <= i < ps@.len() implies #[trigger] strs(ps@)[i] == (sort_dedup(pv) + sort_dedup(ev))[i] by {
                if i < psv.len() {
                    assert(string_views(psv)[i] == psv[i]@);
                } else {
                    assert(string_views(esv)[i - psv.len()] == esv[i - psv.len()]@);
                }
            }
        }
    }
    let mut r = to_string("[");
    let body = join_strings(&ps, ", ");
    r.append(body.as_str());
    r.append("] ");
    r.append(ty_str.as_str());
    proof {
        reveal_strlit("[");
        reveal_strlit("] ");
        reveal_strlit(", ");
    }
    r
}

impl Scheme {
    /// The scheme written out under the names its own variables carry: its constraints, sorted
    /// and each once, in brackets in front of its type.
    pub fn to_string(&self) -> (r: String)
        ensures
            exists|ets: Seq<Seq<char>>|
                #![trigger scheme_text(pred_texts(self.predicates@), ets, type_text(*self.ty))]
                ets.len() == self.equalities@.len() && (forall|i: int| 0 <= i < ets.len() ==> eq_text_of(
                    #[trigger] ets[i],
                    self.equalities@[i],
                )) && r@ == scheme_text(pred_texts(self.predicates@), ets, type_text(*self.ty)),
    {
        let mut pred_strs: Vec<String> = Vec::new();
        for i in 0..self.predicates.len()
            invariant
                pred_strs@.len() == i,
                forall|j: int| 0 <= j < i ==> #[trigger] pred_strs@[j]@ == predicate_text(self.predicates@[j]),
        {
            pred_strs.push(self.predicates[i].to_string());
        }
        let mut eq_strs: Vec<String> = Vec::new();
        for i in 0..self.equalities.len()
            invariant
                eq_strs@.len() == i,
                forall|j: int| 0 <= j < i ==> eq_text_of(#[trigger] eq_strs@[j]@, self.equalities@[j]),
        {
            let t = self.equalities[i].to_string();
            proof {
                let l = choose|l: TypeNode| l.ty is AssocTy && l.ty->AssocTy_0.name@ == self.equalities@[i as int].assoc_type.name@
                    && l.ty->AssocTy_1@ == self.equalities@[i as int].args@ && t@ == type_text(l) + " = "@ + type_text(*self.equalities@[i as int].value);
                assert(eq_text_of(t@, self.equalities@[i as int]));
            }
            eq_strs.push(t);
        }
        let ty_str = self.ty.to_string();
        proof {
            assert(string_views(pred_strs@) =~= pred_texts(self.predicates@));
            assert forall|i: int| 0 <= i < eq_strs@.len() implies eq_text_of(#[trigger] string_views(eq_strs@)[i], self.equalities@[i]) by {
                assert(string_views(eq_strs@)[i] == eq_strs@[i]@);
            }
        }
        scheme_string(pred_strs, eq_strs, ty_str)
    }

    /// The scheme written out with its generalized variables renamed `a`, `b`, ... in the order
    /// `gen_vars` lists them, which name each variable once.
    pub fn to_string_normalize(&self) -> (r: String)
        requires
            forall|i: int, j: int| 0 <= i < j < self.gen_vars@.len() ==> (#[trigger] self.gen_vars@[i]).name@
                != (#[trigger] self.gen_vars@[j]).name@,
        ensures
            exists|pts: Seq<Seq<char>>, ets: Seq<Seq<char>>, t: Seq<char>|
                #![trigger scheme_text(pts, ets, t)]
                pts.len() == self.predicates@.len() && (forall|i: int| 0 <= i < pts.len() ==> renamed_pred_text(
                    #[trigger] pts[i],
                    self.predicates@[i],
                    self.gen_vars@,
                )) && ets.len() == self.equalities@.len() && (forall|i: int| 0 <= i < ets.len() ==> renamed_eq_text(
                    #[trigger] ets[i],
                    self.equalities@[i],
                    self.gen_vars@,
                )) && renamed_text(t, *self.ty, self.gen_vars@) && r@ == scheme_text(pts, ets, t),
    {
        let mut pred_strs: Vec<String> = Vec::new();
        for i in 0..self.predicates.len()
            invariant
                pred_strs@.len() == i,
                forall|j: int| 0 <= j < i ==> renamed_pred_text(#[trigger] pred_strs@[j]@, self.predicates@[j], self.gen_vars@),
        {
            let p = &self.predicates[i];
            let x = p.ty.rename_tyvars(&self.gen_vars);
            let mut t = x.to_string();
            t.append(" : ");
            let tr = p.trait_id.to_string();
            t.append(tr.as_str());
            proof {
                reveal_strlit(" : ");
                assert(tyvars_renamed(*x, *p.ty, self.gen_vars@));
            }
            pred_strs.push(t);
        }
        let mut eq_strs: Vec<String> = Vec::new();
        for i in 0..self.equalities.len()
            invariant
                eq_strs@.len() == i,
                forall|j: int| 0 <= j < i ==> renamed_eq_text(#[trigger] eq_strs@[j]@, self.equalities@[j], self.gen_vars@),
        {
            let e = &self.equalities[i];
            let mut args: Vec<Arc<TypeNode>> = Vec::new();
            for j in 0..e.args.len()
                invariant
                    args@.len() == j,
                    forall|k: int| 0 <= k < j ==> tyvars_renamed(*#[trigger] args@[k], *e.args@[k], self.gen_vars@),
            {
                args.push(e.args[j].rename_tyvars(&self.gen_vars));
            }
            let value = e.value.rename_tyvars(&self.gen_vars);
            let renamed = Equality { assoc_type: e.assoc_type.clone(), args, value, source: clone_span_opt(&e.source) };
            let t = renamed.to_string();
            proof {
                let l = choose|l: TypeNode| l.ty is AssocTy && l.ty->AssocTy_0.name@ == renamed.assoc_type.name@
                    && l.ty->AssocTy_1@ == renamed.args@ && t@ == type_text(l) + " = "@ + type_text(*renamed.value);
                assert(tyvars_renamed(*renamed.value, *e.value, self.gen_vars@));
                assert(type_text(l) == type_text(l));
                assert(renamed_eq_text(t@, *e, self.gen_vars@));
            }
            eq_strs.push(t);
        }
        let ty = self.ty.rename_tyvars(&self.gen_vars);
        let ty_str = ty.to_string();
        proof {
            assert(tyvars_renamed(*ty, *self.ty, self.gen_vars@));
            assert forall|i: int| 0 <= i < pred_strs@.len() implies renamed_pred_text(#[trigger] string_views(pred_strs@)[i], self.predicates@[i], self.gen_vars@) by {
                assert(string_views(pred_strs@)[i] == pred_strs@[i]@);
            }
            assert forall|i: int| 0 <= i < eq_strs@.len() implies renamed_eq_text(#[trigger] string_views(eq_strs@)[i], self.equalities@[i], self.gen_vars@) by {
                assert(string_views(eq_strs@)[i] == eq_strs@[i]@);
            }
        }
        let r = scheme_string(pred_strs, eq_strs, ty_str);
        proof {
            assert(scheme_text(string_views(pred_strs@), string_views(eq_strs@), ty_str@) == r@);
        }
        r
    }

    /// The scheme with every global name in its constraints and its type written as an absolute
    /// path; the generalized variables and the kind annotations are kept.
    pub fn global_to_absolute(&self) -> (r: Arc<Scheme>)
        ensures
            r.gen_vars@ == self.gen_vars@,
            r.kind_signs@ == self.kind_signs@,
            r.predicates@.len() == self.predicates@.len(),
            forall|i: int| 0 <= i < self.predicates@.len() ==> {
                let a = #[trigger] r.predicates@[i];
                let b = self.predicates@[i];
                &&& name_made_absolute(a.trait_id.name@, b.trait_id.name@)
                &&& absolute_names(*a.ty, *b.ty)
                &&& a.source == b.source
            },
            r.equalities@.len() == self.equalities@.len(),
            forall|i: int| 0 <= i < self.equalities@.len() ==> {
                let a = #[trigger] r.equalities@[i];
                let b = self.equalities@[i];
                &&& name_made_absolute(a.assoc_type.name@, b.assoc_type.name@)
                &&& a.assoc_type.src == b.assoc_type.src
                &&& a.args@.len() == b.args@.len()
                &&& forall|j: int| 0 <= j < b.args@.len() ==> absolute_names(*#[trigger] a.args@[j], *b.args@[j])
                &&& absolute_names(*a.value, *b.value)
                &&& a.source == b.source
            },
            absolute_names(*r.ty, *self.ty),
    {
        let mut preds: Vec<Predicate> = Vec::new();
        for i in 0..self.predicates.len()
            invariant
                preds@.len() == i,
                forall|k: int| 0 <= k < i ==> {
                    let a = #[trigger] preds@[k];
                    let b = self.predicates@[k];
                    &&& name_made_absolute(a.trait_id.name@, b.trait_id.name@)
                    &&& absolute_names(*a.ty, *b.ty)
                    &&& a.source == b.source
                },
        {
            let p = &self.predicates[i];
            preds.push(Predicate { trait_id: p.trait_id.global_to_absolute(), ty: p.ty.global_to_absolute(), source: clone_span_opt(&p.source) });
        }
        let mut eqs: Vec<Equality> = Vec::new();
        for i in 0..self.equalities.len()
            invariant
                eqs@.len() == i,
                forall|k: int| 0 <= k < i ==> {
                    let a = #[trigger] eqs@[k];
                    let b = self.equalities@[k];
                    &&& name_made_absolute(a.assoc_type.name@, b.assoc_type.name@)
                    &&& a.assoc_type.src == b.assoc_type.src
                    &&& a.args@.len() == b.args@.len()
                    &&& forall|j: int| 0 <= j < b.args@.len() ==> absolute_names(*#[trigger] a.args@[j], *b.args@[j])
                    &&& absolute_names(*a.value, *b.value)
                    &&& a.source == b.source
                },
        {
            let e = &self.equalities[i];
            let mut args: Vec<Arc<TypeNode>> = Vec::new();
            for j in 0..e.args.len()
                invariant
                    args@.len() == j,
                    forall|k: int| 0 <= k < j ==> absolute_names(*#[trigger] args@[k], *e.args@[k]),
            {
                args.push(e.args[j].global_to_absolute());
            }
            eqs.push(Equality { assoc_type: e.assoc_type.global_to_absolute(), args, value: e.value.global_to_absolute(), source: clone_span_opt(&e.source) });
        }
        Arc::new(Scheme {
            gen_vars: crate::ast::typedecl::clone_tyvars(&self.gen_vars),
            kind_signs: clone_signs(&self.kind_signs),
            predicates: preds,
            equalities: eqs,
            ty: self.ty.global_to_absolute(),
        })
    }
}

} // verus!
