//! Reading the head `AssocTypeName ImplType tv1 ... tvN` of an associated type's definition or
//! implementation, with the checks it is held to.
use crate::ast::name::fullname_text;
use crate::ast::types::{
    app_args, app_head, has_var_named, kind_star, make_tyvar, push_free_vars, type_text,
    AssocTypeDefnHead, Kind, TyVar, Type, TypeNode,
};
use crate::error::Errors;
use crate::source::{clone_span_opt, Span};
use crate::strutil::to_string;
use std::sync::Arc;
use vstd::prelude::*;

verus! {

/// The report that a head is not in the form it has to be written in.
pub open spec fn head_form_message(is_impl: bool, impl_type: TypeNode) -> Seq<char> {
    if is_impl {
        "The implementation of an associated type should be in the form `type {AssocTyName} {impl_type} {type_var1} ... {type_varN} = {value_type};`, where {impl_type} is `"@
            + type_text(impl_type) + "` here."@
    } else {
        "The definition of an associated type should be in the form `type {AssocTyName} {impl_type} {type_var1} ... {type_varN};`, where {impl_type} is `"@
            + type_text(impl_type) + "` here."@
    }
}

/// The report that a head's name carries a namespace.
pub open spec fn head_namespace_message() -> Seq<char> {
    "Do not specify namespace of the associated type here; the namespace of an associated type is determined by the trait name."@
}

/// The word naming what the head belongs to.
pub open spec fn head_owner_word(is_impl: bool) -> Seq<char> {
    if is_impl {
        "implementation"@
    } else {
        "definition"@
    }
}

/// The report that a parameter of a head stands in the implemented type.
pub open spec fn head_bound_message(is_impl: bool, impl_type: TypeNode) -> Seq<char> {
    "In associated type "@ + head_owner_word(is_impl)
        + ", each type variable should be free from the implemented type (`"@ + type_text(impl_type)
        + "` here)."@
}

/// The report that two parameters of a head are one variable.
pub open spec fn head_repeat_message(is_impl: bool) -> Seq<char> {
    "In associated type "@ + head_owner_word(is_impl) + ", each type variable should be different."@
}

/// Whether one of the arguments `args` from the second up to the `i`-th, excluded, is a type
/// variable named `name`.
pub open spec fn named_before(args: Seq<Arc<TypeNode>>, i: int, name: Seq<char>) -> bool {
    exists|j: int| 1 <= j < i && (#[trigger] args[j]).ty is TyVar && args[j].ty->TyVar_0.name@ == name
}

/// The report the parameters of a head from the `i`-th argument on draw first, if any: one that
/// is not a type variable, one standing in the implemented type, one repeating an earlier one.
pub open spec fn head_param_error(args: Seq<Arc<TypeNode>>, impl_vars: Seq<Arc<TyVar>>, is_impl: bool, impl_type: TypeNode, i: int) -> Option<Seq<char>>
    decreases args.len() - i,
{
    if i < 1 || i >= args.len() {
        None
    } else {
        match args[i].ty {
            Type::TyVar(tv) => if has_var_named(impl_vars, tv.name@) {
                Some(head_bound_message(is_impl, impl_type))
            } else if named_before(args, i, tv.name@) {
                Some(head_repeat_message(is_impl))
            } else {
                head_param_error(args, impl_vars, is_impl, impl_type, i + 1)
            },
            _ => Some(head_form_message(is_impl, impl_type)),
        }
    }
}

/// The report the head `n` draws first, if any.
pub open spec fn head_error(n: TypeNode, impl_type: TypeNode, is_impl: bool) -> Option<Seq<char>> {
    let args = app_args(n);
    let head = app_head(n);
    if args.len() < 1 || !(head.ty is TyCon) {
        Some(head_form_message(is_impl, impl_type))
    } else if head.ty->TyCon_0.name@.namespace.names.len() > 0 {
        Some(head_namespace_message())
    } else if !is_impl && type_text(*args[0]) != type_text(impl_type) {
        Some(head_form_message(is_impl, impl_type))
    } else {
        head_param_error(args, push_free_vars(Seq::empty(), impl_type), is_impl, impl_type, 1)
    }
}

/// The report that the head is not in the form it has to be written in.
fn head_form_error(is_impl: bool, impl_type: &Arc<TypeNode>, src_for_err: &Option<Span>) -> (r: Errors)
    ensures
        r.errs@.len() == 1,
        r.errs@[0].srcs@ == seq![*src_for_err],
        r.errs@[0].msg@ == head_form_message(is_impl, **impl_type),
{
    let t = impl_type.to_string();
    let mut msg = if is_impl {
        to_string("The implementation of an associated type should be in the form `type {AssocTyName} {impl_type} {type_var1} ... {type_varN} = {value_type};`, where {impl_type} is `")
    } else {
        to_string("The definition of an associated type should be in the form `type {AssocTyName} {impl_type} {type_var1} ... {type_varN};`, where {impl_type} is `")
    };
    msg.append(t.as_str());
    msg.append("` here.");
    proof {
        reveal_strlit("The implementation of an associated type should be in the form `type {AssocTyName} {impl_type} {type_var1} ... {type_varN} = {value_type};`, where {impl_type} is `");
        reveal_strlit("The definition of an associated type should be in the form `type {AssocTyName} {impl_type} {type_var1} ... {type_varN};`, where {impl_type} is `");
        reveal_strlit("` here.");
    }
    Errors::from_msg_src(msg, clone_span_opt(src_for_err))
}

impl TypeNode {
    /// Checks that this type is the head of an associated type's definition or implementation,
    /// written `AssocTypeName ImplType tv1 ... tvN`: a type constructor with a local name applied
    /// to the implemented type, then to type variables distinct from one another and from those
    /// of the implemented type. For a definition (`is_impl` false) the implemented type is written
    /// as `impl_type` is. The first failure is reported at `src_for_err`. The head read out gives
    /// the name, the parameters, the variable `#impl_type` first, and the implemented type as
    /// written.
    pub fn validate_as_associated_type_impl_defn(&self, impl_type: &Arc<TypeNode>, src_for_err: &Option<Span>, is_impl: bool) -> (r: Result<AssocTypeDefnHead, Errors>)
        ensures
            r is Ok <==> head_error(*self, **impl_type, is_impl) is None,
            r matches Err(e) ==> e.errs@.len() == 1 && e.errs@[0].srcs@ == seq![*src_for_err]
                && e.errs@[0].msg@ == head_error(*self, **impl_type, is_impl)->0,
            r matches Ok(h) ==> {
                let args = app_args(*self);
                &&& h.name@ == app_head(*self).ty->TyCon_0.name@.name
                &&& h.name_src == app_head(*self).info.source
                &&& h.impl_type_as_written == args[0]
                &&& h.params@.len() == args.len()
                &&& h.params@[0].name@ == "#impl_type"@
                &&& *h.params@[0].kind == Kind::Star
                &&& forall|i: int| 1 <= i < args.len() ==> #[trigger] h.params@[i] == args[i].ty->TyVar_0
            },
    {
        let app_seq = self.flatten_type_application();
        let ghost args = app_args(*self);
        if app_seq.len() < 2 {
            return Err(head_form_error(is_impl, impl_type, src_for_err));
        }
        assert(app_seq@[1] == args[0]);
        let name = match &app_seq[0].ty {
            Type::TyCon(tc) => {
                if !tc.name.is_local() {
                    proof {
                        reveal_strlit("Do not specify namespace of the associated type here; the namespace of an associated type is determined by the trait name.");
                    }
                    return Err(Errors::from_msg_src(
                        to_string("Do not specify namespace of the associated type here; the namespace of an associated type is determined by the trait name."),
                        clone_span_opt(src_for_err),
                    ));
                }
                let n = tc.name.to_string();
                proof {
                    assert(tc.name@.namespace.names =~= Seq::<Seq<char>>::empty());
                    assert(crate::ast::name::ns_text(tc.name@.namespace.names) =~= Seq::<char>::empty());
                }
                n
            },
            _ => {
                return Err(head_form_error(is_impl, impl_type, src_for_err));
            },
        };
        if !is_impl {
            let a = app_seq[1].to_string();
            let b = impl_type.to_string();
            if a != b {
                return Err(head_form_error(is_impl, impl_type, src_for_err));
            }
        }
        let impl_type_as_written = app_seq[1].clone();
        let mut tyvars: Vec<Arc<TyVar>> = Vec::new();
        tyvars.push(make_tyvar("#impl_type", &kind_star()));
        let impl_vars = impl_type.free_vars_vec();
        let mut i: usize = 2;
        while i < app_seq.len()
            invariant
                2 <= i <= app_seq@.len(),
                app_seq@.len() == args.len() + 1,
                forall|k: int| 1 <= k < app_seq@.len() ==> #[trigger] app_seq@[k] == args[k - 1],
                impl_vars@ == push_free_vars(Seq::empty(), **impl_type),
                head_error(*self, **impl_type, is_impl) == head_param_error(args, impl_vars@, is_impl, **impl_type, i - 1),
                tyvars@.len() == i - 1,
                tyvars@[0].name@ == "#impl_type"@,
                *tyvars@[0].kind == Kind::Star,
                forall|k: int| 1 <= k < i - 1 ==> (#[trigger] args[k]).ty is TyVar && tyvars@[k] == args[k].ty->TyVar_0,
            decreases app_seq@.len() - i,
        {
            let ghost k = i - 1;
            assert(app_seq@[i as int] == args[k]);
            match &app_seq[i].ty {
                Type::TyVar(tv) => {
                    let mut bound = false;
                    for j in 0..impl_vars.len()
                        invariant
                            bound == exists|l: int| 0 <= l < j && (#[trigger] impl_vars@[l]).name@ == tv.name@,
                    {
                        if impl_vars[j].name == tv.name {
                            bound = true;
                        }
                    }
                    if bound {
                        let mut msg = if is_impl {
                            to_string("In associated type implementation, each type variable should be free from the implemented type (`")
                        } else {
                            to_string("In associated type definition, each type variable should be free from the implemented type (`")
                        };
                        let t = impl_type.to_string();
                        msg.append(t.as_str());
                        msg.append("` here).");
                        proof {
                            reveal_strlit("In associated type implementation, each type variable should be free from the implemented type (`");
                            reveal_strlit("In associated type definition, each type variable should be free from the implemented type (`");
                            reveal_strlit("` here).");
                            reveal_strlit("In associated type ");
                            reveal_strlit("implementation");
                            reveal_strlit("definition");
                            reveal_strlit(", each type variable should be free from the implemented type (`");
                            assert(has_var_named(impl_vars@, tv.name@));
                        }
                        return Err(Errors::from_msg_src(msg, clone_span_opt(src_for_err)));
                    }
                    let mut seen = false;
                    for j in 1..tyvars.len()
                        invariant
                            1 <= tyvars@.len(),
                            seen == exists|l: int| 1 <= l < j && (#[trigger] tyvars@[l]).name@ == tv.name@,
                    {
                        if tyvars[j].name == tv.name {
                            seen = true;
                        }
                    }
                    proof {
                        assert(!has_var_named(impl_vars@, tv.name@));
                        assert(seen == named_before(args, k, tv.name@)) by {
                            if seen {
                                let l = choose|l: int| 1 <= l < tyvars@.len() && (#[trigger] tyvars@[l]).name@ == tv.name@;
                                assert(args[l].ty is TyVar && tyvars@[l] == args[l].ty->TyVar_0);
                            }
                            if named_before(args, k, tv.name@) {
                                let l = choose|l: int| 1 <= l < k && (#[trigger] args[l]).ty is TyVar && args[l].ty->TyVar_0.name@ == tv.name@;
                                assert(tyvars@[l] == args[l].ty->TyVar_0);
                            }
                        }
                    }
                    if seen {
                        let msg = if is_impl {
                            to_string("In associated type implementation, each type variable should be different.")
                        } else {
                            to_string("In associated type definition, each type variable should be different.")
                        };
                        proof {
                            reveal_strlit("In associated type implementation, each type variable should be different.");
                            reveal_strlit("In associated type definition, each type variable should be different.");
                            reveal_strlit("In associated type ");
                            reveal_strlit("implementation");
                            reveal_strlit("definition");
                            reveal_strlit(", each type variable should be different.");
                        }
                        return Err(Errors::from_msg_src(msg, clone_span_opt(src_for_err)));
                    }
                    tyvars.push(tv.clone());
                },
                _ => {
                    return Err(head_form_error(is_impl, impl_type, src_for_err));
                },
            }
            i = i + 1;
        }
        let name_src = clone_span_opt(app_seq[0].get_source());
        Ok(AssocTypeDefnHead { name, name_src, params: tyvars, impl_type_as_written })
    }
}

} // verus!
