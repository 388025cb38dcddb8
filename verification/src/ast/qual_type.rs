//! A type together with the constraints written in front of it, as a type signature holds them:
//! `[a : Show] a -> String`.
use crate::ast::equality::{
    eqs_free_vars_to_vec, eqs_node_at, eqs_push_free_vars, find_in_eqs, push_free_vars_seq,
    Equality,
};
use crate::ast::name::Name;
use crate::ast::predicate::{
    as_node_at, find_in_preds, node_at_found, predicate_text, preds_free_vars_to_vec,
    preds_node_at, preds_push_free_vars, NodeAt, Predicate,
};
use crate::ast::program::EndNode;
use crate::ast::scheme::{eq_on_opaque, opaque_name};
use crate::ast::traits::{signed_kind, KindSignature};
use crate::ast::types::{
    fixed_names, has_var_named, kind_text, name_set, part_at, push_free_vars, TyVar, Type,
    TypeNode,
};
use crate::source::{clone_span_opt, SourcePos, Span};
use crate::strutil::{join, join_strings, strs, to_string};
use std::sync::Arc;
use vstd::prelude::*;

verus! {

/// A type together with the constraints written in front of it.
pub struct QualType {
    /// Trait constraints, e.g. `a : Show`.
    pub preds: Vec<Predicate>,
    /// Equality constraints on associated types, e.g. `Item c = e`.
    pub eqs: Vec<Equality>,
    /// Kind annotations on type variables, e.g. `f : *->*`.
    pub kind_signs: Vec<KindSignature>,
    /// The type the constraints qualify.
    pub ty: Arc<TypeNode>,
}

/// A kind annotation written out: `f : *->*`.
pub open spec fn sign_text(ks: KindSignature) -> Seq<char> {
    ks.tyvar@ + " : "@ + kind_text(*ks.kind)
}

/// The constraints of a signature written out: the kind annotations, then the trait
/// constraints, each after a `, `, all in brackets followed by a space; nothing where there are
/// neither.
pub open spec fn constraints_text(signs: Seq<KindSignature>, preds: Seq<Predicate>) -> Seq<char> {
    if preds.len() > 0 || signs.len() > 0 {
        "["@ + join(
            signs.map_values(|ks: KindSignature| sign_text(ks)) + preds.map_values(
                |p: Predicate| predicate_text(p),
            ),
            ", "@,
        ) + "] "@
    } else {
        Seq::empty()
    }
}

/// The constraints of a signature written out, as `constraints_text` says.
pub fn write_constraints(signs: &Vec<KindSignature>, preds: &Vec<Predicate>) -> (r: String)
    ensures
        r@ == constraints_text(signs@, preds@),
{
    let mut parts: Vec<String> = Vec::new();
    for i in 0..signs.len()
        invariant
            strs(parts@) == signs@.take(i as int).map_values(|ks: KindSignature| sign_text(ks)),
    {
        let t = signs[i].to_string();
        let ghost before = parts@;
        parts.push(t);
        proof {
            assert(signs@.take(i + 1) =~= signs@.take(i as int).push(signs@[i as int]));
            assert(strs(parts@) =~= strs(before).push(t@));
            assert(strs(parts@) =~= signs@.take(i + 1).map_values(|ks: KindSignature| sign_text(ks)));
        }
    }
    proof {
        assert(signs@.take(signs@.len() as int) =~= signs@);
    }
    let ghost after_signs = parts@;
    for i in 0..preds.len()
        invariant
            strs(parts@) == signs@.map_values(|ks: KindSignature| sign_text(ks)) + preds@.take(
                i as int,
            ).map_values(|p: Predicate| predicate_text(p)),
    {
        let t = preds[i].to_string();
        let ghost before = parts@;
        parts.push(t);
        proof {
            assert(preds@.take(i + 1) =~= preds@.take(i as int).push(preds@[i as int]));
            assert(strs(parts@) =~= strs(before).push(t@));
            assert(strs(parts@) =~= signs@.map_values(|ks: KindSignature| sign_text(ks)) + preds@.take(
                i + 1,
            ).map_values(|p: Predicate| predicate_text(p)));
        }
    }
    proof {
        assert(preds@.take(preds@.len() as int) =~= preds@);
    }
    if preds.len() > 0 || signs.len() > 0 {
        let mut r = to_string("[");
        let joined = join_strings(&parts, ", ");
        r.append(joined.as_str());
        r.append("] ");
        r
    } else {
        String::new()
    }
}

/// Gives each variable of `buf` the kind the kind annotations `signs` give its name, the last
/// one naming it winning; a variable none names keeps its kind.
pub fn apply_kind_signs(buf: &mut Vec<Arc<TyVar>>, signs: &Vec<KindSignature>)
    ensures
        final(buf)@.len() == old(buf)@.len(),
        forall|i: int|
            0 <= i < old(buf)@.len() ==> {
                &&& (#[trigger] final(buf)@[i]).name == old(buf)@[i].name
                &&& final(buf)@[i].kind == signed_kind(signs@, old(buf)@[i].name@, old(buf)@[i].kind)
            },
{
    let n = buf.len();
    for i in 0..n
        invariant
            n == buf@.len(),
            n == old(buf)@.len(),
            forall|j: int|
                0 <= j < i ==> {
                    &&& (#[trigger] buf@[j]).name == old(buf)@[j].name
                    &&& buf@[j].kind == signed_kind(signs@, old(buf)@[j].name@, old(buf)@[j].kind)
                },
            forall|j: int| i <= j < n ==> buf@[j] == old(buf)@[j],
    {
        let mut tv = buf[i].clone();
        for k in 0..signs.len()
            invariant
                i < n,
                n == old(buf)@.len(),
                tv.name == old(buf)@[i as int].name,
                tv.kind == signed_kind(signs@.take(k as int), tv.name@, old(buf)@[i as int].kind),
        {
            if tv.name == signs[k].tyvar {
                tv = tv.set_kind(signs[k].kind.clone());
            }
            proof {
                assert(signs@.take(k + 1).drop_last() =~= signs@.take(k as int));
            }
        }
        proof {
            assert(signs@.take(signs@.len() as int) =~= signs@);
        }
        buf.set(i, tv);
    }
}

/// Whether the trait constraint `p` is on an opaque type variable: its type is one.
pub open spec fn pred_on_opaque(p: Predicate) -> bool {
    p.ty.ty is TyVar && opaque_name(p.ty.ty->TyVar_0.name@)
}

impl Predicate {
    /// Whether the constraint is on an opaque type variable: its type is one.
    pub fn on_opaque_tyvar(&self) -> (r: bool)
        ensures
            r == pred_on_opaque(*self),
    {
        match &self.ty.ty {
            Type::TyVar(tv) => crate::ast::scheme::is_opaque_tyvar(tv.name.as_str()),
            _ => false,
        }
    }
}

/// Whether the trait constraint `p` names the type variable `name`.
pub open spec fn pred_names_var(p: Predicate, name: Seq<char>) -> bool {
    has_var_named(push_free_vars(Seq::empty(), *p.ty), name)
}

/// Whether the equality constraint `eq` names the type variable `name`.
pub open spec fn eq_names_var(eq: Equality, name: Seq<char>) -> bool {
    has_var_named(push_free_vars(push_free_vars_seq(Seq::empty(), eq.args@), *eq.value), name)
}

/// Where the first of the trait constraints `preds` from the `k`-th on that is not on an opaque
/// type variable and names `name` was written, if there is such a constraint.
pub open spec fn preds_var_src(preds: Seq<Predicate>, name: Seq<char>, k: int) -> Option<Option<Span>>
    decreases preds.len() - k,
{
    if k < 0 || k >= preds.len() {
        None
    } else if !pred_on_opaque(preds[k]) && pred_names_var(preds[k], name) {
        Some(preds[k].source)
    } else {
        preds_var_src(preds, name, k + 1)
    }
}

/// Where the first of the equality constraints `eqs` from the `k`-th on that is not on an
/// opaque type variable and names `name` was written, if there is such a constraint.
pub open spec fn eqs_var_src(eqs: Seq<Equality>, name: Seq<char>, k: int) -> Option<Option<Span>>
    decreases eqs.len() - k,
{
    if k < 0 || k >= eqs.len() {
        None
    } else if !eq_on_opaque(eqs[k]) && eq_names_var(eqs[k], name) {
        Some(eqs[k].source)
    } else {
        eqs_var_src(eqs, name, k + 1)
    }
}

/// Where the first constraint of `q` naming `name` was written: the first such trait
/// constraint, or else the first such equality constraint, those on an opaque type variable
/// passed over; nothing where no constraint names it.
pub open spec fn var_constraint_src(q: QualType, name: Seq<char>) -> Option<Span> {
    match preds_var_src(q.preds@, name, 0) {
        Some(s) => s,
        None => match eqs_var_src(q.eqs@, name, 0) {
            Some(s) => s,
            None => None,
        },
    }
}

impl QualType {
    /// The smallest node covering `pos`: in the type, then in the first trait constraint that
    /// has one, then in the first equality constraint that has one.
    pub fn find_node_at(&self, pos: &SourcePos) -> (r: Option<EndNode>)
        ensures
            node_at_found(
                r,
                match as_node_at(part_at(*self.ty, *pos)) {
                    Some(p) => Some(p),
                    None => match preds_node_at(self.preds@, *pos) {
                        Some(p) => Some(p),
                        None => eqs_node_at(self.eqs@, *pos),
                    },
                },
            ),
    {
        let node = self.ty.find_node_at(pos);
        if node.is_some() {
            return node;
        }
        let node = find_in_preds(&self.preds, pos);
        if node.is_some() {
            return node;
        }
        find_in_eqs(&self.eqs, pos)
    }

    /// The signature as a source line writes it: the kind annotations and the trait
    /// constraints in brackets, then the type.
    pub fn to_string(&self) -> (r: String)
        ensures
            r@ == constraints_text(self.kind_signs@, self.preds@) + crate::ast::types::type_text(*self.ty),
    {
        let mut s = write_constraints(&self.kind_signs, &self.preds);
        let t = self.ty.to_string();
        s.append(t.as_str());
        s
    }

    /// Appends to `buf` the type variables standing in the trait constraints, the equality
    /// constraints and the type that `buf` lacks; then every variable of `buf` carries the kind
    /// the signature's kind annotations give its name.
    pub fn free_vars_vec(&self, buf: &mut Vec<Arc<TyVar>>)
        ensures
            ({
                let pushed = push_free_vars(eqs_push_free_vars(preds_push_free_vars(old(buf)@, self.preds@), self.eqs@), *self.ty);
                &&& final(buf)@.len() == pushed.len()
                &&& forall|i: int|
                    0 <= i < pushed.len() ==> {
                        &&& (#[trigger] final(buf)@[i]).name == pushed[i].name
                        &&& final(buf)@[i].kind == signed_kind(self.kind_signs@, pushed[i].name@, pushed[i].kind)
                    }
            }),
    {
        preds_free_vars_to_vec(&self.preds, buf);
        eqs_free_vars_to_vec(&self.eqs, buf);
        self.ty.free_vars_to_vec(buf);
        apply_kind_signs(buf, &self.kind_signs);
    }

    /// Whether the type itself fixes `var_name`: the variable stands in it outside every
    /// associated type application.
    pub fn ty_fixes_var(&self, var_name: &Name) -> (r: bool)
        ensures
            r == fixed_names(*self.ty).contains(var_name@),
    {
        let mut fixed: Vec<Name> = Vec::new();
        proof {
            assert(strs(Seq::<String>::empty()).to_set() =~= Set::<Seq<char>>::empty());
            assert(strs(Seq::<String>::empty()) =~= Seq::<Seq<char>>::empty());
        }
        self.ty.fixed_vars_to_set(&mut fixed);
        for i in 0..fixed.len()
            invariant
                name_set(fixed@) == Set::<Seq<char>>::empty() + fixed_names(*self.ty),
                forall|j: int| 0 <= j < i ==> fixed@[j]@ != var_name@,
        {
            if fixed[i] == *var_name {
                proof {
                    assert(strs(fixed@)[i as int] == var_name@);
                    assert(strs(fixed@).contains(var_name@));
                    assert(name_set(fixed@).contains(var_name@));
                    assert((Set::<Seq<char>>::empty() + fixed_names(*self.ty)).contains(var_name@));
                }
                return true;
            }
        }
        proof {
            let ty: &TypeNode = &*self.ty;
            if fixed_names(*ty).contains(var_name@) {
                assert(name_set(fixed@).contains(var_name@));
                let j = choose|j: int| 0 <= j < strs(fixed@).len() && strs(fixed@)[j] == var_name@;
                assert(fixed@[j]@ == var_name@);
            }
        }
        false
    }

    /// Where the first constraint naming `var_name` was written: a trait constraint, or else an
    /// equality constraint, passing over those on an opaque type variable.
    pub fn find_var_in_constraint(&self, var_name: &Name) -> (r: Option<Span>)
        ensures
            match r {
                Some(s) => (exists|i: int|
                    0 <= i < self.preds@.len() && !pred_on_opaque(self.preds@[i])
                        && pred_names_var(self.preds@[i], var_name@) && Some(s) == self.preds@[i].source)
                    || (exists|i: int|
                    0 <= i < self.eqs@.len() && !eq_on_opaque(self.eqs@[i]) && eq_names_var(
                        self.eqs@[i],
                        var_name@,
                    ) && Some(s) == self.eqs@[i].source),
                None => true,
            },
            (forall|i: int|
                0 <= i < self.preds@.len() ==> pred_on_opaque(#[trigger] self.preds@[i]) || !pred_names_var(
                    self.preds@[i],
                    var_name@,
                )) && (forall|i: int|
                0 <= i < self.eqs@.len() ==> eq_on_opaque(#[trigger] self.eqs@[i]) || !eq_names_var(
                    self.eqs@[i],
                    var_name@,
                )) ==> r is None,
            r == var_constraint_src(*self, var_name@),
    {
        for i in 0..self.preds.len()
            invariant
                preds_var_src(self.preds@, var_name@, 0) == preds_var_src(self.preds@, var_name@, i as int),
                forall|j: int|
                    0 <= j < i ==> pred_on_opaque(#[trigger] self.preds@[j]) || !pred_names_var(
                        self.preds@[j],
                        var_name@,
                    ),
        {
            let pred = &self.preds[i];
            if !pred.on_opaque_tyvar() {
                let mut buf: Vec<Arc<TyVar>> = Vec::new();
                pred.ty.free_vars_to_vec(&mut buf);
                if crate::ast::types::contains_var_named(&buf, var_name) {
                    return clone_span_opt(&pred.source);
                }
            }
        }
        assert(preds_var_src(self.preds@, var_name@, self.preds@.len() as int) is None);
        for i in 0..self.eqs.len()
            invariant
                preds_var_src(self.preds@, var_name@, 0) is None,
                eqs_var_src(self.eqs@, var_name@, 0) == eqs_var_src(self.eqs@, var_name@, i as int),
                forall|j: int|
                    0 <= j < self.preds@.len() ==> pred_on_opaque(#[trigger] self.preds@[j]) || !pred_names_var(
                        self.preds@[j],
                        var_name@,
                    ),
                forall|j: int|
                    0 <= j < i ==> eq_on_opaque(#[trigger] self.eqs@[j]) || !eq_names_var(
                        self.eqs@[j],
                        var_name@,
                    ),
        {
            let eq = &self.eqs[i];
            if !eq.on_opaque_tyvar() {
                let mut buf: Vec<Arc<TyVar>> = Vec::new();
                eq.free_vars_to_vec(&mut buf);
                if crate::ast::types::contains_var_named(&buf, var_name) {
                    let s = clone_span_opt(&eq.source);
                    return s;
                }
            }
        }
        None
    }
}

} // verus!
