//! A trait constraint holding under constraints, in the form the type checker reads trait
//! implementations in: `[a : Eq] Array a : Eq`, with the kind scope its constraints determine.
use crate::ast::equality::{
    eqs_free_vars_to_vec, eqs_node_at, eqs_push_free_vars, find_in_eqs, Equality,
};
use crate::ast::predicate::{
    find_in_preds, node_at_found, pred_node_at, predicate_text, preds_free_vars_to_vec,
    preds_node_at, preds_push_free_vars, Predicate,
};
use crate::ast::program::EndNode;
use crate::ast::qual_type::{apply_kind_signs, constraints_text, write_constraints};
use crate::ast::traits::{signed_kind, KindSignature};
use crate::ast::kind_scope::{eq_assoc_known, extend_all, pred_known, KindEnv, KindScope};
use crate::ast::types::{push_free_vars, TyVar};
use crate::source::SourcePos;
use std::sync::Arc;
use vstd::prelude::*;

verus! {

/// A predicate together with the constraints under which it holds.
pub struct QualPredicate {
    /// The trait constraints, such as `a : Eq`.
    pub pred_constraints: Vec<Predicate>,
    /// The equality constraints, such as `Item it = I64`.
    pub eq_constraints: Vec<Equality>,
    /// The kind annotations, such as `f : *->*`.
    pub kind_constraints: Vec<KindSignature>,
    /// The predicate the constraints qualify, the head: `Array a : Eq` above.
    pub predicate: Predicate,
}

/// A qualified predicate holding for every instantiation of the type variables it is
/// generalized over.
pub struct QualPredScheme {
    /// The generalized type variables.
    pub gen_vars: Vec<Arc<TyVar>>,
    /// The qualified predicate they stand in.
    pub qual_pred: QualPredicate,
}

impl QualPredicate {
    /// The smallest node covering `pos`: in the head, then in the first trait constraint that
    /// has one, then in the first equality constraint that has one.
    pub fn find_node_at(&self, pos: &SourcePos) -> (r: Option<EndNode>)
        ensures
            node_at_found(
                r,
                match pred_node_at(self.predicate, *pos) {
                    Some(p) => Some(p),
                    None => match preds_node_at(self.pred_constraints@, *pos) {
                        Some(p) => Some(p),
                        None => eqs_node_at(self.eq_constraints@, *pos),
                    },
                },
            ),
    {
        let node = self.predicate.find_node_at(pos);
        if node.is_some() {
            return node;
        }
        let node = find_in_preds(&self.pred_constraints, pos);
        if node.is_some() {
            return node;
        }
        find_in_eqs(&self.eq_constraints, pos)
    }

    /// Appends to `buf` the type variables of the trait constraints, the equality constraints
    /// and the head that `buf` lacks; then every variable of `buf` carries the kind the kind
    /// annotations give its name.
    pub fn free_vars_vec(&self, buf: &mut Vec<Arc<TyVar>>)
        ensures
            ({
                let pushed = push_free_vars(eqs_push_free_vars(preds_push_free_vars(old(buf)@, self.pred_constraints@), self.eq_constraints@), *self.predicate.ty);
                &&& final(buf)@.len() == pushed.len()
                &&& forall|i: int|
                    0 <= i < pushed.len() ==> {
                        &&& (#[trigger] final(buf)@[i]).name == pushed[i].name
                        &&& final(buf)@[i].kind == signed_kind(self.kind_constraints@, pushed[i].name@, pushed[i].kind)
                    }
            }),
    {
        preds_free_vars_to_vec(&self.pred_constraints, buf);
        eqs_free_vars_to_vec(&self.eq_constraints, buf);
        self.predicate.ty.free_vars_to_vec(buf);
        apply_kind_signs(buf, &self.kind_constraints);
    }

    /// The qualified predicate as a source line writes it: the kind annotations and the trait
    /// constraints in brackets, then the head.
    pub fn to_string(&self) -> (r: String)
        ensures
            r@ == constraints_text(self.kind_constraints@, self.pred_constraints@) + predicate_text(self.predicate),
    {
        let mut s = write_constraints(&self.kind_constraints, &self.pred_constraints);
        let t = self.predicate.to_string();
        s.append(t.as_str());
        s
    }
}

impl QualPredicate {
    /// Extends `scope` by the kind annotations `kind_signs`, then by the kinds the trait
    /// constraints `preds` demand of the type variables they constrain, then by the kinds the
    /// left sides of the equality constraints `eqs` demand. A variable demanded at two kinds, and
    /// an associated type applied to the wrong number of arguments, is reported.
    pub fn extend_kind_scope(
        scope: &mut KindScope,
        preds: &Vec<Predicate>,
        eqs: &Vec<Equality>,
        kind_signs: &Vec<KindSignature>,
        kind_env: &KindEnv,
    ) -> (r: Result<(), String>)
        requires
            forall|i: int| 0 <= i < preds@.len() ==> pred_known(#[trigger] preds@[i], *kind_env),
            forall|i: int| 0 <= i < eqs@.len() ==> eq_assoc_known(#[trigger] eqs@[i], *kind_env),
        ensures
            r is Ok <==> extend_all(old(scope)@, preds@, eqs@, kind_signs@, *kind_env) is Some,
            r is Ok ==> final(scope)@ == extend_all(old(scope)@, preds@, eqs@, kind_signs@, *kind_env)->0,
    {
        scope.extend(preds, eqs, kind_signs, kind_env)
    }
}

} // verus!
