//! Trait constraints such as `a : Eq`.
use crate::ast::kind_scope::{env_trait_kind, trait_key, KindEnv, KindScope};
use crate::ast::program::EndNode;
use crate::ast::digest::renamed_text;
use crate::ast::name::fullname_text;
use crate::ast::traits::{
    alias_on_cycle, alias_reaches, alias_targets, declares_alias, first_alias, trait_keys, TraitAliasEnv,
    TraitId,
};
use crate::ast::types::{
    end_node_part, kind_eq, kind_of, kind_text, kinds_known, kinds_set, part_at, push_free_vars, type_text,
    TyVar, TypeNode, TypePart,
};
use crate::error::Errors;
use crate::source::{clone_span_opt, SourcePos, Span};
use std::sync::Arc;
use vstd::prelude::*;

verus! {

/// A statement such as `String : Show` or `a : Eq`: the type `ty` implements the trait
/// `trait_id`.
pub struct Predicate {
    /// The trait.
    pub trait_id: TraitId,
    /// The type said to implement it.
    pub ty: Arc<TypeNode>,
    /// Where the statement was written.
    pub source: Option<Span>,
}

impl Clone for Predicate {
    fn clone(&self) -> (r: Self)
        ensures
            r.trait_id.name@ == self.trait_id.name@,
            r.ty == self.ty,
            r.source == self.source,
    {
        Predicate {
            trait_id: self.trait_id.clone(),
            ty: self.ty.clone(),
            source: clone_span_opt(&self.source),
        }
    }
}

/// The predicate written out: `ty : Trait`.
pub open spec fn predicate_text(p: Predicate) -> Seq<char> {
    type_text(*p.ty) + " : "@ + crate::ast::name::fullname_text(p.trait_id.name@)
}

impl Predicate {
    /// Appends to `buf` each type variable standing in the type that `buf` lacks.
    pub fn free_vars_to_vec(&self, buf: &mut Vec<Arc<TyVar>>)
        ensures
            final(buf)@ == push_free_vars(old(buf)@, *self.ty),
    {
        self.ty.free_vars_to_vec(buf);
    }

    /// Records where the statement was written.
    pub fn set_source(&mut self, source: Span)
        ensures
            final(self).source == Some(source),
            final(self).trait_id == old(self).trait_id,
            final(self).ty == old(self).ty,
    {
        self.source = Some(source);
    }

    /// The statement that `ty` implements `trait_id`, written nowhere.
    pub fn make(trait_id: TraitId, ty: Arc<TypeNode>) -> (r: Self)
        ensures
            r.trait_id == trait_id,
            r.ty == ty,
            r.source.is_none(),
    {
        Predicate { trait_id, ty, source: None }
    }

    /// The statement written out: `ty : Trait`.
    pub fn to_string(&self) -> (r: String)
        ensures
            r@ == predicate_text(*self),
    {
        let mut r = self.ty.to_string();
        r.append(" : ");
        let t = self.trait_id.name.to_string();
        r.append(t.as_str());
        r
    }

    /// The same statement with each type variable of the type carrying the kind `scope` gives
    /// its name.
    pub fn set_kinds(&mut self, scope: &KindScope)
        ensures
            kinds_set(*final(self).ty, *old(self).ty, scope@),
            final(self).trait_id == old(self).trait_id,
            final(self).source == old(self).source,
    {
        self.ty = self.ty.set_kinds(scope);
    }

    /// The statement written as `ty : Trait`, its type written with its type variables renamed
    /// `a`, `b`, ... in the order they first stand in it.
    pub fn to_string_normalize(&self) -> (r: String)
        ensures
            exists|t: Seq<char>|
                renamed_text(t, *self.ty, push_free_vars(Seq::empty(), *self.ty)) && r@ == #[trigger] (t
                    + " : "@ + fullname_text(self.trait_id.name@)),
    {
        let mut r = self.ty.to_string_normalize();
        r.append(" : ");
        let t = self.trait_id.to_string();
        r.append(t.as_str());
        proof {
            reveal_strlit(" : ");
        }
        r
    }

    /// Checks that the type has the kind the trait constrains types of. The kinds of the type
    /// constructors and associated types the type names, and the trait's, are recorded in
    /// `kind_env`. Where the type has a kind, but another, the statement is reported, written
    /// normalized, with the two kinds.
    pub fn check_kinds(&self, kind_env: &KindEnv) -> (r: Result<(), Errors>)
        requires
            kinds_known(*self.ty, *kind_env),
            env_trait_kind(kind_env.traits_and_aliases@, trait_key(self.trait_id)) is Some,
        ensures
            r is Ok <==> kind_of(*self.ty, *kind_env) == Some(
                *env_trait_kind(kind_env.traits_and_aliases@, trait_key(self.trait_id))->0,
            ),
            ({
                let expected = *env_trait_kind(kind_env.traits_and_aliases@, trait_key(self.trait_id))->0;
                match (r, kind_of(*self.ty, *kind_env)) {
                    (Err(e), Some(found)) => e.errs@.len() == 1 && e.errs@[0].srcs@ == seq![self.source]
                        && exists|t: Seq<char>|
                        renamed_text(t, *self.ty, push_free_vars(Seq::empty(), *self.ty))
                            && e.errs@[0].msg@ == #[trigger] ("Kind mismatch in `"@ + t + " : "@
                            + fullname_text(self.trait_id.name@) + "`. Expect: "@ + kind_text(expected)
                            + ", found: "@ + kind_text(found) + "."@),
                    _ => true,
                }
            }),
    {
        let expected = kind_env.trait_kind(&self.trait_id).unwrap();
        let found = self.ty.kind(kind_env)?;
        if !kind_eq(&expected, &found) {
            let mut msg = crate::strutil::to_string("Kind mismatch in `");
            let t = self.to_string_normalize();
            msg.append(t.as_str());
            msg.append("`. Expect: ");
            let e = expected.to_string();
            msg.append(e.as_str());
            msg.append(", found: ");
            let f = found.to_string();
            msg.append(f.as_str());
            msg.append(".");
            proof {
                reveal_strlit("Kind mismatch in `");
                reveal_strlit("`. Expect: ");
                reveal_strlit(", found: ");
                reveal_strlit(".");
                let tt = choose|tt: Seq<char>|
                    renamed_text(tt, *self.ty, push_free_vars(Seq::empty(), *self.ty)) && t@ == #[trigger] (tt
                        + " : "@ + fullname_text(self.trait_id.name@));
                assert(msg@ == "Kind mismatch in `"@ + tt + " : "@ + fullname_text(self.trait_id.name@)
                    + "`. Expect: "@ + kind_text(*expected) + ", found: "@ + kind_text(*found) + "."@);
            }
            return Err(Errors::from_msg_src(msg, clone_span_opt(&self.source)));
        }
        Ok(())
    }

    /// The smallest node covering `pos`: a node of the type, or the trait where the position
    /// stands on the statement elsewhere.
    pub fn find_node_at(&self, pos: &SourcePos) -> (r: Option<EndNode>)
        ensures
            node_at_found(r, pred_node_at(*self, *pos)),
    {
        match &self.source {
            None => None,
            Some(src) => {
                if !src.includes_pos(pos) {
                    return None;
                }
                let node = self.ty.find_node_at(pos);
                if node.is_some() {
                    return node;
                }
                Some(EndNode::Trait(self.trait_id.clone()))
            },
        }
    }
}

/// What a node found in a constraint stands on: a part of a type, or a trait by its key.
pub enum NodeAt {
    /// A type constructor or an associated type standing in a type.
    Part(TypePart),
    /// A trait.
    Trait((Seq<Seq<char>>, Seq<char>)),
}

/// What the node `e` stands on, for a node a constraint gives.
pub open spec fn node_at_view(e: EndNode) -> Option<NodeAt> {
    match e {
        EndNode::Trait(t) => Some(NodeAt::Trait(trait_key(t))),
        _ => match end_node_part(e) {
            Some(p) => Some(NodeAt::Part(p)),
            None => None,
        },
    }
}

/// Whether the result `r` of a search stands on `want`.
pub open spec fn node_at_found(r: Option<EndNode>, want: Option<NodeAt>) -> bool {
    match r {
        None => want is None,
        Some(e) => want is Some && node_at_view(e) == want,
    }
}

/// A part of a type, as what a node found in a constraint stands on.
pub open spec fn as_node_at(p: Option<TypePart>) -> Option<NodeAt> {
    match p {
        Some(x) => Some(NodeAt::Part(x)),
        None => None,
    }
}

/// Whether `src` covers `pos`, its end excluded.
pub open spec fn within(src: Option<Span>, pos: SourcePos) -> bool {
    src matches Some(s) && s.file@ == pos.file@ && s.start <= pos.pos < s.end
}

/// What the trait constraint `p` stands on at `pos`: a part of its type, or its trait where the
/// position stands elsewhere on the constraint.
pub open spec fn pred_node_at(p: Predicate, pos: SourcePos) -> Option<NodeAt> {
    if !within(p.source, pos) {
        None
    } else {
        match part_at(*p.ty, pos) {
            Some(x) => Some(NodeAt::Part(x)),
            None => Some(NodeAt::Trait(trait_key(p.trait_id))),
        }
    }
}

/// A type's own search result, as a search of a constraint reports it.
pub proof fn lemma_part_found(r: Option<EndNode>, part: Option<TypePart>)
    requires
        match r {
            None => part is None,
            Some(e) => end_node_part(e) == part && part is Some,
        },
    ensures
        node_at_found(r, as_node_at(part)),
{
}

/// What the first of the trait constraints `preds` that stands on something at `pos` stands
/// on there.
pub open spec fn preds_node_at(preds: Seq<Predicate>, pos: SourcePos) -> Option<NodeAt>
    decreases preds.len(),
{
    if preds.len() == 0 {
        None
    } else {
        match preds_node_at(preds.drop_last(), pos) {
            Some(p) => Some(p),
            None => pred_node_at(preds.last(), pos),
        }
    }
}

proof fn lemma_preds_node_at_first(preds: Seq<Predicate>, pos: SourcePos, k: int, l: int)
    requires
        0 <= k <= l <= preds.len(),
        preds_node_at(preds.take(k), pos) is Some,
    ensures
        preds_node_at(preds.take(l), pos) == preds_node_at(preds.take(k), pos),
    decreases l - k,
{
    if k < l {
        lemma_preds_node_at_first(preds, pos, k, l - 1);
        assert(preds.take(l).drop_last() =~= preds.take(l - 1));
    }
}

/// The smallest node covering `pos` in the first of the trait constraints `preds` that has one.
pub fn find_in_preds(preds: &Vec<Predicate>, pos: &SourcePos) -> (r: Option<EndNode>)
    ensures
        node_at_found(r, preds_node_at(preds@, *pos)),
{
    for i in 0..preds.len()
        invariant
            preds_node_at(preds@.take(i as int), *pos) is None,
    {
        let node = preds[i].find_node_at(pos);
        proof {
            assert(preds@.take(i + 1).drop_last() =~= preds@.take(i as int));
        }
        if node.is_some() {
            proof {
                lemma_preds_node_at_first(preds@, *pos, i + 1, preds@.len() as int);
                assert(preds@.take(preds@.len() as int) =~= preds@);
            }
            return node;
        }
    }
    proof {
        assert(preds@.take(preds@.len() as int) =~= preds@);
    }
    None
}

/// `buf` followed by each type variable the types of the trait constraints `preds` hold that it
/// lacks.
pub open spec fn preds_push_free_vars(buf: Seq<Arc<TyVar>>, preds: Seq<Predicate>) -> Seq<Arc<TyVar>>
    decreases preds.len(),
{
    if preds.len() == 0 {
        buf
    } else {
        push_free_vars(preds_push_free_vars(buf, preds.drop_last()), *preds.last().ty)
    }
}

/// Appends to `buf` each type variable standing in the types of the trait constraints `preds`
/// that `buf` lacks.
pub fn preds_free_vars_to_vec(preds: &Vec<Predicate>, buf: &mut Vec<Arc<TyVar>>)
    ensures
        final(buf)@ == preds_push_free_vars(old(buf)@, preds@),
{
    let ghost b0 = buf@;
    for i in 0..preds.len()
        invariant
            buf@ == preds_push_free_vars(b0, preds@.take(i as int)),
    {
        preds[i].ty.free_vars_to_vec(buf);
        proof {
            assert(preds@.take(i + 1).drop_last() =~= preds@.take(i as int));
        }
    }
    proof {
        assert(preds@.take(preds@.len() as int) =~= preds@);
    }
}


/// The trait of each of the predicates `v`.
pub open spec fn pred_traits(v: Seq<Predicate>) -> Seq<TraitId> {
    v.map_values(|p: Predicate| p.trait_id)
}

impl Predicate {
    /// This predicate with its trait alias expanded: one predicate on the same type for each
    /// trait the alias stands for, as `aliases` resolves it; a predicate whose trait is not an
    /// alias is kept as it is. An alias that stands for itself is reported.
    pub fn resolve_trait_aliases(&self, aliases: &TraitAliasEnv) -> (r: Result<Vec<Predicate>, Errors>)
        ensures
            ({
                let data = aliases.data@;
                let root = trait_key(self.trait_id);
                match r {
                    Ok(v) => {
                        &&& forall|i: int| 0 <= i < v@.len() ==> (#[trigger] v@[i]).ty == self.ty
                            && v@[i].source == self.source
                        &&& if declares_alias(data, self.trait_id) {
                            &&& trait_keys(pred_traits(v@)).no_duplicates()
                            &&& trait_keys(pred_traits(v@)).to_set() == alias_targets(data, root)
                            &&& forall|x| alias_reaches(data, root, x) ==> !#[trigger] alias_on_cycle(data, x)
                        } else {
                            v@.len() == 1 && v@[0].trait_id.name@ == self.trait_id.name@
                        }
                    },
                    Err(e) => declares_alias(data, self.trait_id) && exists|t: TraitId, i: int|
                        #![trigger first_alias(data, trait_key(t), i)]
                        first_alias(data, trait_key(t), i) && alias_reaches(data, root, trait_key(t))
                            && alias_on_cycle(data, trait_key(t)) && e.errs@.len() == 1
                            && e.errs@[0].srcs@ == seq![data[i].source] && e.errs@[0].msg@
                            == "Circular aliasing detected in trait alias `"@ + fullname_text(t.name@)
                            + "`."@,
                }
            }),
    {
        if !aliases.is_alias(&self.trait_id) {
            let mut v: Vec<Predicate> = Vec::new();
            v.push(self.clone());
            return Ok(v);
        }
        let trait_ids = match aliases.resolve_alias(&self.trait_id) {
            Ok(ids) => ids,
            Err(e) => {
                return Err(e);
            },
        };
        let mut res: Vec<Predicate> = Vec::new();
        for i in 0..trait_ids.len()
            invariant
                res@.len() == i,
                forall|j: int| 0 <= j < i ==> (#[trigger] res@[j]).ty == self.ty && res@[j].source == self.source
                    && trait_key(res@[j].trait_id) == trait_key(trait_ids@[j]),
        {
            let mut p = self.clone();
            p.trait_id = trait_ids[i].clone();
            res.push(p);
        }
        proof {
            assert(trait_keys(pred_traits(res@)) =~= trait_keys(trait_ids@));
        }
        Ok(res)
    }
}

} // verus!
