//! Equality constraints on associated types, such as `Item c = e`.
use crate::ast::kind_scope::{assoc_key, env_assoc_info, KindEnv, KindScope};
use crate::ast::name::FullName;
use crate::ast::pattern::{insert_fullname, name_key, name_keys};
use crate::ast::program::EndNode;
use crate::ast::types::{
    clone_args, kind_eq, kind_of, kinds_known, kinds_set, part_at, push_free_vars, referenced_keys, type_assocty,
    type_text, AssocType, TyVar, Type, TypeNode, TypePart, end_node_part,
};
use crate::ast::predicate::{as_node_at, node_at_found, within, NodeAt};
use crate::error::Errors;
use crate::source::{clone_span_opt, SourcePos, Span};
use std::sync::Arc;
use vstd::prelude::*;

verus! {

/// An equality constraint `AssocType args = value`.
pub struct Equality {
    /// The associated type.
    pub assoc_type: AssocType,
    /// The arguments it is applied to, the implemented type first.
    pub args: Vec<Arc<TypeNode>>,
    /// The type the application equals.
    pub value: Arc<TypeNode>,
    /// Where the constraint was written.
    pub source: Option<Span>,
}

/// An equality constraint generalized over the type variables standing in it.
pub struct EqualityScheme {
    /// The type variables it is generalized over.
    pub gen_vars: Vec<Arc<TyVar>>,
    /// The constraint.
    pub equality: Equality,
}

/// `buf` followed by each type variable the types `nodes` hold that it lacks, in the order they
/// first stand in them.
pub open spec fn push_free_vars_seq(buf: Seq<Arc<TyVar>>, nodes: Seq<Arc<TypeNode>>) -> Seq<Arc<TyVar>>
    decreases nodes.len(),
{
    if nodes.len() == 0 {
        buf
    } else {
        push_free_vars(push_free_vars_seq(buf, nodes.drop_last()), *nodes.last())
    }
}

/// Appends to `buf` each type variable standing in the types `nodes` that `buf` lacks.
pub fn free_vars_of_nodes(nodes: &Vec<Arc<TypeNode>>, buf: &mut Vec<Arc<TyVar>>)
    ensures
        final(buf)@ == push_free_vars_seq(old(buf)@, nodes@),
{
    let ghost b0 = buf@;
    let mut i: usize = 0;
    assert(nodes@.subrange(0, 0) =~= Seq::<Arc<TypeNode>>::empty());
    while i < nodes.len()
        invariant
            i <= nodes@.len(),
            buf@ == push_free_vars_seq(b0, nodes@.subrange(0, i as int)),
        decreases nodes@.len() - i,
    {
        nodes[i].free_vars_to_vec(buf);
        assert(nodes@.subrange(0, i + 1).drop_last() =~= nodes@.subrange(0, i as int));
        i = i + 1;
    }
    assert(nodes@.subrange(0, nodes@.len() as int) =~= nodes@);
}

/// What the first of the types `nodes` that has a node covering `pos` stands on there.
pub open spec fn nodes_part_at(nodes: Seq<Arc<TypeNode>>, pos: SourcePos) -> Option<TypePart>
    decreases nodes.len(),
{
    if nodes.len() == 0 {
        None
    } else {
        match nodes_part_at(nodes.drop_last(), pos) {
            Some(p) => Some(p),
            None => part_at(*nodes.last(), pos),
        }
    }
}

/// Once the first `k` types stand on something at a position, the first `l` stand on the same,
/// for every `l` from `k` on.
pub proof fn lemma_nodes_part_at_first(nodes: Seq<Arc<TypeNode>>, pos: SourcePos, k: int, l: int)
    requires
        0 <= k <= l <= nodes.len(),
        nodes_part_at(nodes.take(k), pos) is Some,
    ensures
        nodes_part_at(nodes.take(l), pos) == nodes_part_at(nodes.take(k), pos),
    decreases l - k,
{
    if k < l {
        lemma_nodes_part_at_first(nodes, pos, k, l - 1);
        assert(nodes.take(l).drop_last() =~= nodes.take(l - 1));
    }
}

/// What the equality constraint `eq` stands on at `pos`, where the position stands on it: a
/// part of the first argument that has one there, and otherwise a part of the value.
pub open spec fn eq_node_at(eq: Equality, pos: SourcePos) -> Option<NodeAt> {
    if !within(eq.source, pos) {
        None
    } else {
        match nodes_part_at(eq.args@, pos) {
            Some(p) => Some(NodeAt::Part(p)),
            None => as_node_at(part_at(*eq.value, pos)),
        }
    }
}

/// Whether each of the types `args` has the kind `params` gives at its position.
pub open spec fn kinds_fit_seq(args: Seq<Arc<TypeNode>>, params: Seq<Arc<Kind>>, env: KindEnv) -> bool {
    forall|i: int| 0 <= i < args.len() ==> kind_of(*#[trigger] args[i], env) == Some(*params[i])
}

use crate::ast::types::Kind;

/// Whether the kinds of the types the kind check of `eq` reads are recorded in `env`: where the
/// associated type takes as many arguments as `eq` gives, each argument whose predecessors have
/// their expected kinds, and the value where all arguments do.
pub open spec fn eq_read_kinds_known(eq: Equality, env: KindEnv) -> bool {
    let params = env_assoc_info(env.assoc_tys@, assoc_key(eq.assoc_type))->0.param_kinds@;
    eq.args@.len() == params.len() ==> {
        &&& forall|i: int|
            0 <= i < eq.args@.len() && (forall|j: int|
                0 <= j < i ==> kind_of(*#[trigger] eq.args@[j], env) == Some(*params[j]))
                ==> kinds_known(*#[trigger] eq.args@[i], env)
        &&& kinds_fit_seq(eq.args@, params, env) ==> kinds_known(*eq.value, env)
    }
}

/// The names of the type constructors and of the associated types standing in the types `ts`.
pub open spec fn referenced_keys_seq(ts: Seq<Arc<TypeNode>>) -> Set<(Seq<Seq<char>>, Seq<char>)>
    decreases ts.len(),
{
    if ts.len() == 0 {
        Set::empty()
    } else {
        referenced_keys_seq(ts.drop_last()) + referenced_keys(*ts.last())
    }
}

/// The names the constraint `eq` refers to: its associated type, and the type constructors and
/// associated types standing in its arguments and its value.
pub open spec fn eq_referenced_keys(eq: Equality) -> Set<(Seq<Seq<char>>, Seq<char>)> {
    referenced_keys_seq(eq.args@).insert(name_key(eq.assoc_type.name@)) + referenced_keys(*eq.value)
}

impl Clone for Equality {
    fn clone(&self) -> (r: Self)
        ensures
            r.assoc_type.name@ == self.assoc_type.name@,
            r.assoc_type.src == self.assoc_type.src,
            r.args@ == self.args@,
            r.value == self.value,
            r.source == self.source,
    {
        Equality {
            assoc_type: self.assoc_type.clone(),
            args: clone_args(&self.args),
            value: self.value.clone(),
            source: clone_span_opt(&self.source),
        }
    }
}

impl Equality {
    /// Adds to `names` the name of the associated type, and of every type constructor and
    /// associated type standing in the arguments and the value.
    pub fn collect_referenced_names(&self, names: &mut Vec<FullName>)
        requires
            name_keys(old(names)@).no_duplicates(),
        ensures
            name_keys(final(names)@).no_duplicates(),
            name_keys(final(names)@).to_set() == name_keys(old(names)@).to_set() + eq_referenced_keys(*self),
    {
        let ghost b0 = name_keys(names@).to_set();
        insert_fullname(names, &self.assoc_type.name);
        let ghost b1 = name_keys(names@).to_set();
        let mut i: usize = 0;
        assert(self.args@.take(0) =~= Seq::<Arc<TypeNode>>::empty());
        assert(name_keys(names@).to_set() =~= b1 + referenced_keys_seq(self.args@.take(0)));
        while i < self.args.len()
            invariant
                i <= self.args@.len(),
                name_keys(names@).no_duplicates(),
                name_keys(names@).to_set() == b1 + referenced_keys_seq(self.args@.take(i as int)),
            decreases self.args@.len() - i,
        {
            self.args[i].collect_referenced_names(names);
            assert(self.args@.take(i + 1).drop_last() =~= self.args@.take(i as int));
            i = i + 1;
            assert(name_keys(names@).to_set() =~= b1 + referenced_keys_seq(self.args@.take(i as int)));
        }
        assert(self.args@.take(i as int) =~= self.args@);
        self.value.collect_referenced_names(names);
        assert(name_keys(names@).to_set() =~= b0 + eq_referenced_keys(*self));
    }
    /// The smallest node covering `pos` among the arguments and the value, where the position
    /// stands on the constraint.
    pub fn find_node_at(&self, pos: &SourcePos) -> (r: Option<EndNode>)
        ensures
            node_at_found(r, eq_node_at(*self, *pos)),
    {
        match &self.source {
            None => None,
            Some(src) => {
                if !src.includes_pos(pos) {
                    return None;
                }
                for i in 0..self.args.len()
                    invariant
                        within(self.source, *pos),
                        nodes_part_at(self.args@.take(i as int), *pos) is None,
                {
                    let node = self.args[i].find_node_at(pos);
                    proof {
                        assert(self.args@.take(i + 1).drop_last() =~= self.args@.take(i as int));
                    }
                    if node.is_some() {
                        proof {
                            lemma_nodes_part_at_first(self.args@, *pos, i + 1, self.args@.len() as int);
                            assert(self.args@.take(self.args@.len() as int) =~= self.args@);
                        }
                        return node;
                    }
                }
                proof {
                    assert(self.args@.take(self.args@.len() as int) =~= self.args@);
                }
                self.value.find_node_at(pos)
            },
        }
    }

    /// Appends to `buf` each type variable of the arguments and then of the value that `buf`
    /// lacks.
    pub fn free_vars_to_vec(&self, buf: &mut Vec<Arc<TyVar>>)
        ensures
            final(buf)@ == push_free_vars(push_free_vars_seq(old(buf)@, self.args@), *self.value),
    {
        free_vars_of_nodes(&self.args, buf);
        self.value.free_vars_to_vec(buf);
    }

    /// Appends to `buf` each type variable of the arguments and then of the value that `buf`
    /// lacks.
    pub fn free_vars_vec(&self, buf: &mut Vec<Arc<TyVar>>)
        ensures
            final(buf)@ == push_free_vars(push_free_vars_seq(old(buf)@, self.args@), *self.value),
    {
        self.free_vars_to_vec(buf)
    }

    /// The left side of the equality: the associated type applied to its arguments.
    pub fn lhs(&self) -> (r: Arc<TypeNode>)
        ensures
            r.ty is AssocTy,
            r.ty->AssocTy_0.name@ == self.assoc_type.name@,
            r.ty->AssocTy_0.src == self.assoc_type.src,
            r.ty->AssocTy_1@ == self.args@,
            r.info.source.is_none(),
    {
        type_assocty(self.assoc_type.clone(), clone_args(&self.args))
    }

    /// The constraint written out: `Item c = e`.
    pub fn to_string(&self) -> (r: String)
        ensures
            exists|l: TypeNode| l.ty is AssocTy && l.ty->AssocTy_0.name@ == self.assoc_type.name@
                && l.ty->AssocTy_1@ == self.args@ && r@ == type_text(l) + " = "@ + type_text(
                *self.value,
            ),
    {
        let l = self.lhs();
        let mut r = l.to_string();
        r.append(" = ");
        let v = self.value.to_string();
        r.append(v.as_str());
        r
    }

    /// The constraint generalized over the type variables standing in it, those of the
    /// arguments first.
    pub fn generalize(&self) -> (r: EqualityScheme)
        ensures
            r.gen_vars@ == push_free_vars(
                push_free_vars_seq(Seq::empty(), self.args@),
                *self.value,
            ),
            r.equality.args@ == self.args@,
            r.equality.value == self.value,
            r.equality.assoc_type.name@ == self.assoc_type.name@,
            r.equality.source == self.source,
    {
        let mut tyvars: Vec<Arc<TyVar>> = Vec::new();
        self.free_vars_to_vec(&mut tyvars);
        EqualityScheme { gen_vars: tyvars, equality: self.clone() }
    }

    /// The same constraint with each type variable carrying the kind `scope` gives its name.
    pub fn set_kinds(&mut self, scope: &KindScope)
        ensures
            final(self).args@.len() == old(self).args@.len(),
            forall|i: int| 0 <= i < old(self).args@.len() ==> kinds_set(
                *#[trigger] final(self).args@[i],
                *old(self).args@[i],
                scope@,
            ),
            kinds_set(*final(self).value, *old(self).value, scope@),
            final(self).assoc_type == old(self).assoc_type,
            final(self).source == old(self).source,
    {
        let mut new_args: Vec<Arc<TypeNode>> = Vec::new();
        for i in 0..self.args.len()
            invariant
                new_args@.len() == i,
                forall|j: int| 0 <= j < i ==> kinds_set(*#[trigger] new_args@[j], *self.args@[j], scope@),
        {
            new_args.push(self.args[i].set_kinds(scope));
        }
        self.args = new_args;
        self.value = self.value.set_kinds(scope);
    }

    /// Checks that each argument has the kind the associated type takes at its position and
    /// that the value has the kind of the application. The associated type's kinds are recorded
    /// in `kind_env`, and so are those of every type constructor and associated type named in
    /// the types the check reads: none where the count of arguments is wrong, the arguments up
    /// to the first of a wrong kind, and the value where all arguments fit.
    pub fn check_kinds(&self, kind_env: &KindEnv) -> (r: Result<(), Errors>)
        requires
            env_assoc_info(kind_env.assoc_tys@, assoc_key(self.assoc_type)) is Some,
            eq_read_kinds_known(*self, *kind_env),
        ensures
            r is Ok <==> {
                let info = env_assoc_info(kind_env.assoc_tys@, assoc_key(self.assoc_type))->0;
                &&& self.args@.len() == info.param_kinds@.len()
                &&& kinds_fit_seq(self.args@, info.param_kinds@, *kind_env)
                &&& kind_of(*self.value, *kind_env) == Some(*info.value_kind)
            },
    {
        let kind_info = kind_env.assoc_info(&self.assoc_type).unwrap();
        if self.args.len() != kind_info.param_kinds.len() {
            let mut msg = crate::strutil::to_string("Invalid number of arguments for associated type `");
            let n = self.assoc_type.name.to_string();
            msg.append(n.as_str());
            msg.append("`. Expect: ");
            let e = crate::strutil::usize_string(kind_info.param_kinds.len());
            msg.append(e.as_str());
            msg.append(", found: ");
            let f = crate::strutil::usize_string(self.args.len());
            msg.append(f.as_str());
            msg.append(".");
            return Err(Errors::from_msg_src(msg, clone_span_opt(&self.source)));
        }
        for i in 0..self.args.len()
            invariant
                self.args@.len() == kind_info.param_kinds@.len(),
                env_assoc_info(kind_env.assoc_tys@, assoc_key(self.assoc_type)) == Some(*kind_info),
                eq_read_kinds_known(*self, *kind_env),
                forall|j: int| 0 <= j < i ==> kind_of(*#[trigger] self.args@[j], *kind_env) == Some(*kind_info.param_kinds@[j]),
        {
            let found_kind = self.args[i].kind(kind_env)?;
            let expect_kind = &kind_info.param_kinds[i];
            if !kind_eq(expect_kind, &found_kind) {
                let mut msg = crate::strutil::to_string("Kind mismatch in `");
                let t = self.args[i].to_string();
                msg.append(t.as_str());
                msg.append("`. Expect: ");
                let e = expect_kind.to_string();
                msg.append(e.as_str());
                msg.append(", found: ");
                let f = found_kind.to_string();
                msg.append(f.as_str());
                msg.append(".");
                return Err(Errors::from_msg_src(msg, clone_span_opt(&self.source)));
            }
        }
        let found_kind = self.value.kind(kind_env)?;
        if !kind_eq(&kind_info.value_kind, &found_kind) {
            let mut msg = crate::strutil::to_string("Kind mismatch in `");
            let t = self.value.to_string();
            msg.append(t.as_str());
            msg.append("`. Expect: ");
            let e = kind_info.value_kind.to_string();
            msg.append(e.as_str());
            msg.append(", found: ");
            let f = found_kind.to_string();
            msg.append(f.as_str());
            msg.append(".");
            return Err(Errors::from_msg_src(msg, clone_span_opt(&self.source)));
        }
        Ok(())
    }
}

/// What the first of the equality constraints `eqs` that stands on something at `pos` stands
/// on there.
pub open spec fn eqs_node_at(eqs: Seq<Equality>, pos: SourcePos) -> Option<NodeAt>
    decreases eqs.len(),
{
    if eqs.len() == 0 {
        None
    } else {
        match eqs_node_at(eqs.drop_last(), pos) {
            Some(p) => Some(p),
            None => eq_node_at(eqs.last(), pos),
        }
    }
}

proof fn lemma_eqs_node_at_first(eqs: Seq<Equality>, pos: SourcePos, k: int, l: int)
    requires
        0 <= k <= l <= eqs.len(),
        eqs_node_at(eqs.take(k), pos) is Some,
    ensures
        eqs_node_at(eqs.take(l), pos) == eqs_node_at(eqs.take(k), pos),
    decreases l - k,
{
    if k < l {
        lemma_eqs_node_at_first(eqs, pos, k, l - 1);
        assert(eqs.take(l).drop_last() =~= eqs.take(l - 1));
    }
}

/// The smallest node covering `pos` in the first of the equality constraints `eqs` that has
/// one.
pub fn find_in_eqs(eqs: &Vec<Equality>, pos: &SourcePos) -> (r: Option<EndNode>)
    ensures
        node_at_found(r, eqs_node_at(eqs@, *pos)),
{
    for i in 0..eqs.len()
        invariant
            eqs_node_at(eqs@.take(i as int), *pos) is None,
    {
        let node = eqs[i].find_node_at(pos);
        proof {
            assert(eqs@.take(i + 1).drop_last() =~= eqs@.take(i as int));
        }
        if node.is_some() {
            proof {
                lemma_eqs_node_at_first(eqs@, *pos, i + 1, eqs@.len() as int);
                assert(eqs@.take(eqs@.len() as int) =~= eqs@);
            }
            return node;
        }
    }
    proof {
        assert(eqs@.take(eqs@.len() as int) =~= eqs@);
    }
    None
}

/// `buf` followed by each type variable the equality constraints `eqs` hold that it lacks, the
/// arguments of each before its value.
pub open spec fn eqs_push_free_vars(buf: Seq<Arc<TyVar>>, eqs: Seq<Equality>) -> Seq<Arc<TyVar>>
    decreases eqs.len(),
{
    if eqs.len() == 0 {
        buf
    } else {
        push_free_vars(push_free_vars_seq(eqs_push_free_vars(buf, eqs.drop_last()), eqs.last().args@), *eqs.last().value)
    }
}

/// Appends to `buf` each type variable standing in the equality constraints `eqs` that `buf`
/// lacks.
pub fn eqs_free_vars_to_vec(eqs: &Vec<Equality>, buf: &mut Vec<Arc<TyVar>>)
    ensures
        final(buf)@ == eqs_push_free_vars(old(buf)@, eqs@),
{
    let ghost b0 = buf@;
    for i in 0..eqs.len()
        invariant
            buf@ == eqs_push_free_vars(b0, eqs@.take(i as int)),
    {
        eqs[i].free_vars_to_vec(buf);
        proof {
            assert(eqs@.take(i + 1).drop_last() =~= eqs@.take(i as int));
        }
    }
    proof {
        assert(eqs@.take(eqs@.len() as int) =~= eqs@);
    }
}

} // verus!
