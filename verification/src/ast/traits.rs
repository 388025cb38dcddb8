//! Traits: their identifiers, members, associated types and aliases.
use crate::ast::name::{fullname_text, FullName, FullNameView, Name, NameSpace};
use crate::ast::program::EndNode;
use crate::ast::types::{kind_text, AssocType, Kind, TyVar, Type, TypeNode};
use crate::source::{clone_span_opt, SourcePos, Span};
use crate::ast::deprecation::DeprecationInfo;
use crate::ast::equality::{eqs_node_at, Equality};
use crate::ast::kind_scope::{assoc_key, trait_key};
use crate::ast::predicate::{as_node_at, node_at_found, preds_node_at, NodeAt, Predicate};
use crate::ast::qual_type::QualType;
use crate::ast::scheme::{constraint_free_vars, generalizable, opaque_params, Scheme};
use crate::ast::types::{part_at, type_from_tyvar, TypePart};
use crate::error::Errors;
use crate::strutil::{join, join_strings, strs, to_string};
use std::sync::Arc;
use vstd::prelude::*;

verus! {

/// The identifier of a trait, which is the full name it is declared under.
pub struct TraitId {
    /// The trait's name, qualified by the namespace holding the declaration, e.g.
    /// `Std::ToString`.
    pub name: FullName,
}

impl Clone for TraitId {
    fn clone(&self) -> (r: Self)
        ensures
            r.name@ == self.name@,
    {
        TraitId { name: self.name.clone() }
    }
}

impl PartialEq for TraitId {
    fn eq(&self, other: &Self) -> (r: bool) {
        self.name == other.name
    }
}

impl vstd::std_specs::cmp::PartialEqSpecImpl for TraitId {
    open spec fn obeys_eq_spec() -> bool {
        true
    }

    open spec fn eq_spec(&self, other: &Self) -> bool {
        self.name@.name == other.name@.name && self.name@.namespace.names
            == other.name@.namespace.names
    }
}

impl Eq for TraitId {}

impl core::hash::Hash for TraitId {
    #[verifier::external_body]
    fn hash<H: core::hash::Hasher>(&self, state: &mut H) {
        self.name.hash(state);
    }
}


/// The kinds an associated type takes its arguments at, and the kind of its application.
pub struct AssocTypeKindInfo {
    /// The associated type.
    pub name: AssocType,
    /// The kind of each parameter, the implemented type's first.
    pub param_kinds: Vec<Arc<Kind>>,
    /// The kind of the associated type applied to all its parameters.
    pub value_kind: Arc<Kind>,
}

/// A kind annotation on a type variable, such as `f : * -> *`.
pub struct KindSignature {
    /// The type variable annotated.
    pub tyvar: Name,
    /// The kind it is annotated with.
    pub kind: Arc<Kind>,
    /// Where the annotation was written.
    pub source: Option<Span>,
}

impl Clone for KindSignature {
    fn clone(&self) -> (r: Self)
        ensures
            r == *self,
    {
        KindSignature {
            tyvar: self.tyvar.clone(),
            kind: self.kind.clone(),
            source: clone_span_opt(&self.source),
        }
    }
}

impl KindSignature {
    /// The annotation as a signature writes it: `f : *->*`.
    pub fn to_string(&self) -> (r: String)
        ensures
            r@ == self.tyvar@ + " : "@ + kind_text(*self.kind),
    {
        let mut r = self.tyvar.clone();
        r.append(" : ");
        let k = self.kind.to_string();
        r.append(k.as_str());
        r
    }
}

impl TraitId {
    /// The identifier of the trait declared under `name`.
    pub fn from_fullname(name: FullName) -> (r: TraitId)
        ensures
            r.name == name,
    {
        TraitId { name }
    }

    /// Splits the name of a trait member, written `<trait-namespace>::<TraitName>::<member>`,
    /// into the identifier of the trait and the member's own name. Every name written under a
    /// namespace splits; one written under none does not.
    pub fn split_member_fullname(member_fullname: &FullName) -> (r: Option<(TraitId, Name)>)
        ensures
            match r {
                None => member_fullname@.namespace.names.len() == 0,
                Some((t, n)) => {
                    &&& member_fullname@.namespace.names.len() > 0
                    &&& t.name@.namespace.names == member_fullname@.namespace.names.drop_last()
                    &&& t.name@.namespace.is_absolute == member_fullname@.namespace.is_absolute
                    &&& t.name@.name == member_fullname@.namespace.names.last()
                    &&& n@ == member_fullname@.name
                },
            },
    {
        if member_fullname.namespace.names.len() == 0 {
            return None;
        }
        let trait_id = TraitId::from_fullname(member_fullname.namespace.clone().to_fullname());
        Some((trait_id, member_fullname.name.clone()))
    }

    /// The trait's full name as text, e.g. `Std::ToString`.
    pub fn to_string(&self) -> (r: String)
        ensures
            r@ == fullname_text(self.name@),
    {
        self.namespaced_name().to_string()
    }

    /// The trait's name together with the namespace holding its declaration.
    pub fn namespaced_name(&self) -> (r: FullName)
        ensures
            r@ == self.name@,
    {
        self.name.clone()
    }

    /// This identifier with its name marked as an absolute path, read from the root.
    pub fn global_to_absolute(&self) -> (r: TraitId)
        ensures
            r.name@.namespace.names == self.name@.namespace.names,
            r.name@.name == self.name@.name,
            r.name@.namespace.is_absolute == (self.name@.namespace.is_absolute
                || self.name@.namespace.names.len() > 0),
    {
        let mut name = self.name.clone();
        name.global_to_absolute();
        TraitId { name }
    }
}

/// A member a trait declares and an implementation leaves out.
pub struct MissingMember {
    /// The member's full name.
    pub name: FullName,
    /// The member's type, with the trait's type variable replaced by the implemented type.
    pub ty: Arc<TypeNode>,
}

/// An associated type a trait declares and an implementation leaves out.
pub struct MissingAssocType {
    /// The associated type's full name.
    pub name: FullName,
    /// The number of its parameters beyond the implemented type.
    pub num_extra_params: usize,
}

/// An item a trait declares and an implementation leaves out.
pub enum MissingTraitImplItem {
    /// A member.
    Member(MissingMember),
    /// An associated type.
    AssocType(MissingAssocType),
}

/// What an implementation of a trait leaves out, for a report and a quick fix.
pub struct MissingTraitImplInfo {
    /// The members and associated types the trait declares and the implementation leaves out.
    pub items: Vec<MissingTraitImplItem>,
    /// The implemented type.
    pub impl_type: Arc<TypeNode>,
}

/// How a report names a missing item: "member `f`" or "associated type `Item`".
pub open spec fn missing_item_text(item: MissingTraitImplItem) -> Seq<char> {
    match item {
        MissingTraitImplItem::Member(m) => "member `"@ + m.name@.name + "`"@,
        MissingTraitImplItem::AssocType(a) => "associated type `"@ + a.name@.name + "`"@,
    }
}

impl MissingTraitImplInfo {
    /// The report on the missing items: "Missing implementation of member `f`, associated type
    /// `Item`." naming each item in order.
    pub fn error_message(&self) -> (r: String)
        ensures
            r@ == "Missing implementation of "@ + join(
                self.items@.map_values(|it: MissingTraitImplItem| missing_item_text(it)),
                ", "@,
            ) + "."@,
    {
        let mut names: Vec<String> = Vec::new();
        for i in 0..self.items.len()
            invariant
                strs(names@) == self.items@.take(i as int).map_values(
                    |it: MissingTraitImplItem| missing_item_text(it),
                ),
        {
            let text = match &self.items[i] {
                MissingTraitImplItem::Member(m) => {
                    let mut t = to_string("member `");
                    t.append(m.name.name.as_str());
                    t.append("`");
                    t
                },
                MissingTraitImplItem::AssocType(a) => {
                    let mut t = to_string("associated type `");
                    t.append(a.name.name.as_str());
                    t.append("`");
                    t
                },
            };
            let ghost before = names@;
            names.push(text);
            proof {
                assert(self.items@.take(i + 1) =~= self.items@.take(i as int).push(self.items@[i as int]));
                assert(strs(names@) =~= strs(before).push(text@));
                assert(strs(names@) =~= self.items@.take(i + 1).map_values(
                    |it: MissingTraitImplItem| missing_item_text(it),
                ));
            }
        }
        proof {
            assert(self.items@.take(self.items@.len() as int) =~= self.items@);
        }
        let mut r = to_string("Missing implementation of ");
        let joined = join_strings(&names, ", ");
        r.append(joined.as_str());
        r.append(".");
        r
    }
}

/// The declaration of an associated type in a trait.
pub struct AssocTypeDefn {
    /// The associated type's local name.
    pub name: Name,
    /// Kind annotations on the declaration's parameters.
    pub kind_signs: Vec<KindSignature>,
    /// The parameters, the implemented type first.
    pub params: Vec<Arc<TyVar>>,
    /// The kind of the associated type applied to all its parameters.
    pub kind_applied: Arc<Kind>,
    /// Where the whole declaration was written.
    pub src: Option<Span>,
    /// Where the associated type's name was written.
    pub name_src: Option<Span>,
}

/// The kind the kind annotations `signs` give the name `name`: that of the last one naming it,
/// or `kind` where none does.
pub open spec fn signed_kind(signs: Seq<KindSignature>, name: Seq<char>, kind: Arc<Kind>) -> Arc<Kind>
    decreases signs.len(),
{
    if signs.len() == 0 {
        kind
    } else if signs.last().tyvar@ == name {
        signs.last().kind
    } else {
        signed_kind(signs.drop_last(), name, kind)
    }
}

impl AssocTypeDefn {
    /// The kind of each parameter, the implemented type's first.
    pub fn param_kinds(&self) -> (r: Vec<Arc<Kind>>)
        ensures
            r@.len() == self.params@.len(),
            forall|i: int| 0 <= i < self.params@.len() ==> r@[i] == (#[trigger] self.params@[i]).kind,
    {
        let mut r: Vec<Arc<Kind>> = Vec::new();
        for i in 0..self.params.len()
            invariant
                r@.len() == i,
                forall|j: int| 0 <= j < i ==> r@[j] == (#[trigger] self.params@[j]).kind,
        {
            r.push(self.params[i].kind.clone());
        }
        r
    }

    /// Gives the first parameter, the implemented type, the kind `impl_type_kind`, and each other
    /// parameter the kind the kind annotations give its name. There is at least one parameter.
    pub fn set_kinds(&mut self, impl_type_kind: Arc<Kind>)
        requires
            old(self).params@.len() > 0,
        ensures
            final(self).params@.len() == old(self).params@.len(),
            final(self).params@[0].name == old(self).params@[0].name,
            final(self).params@[0].kind == impl_type_kind,
            forall|i: int| 1 <= i < old(self).params@.len() ==> {
                &&& (#[trigger] final(self).params@[i]).name == old(self).params@[i].name
                &&& final(self).params@[i].kind == signed_kind(old(self).kind_signs@, old(self).params@[i].name@, old(self).params@[i].kind)
            },
            final(self).name == old(self).name,
            final(self).kind_signs == old(self).kind_signs,
            final(self).kind_applied == old(self).kind_applied,
            final(self).src == old(self).src,
            final(self).name_src == old(self).name_src,
    {
        let first = self.params[0].set_kind(impl_type_kind);
        self.params.set(0, first);
        let n = self.params.len();
        for i in 1..n
            invariant
                n == self.params@.len(),
                n == old(self).params@.len(),
                self.kind_signs == old(self).kind_signs,
                self.params@[0].name == old(self).params@[0].name,
                self.params@[0].kind == impl_type_kind,
                forall|j: int| 1 <= j < i ==> {
                    &&& (#[trigger] self.params@[j]).name == old(self).params@[j].name
                    &&& self.params@[j].kind == signed_kind(old(self).kind_signs@, old(self).params@[j].name@, old(self).params@[j].kind)
                },
                forall|j: int| i <= j < n ==> self.params@[j] == old(self).params@[j],
                self.name == old(self).name,
                self.kind_applied == old(self).kind_applied,
                self.src == old(self).src,
                self.name_src == old(self).name_src,
        {
            let mut param = self.params[i].clone();
            for k in 0..self.kind_signs.len()
                invariant
                    self.kind_signs == old(self).kind_signs,
                    i < n,
                    n == old(self).params@.len(),
                    param.name == old(self).params@[i as int].name,
                    param.kind == signed_kind(self.kind_signs@.take(k as int), param.name@, old(self).params@[i as int].kind),
            {
                if param.name == self.kind_signs[k].tyvar {
                    param = param.set_kind(self.kind_signs[k].kind.clone());
                }
                proof {
                    assert(self.kind_signs@.take(k + 1).drop_last() =~= self.kind_signs@.take(k as int));
                }
            }
            proof {
                assert(self.kind_signs@.take(self.kind_signs@.len() as int) =~= self.kind_signs@);
            }
            self.params.set(i, param);
        }
    }
}

/// The implementation of an associated type in a trait implementation.
pub struct AssocTypeImpl {
    /// The associated type's local name.
    pub name: Name,
    /// The parameters, the implemented type first.
    pub params: Vec<Arc<TyVar>>,
    /// The type the associated type is implemented as.
    pub value: Arc<TypeNode>,
    /// The implemented type as the associated type's line writes it.
    pub impl_type_as_written: Arc<TypeNode>,
    /// Where the whole implementation was written.
    pub source: Option<Span>,
    /// Where the associated type's name was written.
    pub name_src: Option<Span>,
}

/// The declaration of a trait alias, `trait MyAlias = Foo + Bar;`.
pub struct TraitAlias {
    /// The name the alias is declared under.
    pub id: TraitId,
    /// The traits the alias stands for, each with where it was named; a trait named here may
    /// itself be an alias.
    pub value: Vec<(TraitId, Span)>,
    /// Where the whole declaration was written.
    pub source: Option<Span>,
    /// Where the alias's name was written.
    pub name_src: Option<Span>,
    /// The kind of the type variable the aliased traits constrain.
    pub kind: Arc<Kind>,
}

/// Whether the optional span `s` covers `pos`, its end included.
pub open spec fn span_covers(s: Option<Span>, pos: SourcePos) -> bool {
    s is Some && s->0.file@ == pos.file@ && s->0.start <= pos.pos <= s->0.end
}

/// The key of the trait the alias `a` names at `pos`: the alias itself where its name covers
/// `pos`, and otherwise the first trait it stands for whose name does.
pub open spec fn alias_trait_at(a: TraitAlias, pos: SourcePos) -> Option<(Seq<Seq<char>>, Seq<char>)> {
    if span_covers(a.name_src, pos) {
        Some((a.id.name@.namespace.names, a.id.name@.name))
    } else if exists|i: int| 0 <= i < a.value@.len() && span_covers(Some(#[trigger] a.value@[i].1), pos) {
        let i = choose|i: int| 0 <= i < a.value@.len() && span_covers(Some(#[trigger] a.value@[i].1), pos)
            && forall|j: int| 0 <= j < i ==> !span_covers(Some(#[trigger] a.value@[j].1), pos);
        Some((a.value@[i].0.name@.namespace.names, a.value@[i].0.name@.name))
    } else {
        None
    }
}

impl TraitAlias {
    /// The trait named at `pos`: the alias itself where its name covers `pos`, and otherwise
    /// the first trait it stands for whose name does.
    pub fn find_node_at(&self, pos: &SourcePos) -> (r: Option<EndNode>)
        ensures
            match r {
                None => alias_trait_at(*self, *pos) is None,
                Some(e) => e is Trait && alias_trait_at(*self, *pos) == Some(
                    (e->Trait_0.name@.namespace.names, e->Trait_0.name@.name),
                ),
            },
    {
        if let Some(ns) = &self.name_src {
            if ns.includes_pos_lsp(pos) {
                return Some(EndNode::Trait(self.id.clone()));
            }
        }
        for i in 0..self.value.len()
            invariant
                !span_covers(self.name_src, *pos),
                forall|j: int| 0 <= j < i ==> !span_covers(Some(#[trigger] self.value@[j].1), *pos),
        {
            if self.value[i].1.includes_pos_lsp(pos) {
                proof {
                    let w = i as int;
                    assert(span_covers(Some(self.value@[w].1), *pos));
                    let c = choose|c: int| 0 <= c < self.value@.len() && span_covers(Some(#[trigger] self.value@[c].1), *pos)
                        && forall|j: int| 0 <= j < c ==> !span_covers(Some(#[trigger] self.value@[j].1), *pos);
                    assert(c == w) by {
                        if c < w {
                            assert(!span_covers(Some(self.value@[c].1), *pos));
                        }
                        if w < c {
                            assert(!span_covers(Some(self.value@[w].1), *pos));
                        }
                    }
                }
                return Some(EndNode::Trait(self.value[i].0.clone()));
            }
        }
        None
    }
}

/// The trait aliases a program declares. An identifier whose key no alias is declared under
/// names a trait of its own; where two aliases share a key, the first is the one meant.
pub struct TraitAliasEnv {
    /// Every declared alias.
    pub data: Vec<TraitAlias>,
}

/// Whether one of `aliases` is declared under the key of `t`.
pub open spec fn declares_alias(aliases: Seq<TraitAlias>, t: TraitId) -> bool {
    exists|i: int| 0 <= i < aliases.len() && same_trait((#[trigger] aliases[i]).id, t)
}

/// Whether the two identifiers name the same trait: the same names, read from the same place.
pub open spec fn same_trait(a: TraitId, b: TraitId) -> bool {
    a.name@.namespace.names == b.name@.namespace.names && a.name@.name == b.name@.name
}

impl TraitAliasEnv {
    /// Whether `trait_id` names an alias.
    pub fn is_alias(&self, trait_id: &TraitId) -> (r: bool)
        ensures
            r == declares_alias(self.data@, *trait_id),
    {
        for i in 0..self.data.len()
            invariant
                forall|j: int| 0 <= j < i ==> !same_trait(#[trigger] self.data@[j].id, *trait_id),
        {
            if self.data[i].id == *trait_id {
                return true;
            }
        }
        proof {
            if declares_alias(self.data@, *trait_id) {
                let j = choose|j: int| 0 <= j < self.data@.len() && same_trait((#[trigger] self.data@[j]).id, *trait_id);
                assert(!same_trait(self.data@[j].id, *trait_id));
            }
        }
        false
    }
}

/// What the signature `q` stands on at `pos`: a part of its type, then of the first trait
/// constraint, then of the first equality constraint, that has one.
pub open spec fn qual_type_node_at(q: QualType, pos: SourcePos) -> Option<NodeAt> {
    match as_node_at(part_at(*q.ty, pos)) {
        Some(p) => Some(p),
        None => match preds_node_at(q.preds@, pos) {
            Some(p) => Some(p),
            None => eqs_node_at(q.eqs@, pos),
        },
    }
}

impl AssocTypeImpl {
    /// The smallest node covering `pos`, for an implementation whose span covers it: the
    /// associated type where its name does, and otherwise a part of the implementing type. The
    /// associated type belongs to the trait `trait_id`.
    pub fn find_node_at(&self, pos: &SourcePos, trait_id: &TraitId) -> (r: Option<EndNode>)
        ensures
            node_at_found(
                r,
                if !span_covers(self.source, *pos) {
                    None
                } else if span_covers(self.name_src, *pos) {
                    Some(NodeAt::Part(TypePart::AssocTy((trait_id.name@.namespace.names.push(trait_id.name@.name), self.name@))))
                } else {
                    as_node_at(part_at(*self.value, *pos))
                },
            ),
    {
        match &self.source {
            None => None,
            Some(src) => {
                if !src.includes_pos_lsp(pos) {
                    return None;
                }
                if let Some(ns) = &self.name_src {
                    if ns.includes_pos_lsp(pos) {
                        let full_name = FullName::new(&trait_id.name.to_namespace(), self.name.as_str());
                        return Some(EndNode::AssocType(AssocType { name: full_name, src: Some(ns.clone()) }));
                    }
                }
                self.value.find_node_at(pos)
            },
        }
    }
}

/// A member a trait declares.
pub struct TraitMember {
    /// The member's local name.
    pub name: Name,
    /// The member's type, with the type aliases in it expanded and without the trait's own
    /// constraint: `a -> String` for `to_string` of `trait a : ToString`.
    pub qual_ty: QualType,
    /// The member's type as written, with its aliases kept, once aliases are expanded.
    pub syn_qual_ty: Option<QualType>,
    /// Where the member's name was written.
    pub decl_src: Option<Span>,
    /// The member's document, where its declaration carries none.
    pub document: Option<String>,
    /// What a deprecation of the member says.
    pub deprecation: Option<DeprecationInfo>,
}

impl TraitMember {
    /// The smallest node covering `pos` in the member's type signature.
    pub fn find_node_at(&self, pos: &SourcePos) -> (r: Option<EndNode>)
        ensures
            node_at_found(r, qual_type_node_at(self.qual_ty, *pos)),
    {
        self.qual_ty.find_node_at(pos)
    }
}

/// The declaration of a trait: `trait a : Functor { ... }` and what it writes between the
/// braces.
pub struct TraitDefn {
    /// The name the trait is declared under.
    pub trait_: TraitId,
    /// The type variable the members' types are written in terms of: `a` in `trait a : Functor`.
    pub type_var: Arc<TyVar>,
    /// The members, in the order they are declared.
    pub members: Vec<TraitMember>,
    /// The associated types, in the order they are declared; their local names tell them apart.
    pub assoc_types: Vec<AssocTypeDefn>,
    /// The kind annotations written as the declaration's assumption: `f : *->*` in
    /// `trait [f : *->*] f : Functor {}`.
    pub kind_signs: Vec<KindSignature>,
    /// Where the whole declaration was written.
    pub source: Option<Span>,
    /// Where the trait's name was written.
    pub name_src: Option<Span>,
    /// The trait's document, where its declaration carries none.
    pub document: Option<String>,
}

/// Whether the two trait constraints are copies of one another.
pub open spec fn pred_copy(a: Predicate, b: Predicate) -> bool {
    a.trait_id.name@ == b.trait_id.name@ && a.ty == b.ty && a.source == b.source
}

/// Whether the two equality constraints are copies of one another.
pub open spec fn eq_copy(a: Equality, b: Equality) -> bool {
    &&& a.assoc_type.name@ == b.assoc_type.name@
    &&& a.assoc_type.src == b.assoc_type.src
    &&& a.args@ == b.args@
    &&& a.value == b.value
    &&& a.source == b.source
}

/// Whether the two signatures are copies of one another.
pub open spec fn qual_type_copy(a: QualType, b: QualType) -> bool {
    &&& a.preds@.len() == b.preds@.len()
    &&& forall|i: int| 0 <= i < a.preds@.len() ==> pred_copy(#[trigger] a.preds@[i], b.preds@[i])
    &&& a.eqs@.len() == b.eqs@.len()
    &&& forall|i: int| 0 <= i < a.eqs@.len() ==> eq_copy(#[trigger] a.eqs@[i], b.eqs@[i])
    &&& a.kind_signs@ == b.kind_signs@
    &&& a.ty == b.ty
}

/// A copy of the trait constraints `v`.
pub fn clone_preds(v: &Vec<Predicate>) -> (r: Vec<Predicate>)
    ensures
        r@.len() == v@.len(),
        forall|i: int| 0 <= i < v@.len() ==> pred_copy(#[trigger] r@[i], v@[i]),
{
    let mut r: Vec<Predicate> = Vec::new();
    for i in 0..v.len()
        invariant
            r@.len() == i,
            forall|j: int| 0 <= j < i ==> pred_copy(#[trigger] r@[j], v@[j]),
    {
        r.push(v[i].clone());
    }
    r
}

/// A copy of the equality constraints `v`.
pub fn clone_eqs(v: &Vec<Equality>) -> (r: Vec<Equality>)
    ensures
        r@.len() == v@.len(),
        forall|i: int| 0 <= i < v@.len() ==> eq_copy(#[trigger] r@[i], v@[i]),
{
    let mut r: Vec<Equality> = Vec::new();
    for i in 0..v.len()
        invariant
            r@.len() == i,
            forall|j: int| 0 <= j < i ==> eq_copy(#[trigger] r@[j], v@[j]),
    {
        r.push(v[i].clone());
    }
    r
}

/// A copy of the kind annotations `v`.
pub fn clone_signs(v: &Vec<KindSignature>) -> (r: Vec<KindSignature>)
    ensures
        r@ == v@,
{
    let mut r: Vec<KindSignature> = Vec::new();
    for i in 0..v.len()
        invariant
            r@ == v@.take(i as int),
    {
        r.push(v[i].clone());
        assert(r@ =~= v@.take(i + 1));
    }
    assert(v@.take(v@.len() as int) =~= v@);
    r
}

impl QualType {
    /// A copy of this signature.
    pub fn copy(&self) -> (r: QualType)
        ensures
            qual_type_copy(r, *self),
    {
        QualType {
            preds: clone_preds(&self.preds),
            eqs: clone_eqs(&self.eqs),
            kind_signs: clone_signs(&self.kind_signs),
            ty: self.ty.clone(),
        }
    }
}

/// The index of the first of `members` named `name`.
pub open spec fn member_index(members: Seq<TraitMember>, name: Seq<char>) -> int
    recommends
        exists|i: int| 0 <= i < members.len() && (#[trigger] members[i]).name@ == name,
{
    choose|i: int| 0 <= i < members.len() && members[i].name@ == name && forall|j: int| 0 <= j < i ==> (#[trigger] members[j]).name@ != name
}

/// The report that a trait's assumption holds more than one kind annotation.
pub open spec fn many_assumptions_message() -> Seq<char> {
    "You can specify at most one constraint of the form `{type-variable} : {kind}` as the assumption of trait definition."@
}

/// The report that a trait's assumption annotates a type variable other than the trait's own.
pub open spec fn wrong_assumption_message(tr: Seq<char>, tv: Seq<char>) -> Seq<char> {
    "The type variable used in the assumption of trait `"@ + tr + "` has to be `"@ + tv + "`."@
}

impl TraitDefn {
    /// The first member named `name`. The trait declares one.
    fn find_member(&self, name: &Name) -> (r: &TraitMember)
        requires
            exists|i: int| 0 <= i < self.members@.len() && (#[trigger] self.members@[i]).name@ == name@,
        ensures
            *r == self.members@[member_index(self.members@, name@)],
    {
        let mut i: usize = 0;
        while i < self.members.len()
            invariant
                i <= self.members@.len(),
                exists|k: int| 0 <= k < self.members@.len() && (#[trigger] self.members@[k]).name@ == name@,
                forall|j: int| 0 <= j < i ==> (#[trigger] self.members@[j]).name@ != name@,
            decreases self.members@.len() - i,
        {
            if self.members[i].name == *name {
                proof {
                    let c = member_index(self.members@, name@);
                    assert(0 <= c < self.members@.len() && self.members@[c].name@ == name@ && forall|j: int| 0 <= j < c ==> (#[trigger] self.members@[j]).name@ != name@) by {
                        let w = i as int;
                        assert(self.members@[w].name@ == name@ && forall|j: int| 0 <= j < w ==> (#[trigger] self.members@[j]).name@ != name@);
                    }
                    if c < i {
                        assert(self.members@[c].name@ != name@);
                    }
                    if (i as int) < c {
                        assert(self.members@[i as int].name@ != name@);
                    }
                }
                return &self.members[i];
            }
            i += 1;
        }
        proof {
            let k = choose|k: int| 0 <= k < self.members@.len() && (#[trigger] self.members@[k]).name@ == name@;
            assert(self.members@[k].name@ != name@);
        }
        unreached()
    }

    /// The type of the member `name` as the declaration writes it, carrying no constraint from
    /// the trait itself. The trait declares such a member.
    pub fn member_ty(&self, name: &Name) -> (r: QualType)
        requires
            exists|i: int| 0 <= i < self.members@.len() && (#[trigger] self.members@[i]).name@ == name@,
        ensures
            qual_type_copy(r, self.members@[member_index(self.members@, name@)].qual_ty),
    {
        self.find_member(name).qual_ty.copy()
    }

    /// The type scheme of the member `name`, constrained by the trait itself: the member's
    /// signature, with the trait's constraint on its type variable put before the others,
    /// generalized over its type variables. Where `syntactic` holds, the signature is the one
    /// written, with its aliases kept. The trait declares such a member, and where `syntactic`
    /// holds, its aliases have been expanded.
    pub fn member_scheme(&self, name: &Name, syntactic: bool) -> (r: Arc<Scheme>)
        requires
            exists|i: int| 0 <= i < self.members@.len() && (#[trigger] self.members@[i]).name@ == name@,
            syntactic ==> self.members@[member_index(self.members@, name@)].syn_qual_ty is Some,
        ensures
            ({
                let m = self.members@[member_index(self.members@, name@)];
                let q = if syntactic { m.syn_qual_ty->0 } else { m.qual_ty };
                &&& r.predicates@.len() == q.preds@.len() + 1
                &&& r.predicates@[0].trait_id.name@ == self.trait_.name@
                &&& r.predicates@[0].ty.ty == Type::TyVar(self.type_var)
                &&& r.predicates@[0].source is None
                &&& forall|i: int| 0 <= i < q.preds@.len() ==> pred_copy(#[trigger] r.predicates@[i + 1], q.preds@[i])
                &&& r.equalities@.len() == q.eqs@.len()
                &&& forall|i: int| 0 <= i < q.eqs@.len() ==> eq_copy(#[trigger] r.equalities@[i], q.eqs@[i])
                &&& r.kind_signs@ == q.kind_signs@
                &&& r.ty == q.ty
                &&& r.gen_vars@ == generalizable(constraint_free_vars(r.predicates@, r.equalities@, *r.ty), opaque_params(r.equalities@))
            }),
    {
        let member = self.find_member(name);
        let qual_ty = if syntactic {
            match &member.syn_qual_ty {
                Some(q) => q.copy(),
                None => unreached(),
            }
        } else {
            member.qual_ty.copy()
        };
        let mut preds: Vec<Predicate> = Vec::new();
        preds.push(Predicate::make(self.trait_.clone(), type_from_tyvar(self.type_var.clone())));
        let mut rest = qual_ty.preds;
        let ghost rest0 = rest@;
        preds.append(&mut rest);
        proof {
            assert forall|i: int| 0 <= i < rest0.len() implies #[trigger] preds@[i + 1] == rest0[i] by {
            }
        }
        Scheme::generalize(qual_ty.kind_signs.as_slice(), preds, qual_ty.eqs, qual_ty.ty)
    }

    /// Gives the trait's type variable the kind the declaration's assumption annotates it with,
    /// and the parameters of the associated types the kinds that follow from it. An assumption
    /// holding more than one kind annotation is reported, and so is one annotating a type
    /// variable other than the trait's own; the declaration then stays as it is. Every
    /// associated type has at least one parameter.
    pub fn set_trait_kind(&mut self) -> (r: Result<(), Errors>)
        requires
            forall|i: int| 0 <= i < old(self).assoc_types@.len() ==> (#[trigger] old(self).assoc_types@[i]).params@.len() > 0,
        ensures
            old(self).kind_signs@.len() >= 2 ==> r is Err && *final(self) == *old(self)
                && r->Err_0.errs@.len() == 1 && r->Err_0.errs@[0].msg@ == many_assumptions_message(),
            old(self).kind_signs@.len() == 1 && old(self).kind_signs@[0].tyvar@ != old(self).type_var.name@
                ==> r is Err && *final(self) == *old(self) && r->Err_0.errs@.len() == 1
                && r->Err_0.errs@[0].msg@ == wrong_assumption_message(fullname_text(old(self).trait_.name@), old(self).type_var.name@)
                && r->Err_0.errs@[0].srcs@ == seq![old(self).kind_signs@[0].source],
            r is Ok <==> (old(self).kind_signs@.len() == 0 || (old(self).kind_signs@.len() == 1
                && old(self).kind_signs@[0].tyvar@ == old(self).type_var.name@)),
            r is Ok ==> {
                &&& final(self).type_var.name == old(self).type_var.name
                &&& final(self).type_var.kind == (if old(self).kind_signs@.len() == 1 { old(self).kind_signs@[0].kind } else { old(self).type_var.kind })
                &&& final(self).assoc_types@.len() == old(self).assoc_types@.len()
                &&& forall|i: int| 0 <= i < old(self).assoc_types@.len() ==> {
                    let o = old(self).assoc_types@[i];
                    let n = #[trigger] final(self).assoc_types@[i];
                    &&& n.params@.len() == o.params@.len()
                    &&& n.params@[0].name == o.params@[0].name
                    &&& n.params@[0].kind == final(self).type_var.kind
                    &&& forall|k: int| 1 <= k < o.params@.len() ==> (#[trigger] n.params@[k]).name == o.params@[k].name
                        && n.params@[k].kind == signed_kind(o.kind_signs@, o.params@[k].name@, o.params@[k].kind)
                    &&& n.name == o.name
                    &&& n.kind_signs == o.kind_signs
                }
                &&& final(self).trait_ == old(self).trait_
                &&& final(self).members == old(self).members
                &&& final(self).kind_signs == old(self).kind_signs
                &&& final(self).source == old(self).source
                &&& final(self).name_src == old(self).name_src
                &&& final(self).document == old(self).document
            },
    {
        if self.kind_signs.len() >= 2 {
            let span = Span::unite_opt(&self.kind_signs[0].source, &self.kind_signs[1].source);
            let mut srcs: Vec<Option<Span>> = Vec::new();
            srcs.push(span);
            return Err(Errors::from_msg_srcs(
                to_string("You can specify at most one constraint of the form `{type-variable} : {kind}` as the assumption of trait definition."),
                srcs,
            ));
        }
        if self.kind_signs.len() > 0 {
            if self.kind_signs[0].tyvar != self.type_var.name {
                let mut msg = to_string("The type variable used in the assumption of trait `");
                msg.append(self.trait_.to_string().as_str());
                msg.append("` has to be `");
                msg.append(self.type_var.name.as_str());
                msg.append("`.");
                let mut srcs: Vec<Option<Span>> = Vec::new();
                srcs.push(clone_span_opt(&self.kind_signs[0].source));
                let e = Errors::from_msg_srcs(msg, srcs);
                assert(e.errs@[0].srcs@ =~= seq![self.kind_signs@[0].source]);
                return Err(e);
            }
            self.type_var = self.type_var.set_kind(self.kind_signs[0].kind.clone());
        }
        let n = self.assoc_types.len();
        for i in 0..n
            invariant
                n == self.assoc_types@.len(),
                n == old(self).assoc_types@.len(),
                forall|j: int| i <= j < n ==> self.assoc_types@[j] == old(self).assoc_types@[j],
                forall|j: int| 0 <= j < old(self).assoc_types@.len() ==> (#[trigger] old(self).assoc_types@[j]).params@.len() > 0,
                forall|j: int| 0 <= j < i ==> {
                    let o = old(self).assoc_types@[j];
                    let n = #[trigger] self.assoc_types@[j];
                    &&& n.params@.len() == o.params@.len()
                    &&& n.params@[0].name == o.params@[0].name
                    &&& n.params@[0].kind == self.type_var.kind
                    &&& forall|k: int| 1 <= k < o.params@.len() ==> (#[trigger] n.params@[k]).name == o.params@[k].name
                        && n.params@[k].kind == signed_kind(o.kind_signs@, o.params@[k].name@, o.params@[k].kind)
                    &&& n.name == o.name
                    &&& n.kind_signs == o.kind_signs
                },
                self.type_var.name == old(self).type_var.name,
                self.type_var.kind == (if old(self).kind_signs@.len() == 1 { old(self).kind_signs@[0].kind } else { old(self).type_var.kind }),
                self.trait_ == old(self).trait_,
                self.members == old(self).members,
                self.kind_signs == old(self).kind_signs,
                self.source == old(self).source,
                self.name_src == old(self).name_src,
                self.document == old(self).document,
        {
            let mut defn = self.assoc_types.remove(i);
            defn.set_kinds(self.type_var.kind.clone());
            self.assoc_types.insert(i, defn);
        }
        Ok(())
    }
}


/// The keys of the traits `v`.
pub open spec fn trait_keys(v: Seq<TraitId>) -> Seq<(Seq<Seq<char>>, Seq<char>)> {
    v.map_values(|t: TraitId| trait_key(t))
}

/// Whether the `i`-th of `data` is the first alias declared under the key `k`.
pub open spec fn first_alias(data: Seq<TraitAlias>, k: (Seq<Seq<char>>, Seq<char>), i: int) -> bool {
    &&& 0 <= i < data.len()
    &&& trait_key(data[i].id) == k
    &&& forall|j: int| 0 <= j < i ==> trait_key(#[trigger] data[j].id) != k
}

/// Whether some alias of `data` is declared under the key `k`.
pub open spec fn alias_key(data: Seq<TraitAlias>, k: (Seq<Seq<char>>, Seq<char>)) -> bool {
    exists|i: int| 0 <= i < data.len() && trait_key(#[trigger] data[i].id) == k
}

/// Whether the alias declared under the key `a` names the trait with the key `b` among the
/// traits it stands for.
pub open spec fn alias_edge(data: Seq<TraitAlias>, a: (Seq<Seq<char>>, Seq<char>), b: (Seq<Seq<char>>, Seq<char>)) -> bool {
    exists|i: int, j: int|
        #![trigger first_alias(data, a, i), data[i].value@[j]]
        first_alias(data, a, i) && 0 <= j < data[i].value@.len() && trait_key(data[i].value@[j].0) == b
}

/// Whether the `i`-th trait of `p` is an alias naming the next one.
pub open spec fn walk_step(data: Seq<TraitAlias>, p: Seq<(Seq<Seq<char>>, Seq<char>)>, i: int) -> bool {
    alias_edge(data, p[i], p[i + 1])
}

/// Whether `p` is a walk along the aliases of `data`: each trait of it but the first named by the
/// alias before it.
pub open spec fn alias_path(data: Seq<TraitAlias>, p: Seq<(Seq<Seq<char>>, Seq<char>)>) -> bool {
    &&& p.len() >= 1
    &&& forall|i: int| 0 <= i < p.len() - 1 ==> #[trigger] walk_step(data, p, i)
}

/// Whether the trait with the key `b` is reached from the one with the key `a` by following
/// aliases, in no step or more.
pub open spec fn alias_reaches(data: Seq<TraitAlias>, a: (Seq<Seq<char>>, Seq<char>), b: (Seq<Seq<char>>, Seq<char>)) -> bool {
    exists|p: Seq<(Seq<Seq<char>>, Seq<char>)>| #[trigger] alias_path(data, p) && p[0] == a && p.last() == b
}

/// Whether the alias with the key `a` stands for itself, directly or through other aliases.
pub open spec fn alias_on_cycle(data: Seq<TraitAlias>, a: (Seq<Seq<char>>, Seq<char>)) -> bool {
    exists|p: Seq<(Seq<Seq<char>>, Seq<char>)>|
        #[trigger] alias_path(data, p) && p.len() >= 2 && p[0] == a && p.last() == a
}

/// Whether the set `r` holds every trait an alias in it names.
pub open spec fn alias_closed(data: Seq<TraitAlias>, r: Set<(Seq<Seq<char>>, Seq<char>)>) -> bool {
    forall|a: (Seq<Seq<char>>, Seq<char>), b: (Seq<Seq<char>>, Seq<char>)|
        #[trigger] r.contains(a) && #[trigger] alias_edge(data, a, b) ==> r.contains(b)
}

/// The keys of the traits reached from the key `root` that are not aliases.
pub open spec fn alias_targets(data: Seq<TraitAlias>, root: (Seq<Seq<char>>, Seq<char>)) -> Set<(Seq<Seq<char>>, Seq<char>)> {
    Set::new(|x: (Seq<Seq<char>>, Seq<char>)| alias_reaches(data, root, x) && !alias_key(data, x))
}

/// At most one alias is the first declared under a key.
proof fn lemma_first_alias_unique(data: Seq<TraitAlias>, k: (Seq<Seq<char>>, Seq<char>), i: int, j: int)
    requires
        first_alias(data, k, i),
        first_alias(data, k, j),
    ensures
        i == j,
{
    if i < j {
        assert(trait_key(data[i].id) != k);
    } else if j < i {
        assert(trait_key(data[j].id) != k);
    }
}

/// Every key is reached from itself.
proof fn lemma_reaches_self(data: Seq<TraitAlias>, a: (Seq<Seq<char>>, Seq<char>))
    ensures
        alias_reaches(data, a, a),
{
    let p = seq![a];
    assert(alias_path(data, p));
}

/// What a key an alias names reaches, the alias reaches too.
proof fn lemma_reaches_step(data: Seq<TraitAlias>, a: (Seq<Seq<char>>, Seq<char>), b: (Seq<Seq<char>>, Seq<char>), c: (Seq<Seq<char>>, Seq<char>))
    requires
        alias_edge(data, a, b),
        alias_reaches(data, b, c),
    ensures
        alias_reaches(data, a, c),
{
    let p = choose|p: Seq<(Seq<Seq<char>>, Seq<char>)>| #[trigger] alias_path(data, p) && p[0] == b && p.last() == c;
    let q = seq![a] + p;
    assert forall|i: int| 0 <= i < q.len() - 1 implies #[trigger] walk_step(data, q, i) by {
        if i > 0 {
            assert(q[i] == p[i - 1] && q[i + 1] == p[i]);
            assert(walk_step(data, p, i - 1));
        }
    }
    assert(alias_path(data, q));
}

/// A closed set holding where a walk starts holds where it ends.
proof fn lemma_closed_walk(data: Seq<TraitAlias>, r: Set<(Seq<Seq<char>>, Seq<char>)>, p: Seq<(Seq<Seq<char>>, Seq<char>)>)
    requires
        alias_closed(data, r),
        alias_path(data, p),
        r.contains(p[0]),
    ensures
        r.contains(p.last()),
    decreases p.len(),
{
    if p.len() > 1 {
        assert(walk_step(data, p, 0));
        let q = p.drop_first();
        assert forall|i: int| 0 <= i < q.len() - 1 implies #[trigger] walk_step(data, q, i) by {
            assert(walk_step(data, p, i + 1));
        }
        lemma_closed_walk(data, r, q);
    }
}

/// A walk from `root` ending at an alias that names a trait already on the walk closes a cycle
/// through that trait, which `root` reaches.
proof fn lemma_walk_cycle(data: Seq<TraitAlias>, p: Seq<(Seq<Seq<char>>, Seq<char>)>, t: (Seq<Seq<char>>, Seq<char>), i: int)
    requires
        alias_path(data, p),
        alias_edge(data, p.last(), t),
        0 <= i < p.len(),
        p[i] == t,
    ensures
        alias_on_cycle(data, t),
        alias_reaches(data, p[0], t),
{
    let c = p.subrange(i, p.len() as int).push(t);
    assert forall|k: int| 0 <= k < c.len() - 1 implies #[trigger] walk_step(data, c, k) by {
        if k < c.len() - 2 {
            assert(c[k] == p[i + k] && c[k + 1] == p[i + k + 1]);
            assert(walk_step(data, p, i + k));
        } else {
            assert(c[k] == p.last() && c[k + 1] == t);
        }
    }
    assert(alias_path(data, c));
    let w = p.subrange(0, i + 1);
    assert forall|k: int| 0 <= k < w.len() - 1 implies #[trigger] walk_step(data, w, k) by {
        assert(walk_step(data, p, k));
    }
    assert(alias_path(data, w));
}

/// A trait every one of whose successors lies in a closed set it is not in lies on no cycle.
proof fn lemma_off_cycle(data: Seq<TraitAlias>, r: Set<(Seq<Seq<char>>, Seq<char>)>, t: (Seq<Seq<char>>, Seq<char>))
    requires
        alias_closed(data, r),
        !r.contains(t),
        forall|b: (Seq<Seq<char>>, Seq<char>)| #[trigger] alias_edge(data, t, b) ==> r.contains(b),
    ensures
        !alias_on_cycle(data, t),
{
    if alias_on_cycle(data, t) {
        let p = choose|p: Seq<(Seq<Seq<char>>, Seq<char>)>|
            #[trigger] alias_path(data, p) && p.len() >= 2 && p[0] == t && p.last() == t;
        assert(walk_step(data, p, 0));
        let q = p.drop_first();
        assert forall|i: int| 0 <= i < q.len() - 1 implies #[trigger] walk_step(data, q, i) by {
            assert(walk_step(data, p, i + 1));
        }
        lemma_closed_walk(data, r, q);
    }
}

/// A walk that repeats no trait and holds only aliases is no longer than the list of aliases.
proof fn lemma_walk_bound(data: Seq<TraitAlias>, p: Seq<(Seq<Seq<char>>, Seq<char>)>)
    requires
        p.no_duplicates(),
        forall|i: int| 0 <= i < p.len() ==> alias_key(data, #[trigger] p[i]),
    ensures
        p.len() <= data.len(),
{
    let ks = data.map_values(|a: TraitAlias| trait_key(a.id));
    p.unique_seq_to_set();
    ks.lemma_cardinality_of_set();
    vstd::seq_lib::seq_to_set_is_finite(ks);
    assert forall|x| p.to_set().contains(x) implies ks.to_set().contains(x) by {
        let i = choose|i: int| 0 <= i < p.len() && p[i] == x;
        assert(alias_key(data, p[i]));
        let j = choose|j: int| 0 <= j < data.len() && trait_key(#[trigger] data[j].id) == x;
        assert(ks[j] == x);
    }
    vstd::set_lib::lemma_len_subset(p.to_set(), ks.to_set());
}

/// Whether one of the traits `v` has the key of `t`.
fn has_trait(v: &Vec<TraitId>, t: &TraitId) -> (r: bool)
    ensures
        r == trait_keys(v@).contains(trait_key(*t)),
{
    let mut i: usize = 0;
    while i < v.len()
        invariant
            i <= v@.len(),
            forall|j: int| 0 <= j < i ==> trait_key(#[trigger] v@[j]) != trait_key(*t),
        decreases v@.len() - i,
    {
        if v[i] == *t {
            assert(trait_keys(v@)[i as int] == trait_key(*t));
            return true;
        }
        i = i + 1;
    }
    proof {
        if trait_keys(v@).contains(trait_key(*t)) {
            let j = choose|j: int| 0 <= j < v@.len() && trait_keys(v@)[j] == trait_key(*t);
            assert(trait_key(v@[j]) != trait_key(*t));
        }
    }
    false
}

impl TraitAliasEnv {
    /// The position of the first alias declared under the name `trait_id`, if there is one.
    fn find(&self, trait_id: &TraitId) -> (r: Option<usize>)
        ensures
            match r {
                Some(i) => first_alias(self.data@, trait_key(*trait_id), i as int),
                None => !alias_key(self.data@, trait_key(*trait_id)),
            },
    {
        let mut i: usize = 0;
        while i < self.data.len()
            invariant
                i <= self.data@.len(),
                forall|j: int| 0 <= j < i ==> trait_key(#[trigger] self.data@[j].id) != trait_key(*trait_id),
            decreases self.data@.len() - i,
        {
            if self.data[i].id == *trait_id {
                return Some(i);
            }
            i = i + 1;
        }
        None
    }

    /// Walks the aliases reached from `trait_id`, pushing onto `res` each trait reached that is
    /// not an alias and not yet in `resolved`. `on_path` holds the aliases the walk from `root`
    /// has entered and not yet left; an alias met again while in it stands for itself, and is
    /// reported. `resolved` holds the traits all of whose targets are in `res`.
    fn resolve_alias_internal(
        &self,
        trait_id: &TraitId,
        res: &mut Vec<TraitId>,
        on_path: &mut Vec<TraitId>,
        resolved: &mut Vec<TraitId>,
        Ghost(root): Ghost<(Seq<Seq<char>>, Seq<char>)>,
    ) -> (r: Result<(), Errors>)
        requires
            ({
                let data = self.data@;
                let p = trait_keys(old(on_path)@);
                let done = trait_keys(old(resolved)@).to_set();
                &&& p.no_duplicates()
                &&& forall|i: int| 0 <= i < p.len() ==> alias_key(data, #[trigger] p[i])
                &&& (p.len() == 0 && trait_key(*trait_id) == root) || (p.len() > 0 && alias_path(data, p)
                    && p[0] == root && alias_edge(data, p.last(), trait_key(*trait_id)))
                &&& forall|x| done.contains(x) ==> !p.contains(x)
                &&& alias_closed(data, done)
                &&& forall|x| #[trigger] done.contains(x) ==> !alias_on_cycle(data, x)
                &&& trait_keys(old(res)@).no_duplicates()
                &&& trait_keys(old(res)@).to_set() == done.filter(|x| !alias_key(data, x))
            }),
        ensures
            ({
                let data = self.data@;
                let p = trait_keys(old(on_path)@);
                let done0 = trait_keys(old(resolved)@).to_set();
                let done = trait_keys(final(resolved)@).to_set();
                match r {
                    Ok(()) => {
                        &&& final(on_path)@ == old(on_path)@
                        &&& done.contains(trait_key(*trait_id))
                        &&& done0.subset_of(done)
                        &&& forall|x| #[trigger] done.contains(x) ==> done0.contains(x) || alias_reaches(
                            data,
                            trait_key(*trait_id),
                            x,
                        )
                        &&& forall|x| done.contains(x) ==> !p.contains(x)
                        &&& alias_closed(data, done)
                        &&& forall|x| #[trigger] done.contains(x) ==> !alias_on_cycle(data, x)
                        &&& trait_keys(final(res)@).no_duplicates()
                        &&& trait_keys(final(res)@).to_set() == done.filter(|x| !alias_key(data, x))
                    },
                    Err(e) => exists|t: TraitId, i: int|
                        #![trigger first_alias(data, trait_key(t), i)]
                        first_alias(data, trait_key(t), i) && alias_reaches(data, root, trait_key(t))
                            && alias_on_cycle(data, trait_key(t)) && e.errs@.len() == 1
                            && e.errs@[0].srcs@ == seq![data[i].source] && e.errs@[0].msg@
                            == "Circular aliasing detected in trait alias `"@ + fullname_text(t.name@)
                            + "`."@,
                }
            }),
        decreases self.data@.len() - old(on_path)@.len(),
    {
        let ghost data = self.data@;
        let ghost key = trait_key(*trait_id);
        if has_trait(resolved, trait_id) {
            return Ok(());
        }
        let idx = match self.find(trait_id) {
            Some(i) => i,
            None => {
                let ghost res0 = res@;
                let ghost done0 = trait_keys(resolved@).to_set();
                res.push(trait_id.clone());
                resolved.push(trait_id.clone());
                proof {
                    assert(trait_keys(res@) =~= trait_keys(res0).push(key));
                    trait_keys(res0).lemma_push_to_set_commute(key);
                    let done = trait_keys(resolved@).to_set();
                    assert(trait_keys(resolved@) =~= trait_keys(old(resolved)@).push(key));
                    trait_keys(old(resolved)@).lemma_push_to_set_commute(key);
                    assert(!trait_keys(res0).contains(key)) by {
                        if trait_keys(res0).contains(key) {
                            assert(trait_keys(res0).to_set().contains(key));
                        }
                    }
                    assert(trait_keys(res@).to_set() =~= done.filter(|x| !alias_key(data, x)));
                    lemma_reaches_self(data, key);
                    assert forall|x| done.contains(x) implies !trait_keys(old(on_path)@).contains(x) by {
                        if x == key && trait_keys(old(on_path)@).contains(x) {
                            let j = choose|j: int| 0 <= j < trait_keys(old(on_path)@).len() && trait_keys(old(on_path)@)[j] == x;
                            assert(alias_key(data, trait_keys(old(on_path)@)[j]));
                        }
                    }
                    assert forall|a, b| #[trigger] done.contains(a) && #[trigger] alias_edge(data, a, b) implies done.contains(b) by {
                        if a == key {
                            let (i, j) = choose|i: int, j: int|
                                #![trigger first_alias(data, a, i), data[i].value@[j]]
                                first_alias(data, a, i) && 0 <= j < data[i].value@.len() && trait_key(data[i].value@[j].0) == b;
                            assert(alias_key(data, key));
                        } else {
                            assert(done0.contains(a));
                        }
                    }
                    assert forall|x| #[trigger] done.contains(x) implies !alias_on_cycle(data, x) by {
                        if x == key && alias_on_cycle(data, x) {
                            let p = choose|p: Seq<(Seq<Seq<char>>, Seq<char>)>|
                                #[trigger] alias_path(data, p) && p.len() >= 2 && p[0] == x && p.last() == x;
                            assert(walk_step(data, p, 0));
                            let (i, j) = choose|i: int, j: int|
                                #![trigger first_alias(data, p[0], i), data[i].value@[j]]
                                first_alias(data, p[0], i) && 0 <= j < data[i].value@.len() && trait_key(data[i].value@[j].0) == p[1];
                            assert(alias_key(data, key));
                        }
                    }
                }
                return Ok(());
            },
        };
        if has_trait(on_path, trait_id) {
            let mut msg = to_string("Circular aliasing detected in trait alias `");
            let ts = trait_id.to_string();
            msg.append(ts.as_str());
            msg.append("`.");
            proof {
                reveal_strlit("Circular aliasing detected in trait alias `");
                reveal_strlit("`.");
                let p = trait_keys(on_path@);
                let i = choose|i: int| 0 <= i < p.len() && p[i] == key;
                lemma_walk_cycle(data, p, key, i);
            }
            return Err(Errors::from_msg_src(msg, clone_span_opt(&self.data[idx].source)));
        }
        let ghost p0 = trait_keys(on_path@);
        let ghost path0 = on_path@;
        on_path.push(trait_id.clone());
        let ghost pushed = on_path@;
        let ghost p1 = trait_keys(on_path@);
        proof {
            assert(p1 =~= p0.push(key));
            assert(pushed.drop_last() =~= path0);
            assert(alias_key(data, key));
            assert(p1.no_duplicates()) by {
                assert forall|a: int, b: int| 0 <= a < b < p1.len() implies p1[a] != p1[b] by {
                    if b == p1.len() - 1 {
                        assert(p0.contains(p1[a]));
                    }
                }
            }
            assert forall|i: int| 0 <= i < p1.len() - 1 implies #[trigger] walk_step(data, p1, i) by {
                if i < p0.len() - 1 {
                    assert(walk_step(data, p0, i));
                }
            }
            lemma_walk_bound(data, p1);
        }
        let ghost done_start = trait_keys(resolved@).to_set();
        let alias = &self.data[idx];
        let mut k: usize = 0;
        while k < alias.value.len()
            invariant
                data == self.data@,
                key == trait_key(*trait_id),
                first_alias(data, key, idx as int),
                *alias == data[idx as int],
                k <= alias.value@.len(),
                on_path@ == pushed,
                pushed.drop_last() == path0,
                p1 == trait_keys(on_path@),
                p1 == p0.push(key),
                p1.no_duplicates(),
                p1.len() <= data.len(),
                forall|i: int| 0 <= i < p1.len() ==> alias_key(data, #[trigger] p1[i]),
                alias_path(data, p1),
                p1[0] == root,
                p0 == trait_keys(old(on_path)@),
                path0 == old(on_path)@,
                done_start == trait_keys(old(resolved)@).to_set(),
                !done_start.contains(key),
                done_start.subset_of(trait_keys(resolved@).to_set()),
                forall|x| #[trigger] trait_keys(resolved@).to_set().contains(x) ==> done_start.contains(x)
                    || alias_reaches(data, key, x),
                forall|x| trait_keys(resolved@).to_set().contains(x) ==> !p1.contains(x),
                alias_closed(data, trait_keys(resolved@).to_set()),
                forall|x| #[trigger] trait_keys(resolved@).to_set().contains(x) ==> !alias_on_cycle(data, x),
                trait_keys(res@).no_duplicates(),
                trait_keys(res@).to_set() == trait_keys(resolved@).to_set().filter(|x| !alias_key(data, x)),
                forall|j: int| 0 <= j < k ==> trait_keys(resolved@).to_set().contains(
                    trait_key(#[trigger] alias.value@[j].0),
                ),
            decreases alias.value@.len() - k,
        {
            let t = &alias.value[k].0;
            proof {
                assert(alias_edge(data, key, trait_key(*t)));
                assert(p1.last() == key);
            }
            let ghost done_before = trait_keys(resolved@).to_set();
            let r = self.resolve_alias_internal(t, res, on_path, resolved, Ghost(root));
            match r {
                Ok(()) => {},
                Err(e) => {
                    return Err(e);
                },
            }
            proof {
                let done = trait_keys(resolved@).to_set();
                assert forall|x| #[trigger] done.contains(x) implies done_start.contains(x) || alias_reaches(data, key, x) by {
                    if !done_before.contains(x) {
                        lemma_reaches_step(data, key, trait_key(*t), x);
                    }
                }
                assert forall|j: int| 0 <= j < k + 1 implies done.contains(trait_key(#[trigger] alias.value@[j].0)) by {
                    if j < k {
                        assert(done_before.contains(trait_key(alias.value@[j].0)));
                    }
                }
            }
            k = k + 1;
        }
        on_path.pop();
        let ghost done_mid = trait_keys(resolved@).to_set();
        let ghost midv = resolved@;
        resolved.push(trait_id.clone());
        proof {
            assert(on_path@ =~= old(on_path)@);
            assert(trait_keys(resolved@) =~= trait_keys(midv).push(key));
            trait_keys(midv).lemma_push_to_set_commute(key);
            let done = trait_keys(resolved@).to_set();
            assert(done =~= done_mid.insert(key));
            assert(!done_mid.contains(key)) by {
                assert(p1.contains(key)) by {
                    assert(p1[p1.len() - 1] == key);
                }
            }
            assert forall|b| #[trigger] alias_edge(data, key, b) implies done_mid.contains(b) by {
                let (i, j) = choose|i: int, j: int|
                    #![trigger first_alias(data, key, i), data[i].value@[j]]
                    first_alias(data, key, i) && 0 <= j < data[i].value@.len() && trait_key(data[i].value@[j].0) == b;
                lemma_first_alias_unique(data, key, i, idx as int);
                assert(done_mid.contains(trait_key(alias.value@[j].0)));
            }
            lemma_off_cycle(data, done_mid, key);
            lemma_reaches_self(data, key);
            assert forall|a, b| #[trigger] done.contains(a) && #[trigger] alias_edge(data, a, b) implies done.contains(b) by {
                if a != key {
                    assert(done_mid.contains(a));
                }
            }
            assert forall|x| done.contains(x) implies !p0.contains(x) by {
                if p0.contains(x) {
                    let j = choose|j: int| 0 <= j < p0.len() && p0[j] == x;
                    assert(p1[j] == x);
                    assert(p1.contains(x));
                    if x == key {
                        assert(p1[p1.len() - 1] == key);
                        assert(j != p1.len() - 1);
                    } else {
                        assert(done_mid.contains(x));
                    }
                }
            }
            assert(trait_keys(res@).to_set() =~= done.filter(|x| !alias_key(data, x)));
        }
        Ok(())
    }

    /// The traits the alias `trait_id` stands for: each trait reached from it through aliases
    /// that is not itself an alias, once; a trait that is not an alias stands for itself. An
    /// alias reached from `trait_id` that stands for itself, directly or through other aliases,
    /// is reported, since expanding it would not end; such a one is reported if and only if
    /// there is one.
    pub fn resolve_alias(&self, trait_id: &TraitId) -> (r: Result<Vec<TraitId>, Errors>)
        ensures
            ({
                let data = self.data@;
                let root = trait_key(*trait_id);
                match r {
                    Ok(v) => {
                        &&& trait_keys(v@).no_duplicates()
                        &&& trait_keys(v@).to_set() == alias_targets(data, root)
                        &&& forall|x| alias_reaches(data, root, x) ==> !#[trigger] alias_on_cycle(data, x)
                    },
                    Err(e) => exists|t: TraitId, i: int|
                        #![trigger first_alias(data, trait_key(t), i)]
                        first_alias(data, trait_key(t), i) && alias_reaches(data, root, trait_key(t))
                            && alias_on_cycle(data, trait_key(t)) && e.errs@.len() == 1
                            && e.errs@[0].srcs@ == seq![data[i].source] && e.errs@[0].msg@
                            == "Circular aliasing detected in trait alias `"@ + fullname_text(t.name@)
                            + "`."@,
                }
            }),
    {
        let ghost data = self.data@;
        let ghost root = trait_key(*trait_id);
        let mut res: Vec<TraitId> = Vec::new();
        let mut on_path: Vec<TraitId> = Vec::new();
        let mut resolved: Vec<TraitId> = Vec::new();
        proof {
            assert(trait_keys(on_path@) =~= Seq::empty());
            assert(trait_keys(resolved@).to_set() =~= Set::empty());
            assert(trait_keys(res@) =~= Seq::empty());
            assert(trait_keys(res@).to_set() =~= trait_keys(resolved@).to_set().filter(|x| !alias_key(data, x)));
        }
        match self.resolve_alias_internal(trait_id, &mut res, &mut on_path, &mut resolved, Ghost(root)) {
            Ok(()) => {},
            Err(e) => {
                return Err(e);
            },
        }
        proof {
            let done = trait_keys(resolved@).to_set();
            assert forall|x| alias_reaches(data, root, x) implies done.contains(x) by {
                let p = choose|p: Seq<(Seq<Seq<char>>, Seq<char>)>| #[trigger] alias_path(data, p) && p[0] == root && p.last() == x;
                lemma_closed_walk(data, done, p);
            }
            assert forall|x| done.contains(x) implies alias_reaches(data, root, x) by {
                assert(!Set::<(Seq<Seq<char>>, Seq<char>)>::empty().contains(x));
            }
            assert forall|x| alias_reaches(data, root, x) implies !#[trigger] alias_on_cycle(data, x) by {
                assert(done.contains(x));
            }
            assert(trait_keys(res@).to_set() =~= alias_targets(data, root));
        }
        Ok(res)
    }
}


impl TraitDefn {
    /// The trait's documentation: `from_source`, the comment written above the declaration where
    /// it was read from a source file and there is one, and otherwise the `document` field;
    /// documentation with no text in it counts as none.
    pub fn get_document(&self, from_source: Option<String>) -> (r: Option<String>)
        ensures
            r == match crate::ast::types::nonempty_doc(from_source) {
                Some(d) => Some(d),
                None => crate::ast::types::nonempty_doc(self.document),
            },
    {
        match crate::ast::types::nonempty(from_source) {
            Some(d) => Some(d),
            None => crate::ast::types::nonempty(self.document.clone()),
        }
    }
}


/// The key of the first of the associated types `defs` of the trait `t` whose name touches
/// `pos`, from the `k`-th on.
pub open spec fn assoc_defns_at(defs: Seq<AssocTypeDefn>, t: TraitId, pos: SourcePos, k: int) -> Option<(Seq<Seq<char>>, Seq<char>)>
    decreases defs.len() - k,
{
    if k < 0 || k >= defs.len() {
        None
    } else if crate::ast::types::touches(defs[k].name_src, pos) {
        Some((t.name@.namespace.names.push(t.name@.name), defs[k].name@))
    } else {
        assoc_defns_at(defs, t, pos, k + 1)
    }
}

/// What the first of the members `ms` from the `k`-th on that stands on something at `pos`
/// stands on there.
pub open spec fn members_node_at(ms: Seq<TraitMember>, pos: SourcePos, k: int) -> Option<NodeAt>
    decreases ms.len() - k,
{
    if k < 0 || k >= ms.len() {
        None
    } else {
        match qual_type_node_at(ms[k].qual_ty, pos) {
            Some(p) => Some(p),
            None => members_node_at(ms, pos, k + 1),
        }
    }
}

/// What the declaration `d` stands on at `pos`: its trait where its name touches `pos`, else
/// the first associated type whose name does, else what the first member that stands on
/// something there stands on.
pub open spec fn trait_defn_node_at(d: TraitDefn, pos: SourcePos) -> Option<NodeAt> {
    if crate::ast::types::touches(d.name_src, pos) {
        Some(NodeAt::Trait(trait_key(d.trait_)))
    } else {
        match assoc_defns_at(d.assoc_types@, d.trait_, pos, 0) {
            Some(k) => Some(NodeAt::Part(TypePart::AssocTy(k))),
            None => members_node_at(d.members@, pos, 0),
        }
    }
}

impl TraitDefn {
    /// The smallest node covering `pos` among the trait's name, the names of its associated
    /// types and its members.
    pub fn find_node_at(&self, pos: &SourcePos) -> (r: Option<EndNode>)
        ensures
            node_at_found(r, trait_defn_node_at(*self, *pos)),
    {
        if let Some(ns) = &self.name_src {
            if ns.includes_pos_lsp(pos) {
                return Some(EndNode::Trait(self.trait_.clone()));
            }
        }
        let mut i: usize = 0;
        while i < self.assoc_types.len()
            invariant
                i <= self.assoc_types@.len(),
                !crate::ast::types::touches(self.name_src, *pos),
                assoc_defns_at(self.assoc_types@, self.trait_, *pos, 0) == assoc_defns_at(self.assoc_types@, self.trait_, *pos, i as int),
            decreases self.assoc_types@.len() - i,
        {
            let defn = &self.assoc_types[i];
            if let Some(ns) = &defn.name_src {
                if ns.includes_pos_lsp(pos) {
                    let full_name = FullName::new(&self.trait_.name.to_namespace(), defn.name.as_str());
                    return Some(EndNode::AssocType(AssocType { name: full_name, src: Some(ns.clone()) }));
                }
            }
            i = i + 1;
        }
        let mut i: usize = 0;
        while i < self.members.len()
            invariant
                i <= self.members@.len(),
                !crate::ast::types::touches(self.name_src, *pos),
                assoc_defns_at(self.assoc_types@, self.trait_, *pos, 0) is None,
                members_node_at(self.members@, *pos, 0) == members_node_at(self.members@, *pos, i as int),
            decreases self.members@.len() - i,
        {
            let node = self.members[i].find_node_at(pos);
            if node.is_some() {
                return node;
            }
            i = i + 1;
        }
        None
    }
}

} // verus!
