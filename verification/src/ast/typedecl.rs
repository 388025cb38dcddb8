//! Declarations of user-defined types: structs, unions and type aliases, with the checks the
//! compiler runs over them.
use crate::ast::kind_scope::{mismatch_message, scope_insert, KindScope};
use crate::ast::name::{fullname_text, FullName, Name};
use crate::ast::program::EndNode;
use crate::ast::types::{
    app_args, app_head, end_node_part, kind_arrow, kind_star, kinds_set, part_at, push_free_vars,
    type_from_tyvar, type_tyapp, type_tycon, Kind, TyAliasInfo, TyCon, TyConInfo, TyConVariant,
    TyVar, Type, TypeNode, TypePart,
};
use crate::error::Errors;
use crate::source::{clone_span_opt, SourcePos, Span};
use std::sync::Arc;
use vstd::prelude::*;

verus! {

/// The declaration of a user-defined type: its name, its parameters, and what it is.
pub struct TypeDefn {
    /// The name the type is declared under.
    pub name: FullName,
    /// What the type is: a struct, a union, or an alias of another type.
    pub value: TypeDeclValue,
    /// The parameters the declaration takes, in the order they are declared.
    pub tyvars: Vec<Arc<TyVar>>,
    /// Where the declaration was written.
    pub source: Option<Span>,
}

/// The right-hand side of a type declaration.
pub enum TypeDeclValue {
    /// A struct.
    Struct(Struct),
    /// A union.
    Union(Union),
    /// An alias of another type.
    Alias(TypeAlias),
}

/// A struct: its fields, and whether a value is held in place rather than boxed.
pub struct Struct {
    /// The fields, in the order they are declared.
    pub fields: Vec<Field>,
    /// Whether a value is held in place, with its fields laid out where the value sits.
    pub is_unbox: bool,
}

/// A union: its variants, and whether a value is held in place rather than boxed.
pub struct Union {
    /// The variants, in the order they are declared.
    pub fields: Vec<Field>,
    /// Whether a value is held in place.
    pub is_unbox: bool,
}

/// A type alias: the type it stands for.
pub struct TypeAlias {
    /// The type the alias stands for, written in terms of the declaration's parameters.
    pub value: Arc<TypeNode>,
}

/// A field of a struct or a variant of a union.
pub struct Field {
    /// The field's name.
    pub name: Name,
    /// The field's type, with the type aliases in it expanded.
    pub ty: Arc<TypeNode>,
    /// The field's type as it was written.
    pub syn_ty: Arc<TypeNode>,
    /// Whether the field is punched out: its value has been moved out of the struct.
    pub is_punched: bool,
    /// Where the field was written.
    pub source: Option<Span>,
}

impl Clone for Field {
    fn clone(&self) -> (r: Self)
        ensures
            r == *self,
    {
        Field {
            name: self.name.clone(),
            ty: self.ty.clone(),
            syn_ty: self.syn_ty.clone(),
            is_punched: self.is_punched,
            source: clone_span_opt(&self.source),
        }
    }
}

/// A copy of each field of `v`.
pub fn clone_fields(v: &Vec<Field>) -> (r: Vec<Field>)
    ensures
        r@ == v@,
{
    let mut r: Vec<Field> = Vec::new();
    for i in 0..v.len()
        invariant
            r@ == v@.take(i as int),
    {
        r.push(v[i].clone());
        assert(r@ =~= v@.take(i + 1));
    }
    assert(v@.take(v@.len() as int) =~= v@);
    r
}

/// A copy of each type variable of `v`.
pub fn clone_tyvars(v: &Vec<Arc<TyVar>>) -> (r: Vec<Arc<TyVar>>)
    ensures
        r@ == v@,
{
    let mut r: Vec<Arc<TyVar>> = Vec::new();
    for i in 0..v.len()
        invariant
            r@ == v@.take(i as int),
    {
        r.push(v[i].clone());
        assert(r@ =~= v@.take(i + 1));
    }
    assert(v@.take(v@.len() as int) =~= v@);
    r
}

/// Whether `k` is the kind of a type constructor taking parameters of the kinds `tyvars` carry,
/// in order, to a type of kind `*`: `*` for none, and `k0 -> (k1 -> ... -> *)` otherwise.
pub open spec fn is_defn_kind(k: Kind, tyvars: Seq<Arc<TyVar>>) -> bool
    decreases tyvars.len(),
{
    if tyvars.len() == 0 {
        k == Kind::Star
    } else {
        &&& k is Arrow
        &&& k->Arrow_0 == tyvars[0].kind
        &&& is_defn_kind(*k->Arrow_1, tyvars.drop_first())
    }
}

/// The fields a declaration value declares: a struct's fields or a union's variants.
pub open spec fn value_fields(v: TypeDeclValue) -> Seq<Field> {
    match v {
        TypeDeclValue::Struct(s) => s.fields@,
        TypeDeclValue::Union(u) => u.fields@,
        TypeDeclValue::Alias(_) => Seq::empty(),
    }
}

/// What the first of `fields` whose type has a node covering `pos` stands on there.
pub open spec fn fields_part_at(fields: Seq<Field>, pos: SourcePos) -> Option<TypePart>
    decreases fields.len(),
{
    if fields.len() == 0 {
        None
    } else {
        match fields_part_at(fields.drop_last(), pos) {
            Some(p) => Some(p),
            None => part_at(*fields.last().ty, pos),
        }
    }
}

/// Once the first `k` fields stand on something at a position, the first `l` stand on the same,
/// for every `l` from `k` on.
proof fn lemma_fields_part_at_first(fields: Seq<Field>, pos: SourcePos, k: int, l: int)
    requires
        0 <= k <= l <= fields.len(),
        fields_part_at(fields.take(k), pos) is Some,
    ensures
        fields_part_at(fields.take(l), pos) == fields_part_at(fields.take(k), pos),
    decreases l - k,
{
    if k < l {
        lemma_fields_part_at_first(fields, pos, k, l - 1);
        assert(fields.take(l).drop_last() =~= fields.take(l - 1));
    }
}

/// What the declaration value `v` stands on at `pos`: a field's type, or the aliased type.
pub open spec fn value_part_at(v: TypeDeclValue, pos: SourcePos) -> Option<TypePart> {
    match v {
        TypeDeclValue::Struct(s) => fields_part_at(s.fields@, pos),
        TypeDeclValue::Union(u) => fields_part_at(u.fields@, pos),
        TypeDeclValue::Alias(a) => part_at(*a.value, pos),
    }
}

/// Whether the result `r` of a search for the node at a position stands on `part`.
pub open spec fn found_part(r: Option<EndNode>, part: Option<TypePart>) -> bool {
    match r {
        None => part is None,
        Some(e) => end_node_part(e) == part && part is Some,
    }
}

/// The smallest node of the first of `fields` whose type covers `pos`.
fn fields_find_node_at(fields: &Vec<Field>, pos: &SourcePos) -> (r: Option<EndNode>)
    ensures
        found_part(r, fields_part_at(fields@, *pos)),
{
    for i in 0..fields.len()
        invariant
            fields_part_at(fields@.take(i as int), *pos) is None,
    {
        let node = fields[i].find_node_at(pos);
        proof {
            assert(fields@.take(i + 1).drop_last() =~= fields@.take(i as int));
        }
        if node.is_some() {
            proof {
                lemma_fields_part_at_first(fields@, *pos, i + 1, fields@.len() as int);
                assert(fields@.take(fields@.len() as int) =~= fields@);
            }
            return node;
        }
    }
    proof {
        assert(fields@.take(fields@.len() as int) =~= fields@);
    }
    None
}

impl Field {
    /// The field `name` written with the type `syn_ty` at `source`, not punched out. Its type
    /// with aliases expanded is the written type until the aliases are expanded.
    pub fn make(name: Name, syn_ty: Arc<TypeNode>, source: Option<Span>) -> (r: Self)
        ensures
            r.name == name,
            r.ty == syn_ty,
            r.syn_ty == syn_ty,
            !r.is_punched,
            r.source == source,
    {
        Field { name, ty: syn_ty.clone(), syn_ty, is_punched: false, source }
    }

    /// The smallest node of the field's type covering `pos`.
    pub fn find_node_at(&self, pos: &SourcePos) -> (r: Option<EndNode>)
        ensures
            found_part(r, part_at(*self.ty, *pos)),
    {
        self.ty.find_node_at(pos)
    }

    /// Gives each type variable in the field's type the kind `kinds` binds its name to.
    pub fn set_kinds(&mut self, kinds: &KindScope)
        ensures
            kinds_set(*final(self).ty, *old(self).ty, kinds@),
            final(self).name == old(self).name,
            final(self).syn_ty == old(self).syn_ty,
            final(self).is_punched == old(self).is_punched,
            final(self).source == old(self).source,
    {
        self.ty = self.ty.set_kinds(kinds);
    }
}

/// Whether `new` is `old` with the type of each field given the kinds `scope` binds.
pub open spec fn fields_kinds_set(new: Seq<Field>, old: Seq<Field>, scope: Map<Seq<char>, Arc<Kind>>) -> bool {
    &&& new.len() == old.len()
    &&& forall|i: int|
        0 <= i < old.len() ==> {
            &&& #[trigger] new[i].name == old[i].name
            &&& new[i].syn_ty == old[i].syn_ty
            &&& new[i].is_punched == old[i].is_punched
            &&& new[i].source == old[i].source
            &&& kinds_set(*new[i].ty, *old[i].ty, scope)
        }
}

/// Gives each type variable in the types of `fields` the kind `kinds` binds its name to.
fn fields_set_kinds(fields: &mut Vec<Field>, kinds: &KindScope)
    ensures
        fields_kinds_set(final(fields)@, old(fields)@, kinds@),
{
    let ghost before = fields@;
    let n = fields.len();
    for i in 0..n
        invariant
            n == before.len(),
            fields@.len() == before.len(),
            forall|j: int|
                0 <= j < i ==> {
                    &&& #[trigger] fields@[j].name == before[j].name
                    &&& fields@[j].syn_ty == before[j].syn_ty
                    &&& fields@[j].is_punched == before[j].is_punched
                    &&& fields@[j].source == before[j].source
                    &&& kinds_set(*fields@[j].ty, *before[j].ty, kinds@)
                },
            forall|j: int| i <= j < before.len() ==> fields@[j] == before[j],
    {
        let mut f = fields[i].clone();
        f.set_kinds(kinds);
        let ghost prev = fields@;
        fields.set(i, f);
        proof {
            assert forall|j: int| 0 <= j < i + 1 implies {
                &&& #[trigger] fields@[j].name == before[j].name
                &&& fields@[j].syn_ty == before[j].syn_ty
                &&& fields@[j].is_punched == before[j].is_punched
                &&& fields@[j].source == before[j].source
                &&& kinds_set(*fields@[j].ty, *before[j].ty, kinds@)
            } by {
                if j < i {
                    assert(fields@[j] == prev[j]);
                    assert(prev[j].name == before[j].name);
                }
            }
        }
    }
    proof {
        assert forall|j: int| 0 <= j < before.len() implies {
            &&& #[trigger] fields@[j].name == before[j].name
            &&& fields@[j].syn_ty == before[j].syn_ty
            &&& fields@[j].is_punched == before[j].is_punched
            &&& fields@[j].source == before[j].source
            &&& kinds_set(*fields@[j].ty, *before[j].ty, kinds@)
        } by {
            assert(fields@[j].name == before[j].name);
        }
        assert(fields@.len() == before.len());
        assert(before == old(fields)@);
        assert(fields_kinds_set(fields@, before, kinds@));
    }
}

impl Struct {
    /// The smallest node of the type of the first field covering `pos`.
    pub fn find_node_at(&self, pos: &SourcePos) -> (r: Option<EndNode>)
        ensures
            found_part(r, fields_part_at(self.fields@, *pos)),
    {
        fields_find_node_at(&self.fields, pos)
    }

    /// Gives each type variable in the field types the kind `kinds` binds its name to.
    pub fn set_kinds(&mut self, kinds: &KindScope)
        ensures
            fields_kinds_set(final(self).fields@, old(self).fields@, kinds@),
            final(self).is_unbox == old(self).is_unbox,
    {
        fields_set_kinds(&mut self.fields, kinds);
    }

    /// Whether a value is boxed, held behind a pointer.
    pub fn is_boxed(&self) -> (r: bool)
        ensures
            r == !self.is_unbox,
    {
        !self.is_unbox
    }
}

impl Union {
    /// The smallest node of the type of the first variant covering `pos`.
    pub fn find_node_at(&self, pos: &SourcePos) -> (r: Option<EndNode>)
        ensures
            found_part(r, fields_part_at(self.fields@, *pos)),
    {
        fields_find_node_at(&self.fields, pos)
    }

    /// Gives each type variable in the variant types the kind `kinds` binds its name to.
    pub fn set_kinds(&mut self, kinds: &KindScope)
        ensures
            fields_kinds_set(final(self).fields@, old(self).fields@, kinds@),
            final(self).is_unbox == old(self).is_unbox,
    {
        fields_set_kinds(&mut self.fields, kinds);
    }

    /// Whether a value is boxed, held behind a pointer.
    pub fn is_boxed(&self) -> (r: bool)
        ensures
            r == !self.is_unbox,
    {
        !self.is_unbox
    }
}

impl TypeAlias {
    /// The smallest node of the aliased type covering `pos`.
    pub fn find_node_at(&self, pos: &SourcePos) -> (r: Option<EndNode>)
        ensures
            found_part(r, part_at(*self.value, *pos)),
    {
        self.value.find_node_at(pos)
    }

    /// Gives each type variable in the aliased type the kind `scope` binds its name to.
    pub fn set_kinds(&mut self, scope: &KindScope)
        ensures
            kinds_set(*final(self).value, *old(self).value, scope@),
    {
        self.value = self.value.set_kinds(scope);
    }
}

/// Whether the declaration value `new` is `old` with each type variable in it given the kind
/// `scope` binds its name to.
pub open spec fn value_kinds_set(new: TypeDeclValue, old: TypeDeclValue, scope: Map<Seq<char>, Arc<Kind>>) -> bool {
    match (new, old) {
        (TypeDeclValue::Struct(n), TypeDeclValue::Struct(o)) => fields_kinds_set(n.fields@, o.fields@, scope) && n.is_unbox == o.is_unbox,
        (TypeDeclValue::Union(n), TypeDeclValue::Union(o)) => fields_kinds_set(n.fields@, o.fields@, scope) && n.is_unbox == o.is_unbox,
        (TypeDeclValue::Alias(n), TypeDeclValue::Alias(o)) => kinds_set(*n.value, *o.value, scope),
        _ => false,
    }
}

impl TypeDeclValue {
    /// The smallest node covering `pos`: in a field's type, or in the aliased type.
    pub fn find_node_at(&self, pos: &SourcePos) -> (r: Option<EndNode>)
        ensures
            found_part(r, value_part_at(*self, *pos)),
    {
        match self {
            TypeDeclValue::Struct(s) => s.find_node_at(pos),
            TypeDeclValue::Union(u) => u.find_node_at(pos),
            TypeDeclValue::Alias(a) => a.find_node_at(pos),
        }
    }

    /// Whether this declares a type alias.
    pub fn is_alias(&self) -> (r: bool)
        ensures
            r == (*self is Alias),
    {
        match self {
            TypeDeclValue::Alias(_) => true,
            _ => false,
        }
    }

    /// Gives each type variable in the declared types the kind `kinds` binds its name to.
    pub fn set_kinds(&mut self, kinds: &KindScope)
        ensures
            value_kinds_set(*final(self), *old(self), kinds@),
    {
        match self {
            TypeDeclValue::Struct(s) => s.set_kinds(kinds),
            TypeDeclValue::Union(u) => u.set_kinds(kinds),
            TypeDeclValue::Alias(a) => a.set_kinds(kinds),
        }
    }
}

/// Whether the field `n` is the field `o`, punched out where `o` was or where `punched` holds.
pub open spec fn punched_copy(n: Field, o: Field, punched: bool) -> bool {
    &&& n.name == o.name
    &&& n.ty == o.ty
    &&& n.syn_ty == o.syn_ty
    &&& n.source == o.source
    &&& n.is_punched == (o.is_punched || punched)
}

/// Whether `i` stands among the indices `p`.
pub open spec fn lists_index(p: Seq<usize>, i: int) -> bool {
    exists|m: int| 0 <= m < p.len() && p[m] == i
}

/// Whether, among the first `n` of `fields`, no two share a name.
pub open spec fn field_names_distinct_upto(fields: Seq<Field>, n: int) -> bool {
    forall|k: int, l: int| 0 <= l < k < n ==> fields[l].name@ != fields[k].name@
}

impl Field {
    /// The name of the first field of `fields` that shares its name with a field before it, if
    /// any.
    pub fn check_duplication(fields: &Vec<Field>) -> (r: Option<Name>)
        ensures
            match r {
                None => field_names_distinct_upto(fields@, fields@.len() as int),
                Some(name) => exists|i: int|
                    0 <= i < fields@.len() && field_names_distinct_upto(fields@, i)
                        && fields@[i].name@ == name@ && exists|j: int|
                        0 <= j < i && fields@[j].name@ == name@,
            },
    {
        let mut names: Vec<String> = Vec::new();
        for i in 0..fields.len()
            invariant
                names@.len() == i,
                forall|j: int| 0 <= j < i ==> names@[j]@ == fields@[j].name@,
                field_names_distinct_upto(fields@, i as int),
        {
            let mut k: usize = 0;
            while k < names.len()
                invariant
                    k <= names@.len(),
                    names@.len() == i,
                    i < fields@.len(),
                    forall|j: int| 0 <= j < i ==> names@[j]@ == fields@[j].name@,
                    forall|j: int| 0 <= j < k ==> names@[j]@ != fields@[i as int].name@,
                    field_names_distinct_upto(fields@, i as int),
                decreases names@.len() - k,
            {
                if names[k] == fields[i].name {
                    let r = fields[i].name.clone();
                    proof {
                        assert(fields@[k as int].name@ == fields@[i as int].name@);
                        assert(0 <= k < i && fields@[k as int].name@ == r@);
                        assert(0 <= i < fields@.len() && field_names_distinct_upto(fields@, i as int)
                            && fields@[i as int].name@ == r@);
                    }
                    return Some(r);
                }
                k += 1;
            }
            proof {
                assert forall|a: int, b: int| 0 <= b < a < i + 1 implies fields@[b].name@ != fields@[a].name@ by {
                    if a == i {
                        assert(names@[b]@ != fields@[i as int].name@);
                    }
                }
            }
            names.push(fields[i].name.clone());
        }
        None
    }
}

/// The type variables standing in the right-hand side of a declaration, each once, in the order
/// they first stand there: in the aliased type, or in the field types one field after another.
pub open spec fn defn_free_vars(v: TypeDeclValue) -> Seq<Arc<TyVar>> {
    match v {
        TypeDeclValue::Alias(a) => push_free_vars(Seq::empty(), *a.value),
        _ => fields_free_vars(value_fields(v), value_fields(v).len() as int),
    }
}

/// The type variables standing in the types of the first `k` of `fields`, each once.
pub open spec fn fields_free_vars(fields: Seq<Field>, k: int) -> Seq<Arc<TyVar>>
    decreases k,
{
    if k <= 0 || k > fields.len() {
        Seq::empty()
    } else {
        push_free_vars(fields_free_vars(fields, k - 1), *fields[k - 1].ty)
    }
}

/// Whether `name` is the name of one of `tyvars`.
pub open spec fn names_tyvar(tyvars: Seq<Arc<TyVar>>, name: Seq<char>) -> bool {
    exists|i: int| 0 <= i < tyvars.len() && (#[trigger] tyvars[i]).name@ == name
}

/// The kind scope binding the names of the first `k` of `tyvars` to their kinds, one after
/// another, or the name of the first one bound twice to different kinds.
pub open spec fn tyvars_scope(tyvars: Seq<Arc<TyVar>>, k: int) -> Result<Map<Seq<char>, Arc<Kind>>, Seq<char>>
    decreases k,
{
    if k <= 0 || k > tyvars.len() {
        Ok(Map::empty())
    } else {
        match tyvars_scope(tyvars, k - 1) {
            Err(n) => Err(n),
            Ok(m) => match scope_insert(m, tyvars[k - 1].name@, tyvars[k - 1].kind) {
                Some(m2) => Ok(m2),
                None => Err(tyvars[k - 1].name@),
            },
        }
    }
}

/// The span of the first character of `src`, if there is one.
pub open spec fn head_char_span(src: Option<Span>) -> Option<Span> {
    match src {
        Some(s) => Some(Span { file: s.file, start: s.start, end: (s.start + 1) as usize }),
        None => None,
    }
}

/// The span of the first character of `src`, if there is one.
pub(crate) fn head_char_of(src: &Option<Span>) -> (r: Option<Span>)
    requires
        src is Some ==> src->0.start < usize::MAX,
    ensures
        r == head_char_span(*src),
{
    match src {
        Some(s) => Some(s.to_head_character()),
        None => None,
    }
}

impl TypeDefn {
    /// The smallest node of the declaration covering `pos`, for a declaration written in a
    /// source file whose span holds `pos`.
    pub fn find_node_at(&self, pos: &SourcePos) -> (r: Option<EndNode>)
        ensures
            found_part(
                r,
                match self.source {
                    Some(s) => if s.file@ == pos.file@ && s.start <= pos.pos < s.end {
                        value_part_at(self.value, *pos)
                    } else {
                        None
                    },
                    None => None,
                },
            ),
    {
        match &self.source {
            None => None,
            Some(span) => {
                if !span.includes_pos(pos) {
                    return None;
                }
                self.value.find_node_at(pos)
            },
        }
    }

    /// The type constructor this declaration declares.
    pub fn tycon(&self) -> (r: TyCon)
        ensures
            r.name@ == self.name@,
    {
        TyCon::new(self.name.clone())
    }

    /// The kind of the type constructor this declaration declares: `*` applied to no
    /// parameter, and one arrow for each parameter, from the kind the parameter carries.
    pub fn kind(&self) -> (r: Arc<Kind>)
        ensures
            is_defn_kind(*r, self.tyvars@),
    {
        let mut kind = kind_star();
        let mut i = self.tyvars.len();
        while i > 0
            invariant
                i <= self.tyvars@.len(),
                is_defn_kind(*kind, self.tyvars@.skip(i as int)),
            decreases i,
        {
            i = i - 1;
            let ghost prev = kind;
            kind = kind_arrow(self.tyvars[i].kind.clone(), kind);
            proof {
                assert(self.tyvars@.skip(i as int).drop_first() =~= self.tyvars@.skip(i + 1));
            }
        }
        proof {
            assert(self.tyvars@.skip(0) =~= self.tyvars@);
        }
        kind
    }

    /// The declaration of the type constructor of a struct or a union, with the fields at the
    /// indices `punched_struct_fields` of a struct marked as punched out.
    pub fn tycon_info(&self, punched_struct_fields: &[usize]) -> (r: TyConInfo)
        requires
            !(self.value is Alias),
            self.value is Union ==> punched_struct_fields@.len() == 0,
            forall|k: int| 0 <= k < punched_struct_fields@.len() ==> #[trigger] punched_struct_fields@[k] < value_fields(self.value).len(),
        ensures
            is_defn_kind(*r.kind, self.tyvars@),
            r.variant == (if self.value is Struct { TyConVariant::Struct } else { TyConVariant::Union }),
            r.is_unbox == (match self.value {
                TypeDeclValue::Struct(s) => s.is_unbox,
                TypeDeclValue::Union(u) => u.is_unbox,
                _ => false,
            }),
            r.tyvars@ == self.tyvars@,
            r.fields@.len() == value_fields(self.value).len(),
            forall|i: int| 0 <= i < r.fields@.len() ==> punched_copy(#[trigger] r.fields@[i], value_fields(self.value)[i], lists_index(punched_struct_fields@, i)),
            r.source == self.source,
            r.document is None,
            r.punched_from is None,
    {
        let kind = self.kind();
        let (variant, is_unbox, fields) = match &self.value {
            TypeDeclValue::Struct(s) => {
                let mut fields = clone_fields(&s.fields);
                let ghost orig = fields@;
                proof {
                    assert forall|i: int| 0 <= i < orig.len() implies punched_copy(#[trigger] fields@[i], orig[i], lists_index(punched_struct_fields@.take(0), i)) by {
                        assert(!lists_index(punched_struct_fields@.take(0), i));
                    }
                }
                for k in 0..punched_struct_fields.len()
                    invariant
                        self.value == TypeDeclValue::Struct(*s),
                        fields@.len() == orig.len(),
                        orig == s.fields@,
                        forall|m: int| 0 <= m < punched_struct_fields@.len() ==> #[trigger] punched_struct_fields@[m] < orig.len(),
                        forall|i: int| 0 <= i < orig.len() ==> punched_copy(#[trigger] fields@[i], orig[i], lists_index(punched_struct_fields@.take(k as int), i)),
                {
                    let idx = punched_struct_fields[k];
                    let mut f = fields[idx].clone();
                    f.is_punched = true;
                    let ghost prev = fields@;
                    fields.set(idx, f);
                    proof {
                        assert(punched_struct_fields@.take(k + 1) =~= punched_struct_fields@.take(k as int).push(idx));
                        assert forall|i: int| 0 <= i < orig.len() implies punched_copy(#[trigger] fields@[i], orig[i], lists_index(punched_struct_fields@.take(k + 1), i)) by {
                            assert(punched_copy(prev[i], orig[i], lists_index(punched_struct_fields@.take(k as int), i)));
                            let t = punched_struct_fields@.take(k as int);
                            let t1 = punched_struct_fields@.take(k + 1);
                            if lists_index(t, i) {
                                let m = choose|m: int| 0 <= m < t.len() && t[m] == i;
                                assert(t1[m] == i);
                            }
                            if i != idx {
                                assert(fields@[i] == prev[i]);
                                if lists_index(t1, i) {
                                    let m = choose|m: int| 0 <= m < t1.len() && t1[m] == i;
                                    assert(t[m] == i);
                                }
                            } else {
                                assert(t1[k as int] == idx);
                            }
                        }
                    }
                }
                proof {
                    assert(punched_struct_fields@.take(punched_struct_fields@.len() as int) =~= punched_struct_fields@);
                    assert forall|i: int| 0 <= i < fields@.len() implies punched_copy(#[trigger] fields@[i], value_fields(self.value)[i], lists_index(punched_struct_fields@, i)) by {
                        assert(punched_copy(fields@[i], orig[i], lists_index(punched_struct_fields@.take(punched_struct_fields@.len() as int), i)));
                    }
                }
                (TyConVariant::Struct, s.is_unbox, fields)
            },
            TypeDeclValue::Union(u) => {
                let fields = clone_fields(&u.fields);
                proof {
                    assert forall|i: int| 0 <= i < fields@.len() implies punched_copy(#[trigger] fields@[i], value_fields(self.value)[i], lists_index(punched_struct_fields@, i)) by {
                        assert(!lists_index(punched_struct_fields@, i));
                    }
                }
                (TyConVariant::Union, u.is_unbox, fields)
            },
            TypeDeclValue::Alias(_) => unreached(),
        };
        TyConInfo {
            kind,
            variant,
            is_unbox,
            tyvars: clone_tyvars(&self.tyvars),
            fields,
            source: clone_span_opt(&self.source),
            document: None,
            punched_from: None,
        }
    }

    /// The declaration of the type alias this declaration declares.
    pub fn alias_info(&self) -> (r: TyAliasInfo)
        requires
            self.value is Alias,
        ensures
            is_defn_kind(*r.kind, self.tyvars@),
            r.value == self.value->Alias_0.value,
            r.tyvars@ == self.tyvars@,
            r.source == self.source,
    {
        let kind = self.kind();
        let value = match &self.value {
            TypeDeclValue::Alias(a) => a.value.clone(),
            _ => unreached(),
        };
        TyAliasInfo { kind, value, tyvars: clone_tyvars(&self.tyvars), source: clone_span_opt(&self.source) }
    }

    /// The type this declaration defines applied to its own parameters, which has kind `*`.
    pub fn applied_type(&self) -> (r: Arc<TypeNode>)
        ensures
            app_head(*r).ty is TyCon,
            app_head(*r).ty->TyCon_0.name@ == self.name@,
            app_args(*r).len() == self.tyvars@.len(),
            forall|i: int| 0 <= i < self.tyvars@.len() ==> (#[trigger] app_args(*r)[i]).ty == Type::TyVar(self.tyvars@[i]),
    {
        let mut ty = type_tycon(&Arc::new(self.tycon()));
        for i in 0..self.tyvars.len()
            invariant
                app_head(*ty).ty is TyCon,
                app_head(*ty).ty->TyCon_0.name@ == self.name@,
                app_args(*ty).len() == i,
                forall|j: int| 0 <= j < i ==> (#[trigger] app_args(*ty)[j]).ty == Type::TyVar(self.tyvars@[j]),
        {
            let ghost prev = ty;
            ty = type_tyapp(ty, type_from_tyvar(self.tyvars[i].clone()));
        }
        ty
    }

    /// The fields of a struct or the variants of a union.
    pub fn fields(&self) -> (r: &Vec<Field>)
        requires
            !(self.value is Alias),
        ensures
            r@ == value_fields(self.value),
    {
        match &self.value {
            TypeDeclValue::Struct(s) => &s.fields,
            TypeDeclValue::Union(u) => &u.fields,
            TypeDeclValue::Alias(_) => unreached(),
        }
    }

    /// Whether this declares a type alias.
    pub fn is_alias(&self) -> (r: bool)
        ensures
            r == (self.value is Alias),
    {
        self.value.is_alias()
    }
}

/// Whether, among the first `n` of `tyvars`, no two share a name.
pub open spec fn tyvar_names_distinct_upto(tyvars: Seq<Arc<TyVar>>, n: int) -> bool {
    forall|k: int, l: int| 0 <= l < k < n ==> tyvars[l].name@ != tyvars[k].name@
}

/// Whether each of `vars` is named as one of `tyvars`, up to the `n`-th.
pub open spec fn all_known_upto(vars: Seq<Arc<TyVar>>, tyvars: Seq<Arc<TyVar>>, n: int) -> bool {
    forall|k: int| 0 <= k < n ==> names_tyvar(tyvars, (#[trigger] vars[k]).name@)
}

/// The report that the parameter `tv` is declared twice in the declaration of `ty`.
pub open spec fn duplicated_tyvar_message(tv: Seq<char>, ty: Seq<char>) -> Seq<char> {
    "Type variable `"@ + tv + "` is duplicated in the definition of type `"@ + ty + "`."@
}

/// The report that `tv` stands in the declaration of `ty` without being one of its parameters.
pub open spec fn unknown_tyvar_message(tv: Seq<char>, ty: Seq<char>) -> Seq<char> {
    "Unknown type variable `"@ + tv + "` in the definition of type `"@ + ty + "`."@
}

/// Whether `e` is the one report `msg`, pointing at `src`.
pub open spec fn single_report(e: Errors, msg: Seq<char>, src: Option<Span>) -> bool {
    &&& e.errs@.len() == 1
    &&& e.errs@[0].msg@ == msg
    &&& e.errs@[0].srcs@ == seq![src]
}

/// Whether the name `name` stands among the first `n` of `tyvars`.
fn tyvar_named_upto(tyvars: &Vec<Arc<TyVar>>, n: usize, name: &String) -> (r: bool)
    requires
        n <= tyvars@.len(),
    ensures
        r == exists|i: int| 0 <= i < n && tyvars@[i].name@ == name@,
{
    for i in 0..n
        invariant
            n <= tyvars@.len(),
            forall|j: int| 0 <= j < i ==> tyvars@[j].name@ != name@,
    {
        if tyvars[i].name == *name {
            return true;
        }
    }
    false
}

impl TypeDefn {
    /// The index and a copy of the first field of the struct or the variant of the union named
    /// `field_name`, if any.
    pub fn get_field_by_name(&self, field_name: &str) -> (r: Option<(u32, Field)>)
        requires
            !(self.value is Alias),
            value_fields(self.value).len() <= u32::MAX,
        ensures
            match r {
                None => forall|i: int| 0 <= i < value_fields(self.value).len() ==> (#[trigger] value_fields(self.value)[i]).name@ != field_name@,
                Some((i, f)) => {
                    &&& i < value_fields(self.value).len()
                    &&& value_fields(self.value)[i as int].name@ == field_name@
                    &&& f == value_fields(self.value)[i as int]
                    &&& forall|j: int| 0 <= j < i ==> (#[trigger] value_fields(self.value)[j]).name@ != field_name@
                },
            },
    {
        let fields = self.fields();
        let target = crate::strutil::to_string(field_name);
        for i in 0..fields.len()
            invariant
                fields@ == value_fields(self.value),
                fields@.len() <= u32::MAX,
                target@ == field_name@,
                forall|j: int| 0 <= j < i ==> (#[trigger] fields@[j]).name@ != field_name@,
        {
            if fields[i].name == target {
                return Some((i as u32, fields[i].clone()));
            }
        }
        None
    }

    /// The type variables standing in the right-hand side of the declaration, each once, in the
    /// order they first stand there.
    pub fn free_variables_in_definition(&self) -> (r: Vec<Arc<TyVar>>)
        ensures
            r@ == defn_free_vars(self.value),
    {
        let mut ret: Vec<Arc<TyVar>> = Vec::new();
        match &self.value {
            TypeDeclValue::Alias(ta) => {
                ta.value.free_vars_to_vec(&mut ret);
            },
            _ => {
                let fields = self.fields();
                for i in 0..fields.len()
                    invariant
                        fields@ == value_fields(self.value),
                        ret@ == fields_free_vars(fields@, i as int),
                {
                    fields[i].ty.free_vars_to_vec(&mut ret);
                }
            },
        }
        ret
    }

    /// Checks the parameters of the declaration: none is declared twice, and every type variable
    /// standing in the right-hand side is one of them. The first parameter declared a second
    /// time is reported, and otherwise the first unknown type variable.
    pub fn validate_tyvars(&self) -> (r: Result<(), Errors>)
        requires
            self.source is Some ==> self.source->0.start < usize::MAX,
        ensures
            r is Ok <==> (tyvar_names_distinct_upto(self.tyvars@, self.tyvars@.len() as int)
                && all_known_upto(defn_free_vars(self.value), self.tyvars@, defn_free_vars(self.value).len() as int)),
            r is Err ==> ((exists|i: int|
                0 <= i < self.tyvars@.len() && tyvar_names_distinct_upto(self.tyvars@, i) && (exists|j: int| 0 <= j < i && self.tyvars@[j].name@ == self.tyvars@[i].name@)
                    && single_report(r->Err_0, duplicated_tyvar_message(self.tyvars@[i].name@, fullname_text(self.name@)), head_char_span(self.source)))
                || (tyvar_names_distinct_upto(self.tyvars@, self.tyvars@.len() as int) && exists|i: int|
                0 <= i < defn_free_vars(self.value).len() && all_known_upto(defn_free_vars(self.value), self.tyvars@, i)
                    && !names_tyvar(self.tyvars@, defn_free_vars(self.value)[i].name@)
                    && single_report(r->Err_0, unknown_tyvar_message(defn_free_vars(self.value)[i].name@, fullname_text(self.name@)), head_char_span(self.source)))),
    {
        for i in 0..self.tyvars.len()
            invariant
                self.source is Some ==> self.source->0.start < usize::MAX,
                tyvar_names_distinct_upto(self.tyvars@, i as int),
        {
            let tv = &self.tyvars[i];
            if tyvar_named_upto(&self.tyvars, i, &tv.name) {
                let mut msg = crate::strutil::to_string("Type variable `");
                msg.append(tv.name.as_str());
                msg.append("` is duplicated in the definition of type `");
                msg.append(self.name.to_string().as_str());
                msg.append("`.");
                let mut srcs: Vec<Option<Span>> = Vec::new();
                srcs.push(head_char_of(&self.source));
                let e = Errors::from_msg_srcs(msg, srcs);
                proof {
                    assert(e.errs@[0].srcs@ =~= seq![head_char_span(self.source)]);
                }
                return Err(e);
            }
            proof {
                assert forall|a: int, b: int| 0 <= b < a < i + 1 implies self.tyvars@[b].name@ != self.tyvars@[a].name@ by {
                    if a == i {
                        assert(!(0 <= b < i && self.tyvars@[b].name@ == self.tyvars@[i as int].name@));
                    }
                }
            }
        }
        let fv = self.free_variables_in_definition();
        let n = self.tyvars.len();
        for k in 0..fv.len()
            invariant
                self.source is Some ==> self.source->0.start < usize::MAX,
                fv@ == defn_free_vars(self.value),
                n == self.tyvars@.len(),
                tyvar_names_distinct_upto(self.tyvars@, self.tyvars@.len() as int),
                all_known_upto(fv@, self.tyvars@, k as int),
        {
            let v = &fv[k];
            if !tyvar_named_upto(&self.tyvars, n, &v.name) {
                let mut msg = crate::strutil::to_string("Unknown type variable `");
                msg.append(v.name.as_str());
                msg.append("` in the definition of type `");
                msg.append(self.name.to_string().as_str());
                msg.append("`.");
                let mut srcs: Vec<Option<Span>> = Vec::new();
                srcs.push(head_char_of(&self.source));
                let e = Errors::from_msg_srcs(msg, srcs);
                proof {
                    assert(e.errs@[0].srcs@ =~= seq![head_char_span(self.source)]);
                    assert(!names_tyvar(self.tyvars@, fv@[k as int].name@));
                }
                return Err(e);
            }
        }
        Ok(())
    }

    /// Gives each type variable in the right-hand side of the declaration the kind its
    /// parameter carries. A parameter declared twice with two kinds is reported, and the
    /// declaration is left as it stands.
    pub fn set_kinds_in_value(&mut self) -> (r: Result<(), Errors>)
        requires
            old(self).source is Some ==> old(self).source->0.start < usize::MAX,
        ensures
            match tyvars_scope(old(self).tyvars@, old(self).tyvars@.len() as int) {
                Ok(m) => {
                    &&& r is Ok
                    &&& value_kinds_set(final(self).value, old(self).value, m)
                    &&& final(self).name == old(self).name
                    &&& final(self).tyvars == old(self).tyvars
                    &&& final(self).source == old(self).source
                },
                Err(n) => {
                    &&& r is Err
                    &&& *final(self) == *old(self)
                    &&& single_report(r->Err_0, mismatch_message(n), head_char_span(old(self).source))
                },
            },
    {
        let mut kind_scope = KindScope::new();
        for i in 0..self.tyvars.len()
            invariant
                self.source is Some ==> self.source->0.start < usize::MAX,
                tyvars_scope(self.tyvars@, i as int) == Ok::<Map<Seq<char>, Arc<Kind>>, Seq<char>>(kind_scope@),
        {
            let tv = &self.tyvars[i];
            let res = kind_scope.insert(tv.name.clone(), tv.kind.clone());
            match res {
                Ok(()) => {},
                Err(e) => {
                    let mut srcs: Vec<Option<Span>> = Vec::new();
                    srcs.push(head_char_of(&self.source));
                    let errs = Errors::from_msg_srcs(e, srcs);
                    proof {
                        assert(errs.errs@[0].srcs@ =~= seq![head_char_span(self.source)]);
                        lemma_tyvars_scope_err_stays(self.tyvars@, i + 1, self.tyvars@.len() as int);
                    }
                    return Err(errs);
                },
            }
        }
        self.value.set_kinds(&kind_scope);
        Ok(())
    }
}

/// Once binding the first `k` parameters fails, binding the first `l` fails at the same name,
/// for every `l` from `k` on.
proof fn lemma_tyvars_scope_err_stays(tyvars: Seq<Arc<TyVar>>, k: int, l: int)
    requires
        0 <= k <= l <= tyvars.len(),
        tyvars_scope(tyvars, k) is Err,
    ensures
        tyvars_scope(tyvars, l) == tyvars_scope(tyvars, k),
    decreases l - k,
{
    if k < l {
        lemma_tyvars_scope_err_stays(tyvars, k, l - 1);
    }
}

} // verus!
