//! Kinds, type variables, type constructors and type expressions.
use crate::ast::name::{fullname_text, FullName, FullNameView, Name, NameSpace};
use crate::builtin::{
    arrow_name, destructor_key, funptr_n, get_tuple_n, is_array_storage_tycon, is_array_tycon,
    is_destructor_object_tycon, is_dynamic_object_tycon, is_funptr_tycon, is_punched_array_tycon,
    is_std_tycon, make_arrow_name_abs, make_funptr_tycon, make_iostate_name, std_key, tuple_n,
};
use crate::constants::spec_std_name;
use crate::ast::kind_scope::{
    assoc_key, env_assoc_info, env_tycon_kind, KindEnv, KindScope,
};
use crate::ast::pattern::{insert_fullname, name_key, name_keys};
use crate::ast::program::EndNode;
use crate::ast::traits::TraitId;
use crate::ast::typedecl::Field;
use crate::error::Errors;
use crate::source::SourcePos;
use crate::source::{clone_span_opt, Span};
use crate::strutil::{join, join_strings, nat_text, starts_with, str_chars, string_from_chars, strs, u64_text, usize_string};
use std::sync::Arc;
use vstd::prelude::*;

verus! {

broadcast use vstd::std_specs::vec::axiom_vec_index_decreases;

/// The kind of a type, which classifies types the way a type classifies values.
pub enum Kind {
    /// `*`, the kind of a type that has values of its own.
    Star,
    /// `k -> l`, the kind of a type constructor that yields a type of kind `l` when applied to a
    /// type of kind `k`.
    Arrow(Arc<Kind>, Arc<Kind>),
}

/// A kind written the way Fix source writes it: `*`, `*->*`, and `(*->*)->*`.
pub open spec fn kind_text(k: Kind) -> Seq<char>
    decreases k,
{
    match k {
        Kind::Star => seq!['*'],
        Kind::Arrow(src, dst) => match *src {
            Kind::Star => kind_text(*src) + seq!['-', '>'] + kind_text(*dst),
            Kind::Arrow(_, _) => seq!['('] + kind_text(*src) + seq![')', '-', '>'] + kind_text(
                *dst,
            ),
        },
    }
}

/// Whether the two kinds are the same kind.
pub fn kind_eq(a: &Kind, b: &Kind) -> (r: bool)
    ensures
        r == (*a == *b),
    decreases a,
{
    match (a, b) {
        (Kind::Star, Kind::Star) => true,
        (Kind::Arrow(a1, a2), Kind::Arrow(b1, b2)) => kind_eq(a1, b1) && kind_eq(a2, b2),
        _ => false,
    }
}

impl PartialEq for Kind {
    fn eq(&self, other: &Self) -> (r: bool) {
        kind_eq(self, other)
    }
}

impl vstd::std_specs::cmp::PartialEqSpecImpl for Kind {
    open spec fn obeys_eq_spec() -> bool {
        true
    }

    open spec fn eq_spec(&self, other: &Self) -> bool {
        *self == *other
    }
}

impl Eq for Kind {}

impl Kind {
    /// Whether this is `*`, the kind of a type that has values of its own.
    pub fn is_star(&self) -> (r: bool)
        ensures
            r == (*self is Star),
    {
        match self {
            Kind::Star => true,
            _ => false,
        }
    }

    /// This kind written the way Fix source writes it: `*`, `*->*`, and `(*->*)->*`, where an
    /// arrow on the left of an arrow is parenthesized because `->` associates to the right.
    pub fn to_string(&self) -> (r: String)
        ensures
            r@ == kind_text(*self),
        decreases self,
    {
        match self {
            Kind::Star => {
                proof {
                    reveal_strlit("*");
                }
                crate::strutil::to_string("*")
            },
            Kind::Arrow(src, dst) => {
                proof {
                    reveal_strlit("->");
                    reveal_strlit("(");
                    reveal_strlit(")->");
                }
                let s = src.to_string();
                let d = dst.to_string();
                let src_braced = match **src {
                    Kind::Star => false,
                    Kind::Arrow(_, _) => true,
                };
                if src_braced {
                    let mut r = crate::strutil::to_string("(");
                    r.append(s.as_str());
                    r.append(")->");
                    r.append(d.as_str());
                    r
                } else {
                    let mut r = s;
                    r.append("->");
                    r.append(d.as_str());
                    r
                }
            },
        }
    }
}

/// The kind `*`, of a type that has values of its own.
pub fn kind_star() -> (r: Arc<Kind>)
    ensures
        *r == Kind::Star,
{
    Arc::new(Kind::Star)
}

/// The kind of a type constructor taking a type of kind `src` to a type of kind `dst`.
pub fn kind_arrow(src: Arc<Kind>, dst: Arc<Kind>) -> (r: Arc<Kind>)
    ensures
        *r == Kind::Arrow(src, dst),
{
    Arc::new(Kind::Arrow(src, dst))
}

/// A type variable, identified by its name.
pub struct TyVar {
    /// The name the variable is written with, e.g. `a`.
    pub name: Name,
    /// The kind of the types this variable stands for.
    pub kind: Arc<Kind>,
}

impl Clone for TyVar {
    fn clone(&self) -> (r: Self)
        ensures
            r == *self,
    {
        TyVar { name: self.name.clone(), kind: self.kind.clone() }
    }
}

impl PartialEq for TyVar {
    /// Compares the name alone, which is what decides which variable this is.
    fn eq(&self, other: &Self) -> (r: bool) {
        self.name == other.name
    }
}

impl vstd::std_specs::cmp::PartialEqSpecImpl for TyVar {
    open spec fn obeys_eq_spec() -> bool {
        true
    }

    open spec fn eq_spec(&self, other: &Self) -> bool {
        self.name@ == other.name@
    }
}

impl Eq for TyVar {}

impl core::hash::Hash for TyVar {
    /// Hashes the name alone, agreeing with the equality of `PartialEq`.
    #[verifier::external_body]
    fn hash<H: core::hash::Hasher>(&self, state: &mut H) {
        self.name.hash(state);
    }
}

impl TyVar {
    /// A copy of this type variable carrying `kind`, leaving this one as it is.
    pub fn set_kind(&self, kind: Arc<Kind>) -> (r: Arc<TyVar>)
        ensures
            r.name == self.name,
            r.kind == kind,
    {
        Arc::new(TyVar { name: self.name.clone(), kind })
    }

    /// A copy of this type variable named `name`, leaving this one as it is.
    pub fn set_name(&self, name: Name) -> (r: Arc<TyVar>)
        ensures
            r.name == name,
            r.kind == self.kind,
    {
        Arc::new(TyVar { name, kind: self.kind.clone() })
    }
}

/// A type variable named `var_name`, standing for types of kind `kind`.
pub fn make_tyvar(var_name: &str, kind: &Arc<Kind>) -> (r: Arc<TyVar>)
    ensures
        r.name@ == var_name@,
        r.kind == *kind,
{
    Arc::new(TyVar { name: crate::strutil::to_string(var_name), kind: kind.clone() })
}

/// An associated type as a type names it, e.g. `Item` in `Item iter`.
pub struct AssocType {
    /// The name the associated type is declared under, whose namespace is the trait declaring it.
    pub name: FullName,
    /// Where the name was written. Left out of equality and hashing.
    pub src: Option<Span>,
}

impl Clone for AssocType {
    fn clone(&self) -> (r: Self)
        ensures
            r.name@ == self.name@,
            r.src == self.src,
    {
        AssocType { name: self.name.clone(), src: clone_span_opt(&self.src) }
    }
}

impl PartialEq for AssocType {
    /// Compares the name alone, which is what decides which associated type this is.
    fn eq(&self, other: &Self) -> (r: bool) {
        self.name == other.name
    }
}

impl vstd::std_specs::cmp::PartialEqSpecImpl for AssocType {
    open spec fn obeys_eq_spec() -> bool {
        true
    }

    open spec fn eq_spec(&self, other: &Self) -> bool {
        self.name@.name == other.name@.name && self.name@.namespace.names
            == other.name@.namespace.names
    }
}

impl Eq for AssocType {}

impl core::hash::Hash for AssocType {
    /// Hashes the name alone, agreeing with the equality of `PartialEq`.
    #[verifier::external_body]
    fn hash<H: core::hash::Hasher>(&self, state: &mut H) {
        self.name.hash(state);
    }
}

impl AssocType {
    /// The trait that declares this associated type, which is the namespace its name sits in.
    /// The namespace holds at least the trait's name.
    pub fn trait_id(&self) -> (r: TraitId)
        requires
            self.name@.namespace.names.len() > 0,
        ensures
            r.name@.namespace.names == self.name@.namespace.names.drop_last(),
            !r.name@.namespace.is_absolute,
            r.name@.name == self.name@.namespace.names.last(),
    {
        let mut namespace = crate::strutil::clone_strings(&self.name.namespace.names);
        let ghost all = namespace@;
        let name = namespace.pop().unwrap();
        assert(strs(namespace@) =~= strs(all).drop_last());
        TraitId { name: FullName::new(&NameSpace::new(namespace), name.as_str()) }
    }

    /// This associated type with its name spelled as an absolute path, so that it names the same
    /// entity from any namespace.
    pub fn global_to_absolute(&self) -> (r: AssocType)
        ensures
            r.name@.name == self.name@.name,
            r.name@.namespace.names == self.name@.namespace.names,
            r.name@.namespace.is_absolute == (self.name@.namespace.is_absolute
                || self.name@.namespace.names.len() > 0),
            r.src == self.src,
    {
        let mut name = self.name.clone();
        name.global_to_absolute();
        AssocType { name, src: clone_span_opt(&self.src) }
    }
}

/// What kind of declaration a type constructor comes from.
#[derive(PartialEq, Eq, Structural, Clone, Copy, Hash)]
pub enum TyConVariant {
    /// A built-in type laid out as a single machine scalar, such as `Std::I64` or `Std::Ptr`.
    Primitive,
    /// The function type constructor `->`, whose values are closures.
    Arrow,
    /// `Std::Array`, whose one field is the type its elements share.
    Array,
    /// A struct, whose fields are laid out one after another in the order they are declared.
    Struct,
    /// A union, whose fields are its variants, sharing one payload buffer under a tag.
    Union,
    /// A dynamic object, which a closure holds its captured values in.
    DynamicObject,
    /// The internal `#ArrayStorage` object, holding an array's elements.
    ArrayStorage,
    /// The type an opaque type variable `?it` is desugared into.
    Opaque,
}

/// The declaration a type constructor comes from: the kind of declaration it is, the parameters
/// it takes, and what its values hold. A type alias is declared by `TyAliasInfo`.
pub struct TyConInfo {
    /// The kind of the type constructor, which follows from the parameters it takes.
    pub kind: Arc<Kind>,
    /// What kind of declaration this is, which settles what `fields` holds.
    pub variant: TyConVariant,
    /// Whether a value of this type is held in place.
    pub is_unbox: bool,
    /// The parameters the declaration takes, in the order they are declared.
    pub tyvars: Vec<Arc<TyVar>>,
    /// The fields of a struct or the variants of a union, in the order they are declared.
    pub fields: Vec<Field>,
    /// Where the declaration was written.
    pub source: Option<Span>,
    /// The documentation of a declaration the compiler builds itself.
    pub document: Option<String>,
    /// The struct this declaration punches a field out of, for a declaration that has one.
    pub punched_from: Option<TyCon>,
}

/// A declaration of a type alias: the type it stands for, and the parameters it takes.
pub struct TyAliasInfo {
    /// The kind of the type constructor the alias names.
    pub kind: Arc<Kind>,
    /// The type the alias stands for, written in terms of `tyvars`.
    pub value: Arc<TypeNode>,
    /// The parameters the alias takes, in the order they are declared.
    pub tyvars: Vec<Arc<TyVar>>,
    /// Where the declaration was written.
    pub source: Option<Span>,
}

/// A type constructor, such as `Std::I64` or `Std::Array`, before any type argument is applied
/// to it. A type constructor is determined by its name.
pub struct TyCon {
    /// The name the type is declared under.
    pub name: FullName,
}

/// The names a type constructor is told apart by: its namespace's names and its own.
pub open spec fn tycon_key(tc: TyCon) -> (Seq<Seq<char>>, Seq<char>) {
    (tc.name@.namespace.names, tc.name@.name)
}

impl Clone for TyCon {
    fn clone(&self) -> (r: Self)
        ensures
            r.name@ == self.name@,
    {
        TyCon { name: self.name.clone() }
    }
}

impl PartialEq for TyCon {
    fn eq(&self, other: &Self) -> (r: bool) {
        self.name == other.name
    }
}

impl vstd::std_specs::cmp::PartialEqSpecImpl for TyCon {
    open spec fn obeys_eq_spec() -> bool {
        true
    }

    open spec fn eq_spec(&self, other: &Self) -> bool {
        tycon_key(*self) == tycon_key(*other)
    }
}

impl Eq for TyCon {}

impl core::hash::Hash for TyCon {
    #[verifier::external_body]
    fn hash<H: core::hash::Hasher>(&self, state: &mut H) {
        self.name.hash(state);
    }
}

impl TyCon {
    /// The type constructor named `fullname`.
    pub fn new(fullname: FullName) -> (r: TyCon)
        ensures
            r.name == fullname,
    {
        TyCon { name: fullname }
    }

    /// This type constructor with its name spelled as an absolute path, so that it names the
    /// same type from any namespace.
    pub fn global_to_absolute(&self) -> (r: Arc<Self>)
        ensures
            r.name@.name == self.name@.name,
            r.name@.namespace.names == self.name@.namespace.names,
            r.name@.namespace.is_absolute == (self.name@.namespace.is_absolute
                || self.name@.namespace.names.len() > 0),
    {
        let mut ret = self.clone();
        ret.name.global_to_absolute();
        Arc::new(ret)
    }
}

/// What a type node carries beside the type itself.
pub struct TypeInfo {
    /// The span of the source text the type was written at. A type the compiler builds itself
    /// has none.
    pub source: Option<Span>,
}

impl Clone for TypeInfo {
    fn clone(&self) -> (r: Self)
        ensures
            r == *self,
    {
        TypeInfo { source: clone_span_opt(&self.source) }
    }
}

/// A type expression, which is a type variable, a type constructor, or one of these applied to
/// arguments.
pub enum Type {
    /// A type variable, e.g. `a`.
    TyVar(Arc<TyVar>),
    /// A type constructor with no argument applied, e.g. `Std::I64`.
    TyCon(Arc<TyCon>),
    /// A type applied to one argument, so that `Array I64` is `Array` applied to `I64`.
    TyApp(Arc<TypeNode>, Arc<TypeNode>),
    /// An associated type applied to as many arguments as its arity, e.g. `Item c`. The first
    /// argument is the type the trait is implemented for.
    AssocTy(AssocType, Vec<Arc<TypeNode>>),
}

/// A node of a type expression, together with where it was written.
pub struct TypeNode {
    /// The type expression, which is what equality and hashing of a node read.
    pub ty: Type,
    /// Where the type was written, for a type read from a source file.
    pub info: TypeInfo,
}

/// Whether the two type expressions hold the same parts, the arguments of an associated type
/// compared as sequences.
pub open spec fn type_same(a: Type, b: Type) -> bool {
    match (a, b) {
        (Type::TyVar(x), Type::TyVar(y)) => x == y,
        (Type::TyCon(x), Type::TyCon(y)) => x.name@ == y.name@,
        (Type::TyApp(f, x), Type::TyApp(g, y)) => f == g && x == y,
        (Type::AssocTy(n, v), Type::AssocTy(m, w)) => n.name@ == m.name@ && n.src == m.src && v@
            == w@,
        _ => false,
    }
}

/// Whether the two nodes hold the same type expression and were written at the same place.
pub open spec fn same_node(a: TypeNode, b: TypeNode) -> bool {
    type_same(a.ty, b.ty) && a.info == b.info
}

/// A copy of the arguments of an associated type.
pub fn clone_args(v: &Vec<Arc<TypeNode>>) -> (r: Vec<Arc<TypeNode>>)
    ensures
        r@ == v@,
{
    let mut r: Vec<Arc<TypeNode>> = Vec::new();
    for i in 0..v.len()
        invariant
            r@ == v@.subrange(0, i as int),
    {
        r.push(v[i].clone());
        assert(r@ =~= v@.subrange(0, i + 1));
    }
    assert(v@.subrange(0, v@.len() as int) =~= v@);
    r
}

impl Clone for Type {
    fn clone(&self) -> (r: Self)
        ensures
            type_same(r, *self),
    {
        match self {
            Type::TyVar(tv) => Type::TyVar(tv.clone()),
            Type::TyCon(tc) => Type::TyCon(Arc::new((**tc).clone())),
            Type::TyApp(f, a) => Type::TyApp(f.clone(), a.clone()),
            Type::AssocTy(at, args) => Type::AssocTy(at.clone(), clone_args(args)),
        }
    }
}

impl Clone for TypeNode {
    fn clone(&self) -> (r: Self)
        ensures
            same_node(r, *self),
    {
        TypeNode { ty: self.ty.clone(), info: self.info.clone() }
    }
}

/// The argument at `i` of an associated type application is smaller than the application.
pub proof fn lemma_assoc_arg_decreases(n: TypeNode, i: int)
    requires
        n.ty is AssocTy,
        0 <= i < n.ty->AssocTy_1@.len(),
    ensures
        decreases_to!(n => *n.ty->AssocTy_1@[i]),
{
    let v = n.ty->AssocTy_1;
    assert(decreases_to!(v => v[i]));
    assert(decreases_to!(n => n.ty));
    assert(decreases_to!(n.ty => n.ty->AssocTy_1));
}

/// Whether no associated type application stands anywhere in the type.
pub open spec fn assoc_free(n: TypeNode) -> bool
    decreases n, 1nat,
{
    match n.ty {
        Type::TyVar(_) => true,
        Type::TyCon(_) => true,
        Type::TyApp(f, a) => assoc_free(*f) && assoc_free(*a),
        Type::AssocTy(_, _) => false,
    }
}

/// Whether a type constructor heads the type.
pub open spec fn head_is_tycon(n: TypeNode) -> bool
    decreases n,
{
    match n.ty {
        Type::TyCon(_) => true,
        Type::TyApp(f, _) => head_is_tycon(*f),
        _ => false,
    }
}

/// The type constructor heading the type, where one does.
pub open spec fn toplevel(n: TypeNode) -> Option<Arc<TyCon>>
    decreases n,
{
    match n.ty {
        Type::TyCon(tc) => Some(tc),
        Type::TyApp(f, _) => toplevel(*f),
        _ => None,
    }
}

/// The head of the spine of applications the type is: `f` for `f a b`.
pub open spec fn app_head(n: TypeNode) -> TypeNode
    decreases n,
{
    match n.ty {
        Type::TyApp(f, _) => app_head(*f),
        _ => n,
    }
}

/// The arguments the head of the type is applied to, in order: `[a, b]` for `f a b`.
pub open spec fn app_args(n: TypeNode) -> Seq<Arc<TypeNode>>
    decreases n,
{
    match n.ty {
        Type::TyApp(f, a) => app_args(*f).push(a),
        _ => Seq::empty(),
    }
}

/// Whether no type variable occurs in the type.
pub open spec fn ground(n: TypeNode) -> bool
    decreases n, 1nat,
{
    match n.ty {
        Type::TyVar(_) => false,
        Type::TyCon(_) => true,
        Type::TyApp(f, a) => ground(*f) && ground(*a),
        Type::AssocTy(_, args) => ground_args(n, args@.len() as int),
    }
}

/// Whether no type variable occurs in the first `k` arguments of the associated type
/// application `n`.
pub open spec fn ground_args(n: TypeNode, k: int) -> bool
    decreases n, 0nat, k,
{
    match n.ty {
        Type::AssocTy(_, args) => if k <= 0 || k > args@.len() {
            true
        } else {
            ground_args(n, k - 1) && ground(*args@[k - 1])
        },
        _ => true,
    }
}

/// How deeply the type nests: a name is one, and an application or an associated type is one
/// more than the deepest part it is made of.
pub open spec fn depth(n: TypeNode) -> nat
    decreases n, 1nat,
{
    match n.ty {
        Type::TyVar(_) => 1,
        Type::TyCon(_) => 1,
        Type::TyApp(f, a) => 1 + if depth(*f) >= depth(*a) {
            depth(*f)
        } else {
            depth(*a)
        },
        Type::AssocTy(_, args) => 1 + depth_args(n, args@.len() as int),
    }
}

/// The greatest depth among the first `k` arguments of the associated type application `n`.
pub open spec fn depth_args(n: TypeNode, k: int) -> nat
    decreases n, 0nat, k,
{
    match n.ty {
        Type::AssocTy(_, args) => if k <= 0 || k > args@.len() {
            0
        } else {
            let d = depth(*args@[k - 1]);
            let m = depth_args(n, k - 1);
            if d >= m {
                d
            } else {
                m
            }
        },
        _ => 0,
    }
}

/// The names of the type variables standing in the type.
pub open spec fn tyvar_names(n: TypeNode) -> Set<Seq<char>>
    decreases n, 1nat,
{
    match n.ty {
        Type::TyVar(tv) => set![tv.name@],
        Type::TyCon(_) => Set::empty(),
        Type::TyApp(f, a) => tyvar_names(*f) + tyvar_names(*a),
        Type::AssocTy(_, args) => tyvar_names_args(n, args@.len() as int),
    }
}

/// The names of the type variables standing in the first `k` arguments of the associated type
/// application `n`.
pub open spec fn tyvar_names_args(n: TypeNode, k: int) -> Set<Seq<char>>
    decreases n, 0nat, k,
{
    match n.ty {
        Type::AssocTy(_, args) => if k <= 0 || k > args@.len() {
            Set::empty()
        } else {
            tyvar_names_args(n, k - 1) + tyvar_names(*args@[k - 1])
        },
        _ => Set::empty(),
    }
}

/// The names of the type variables standing in the type outside every associated type
/// application: those a unification with a ground type determines.
pub open spec fn fixed_names(n: TypeNode) -> Set<Seq<char>>
    decreases n,
{
    match n.ty {
        Type::TyVar(tv) => set![tv.name@],
        Type::TyApp(f, a) => fixed_names(*f) + fixed_names(*a),
        _ => Set::empty(),
    }
}

/// The names of the type constructors standing in the type.
pub open spec fn tycon_keys(n: TypeNode) -> Set<(Seq<Seq<char>>, Seq<char>)>
    decreases n, 1nat,
{
    match n.ty {
        Type::TyVar(_) => Set::empty(),
        Type::TyCon(tc) => set![tycon_key(*tc)],
        Type::TyApp(f, a) => tycon_keys(*f) + tycon_keys(*a),
        Type::AssocTy(_, args) => tycon_keys_args(n, args@.len() as int),
    }
}

/// The names of the type constructors standing in the first `k` arguments of the associated
/// type application `n`.
pub open spec fn tycon_keys_args(n: TypeNode, k: int) -> Set<(Seq<Seq<char>>, Seq<char>)>
    decreases n, 0nat, k,
{
    match n.ty {
        Type::AssocTy(_, args) => if k <= 0 || k > args@.len() {
            Set::empty()
        } else {
            tycon_keys_args(n, k - 1) + tycon_keys(*args@[k - 1])
        },
        _ => Set::empty(),
    }
}

/// The names of the type constructors and of the associated types standing in the type.
pub open spec fn referenced_keys(n: TypeNode) -> Set<(Seq<Seq<char>>, Seq<char>)>
    decreases n, 1nat,
{
    match n.ty {
        Type::TyVar(_) => Set::empty(),
        Type::TyCon(tc) => set![tycon_key(*tc)],
        Type::TyApp(f, a) => referenced_keys(*f) + referenced_keys(*a),
        Type::AssocTy(at, args) => referenced_keys_args(n, args@.len() as int).insert(
            name_key(at.name@),
        ),
    }
}

/// The names of the type constructors and of the associated types standing in the first `k`
/// arguments of the associated type application `n`.
pub open spec fn referenced_keys_args(n: TypeNode, k: int) -> Set<(Seq<Seq<char>>, Seq<char>)>
    decreases n, 0nat, k,
{
    match n.ty {
        Type::AssocTy(_, args) => if k <= 0 || k > args@.len() {
            Set::empty()
        } else {
            referenced_keys_args(n, k - 1) + referenced_keys(*args@[k - 1])
        },
        _ => Set::empty(),
    }
}

/// Whether `buf` holds a variable named `name`.
pub open spec fn has_var_named(buf: Seq<Arc<TyVar>>, name: Seq<char>) -> bool {
    exists|i: int| 0 <= i < buf.len() && (#[trigger] buf[i]).name@ == name
}

/// `buf` followed by each type variable of the type that `buf` lacks, in the order they first
/// stand in it, left to right.
pub open spec fn push_free_vars(buf: Seq<Arc<TyVar>>, n: TypeNode) -> Seq<Arc<TyVar>>
    decreases n, 1nat,
{
    match n.ty {
        Type::TyVar(tv) => if has_var_named(buf, tv.name@) {
            buf
        } else {
            buf.push(tv)
        },
        Type::TyCon(_) => buf,
        Type::TyApp(f, a) => push_free_vars(push_free_vars(buf, *f), *a),
        Type::AssocTy(_, args) => push_free_vars_args(buf, n, args@.len() as int),
    }
}

/// `push_free_vars` over the first `k` arguments of the associated type application `n`.
pub open spec fn push_free_vars_args(buf: Seq<Arc<TyVar>>, n: TypeNode, k: int) -> Seq<
    Arc<TyVar>,
>
    decreases n, 0nat, k,
{
    match n.ty {
        Type::AssocTy(_, args) => if k <= 0 || k > args@.len() {
            buf
        } else {
            push_free_vars(push_free_vars_args(buf, n, k - 1), *args@[k - 1])
        },
        _ => buf,
    }
}

/// A node holding `ty`, written nowhere.
pub fn type_node(ty: Type) -> (r: Arc<TypeNode>)
    ensures
        r.ty == ty,
        r.info.source.is_none(),
{
    Arc::new(TypeNode { ty, info: TypeInfo { source: None } })
}

/// The type that is the type variable named `var_name`, standing for types of kind `kind`.
pub fn type_tyvar(var_name: &str, kind: &Arc<Kind>) -> (r: Arc<TypeNode>)
    ensures
        r.ty is TyVar,
        r.ty->TyVar_0.name@ == var_name@,
        r.ty->TyVar_0.kind == *kind,
        r.info.source.is_none(),
{
    type_node(Type::TyVar(make_tyvar(var_name, kind)))
}

/// The type that is the type variable named `var_name`, standing for types of kind `*`.
pub fn type_tyvar_star(var_name: &str) -> (r: Arc<TypeNode>)
    ensures
        r.ty is TyVar,
        r.ty->TyVar_0.name@ == var_name@,
        *r.ty->TyVar_0.kind == Kind::Star,
        r.info.source.is_none(),
{
    type_node(Type::TyVar(make_tyvar(var_name, &kind_star())))
}

/// The type that is the type variable `tyvar`.
pub fn type_from_tyvar(tyvar: Arc<TyVar>) -> (r: Arc<TypeNode>)
    ensures
        r.ty == Type::TyVar(tyvar),
        r.info.source.is_none(),
{
    type_node(Type::TyVar(tyvar))
}

/// The type `tyfun` applied to `param`.
pub fn type_tyapp(tyfun: Arc<TypeNode>, param: Arc<TypeNode>) -> (r: Arc<TypeNode>)
    ensures
        r.ty == Type::TyApp(tyfun, param),
        r.info.source.is_none(),
{
    type_node(Type::TyApp(tyfun, param))
}

/// The associated type `assoc_ty` applied to `args`, the first of which is the type the trait
/// is implemented for.
pub fn type_assocty(assoc_ty: AssocType, args: Vec<Arc<TypeNode>>) -> (r: Arc<TypeNode>)
    ensures
        r.ty == Type::AssocTy(assoc_ty, args),
        r.info.source.is_none(),
{
    type_node(Type::AssocTy(assoc_ty, args))
}

/// The type that is the type constructor `tycon`, with no argument applied.
pub fn type_tycon(tycon: &Arc<TyCon>) -> (r: Arc<TypeNode>)
    ensures
        r.ty == Type::TyCon(*tycon),
        r.info.source.is_none(),
{
    type_node(Type::TyCon(tycon.clone()))
}

/// The type constructor named `name`.
pub fn tycon(name: FullName) -> (r: Arc<TyCon>)
    ensures
        r.name == name,
{
    Arc::new(TyCon { name })
}

/// The type constructor applied to the given type arguments, in order: `Array` applied to
/// `[I64]` is `Array I64`, and to `[]` is `Array`.
pub fn apply_type_args(tycon: &Arc<TyCon>, args: &[Arc<TypeNode>]) -> (r: Arc<TypeNode>)
    ensures
        app_head(*r).ty == Type::TyCon(*tycon),
        app_args(*r) == args@,
        toplevel(*r) == Some(*tycon),
{
    let mut applied = type_tycon(tycon);
    let mut i: usize = 0;
    assert(app_args(*applied) =~= args@.subrange(0, 0));
    while i < args.len()
        invariant
            i <= args@.len(),
            app_head(*applied).ty == Type::TyCon(*tycon),
            app_args(*applied) == args@.subrange(0, i as int),
            toplevel(*applied) == Some(*tycon),
        decreases args@.len() - i,
    {
        applied = type_tyapp(applied, args[i].clone());
        i = i + 1;
        assert(app_args(*applied) =~= args@.subrange(0, i as int));
    }
    assert(args@.subrange(0, args@.len() as int) =~= args@);
    applied
}

impl TypeNode {
    /// Where this type was written; a type the compiler builds itself carries none.
    pub fn get_source(&self) -> (r: &Option<Span>)
        ensures
            *r == self.info.source,
    {
        &self.info.source
    }

    /// A copy of this type written at `src`, leaving this node as it is.
    pub fn set_source(&self, src: Option<Span>) -> (r: Arc<Self>)
        ensures
            type_same(r.ty, self.ty),
            r.info.source == src,
    {
        Arc::new(TypeNode { ty: self.ty.clone(), info: TypeInfo { source: src } })
    }

    /// A copy of this type written at `src` where it carries no source of its own, and this
    /// type itself where it does.
    pub fn set_source_if_none(self: &Arc<TypeNode>, src: Option<Span>) -> (r: Arc<TypeNode>)
        ensures
            self.info.source.is_none() ==> type_same(r.ty, self.ty) && r.info.source == src,
            self.info.source.is_some() ==> r == *self,
    {
        if self.info.source.is_none() {
            self.set_source(src)
        } else {
            self.clone()
        }
    }

    /// A copy of this node carrying `info`, leaving this node as it is.
    pub fn set_info(self: Arc<Self>, info: TypeInfo) -> (r: Arc<Self>)
        ensures
            type_same(r.ty, self.ty),
            r.info == info,
    {
        Arc::new(TypeNode { ty: self.ty.clone(), info })
    }

    /// A copy of this node holding the type expression `ty`, keeping the source it was written
    /// at.
    pub fn set_ty(self: &Arc<Self>, ty: Type) -> (r: Arc<Self>)
        ensures
            r.ty == ty,
            r.info == self.info,
    {
        Arc::new(TypeNode { ty, info: self.info.clone() })
    }

    /// Whether this type is built from type constructors and type variables alone, with no
    /// associated type application standing anywhere in it.
    pub fn is_assoc_ty_free(&self) -> (r: bool)
        ensures
            r == assoc_free(*self),
        decreases self,
    {
        match &self.ty {
            Type::TyVar(_) => true,
            Type::TyCon(_) => true,
            Type::TyApp(head, arg) => head.is_assoc_ty_free() && arg.is_assoc_ty_free(),
            Type::AssocTy(_, _) => false,
        }
    }

    /// Whether the head of this type is a type constructor, as `Array` heads `Array a`.
    pub fn is_head_tycon(&self) -> (r: bool)
        ensures
            r == head_is_tycon(*self),
        decreases self,
    {
        match &self.ty {
            Type::TyVar(_) => false,
            Type::TyCon(_) => true,
            Type::TyApp(head, _) => head.is_head_tycon(),
            Type::AssocTy(_, _) => false,
        }
    }

    /// Whether this type is a type variable standing on its own.
    pub fn is_tyvar(&self) -> (r: bool)
        ensures
            r == (self.ty is TyVar),
    {
        match &self.ty {
            Type::TyVar(_) => true,
            _ => false,
        }
    }

    /// Whether this type is a type constructor standing on its own, with no argument applied.
    pub fn is_tycon(&self) -> (r: bool)
        ensures
            r == (self.ty is TyCon),
    {
        match &self.ty {
            Type::TyCon(_) => true,
            _ => false,
        }
    }

    /// The type constructor this type is. The type is a type constructor standing on its own.
    pub fn as_tycon(&self) -> (r: &TyCon)
        requires
            self.ty is TyCon,
        ensures
            *r == *self.ty->TyCon_0,
    {
        match &self.ty {
            Type::TyCon(tc) => tc,
            _ => {
                assert(false);
                unreached()
            },
        }
    }

    /// A copy of this type variable carrying `kind`, leaving this node as it is. The type is a
    /// type variable.
    pub fn set_tyvar_kind(&self, kind: Arc<Kind>) -> (r: Arc<TypeNode>)
        requires
            self.ty is TyVar,
        ensures
            r.ty is TyVar,
            r.ty->TyVar_0.name == self.ty->TyVar_0.name,
            r.ty->TyVar_0.kind == kind,
            r.info == self.info,
    {
        match &self.ty {
            Type::TyVar(tv) => Arc::new(
                TypeNode { ty: Type::TyVar(tv.set_kind(kind)), info: self.info.clone() },
            ),
            _ => {
                assert(false);
                unreached()
            },
        }
    }

    /// A copy of this type with `tv` as its type variable, leaving this node as it is. The type
    /// is a type variable.
    pub fn set_tyvar(&self, tv: Arc<TyVar>) -> (r: Arc<TypeNode>)
        requires
            self.ty is TyVar,
        ensures
            r.ty == Type::TyVar(tv),
            r.info == self.info,
    {
        Arc::new(TypeNode { ty: Type::TyVar(tv), info: self.info.clone() })
    }

    /// A copy of this application with `fun` as the type being applied, keeping the argument.
    /// The type is a type application.
    pub fn set_tyapp_fun(&self, fun: Arc<TypeNode>) -> (r: Arc<TypeNode>)
        requires
            self.ty is TyApp,
        ensures
            r.ty == Type::TyApp(fun, self.ty->TyApp_1),
            r.info == self.info,
    {
        match &self.ty {
            Type::TyApp(_, arg) => Arc::new(
                TypeNode { ty: Type::TyApp(fun, arg.clone()), info: self.info.clone() },
            ),
            _ => {
                assert(false);
                unreached()
            },
        }
    }

    /// A copy of this application with `arg` as the argument, keeping the type being applied.
    /// The type is a type application.
    pub fn set_tyapp_arg(&self, arg: Arc<TypeNode>) -> (r: Arc<TypeNode>)
        requires
            self.ty is TyApp,
        ensures
            r.ty == Type::TyApp(self.ty->TyApp_0, arg),
            r.info == self.info,
    {
        match &self.ty {
            Type::TyApp(fun, _) => Arc::new(
                TypeNode { ty: Type::TyApp(fun.clone(), arg), info: self.info.clone() },
            ),
            _ => {
                assert(false);
                unreached()
            },
        }
    }

    /// A copy of this associated type application named `name`, keeping the arguments. The
    /// type is an associated type application.
    pub fn set_assocty_name(&self, name: AssocType) -> (r: Arc<TypeNode>)
        requires
            self.ty is AssocTy,
        ensures
            r.ty is AssocTy,
            r.ty->AssocTy_0 == name,
            r.ty->AssocTy_1@ == self.ty->AssocTy_1@,
            r.info == self.info,
    {
        match &self.ty {
            Type::AssocTy(_, args) => Arc::new(
                TypeNode { ty: Type::AssocTy(name, clone_args(args)), info: self.info.clone() },
            ),
            _ => {
                assert(false);
                unreached()
            },
        }
    }

    /// A copy of this associated type application applied to `args`, keeping the name. The
    /// type is an associated type application.
    pub fn set_assocty_args(&self, args: Vec<Arc<TypeNode>>) -> (r: Arc<TypeNode>)
        requires
            self.ty is AssocTy,
        ensures
            r.ty is AssocTy,
            r.ty->AssocTy_0.name@ == self.ty->AssocTy_0.name@,
            r.ty->AssocTy_0.src == self.ty->AssocTy_0.src,
            r.ty->AssocTy_1 == args,
            r.info == self.info,
    {
        match &self.ty {
            Type::AssocTy(assoc_ty, _) => Arc::new(
                TypeNode { ty: Type::AssocTy(assoc_ty.clone(), args), info: self.info.clone() },
            ),
            _ => {
                assert(false);
                unreached()
            },
        }
    }

    /// A copy of this type with `tc` as its type constructor, leaving this node as it is. The
    /// type is a type constructor standing on its own.
    pub fn set_tycon_tc(&self, tc: Arc<TyCon>) -> (r: Arc<TypeNode>)
        requires
            self.ty is TyCon,
        ensures
            r.ty == Type::TyCon(tc),
            r.info == self.info,
    {
        Arc::new(TypeNode { ty: Type::TyCon(tc), info: self.info.clone() })
    }

    /// The type constructor at the head of this type, as `Array` heads `Array I64`. A type
    /// variable and an associated type application have none.
    pub fn toplevel_tycon(&self) -> (r: Option<Arc<TyCon>>)
        ensures
            r == toplevel(*self),
        decreases self,
    {
        match &self.ty {
            Type::TyVar(_) => None,
            Type::TyCon(tc) => Some(tc.clone()),
            Type::TyApp(fun, _) => fun.toplevel_tycon(),
            Type::AssocTy(_, _) => None,
        }
    }

    /// This type with `tycon` at its head, keeping the arguments applied to it: `Array I64` with
    /// `Option` given here becomes `Option I64`. A type constructor heads the type.
    pub fn set_toplevel_tycon(&self, tycon: Arc<TyCon>) -> (r: Arc<TypeNode>)
        requires
            head_is_tycon(*self),
        ensures
            toplevel(*r) == Some(tycon),
            app_args(*r) == app_args(*self),
            head_is_tycon(*r),
        decreases self,
    {
        match &self.ty {
            Type::TyCon(_) => type_tycon(&tycon),
            Type::TyApp(fun, arg) => type_tyapp(fun.set_toplevel_tycon(tycon), arg.clone()),
            _ => {
                assert(false);
                unreached()
            },
        }
    }

    /// This type split into the head being applied and the arguments applied to it: `f a b`
    /// gives `[f, a, b]`.
    pub fn flatten_type_application(&self) -> (r: Vec<Arc<TypeNode>>)
        ensures
            r@.len() == app_args(*self).len() + 1,
            same_node(*r@[0], app_head(*self)),
            r@.subrange(1, r@.len() as int) == app_args(*self),
        decreases self,
    {
        match &self.ty {
            Type::TyApp(fun, arg) => {
                let mut r = fun.flatten_type_application();
                r.push(arg.clone());
                assert(r@.subrange(1, r@.len() as int) =~= app_args(**fun).push(*arg));
                r
            },
            _ => {
                let mut r: Vec<Arc<TypeNode>> = Vec::new();
                r.push(Arc::new(self.clone()));
                assert(r@.subrange(1, r@.len() as int) =~= Seq::<Arc<TypeNode>>::empty());
                r
            },
        }
    }

    /// The arguments applied to this type's head, in the order they are applied: `f a b c`
    /// gives `[a, b, c]`. A type constructor heads the type.
    pub fn collect_type_arguments(&self) -> (r: Vec<Arc<TypeNode>>)
        requires
            head_is_tycon(*self),
        ensures
            r@ == app_args(*self),
        decreases self,
    {
        match &self.ty {
            Type::TyApp(fun, arg) => {
                let mut r = fun.collect_type_arguments();
                r.push(arg.clone());
                r
            },
            Type::TyCon(_) => {
                let r: Vec<Arc<TypeNode>> = Vec::new();
                assert(r@ =~= Seq::<Arc<TypeNode>>::empty());
                r
            },
            _ => {
                assert(false);
                unreached()
            },
        }
    }

    /// Whether no type variable occurs in this type.
    pub fn is_ground(&self) -> (r: bool)
        ensures
            r == ground(*self),
        decreases self,
    {
        match &self.ty {
            Type::TyVar(_) => false,
            Type::TyCon(_) => true,
            Type::TyApp(fun, arg) => fun.is_ground() && arg.is_ground(),
            Type::AssocTy(_, args) => {
                let mut i: usize = 0;
                while i < args.len()
                    invariant
                        self.ty == Type::AssocTy(self.ty->AssocTy_0, *args),
                        i <= args@.len(),
                        ground_args(*self, i as int),
                    decreases args@.len() - i,
                {
                    proof {
                        lemma_assoc_arg_decreases(*self, i as int);
                    }
                    if !args[i].is_ground() {
                        proof {
                            lemma_ground_args_stop(*self, i as int + 1, args@.len() as int);
                        }
                        return false;
                    }
                    i = i + 1;
                }
                true
            },
        }
    }

    /// How deeply this type nests: a name is one, and an application or an associated type is
    /// one more than the deepest part it is made of. The depth fits in a `usize`.
    pub fn depth(&self) -> (r: usize)
        requires
            depth(*self) <= usize::MAX,
        ensures
            r == depth(*self),
        decreases self,
    {
        match &self.ty {
            Type::TyVar(_) => 1,
            Type::TyCon(_) => 1,
            Type::TyApp(fun, arg) => {
                let f = fun.depth();
                let a = arg.depth();
                1 + if f >= a {
                    f
                } else {
                    a
                }
            },
            Type::AssocTy(_, args) => {
                let mut m: usize = 0;
                let mut i: usize = 0;
                while i < args.len()
                    invariant
                        self.ty == Type::AssocTy(self.ty->AssocTy_0, *args),
                        i <= args@.len(),
                        depth(*self) <= usize::MAX,
                        depth(*self) == 1 + depth_args(*self, args@.len() as int),
                        m == depth_args(*self, i as int),
                    decreases args@.len() - i,
                {
                    proof {
                        lemma_assoc_arg_decreases(*self, i as int);
                        lemma_depth_args_grows(*self, i as int + 1, args@.len() as int);
                    }
                    let d = args[i].depth();
                    if d >= m {
                        m = d;
                    }
                    i = i + 1;
                }
                1 + m
            },
        }
    }
}

/// Once an argument is not ground, no longer prefix of the arguments is ground.
pub proof fn lemma_ground_args_stop(n: TypeNode, k: int, l: int)
    requires
        n.ty is AssocTy,
        0 < k <= l <= n.ty->AssocTy_1@.len(),
        !ground_args(n, k),
    ensures
        !ground_args(n, l),
    decreases l - k,
{
    if k < l {
        lemma_ground_args_stop(n, k, l - 1);
    }
}

/// The deepest of a prefix of the arguments is no deeper than the deepest of a longer one.
pub proof fn lemma_depth_args_grows(n: TypeNode, k: int, l: int)
    requires
        n.ty is AssocTy,
        0 <= k <= l <= n.ty->AssocTy_1@.len(),
    ensures
        depth_args(n, k) <= depth_args(n, l),
    decreases l - k,
{
    if k < l {
        lemma_depth_args_grows(n, k, l - 1);
    }
}


/// The texts of `names`, as a set.
pub open spec fn name_set(names: Seq<String>) -> Set<Seq<char>> {
    strs(names).to_set()
}

/// Whether no text stands twice in `names`.
pub open spec fn names_distinct(names: Seq<String>) -> bool {
    strs(names).no_duplicates()
}

/// Adds `name` to the set of names `names`, which holds each name once.
pub fn insert_name(names: &mut Vec<String>, name: &String)
    requires
        names_distinct(old(names)@),
    ensures
        names_distinct(final(names)@),
        name_set(final(names)@) == name_set(old(names)@).insert(name@),
{
    let ghost before = names@;
    for i in 0..names.len()
        invariant
            names@ == before,
            names_distinct(before),
            forall|j: int| 0 <= j < i ==> names@[j]@ != name@,
    {
        if names[i] == *name {
            assert(strs(before)[i as int] == name@);
            assert(name_set(before).contains(name@));
            assert(name_set(before).insert(name@) =~= name_set(before));
            return;
        }
    }
    names.push(name.clone());
    proof {
        assert(strs(names@) =~= strs(before).push(name@));
        assert(!strs(before).contains(name@)) by {
            if strs(before).contains(name@) {
                let j = choose|j: int| 0 <= j < strs(before).len() && strs(before)[j] == name@;
                assert(before[j]@ == name@);
            }
        }
        assert(strs(before).push(name@).to_set() =~= strs(before).to_set().insert(name@)) by {
            assert forall|x| #[trigger] strs(before).push(name@).to_set().contains(x) <==> strs(before).to_set().insert(name@).contains(x) by {
                if strs(before).push(name@).contains(x) && x != name@ {
                    let j = choose|j: int| 0 <= j < strs(before).push(name@).len() && strs(before).push(name@)[j] == x;
                    assert(strs(before)[j] == x);
                }
                if strs(before).contains(x) {
                    let j = choose|j: int| 0 <= j < strs(before).len() && strs(before)[j] == x;
                    assert(strs(before).push(name@)[j] == x);
                }
                if x == name@ {
                    assert(strs(before).push(name@)[strs(before).len() as int] == x);
                }
            }
        }
    }
}

/// Pushing a name onto a sequence of names adds it to their set.
pub proof fn lemma_name_set_push(names: Seq<String>, name: String)
    ensures
        name_set(names.push(name)) == name_set(names).insert(name@),
{
    assert(strs(names.push(name)) =~= strs(names).push(name@));
    strs(names).lemma_push_to_set_commute(name@);
}

/// Adds each name of `more` to the set of names `names`, which holds each name once.
pub fn union_names(names: &mut Vec<String>, more: &Vec<String>)
    requires
        names_distinct(old(names)@),
    ensures
        names_distinct(final(names)@),
        name_set(final(names)@) == name_set(old(names)@) + name_set(more@),
{
    let ghost before = names@;
    for i in 0..more.len()
        invariant
            names_distinct(names@),
            name_set(names@) == name_set(before) + name_set(more@.take(i as int)),
    {
        proof {
            assert(more@.take(i + 1) =~= more@.take(i as int).push(more@[i as int]));
            lemma_name_set_push(more@.take(i as int), more@[i as int]);
        }
        insert_name(names, &more[i]);
    }
    assert(more@.take(more@.len() as int) =~= more@);
}

/// Removes `name` from the set of names `names`, which holds each name once.
pub fn remove_name(names: &mut Vec<String>, name: &str)
    requires
        names_distinct(old(names)@),
    ensures
        names_distinct(final(names)@),
        name_set(final(names)@) == name_set(old(names)@).remove(name@),
{
    let ghost before = names@;
    let target = crate::strutil::to_string(name);
    let mut out: Vec<String> = Vec::new();
    for i in 0..names.len()
        invariant
            names@ == before,
            names_distinct(before),
            names_distinct(out@),
            target@ == name@,
            name_set(out@) == name_set(before.take(i as int)).remove(name@),
    {
        proof {
            assert(before.take(i + 1) =~= before.take(i as int).push(before[i as int]));
            lemma_name_set_push(before.take(i as int), before[i as int]);
        }
        if names[i] != target {
            proof {
                let t = strs(before.take(i as int));
                assert(!t.contains(before[i as int]@)) by {
                    if t.contains(before[i as int]@) {
                        let j = choose|j: int| 0 <= j < t.len() && t[j] == before[i as int]@;
                        assert(strs(before)[j] == strs(before)[i as int]);
                    }
                }
                assert(!name_set(out@).contains(before[i as int]@));
                assert(!strs(out@).contains(before[i as int]@));
                assert(strs(out@.push(names@[i as int])) =~= strs(out@).push(before[i as int]@));
                lemma_name_set_push(out@, names@[i as int]);
            }
            out.push(names[i].clone());
        }
    }
    assert(before.take(before.len() as int) =~= before);
    *names = out;
}

/// The keys of `tycons`, as a set.
pub open spec fn tycon_key_set(tycons: Seq<TyCon>) -> Set<(Seq<Seq<char>>, Seq<char>)> {
    tycons.map_values(|tc: TyCon| tycon_key(tc)).to_set()
}

/// Whether no type constructor stands twice in `tycons`.
pub open spec fn tycons_distinct(tycons: Seq<TyCon>) -> bool {
    tycons.map_values(|tc: TyCon| tycon_key(tc)).no_duplicates()
}

/// Adds `tc` to the set of type constructors `tycons`, which holds each one once.
pub fn insert_tycon(tycons: &mut Vec<TyCon>, tc: &TyCon)
    requires
        tycons_distinct(old(tycons)@),
    ensures
        tycons_distinct(final(tycons)@),
        tycon_key_set(final(tycons)@) == tycon_key_set(old(tycons)@).insert(tycon_key(*tc)),
{
    let ghost before = tycons@;
    let ghost keys = before.map_values(|t: TyCon| tycon_key(t));
    for i in 0..tycons.len()
        invariant
            tycons@ == before,
            tycons_distinct(before),
            keys == before.map_values(|t: TyCon| tycon_key(t)),
            forall|j: int| 0 <= j < i ==> keys[j] != tycon_key(*tc),
    {
        if tycons[i] == *tc {
            assert(keys[i as int] == tycon_key(*tc));
            assert(keys.to_set().contains(tycon_key(*tc)));
            assert(keys.to_set().insert(tycon_key(*tc)) =~= keys.to_set());
            return;
        }
    }
    tycons.push(tc.clone());
    proof {
        let k = tycon_key(*tc);
        let nk = tycons@.map_values(|t: TyCon| tycon_key(t));
        assert(nk =~= keys.push(k));
        assert(!keys.contains(k)) by {
            if keys.contains(k) {
                let j = choose|j: int| 0 <= j < keys.len() && keys[j] == k;
                assert(keys[j] != k);
            }
        }
        assert(keys.push(k).to_set() =~= keys.to_set().insert(k)) by {
            assert forall|x| #[trigger] keys.push(k).to_set().contains(x) <==> keys.to_set().insert(k).contains(x) by {
                if keys.push(k).contains(x) && x != k {
                    let j = choose|j: int| 0 <= j < keys.push(k).len() && keys.push(k)[j] == x;
                    assert(keys[j] == x);
                }
                if keys.contains(x) {
                    let j = choose|j: int| 0 <= j < keys.len() && keys[j] == x;
                    assert(keys.push(k)[j] == x);
                }
                if x == k {
                    assert(keys.push(k)[keys.len() as int] == x);
                }
            }
        }
    }
}

/// Whether `buf` holds a variable named `name`.
pub fn contains_var_named(buf: &Vec<Arc<TyVar>>, name: &String) -> (r: bool)
    ensures
        r == has_var_named(buf@, name@),
{
    for i in 0..buf.len()
        invariant
            forall|j: int| 0 <= j < i ==> buf@[j].name@ != name@,
    {
        if buf[i].name == *name {
            assert(buf@[i as int].name@ == name@);
            return true;
        }
    }
    false
}

impl TypeNode {
    /// Appends to `buf` each type variable standing in this type that `buf` lacks, so that every
    /// variable is held once, under the first occurrence met.
    pub fn free_vars_to_vec(&self, buf: &mut Vec<Arc<TyVar>>)
        ensures
            final(buf)@ == push_free_vars(old(buf)@, *self),
        decreases self,
    {
        match &self.ty {
            Type::TyVar(tv) => {
                if contains_var_named(buf, &tv.name) {
                    return;
                }
                buf.push(tv.clone());
            },
            Type::TyApp(tyfun, arg) => {
                tyfun.free_vars_to_vec(buf);
                arg.free_vars_to_vec(buf);
            },
            Type::TyCon(_) => {},
            Type::AssocTy(_, args) => {
                let ghost b0 = buf@;
                let mut i: usize = 0;
                while i < args.len()
                    invariant
                        self.ty == Type::AssocTy(self.ty->AssocTy_0, *args),
                        i <= args@.len(),
                        buf@ == push_free_vars_args(b0, *self, i as int),
                    decreases args@.len() - i,
                {
                    proof {
                        lemma_assoc_arg_decreases(*self, i as int);
                    }
                    args[i].free_vars_to_vec(buf);
                    i = i + 1;
                }
            },
        }
    }

    /// The type variables standing in this type, each one once, in the order they first stand
    /// in it.
    pub fn free_vars_vec(&self) -> (r: Vec<Arc<TyVar>>)
        ensures
            r@ == push_free_vars(Seq::empty(), *self),
    {
        let mut buf: Vec<Arc<TyVar>> = Vec::new();
        self.free_vars_to_vec(&mut buf);
        buf
    }

    /// Adds to `out` the names of the type variables that are fixed in this type: those standing
    /// outside every associated type application, which unifying the type with a ground type
    /// determines.
    pub fn fixed_vars_to_set(&self, out: &mut Vec<Name>)
        requires
            names_distinct(old(out)@),
        ensures
            names_distinct(final(out)@),
            name_set(final(out)@) == name_set(old(out)@) + fixed_names(*self),
        decreases self,
    {
        match &self.ty {
            Type::TyVar(tv) => {
                insert_name(out, &tv.name);
                assert(name_set(old(out)@).insert(tv.name@) =~= name_set(old(out)@) + set![tv.name@]);
            },
            Type::TyApp(tyfun, arg) => {
                tyfun.fixed_vars_to_set(out);
                arg.fixed_vars_to_set(out);
                assert(name_set(out@) =~= name_set(old(out)@) + fixed_names(*self));
            },
            _ => {
                assert(name_set(out@) =~= name_set(old(out)@) + fixed_names(*self));
            },
        }
    }

    /// Adds to `tyvar_names` the names of all type variables that stand in this type, arguments
    /// of an associated type application included.
    pub fn collect_tyvar_names(&self, names: &mut Vec<Name>)
        requires
            names_distinct(old(names)@),
        ensures
            names_distinct(final(names)@),
            name_set(final(names)@) == name_set(old(names)@) + tyvar_names(*self),
        decreases self,
    {
        match &self.ty {
            Type::TyVar(tv) => {
                insert_name(names, &tv.name);
                assert(name_set(old(names)@).insert(tv.name@) =~= name_set(old(names)@) + set![tv.name@]);
            },
            Type::TyCon(_) => {
                assert(name_set(names@) =~= name_set(old(names)@) + tyvar_names(*self));
            },
            Type::TyApp(tyfun, arg) => {
                tyfun.collect_tyvar_names(names);
                arg.collect_tyvar_names(names);
                assert(name_set(names@) =~= name_set(old(names)@) + tyvar_names(*self));
            },
            Type::AssocTy(_, args) => {
                let ghost b0 = name_set(names@);
                let mut i: usize = 0;
                assert(name_set(names@) =~= b0 + tyvar_names_args(*self, 0));
                while i < args.len()
                    invariant
                        self.ty == Type::AssocTy(self.ty->AssocTy_0, *args),
                        i <= args@.len(),
                        names_distinct(names@),
                        name_set(names@) == b0 + tyvar_names_args(*self, i as int),
                    decreases args@.len() - i,
                {
                    proof {
                        lemma_assoc_arg_decreases(*self, i as int);
                    }
                    args[i].collect_tyvar_names(names);
                    i = i + 1;
                    assert(name_set(names@) =~= b0 + tyvar_names_args(*self, i as int));
                }
            },
        }
    }

    /// Adds to `names` the name of every type constructor and every associated type that stands
    /// in this type.
    pub fn collect_referenced_names(&self, names: &mut Vec<FullName>)
        requires
            name_keys(old(names)@).no_duplicates(),
        ensures
            name_keys(final(names)@).no_duplicates(),
            name_keys(final(names)@).to_set() == name_keys(old(names)@).to_set() + referenced_keys(*self),
        decreases self,
    {
        match &self.ty {
            Type::TyVar(_) => {
                assert(name_keys(names@).to_set() =~= name_keys(old(names)@).to_set() + referenced_keys(*self));
            },
            Type::TyCon(tc) => {
                insert_fullname(names, &tc.name);
                assert(name_keys(old(names)@).to_set().insert(tycon_key(**tc)) =~= name_keys(old(names)@).to_set()
                    + referenced_keys(*self));
            },
            Type::TyApp(tyfun, arg) => {
                tyfun.collect_referenced_names(names);
                arg.collect_referenced_names(names);
                assert(name_keys(names@).to_set() =~= name_keys(old(names)@).to_set() + referenced_keys(*self));
            },
            Type::AssocTy(at, args) => {
                insert_fullname(names, &at.name);
                let ghost b0 = name_keys(old(names)@).to_set().insert(name_key(at.name@));
                let mut i: usize = 0;
                assert(name_keys(names@).to_set() =~= b0 + referenced_keys_args(*self, 0));
                while i < args.len()
                    invariant
                        self.ty == Type::AssocTy(*at, *args),
                        i <= args@.len(),
                        name_keys(names@).no_duplicates(),
                        name_keys(names@).to_set() == b0 + referenced_keys_args(*self, i as int),
                    decreases args@.len() - i,
                {
                    proof {
                        lemma_assoc_arg_decreases(*self, i as int);
                    }
                    args[i].collect_referenced_names(names);
                    i = i + 1;
                    assert(name_keys(names@).to_set() =~= b0 + referenced_keys_args(*self, i as int));
                }
                assert(name_keys(names@).to_set() =~= name_keys(old(names)@).to_set() + referenced_keys(*self));
            },
        }
    }

    /// Adds to `tycons` every type constructor that stands in this type.
    pub fn collect_tycons(&self, tycons: &mut Vec<TyCon>)
        requires
            tycons_distinct(old(tycons)@),
        ensures
            tycons_distinct(final(tycons)@),
            tycon_key_set(final(tycons)@) == tycon_key_set(old(tycons)@) + tycon_keys(*self),
        decreases self,
    {
        match &self.ty {
            Type::TyVar(_) => {
                assert(tycon_key_set(tycons@) =~= tycon_key_set(old(tycons)@) + tycon_keys(*self));
            },
            Type::TyCon(tc) => {
                insert_tycon(tycons, tc);
                assert(tycon_key_set(old(tycons)@).insert(tycon_key(**tc)) =~= tycon_key_set(old(tycons)@) + set![tycon_key(**tc)]);
            },
            Type::TyApp(tyfun, arg) => {
                tyfun.collect_tycons(tycons);
                arg.collect_tycons(tycons);
                assert(tycon_key_set(tycons@) =~= tycon_key_set(old(tycons)@) + tycon_keys(*self));
            },
            Type::AssocTy(_, args) => {
                let ghost b0 = tycon_key_set(tycons@);
                let mut i: usize = 0;
                assert(tycon_key_set(tycons@) =~= b0 + tycon_keys_args(*self, 0));
                while i < args.len()
                    invariant
                        self.ty == Type::AssocTy(self.ty->AssocTy_0, *args),
                        i <= args@.len(),
                        tycons_distinct(tycons@),
                        tycon_key_set(tycons@) == b0 + tycon_keys_args(*self, i as int),
                    decreases args@.len() - i,
                {
                    proof {
                        lemma_assoc_arg_decreases(*self, i as int);
                    }
                    args[i].collect_tycons(tycons);
                    i = i + 1;
                    assert(tycon_key_set(tycons@) =~= b0 + tycon_keys_args(*self, i as int));
                }
            },
        }
    }
}


/// A type constructor written the way Fix source writes it: the tuple of no element is `()`,
/// and any other type constructor is its full name.
pub open spec fn tycon_text(tc: TyCon) -> Seq<char> {
    if tuple_n(tycon_key(tc)) == Some(0nat) {
        seq!['(', ')']
    } else {
        fullname_text(tc.name@)
    }
}

/// The names, in `Std`, of the types that cross to C as a single scalar value.
pub open spec fn c_scalar_name(name: Seq<char>) -> bool {
    name == "I8"@ || name == "U8"@ || name == "I16"@ || name == "U16"@ || name == "I32"@ || name
        == "U32"@ || name == "I64"@ || name == "U64"@ || name == "F32"@ || name == "F64"@ || name
        == "Ptr"@
}

/// The names, in `Std`, of the integer types, and whether each carries a sign.
pub open spec fn std_integer_sign(name: Seq<char>) -> Option<bool> {
    if name == "U8"@ || name == "U16"@ || name == "U32"@ || name == "U64"@ {
        Some(false)
    } else if name == "I8"@ || name == "I16"@ || name == "I32"@ || name == "I64"@ {
        Some(true)
    } else {
        None
    }
}

impl TyCon {
    /// This type constructor written the way Fix source writes it: the tuple of no element is
    /// written `()`.
    pub fn to_string(&self) -> (r: String)
        ensures
            r@ == tycon_text(*self),
    {
        if let Some(n) = get_tuple_n(&self.name) {
            if n == 0 {
                proof {
                    reveal_strlit("()");
                }
                return crate::strutil::to_string("()");
            }
        }
        self.name.to_string()
    }

    /// Whether this is the unit type `()`, i.e. the tuple of no element.
    pub fn is_unit(&self) -> (r: bool)
        ensures
            r == (tuple_n(tycon_key(*self)) == Some(0nat)),
    {
        match get_tuple_n(&self.name) {
            Some(n) => n == 0,
            None => false,
        }
    }

    /// Whether a value of this type crosses to C as one scalar: an integer, a floating point
    /// number, or a pointer.
    pub fn is_c_scalar(&self) -> (r: bool)
        ensures
            r == (self.name@.namespace.names == seq![spec_std_name()] && c_scalar_name(
                self.name@.name,
            )),
    {
        is_std_tycon(self, "I8") || is_std_tycon(self, "U8") || is_std_tycon(self, "I16")
            || is_std_tycon(self, "U16") || is_std_tycon(self, "I32") || is_std_tycon(self, "U32")
            || is_std_tycon(self, "I64") || is_std_tycon(self, "U64") || is_std_tycon(self, "F32")
            || is_std_tycon(self, "F64") || is_std_tycon(self, "Ptr")
    }

    /// Whether this is an integer type that carries a sign. The type is an integer type of `Std`.
    pub fn is_signed_integer(&self) -> (r: bool)
        requires
            self.name@.namespace.names == seq![spec_std_name()],
            std_integer_sign(self.name@.name) is Some,
        ensures
            r == std_integer_sign(self.name@.name)->0,
    {
        proof {
            reveal_strlit("I8");
            reveal_strlit("I16");
            reveal_strlit("I32");
            reveal_strlit("I64");
            reveal_strlit("U8");
            reveal_strlit("U16");
            reveal_strlit("U32");
            reveal_strlit("U64");
            assert("I8"@ =~= seq!['I', '8']);
            assert("I16"@ =~= seq!['I', '1', '6']);
            assert("I32"@ =~= seq!['I', '3', '2']);
            assert("I64"@ =~= seq!['I', '6', '4']);
            assert("U8"@ =~= seq!['U', '8']);
            assert("U16"@ =~= seq!['U', '1', '6']);
            assert("U32"@ =~= seq!['U', '3', '2']);
            assert("U64"@ =~= seq!['U', '6', '4']);
            assert(seq!['I', '8'][0] != seq!['U', '8'][0]);
        }
        is_std_tycon(self, "I8") || is_std_tycon(self, "I16") || is_std_tycon(self, "I32")
            || is_std_tycon(self, "I64")
    }

    /// Whether this is the type `Bool` of `Std`.
    pub fn is_boolean(&self) -> (r: bool)
        ensures
            r == (tycon_key(*self) == std_key("Bool"@)),
    {
        is_std_tycon(self, "Bool")
    }

    /// Whether this is the type `String` of `Std`.
    pub fn is_string(&self) -> (r: bool)
        ensures
            r == (tycon_key(*self) == std_key("String"@)),
    {
        is_std_tycon(self, "String")
    }

    /// Whether this is the type constructor `IO`.
    pub fn is_io(&self) -> (r: bool)
        ensures
            r == (tycon_key(*self) == std_key("IO"@)),
    {
        is_std_tycon(self, "IO")
    }

    /// Whether this is the type `IOState`, the token that an `IO` action threads.
    pub fn is_iostate(&self) -> (r: bool)
        ensures
            r == (tycon_key(*self) == std_key("IOState"@)),
    {
        self.name == make_iostate_name()
    }

    /// Renames this struct's type constructor to the one that stands for the struct with the
    /// field at `punched_at` made a hole.
    pub fn into_punched_type_name(&mut self, punched_at: usize)
        ensures
            final(self).name@.namespace == old(self).name@.namespace,
            final(self).name@.name == old(self).name@.name + "#punched"@ + nat_text(
                punched_at as nat,
            ),
    {
        self.name.name.append("#punched");
        let digits = u64_text(punched_at as u64);
        let d = string_from_chars(digits.as_slice());
        self.name.name.append(d.as_str());
    }

    /// Whether this is the type constructor `->` that heads a function type.
    pub fn is_arrow(&self) -> (r: bool)
        ensures
            r == (tycon_key(*self) == std_key(arrow_name())),
    {
        self.name == make_arrow_name_abs()
    }

    /// Whether this is the type constructor `Std::Array`.
    pub fn is_array(&self) -> (r: bool)
        ensures
            r == (tycon_key(*self) == std_key("Array"@)),
    {
        is_array_tycon(self)
    }
}

/// Whether a type constructor heads the type and has the key `key`.
pub open spec fn headed_by(n: TypeNode, key: (Seq<Seq<char>>, Seq<char>)) -> bool {
    toplevel(n) matches Some(tc) && tycon_key(*tc) == key
}

/// Whether the type is a function type `a -> b`.
pub open spec fn closure_type(n: TypeNode) -> bool {
    headed_by(n, std_key(arrow_name()))
}

/// Whether the type is a function pointer type.
pub open spec fn funptr_type(n: TypeNode) -> bool {
    toplevel(n) matches Some(tc) && funptr_n(tycon_key(*tc)) is Some
}

/// Whether `arg`, standing as the argument of an application, is written in parentheses: an
/// application is, but a saturated tuple, which writes its own parentheses, is not.
pub open spec fn braced_as_arg(arg: TypeNode) -> bool {
    match arg.ty {
        Type::TyVar(_) => false,
        Type::TyCon(_) => false,
        Type::TyApp(fun, _) => match toplevel(*fun) {
            Some(tc) => match tuple_n(tycon_key(*tc)) {
                Some(k) => k != app_args(arg).len(),
                None => true,
            },
            None => true,
        },
        Type::AssocTy(_, _) => true,
    }
}

/// The text of `t` standing as an argument, in parentheses where it needs them.
pub open spec fn arg_text(arg: TypeNode, t: Seq<char>) -> Seq<char> {
    if braced_as_arg(arg) {
        seq!['('] + t + seq![')']
    } else {
        t
    }
}

/// The type written in source syntax under the names its own type variables carry: a
/// saturated tuple is written `(a, b)`, the tuple of one element `(a,)`, a saturated arrow
/// `a -> b` (with `(a -> b) -> c` for an arrow on the left), an associated type application
/// `Item c`, and any other application `f a`, with an argument that is itself an application in
/// parentheses.
pub open spec fn type_text(n: TypeNode) -> Seq<char>
    decreases n, 2nat,
{
    match n.ty {
        Type::TyVar(v) => v.name@,
        Type::TyCon(tc) => tycon_text(*tc),
        Type::TyApp(fun, arg) => {
            let generic = type_text(*fun) + seq![' '] + arg_text(*arg, type_text(*arg));
            let texts = spine_texts(n);
            match toplevel(n) {
                Some(tc) => {
                    let tuple = tuple_n(tycon_key(*tc));
                    if tuple == Some(1nat) {
                        seq!['('] + texts[0] + seq![',', ')']
                    } else if tuple is Some && tuple->0 == texts.len() {
                        seq!['('] + join(texts, seq![',', ' ']) + seq![')']
                    } else if tycon_key(*tc) == std_key(arrow_name()) && texts.len() == 2 {
                        if closure_type(*app_args(n)[0]) {
                            seq!['('] + texts[0] + seq![')', ' ', '-', '>', ' '] + texts[1]
                        } else {
                            texts[0] + seq![' ', '-', '>', ' '] + texts[1]
                        }
                    } else {
                        generic
                    }
                },
                None => generic,
            }
        },
        Type::AssocTy(at, args) => fullname_text(at.name@) + seq![' '] + join(
            assoc_texts(n, args@.len() as int),
            seq![' '],
        ),
    }
}

/// Whether `n` is the function type `d -> c`.
pub open spec fn is_function_of(n: TypeNode, d: TypeNode, c: TypeNode) -> bool {
    &&& n.ty is TyApp
    &&& *n.ty->TyApp_1 == c
    &&& n.ty->TyApp_0.ty is TyApp
    &&& *n.ty->TyApp_0.ty->TyApp_1 == d
    &&& n.ty->TyApp_0.ty->TyApp_0.ty is TyCon
    &&& tycon_key(*n.ty->TyApp_0.ty->TyApp_0.ty->TyCon_0) == std_key(arrow_name())
}

/// A function type `d -> c` is written with ` -> ` between its parts, and a function type `d`
/// standing on the left of the arrow is written in parentheses: `(a -> b) -> c` and
/// `a -> b -> c` are different types and are written differently.
pub proof fn law_function_type_text(n: TypeNode, d: TypeNode, c: TypeNode)
    requires
        is_function_of(n, d, c),
    ensures
        closure_type(d) ==> type_text(n) == seq!['('] + type_text(d) + seq![')', ' ', '-', '>', ' '] + type_text(c),
        !closure_type(d) ==> type_text(n) == type_text(d) + seq![' ', '-', '>', ' '] + type_text(c),
        closure_type(d) ==> type_text(n)[0] == '(',
{
    let partial = *n.ty->TyApp_0;
    let head = *partial.ty->TyApp_0;
    let tc = head.ty->TyCon_0;
    assert(toplevel(head) == Some(tc));
    assert(toplevel(partial) == Some(tc));
    assert(toplevel(n) == Some(tc));
    assert(spine_texts(head) =~= Seq::<Seq<char>>::empty());
    assert(spine_texts(partial) =~= seq![type_text(d)]);
    assert(spine_texts(n) =~= seq![type_text(d), type_text(c)]);
    assert(app_args(head) =~= Seq::<Arc<TypeNode>>::empty());
    assert(app_args(partial) =~= seq![partial.ty->TyApp_1]);
    assert(*app_args(n)[0] == d);
    assert(!starts_with(arrow_name(), seq!['T', 'u', 'p', 'l', 'e']));
    assert(tuple_n(tycon_key(*tc)) is None);
}

/// The texts of the arguments the head of the type is applied to, in order.
pub open spec fn spine_texts(n: TypeNode) -> Seq<Seq<char>>
    decreases n, 1nat,
{
    match n.ty {
        Type::TyApp(f, a) => spine_texts(*f).push(type_text(*a)),
        _ => Seq::empty(),
    }
}

/// The texts of the first `k` arguments of the associated type application `n`, each in
/// parentheses where it needs them.
pub open spec fn assoc_texts(n: TypeNode, k: int) -> Seq<Seq<char>>
    decreases n, 0nat, k,
{
    match n.ty {
        Type::AssocTy(_, args) => if k <= 0 || k > args@.len() {
            Seq::empty()
        } else {
            assoc_texts(n, k - 1).push(arg_text(*args@[k - 1], type_text(*args@[k - 1])))
        },
        _ => Seq::empty(),
    }
}

/// The head of the type written out: the type constructor or the type variable being applied,
/// or the name of the associated type.
pub open spec fn head_text(n: TypeNode) -> Seq<char>
    decreases n,
{
    match n.ty {
        Type::TyApp(f, _) => head_text(*f),
        Type::AssocTy(at, _) => fullname_text(at.name@),
        _ => type_text(n),
    }
}

/// A type constructor heads a type exactly where the type has a top-level type constructor.
pub proof fn lemma_toplevel_head(n: &TypeNode)
    ensures
        toplevel(*n) is Some <==> head_is_tycon(*n),
    decreases n,
{
    if n.ty is TyApp {
        lemma_toplevel_head(&n.ty->TyApp_0);
    }
}

pub proof fn lemma_spine_len(n: &TypeNode)
    ensures
        spine_texts(*n).len() == app_args(*n).len(),
    decreases n,
{
    if n.ty is TyApp {
        lemma_spine_len(&n.ty->TyApp_0);
    }
}

impl TypeNode {
    /// Whether the top-level type constructor of this type has the key of `Std`'s `name`.
    fn headed_by_std(&self, name: &str) -> (r: bool)
        ensures
            r == headed_by(*self, std_key(name@)),
    {
        match self.toplevel_tycon() {
            Some(tc) => is_std_tycon(&tc, name),
            None => false,
        }
    }

    /// Whether this type is a function type `a -> b`, a value of which pairs the code to run
    /// with the values it captured.
    pub fn is_closure(&self) -> (r: bool)
        ensures
            r == closure_type(*self),
    {
        match self.toplevel_tycon() {
            Some(tc) => tc.is_arrow(),
            None => false,
        }
    }

    /// Whether this type is one of the `Std::#FunPtr{n}` constructors applied to its arguments.
    pub fn is_funptr(&self) -> (r: bool)
        ensures
            r == funptr_type(*self),
    {
        match self.toplevel_tycon() {
            Some(tc) => is_funptr_tycon(&tc).is_some(),
            None => false,
        }
    }

    /// Whether this type is `Std::Array`.
    pub fn is_array(&self) -> (r: bool)
        ensures
            r == headed_by(*self, std_key("Array"@)),
    {
        self.headed_by_std("Array")
    }

    /// Whether this is the internal `#ArrayStorage` type.
    pub fn is_array_storage(&self) -> (r: bool)
        ensures
            r == headed_by(*self, std_key("#ArrayStorage"@)),
    {
        self.headed_by_std("#ArrayStorage")
    }

    /// Whether this type is `Std::PunchedArray`, an array with one element moved out of it.
    pub fn is_punched_array(&self) -> (r: bool)
        ensures
            r == headed_by(*self, std_key("PunchedArray"@)),
    {
        self.headed_by_std("PunchedArray")
    }

    /// Whether this is the unit type `()`, i.e. the tuple of no element.
    pub fn is_unit(&self) -> (r: bool)
        ensures
            r == (toplevel(*self) matches Some(tc) && tuple_n(tycon_key(*tc)) == Some(0nat)),
    {
        match self.toplevel_tycon() {
            Some(tc) => tc.is_unit(),
            None => false,
        }
    }

    /// Whether this is the type `Bool`.
    pub fn is_boolean(&self) -> (r: bool)
        ensures
            r == headed_by(*self, std_key("Bool"@)),
    {
        self.headed_by_std("Bool")
    }

    /// Whether this is the type `String`.
    pub fn is_string(&self) -> (r: bool)
        ensures
            r == headed_by(*self, std_key("String"@)),
    {
        self.headed_by_std("String")
    }

    /// Whether the top-level type constructor of this type is `IO`, i.e. whether this is `IO` or
    /// `IO a`.
    pub fn is_io(&self) -> (r: bool)
        ensures
            r == headed_by(*self, std_key("IO"@)),
    {
        self.headed_by_std("IO")
    }

    /// Whether this type is `#DynamicObject`, the boxed object a closure keeps its captured
    /// values in.
    pub fn is_dynamic(&self) -> (r: bool)
        ensures
            r == headed_by(*self, std_key("#DynamicObject"@)),
    {
        self.headed_by_std("#DynamicObject")
    }

    /// Whether this type is `Std::FFI::Destructor`, which runs the destructor function it holds
    /// over its value as it is destroyed.
    pub fn is_destructor_object(&self) -> (r: bool)
        ensures
            r == headed_by(*self, destructor_key()),
    {
        match self.toplevel_tycon() {
            Some(tc) => is_destructor_object_tycon(&tc),
            None => false,
        }
    }

    /// Whether `arg`, standing as the argument of an application, is written in parentheses.
    fn should_braced_as_arg(arg: &TypeNode) -> (r: bool)
        ensures
            r == braced_as_arg(*arg),
    {
        match &arg.ty {
            Type::TyVar(_) => false,
            Type::TyCon(_) => false,
            Type::TyApp(fun, _) => {
                match fun.toplevel_tycon() {
                    Some(tycon) => match get_tuple_n(&tycon.name) {
                        Some(tuple_n) => {
                            proof {
                                lemma_toplevel_head(fun);
                            }
                            let args = arg.collect_type_arguments();
                            tuple_n as usize != args.len()
                        },
                        None => true,
                    },
                    None => true,
                }
            },
            Type::AssocTy(_, _) => true,
        }
    }

    /// The texts of the arguments the head of this type is applied to, in order.
    fn spine_texts(&self) -> (r: Vec<String>)
        ensures
            strs(r@) == spine_texts(*self),
        decreases self, 1nat,
    {
        match &self.ty {
            Type::TyApp(f, a) => {
                let mut r = f.spine_texts();
                let t = a.to_string();
                let ghost before = r@;
                r.push(t);
                assert(strs(r@) =~= strs(before).push(t@));
                r
            },
            _ => {
                let r: Vec<String> = Vec::new();
                assert(strs(r@) =~= Seq::<Seq<char>>::empty());
                r
            },
        }
    }

    /// This type written in source syntax, under the names its own type variables carry: a
    /// saturated tuple is written `(a, b)`, a saturated arrow `a -> b`, and an argument that is
    /// itself an application stands in parentheses, as in `Array (Option a)`.
    pub fn to_string(&self) -> (r: String)
        ensures
            r@ == type_text(*self),
        decreases self, 2nat,
    {
        match &self.ty {
            Type::TyVar(v) => v.name.clone(),
            Type::TyApp(fun, arg) => {
                if let Some(tc) = self.toplevel_tycon() {
                    if let Some(n) = get_tuple_n(&tc.name) {
                        let texts = self.spine_texts();
                        proof {
                            lemma_spine_len(self);
                        }
                        if n == 1 {
                            let mut r = crate::strutil::to_string("(");
                            r.append(texts[0].as_str());
                            r.append(",)");
                            proof {
                                reveal_strlit("(");
                                reveal_strlit(",)");
                                assert(r@ =~= type_text(*self));
                            }
                            return r;
                        }
                        if n as usize == texts.len() {
                            let mut r = crate::strutil::to_string("(");
                            let joined = join_strings(&texts, ", ");
                            r.append(joined.as_str());
                            r.append(")");
                            proof {
                                reveal_strlit("(");
                                reveal_strlit(", ");
                                reveal_strlit(")");
                                assert(", "@ =~= seq![',', ' ']);
                                assert(r@ =~= type_text(*self));
                            }
                            return r;
                        }
                    }
                    if tc.is_arrow() {
                        let texts = self.spine_texts();
                        proof {
                            lemma_spine_len(self);
                            lemma_toplevel_head(self);
                        }
                        let args = self.collect_type_arguments();
                        if texts.len() == 2 {
                            if args[0].is_closure() {
                                let mut r = crate::strutil::to_string("(");
                                r.append(texts[0].as_str());
                                r.append(") -> ");
                                r.append(texts[1].as_str());
                                proof {
                                    reveal_strlit("(");
                                    reveal_strlit(") -> ");
                                    assert(r@ =~= type_text(*self));
                                }
                                return r;
                            } else {
                                let mut r = texts[0].clone();
                                r.append(" -> ");
                                r.append(texts[1].as_str());
                                proof {
                                    reveal_strlit(" -> ");
                                    assert(r@ =~= type_text(*self));
                                }
                                return r;
                            }
                        }
                    }
                }
                let mut r = fun.to_string();
                let a = arg.to_string();
                proof {
                    reveal_strlit(" ");
                    reveal_strlit(" (");
                    reveal_strlit(")");
                }
                if Self::should_braced_as_arg(arg) {
                    r.append(" (");
                    r.append(a.as_str());
                    r.append(")");
                } else {
                    r.append(" ");
                    r.append(a.as_str());
                }
                assert(r@ =~= type_text(*self));
                r
            },
            Type::TyCon(tc) => tc.to_string(),
            Type::AssocTy(assoc_ty, args) => {
                let mut texts: Vec<String> = Vec::new();
                let mut i: usize = 0;
                while i < args.len()
                    invariant
                        self.ty == Type::AssocTy(self.ty->AssocTy_0, *args),
                        i <= args@.len(),
                        strs(texts@) == assoc_texts(*self, i as int),
                    decreases args@.len() - i,
                {
                    proof {
                        lemma_assoc_arg_decreases(*self, i as int);
                        reveal_strlit("(");
                        reveal_strlit(")");
                        assert("("@ =~= seq!['(']);
                        assert(")"@ =~= seq![')']);
                    }
                    let arg_str = args[i].to_string();
                    let t = if Self::should_braced_as_arg(&args[i]) {
                        let mut t = crate::strutil::to_string("(");
                        t.append(arg_str.as_str());
                        t.append(")");
                        t
                    } else {
                        arg_str
                    };
                    let ghost before = texts@;
                    texts.push(t);
                    i = i + 1;
                    assert(strs(texts@) =~= strs(before).push(t@));
                    assert(strs(texts@) =~= assoc_texts(*self, i as int));
                }
                let mut r = assoc_ty.name.to_string();
                r.append(" ");
                let joined = join_strings(&texts, " ");
                r.append(joined.as_str());
                proof {
                    reveal_strlit(" ");
                    assert(" "@ =~= seq![' ']);
                    assert(r@ =~= type_text(*self));
                }
                r
            },
        }
    }

    /// The head of this type written out: the type constructor or the type variable being
    /// applied, or the name of the associated type. `Array I64` gives `Std::Array`, `f a`
    /// gives `f`, and `Item c` gives the name of `Item`.
    pub fn get_head_string(&self) -> (r: String)
        ensures
            r@ == head_text(*self),
        decreases self,
    {
        match &self.ty {
            Type::TyVar(_) => self.to_string(),
            Type::TyCon(_) => self.to_string(),
            Type::TyApp(head, _) => head.get_head_string(),
            Type::AssocTy(assoc_ty, _) => assoc_ty.name.to_string(),
        }
    }
}


/// Whether every type constructor and associated type the type names has its kinds recorded in
/// `env`, each associated type applied to as many arguments as it has parameter kinds.
pub open spec fn kinds_known(n: TypeNode, env: KindEnv) -> bool
    decreases n, 1nat,
{
    match n.ty {
        Type::TyVar(_) => true,
        Type::TyCon(tc) => env_tycon_kind(env.tycons@, tycon_key(*tc)) is Some,
        Type::TyApp(f, a) => kinds_known(*f, env) && kinds_known(*a, env),
        Type::AssocTy(at, args) => match env_assoc_info(env.assoc_tys@, assoc_key(at)) {
            Some(info) => info.param_kinds@.len() == args@.len() && kinds_known_args(
                n,
                env,
                args@.len() as int,
            ),
            None => false,
        },
    }
}

/// `kinds_known` of the first `k` arguments of the associated type application `n`.
pub open spec fn kinds_known_args(n: TypeNode, env: KindEnv, k: int) -> bool
    decreases n, 0nat, k,
{
    match n.ty {
        Type::AssocTy(_, args) => if k <= 0 || k > args@.len() {
            true
        } else {
            kinds_known_args(n, env, k - 1) && kinds_known(*args@[k - 1], env)
        },
        _ => true,
    }
}

/// The kind of the type, where its parts fit together: a type variable has the kind it carries,
/// a type constructor the kind `env` records, an application of a type of kind `k -> l` to one
/// of kind `k` has kind `l`, and an associated type applied to arguments of its parameter kinds
/// has its value kind. A type whose parts do not fit has none.
pub open spec fn kind_of(n: TypeNode, env: KindEnv) -> Option<Kind>
    decreases n, 1nat,
{
    match n.ty {
        Type::TyVar(tv) => Some(*tv.kind),
        Type::TyCon(tc) => match env_tycon_kind(env.tycons@, tycon_key(*tc)) {
            Some(k) => Some(*k),
            None => None,
        },
        Type::TyApp(f, a) => match (kind_of(*f, env), kind_of(*a, env)) {
            (Some(Kind::Arrow(p, res)), Some(ak)) => if *p == ak {
                Some(*res)
            } else {
                None
            },
            _ => None,
        },
        Type::AssocTy(at, args) => match env_assoc_info(env.assoc_tys@, assoc_key(at)) {
            Some(info) => if arg_kinds_fit(n, env, info.param_kinds@, args@.len() as int) {
                Some(*info.value_kind)
            } else {
                None
            },
            None => None,
        },
    }
}

/// A type application `f a` has a kind exactly where `f` has a kind `k -> l` and `a` has the
/// kind `k` itself, and its kind is then `l`: applying `f` to an argument of any other kind, or
/// applying a type of kind `*`, leaves the application without a kind.
pub proof fn law_application_kind(n: TypeNode, env: KindEnv)
    requires
        n.ty is TyApp,
    ensures
        ({
            let f = *n.ty->TyApp_0;
            let a = *n.ty->TyApp_1;
            &&& kind_of(n, env) is Some ==> {
                &&& kind_of(f, env) is Some
                &&& kind_of(f, env)->0 is Arrow
                &&& kind_of(a, env) == Some(*kind_of(f, env)->0->Arrow_0)
                &&& kind_of(n, env) == Some(*kind_of(f, env)->0->Arrow_1)
            }
            &&& (kind_of(f, env) is Some && kind_of(f, env)->0 is Arrow && kind_of(a, env) == Some(
                *kind_of(f, env)->0->Arrow_0,
            )) ==> kind_of(n, env) == Some(*kind_of(f, env)->0->Arrow_1)
        }),
{
}

/// Where the first `k` arguments of an associated type application fit `params`, each of them
/// has the kind `params` gives at its position.
proof fn lemma_arg_kinds_fit_each(n: TypeNode, env: KindEnv, params: Seq<Arc<Kind>>, k: int)
    requires
        n.ty is AssocTy,
        0 <= k <= n.ty->AssocTy_1@.len(),
        arg_kinds_fit(n, env, params, k),
    ensures
        forall|i: int| 0 <= i < k ==> kind_of(*#[trigger] n.ty->AssocTy_1@[i], env) == Some(*params[i]),
    decreases k,
{
    if k > 0 {
        lemma_arg_kinds_fit_each(n, env, params, k - 1);
    }
}

/// An associated type application has a kind only where the associated type is known and each
/// argument has exactly the kind the associated type takes at its position; its kind is then
/// the value kind of the associated type.
pub proof fn law_associated_type_kind(n: TypeNode, env: KindEnv)
    requires
        n.ty is AssocTy,
    ensures
        kind_of(n, env) is Some ==> {
            let info = env_assoc_info(env.assoc_tys@, assoc_key(n.ty->AssocTy_0));
            &&& info is Some
            &&& kind_of(n, env) == Some(*info->0.value_kind)
            &&& forall|i: int|
                0 <= i < n.ty->AssocTy_1@.len() ==> kind_of(*#[trigger] n.ty->AssocTy_1@[i], env) == Some(
                    *info->0.param_kinds@[i],
                )
        },
{
    let info = env_assoc_info(env.assoc_tys@, assoc_key(n.ty->AssocTy_0));
    if kind_of(n, env) is Some {
        lemma_arg_kinds_fit_each(n, env, info->0.param_kinds@, n.ty->AssocTy_1@.len() as int);
    }
}

/// Whether each of the first `k` arguments of the associated type application `n` has the
/// kind `params` gives at its position.
pub open spec fn arg_kinds_fit(n: TypeNode, env: KindEnv, params: Seq<Arc<Kind>>, k: int) -> bool
    decreases n, 0nat, k,
{
    match n.ty {
        Type::AssocTy(_, args) => if k <= 0 || k > args@.len() {
            true
        } else {
            arg_kinds_fit(n, env, params, k - 1) && kind_of(*args@[k - 1], env) == Some(
                *params[k - 1],
            )
        },
        _ => true,
    }
}

/// Whether `r` is the type `n` with each type variable carrying the kind `scope` gives its name,
/// where it gives one.
pub open spec fn kinds_set(r: TypeNode, n: TypeNode, scope: Map<Seq<char>, Arc<Kind>>) -> bool
    decreases n, 1nat,
{
    &&& r.info == n.info
    &&& match n.ty {
        Type::TyVar(tv) => r.ty is TyVar && r.ty->TyVar_0.name == tv.name && r.ty->TyVar_0.kind
            == if scope.contains_key(tv.name@) {
            scope[tv.name@]
        } else {
            tv.kind
        },
        Type::TyCon(_) => type_same(r.ty, n.ty),
        Type::TyApp(f, a) => r.ty is TyApp && kinds_set(*r.ty->TyApp_0, *f, scope) && kinds_set(
            *r.ty->TyApp_1,
            *a,
            scope,
        ),
        Type::AssocTy(at, args) => r.ty is AssocTy && r.ty->AssocTy_0.name@ == at.name@
            && r.ty->AssocTy_0.src == at.src && r.ty->AssocTy_1@.len() == args@.len()
            && kinds_set_args(r.ty->AssocTy_1@, n, scope, args@.len() as int),
    }
}

/// `kinds_set` of the first `k` arguments of the associated type application `n`, against
/// `rs`.
pub open spec fn kinds_set_args(
    rs: Seq<Arc<TypeNode>>,
    n: TypeNode,
    scope: Map<Seq<char>, Arc<Kind>>,
    k: int,
) -> bool
    decreases n, 0nat, k,
{
    match n.ty {
        Type::AssocTy(_, args) => if k <= 0 || k > args@.len() {
            true
        } else {
            kinds_set_args(rs, n, scope, k - 1) && kinds_set(*rs[k - 1], *args@[k - 1], scope)
        },
        _ => true,
    }
}

/// Whether `r` is the type `n` with every name standing in it marked absolute where it is
/// written under a namespace.
pub open spec fn absolute_names(r: TypeNode, n: TypeNode) -> bool
    decreases n, 1nat,
{
    &&& r.info == n.info
    &&& match n.ty {
        Type::TyVar(_) => type_same(r.ty, n.ty),
        Type::TyCon(tc) => r.ty is TyCon && name_made_absolute(r.ty->TyCon_0.name@, tc.name@),
        Type::TyApp(f, a) => r.ty is TyApp && absolute_names(*r.ty->TyApp_0, *f)
            && absolute_names(*r.ty->TyApp_1, *a),
        Type::AssocTy(at, args) => r.ty is AssocTy && name_made_absolute(
            r.ty->AssocTy_0.name@,
            at.name@,
        ) && r.ty->AssocTy_0.src == at.src && r.ty->AssocTy_1@.len() == args@.len()
            && absolute_names_args(r.ty->AssocTy_1@, n, args@.len() as int),
    }
}

/// `absolute_names` of the first `k` arguments of the associated type application `n`, against
/// `rs`.
pub open spec fn absolute_names_args(rs: Seq<Arc<TypeNode>>, n: TypeNode, k: int) -> bool
    decreases n, 0nat, k,
{
    match n.ty {
        Type::AssocTy(_, args) => if k <= 0 || k > args@.len() {
            true
        } else {
            absolute_names_args(rs, n, k - 1) && absolute_names(*rs[k - 1], *args@[k - 1])
        },
        _ => true,
    }
}

/// Whether the full name `r` is `n` marked absolute where it is written under a namespace.
pub open spec fn name_made_absolute(r: FullNameView, n: FullNameView) -> bool {
    r.name == n.name && r.namespace.names == n.namespace.names && r.namespace.is_absolute == (
    n.namespace.is_absolute || n.namespace.names.len() > 0)
}

/// What a position in a type stands on.
pub enum TypePart {
    /// A type constructor, by its key.
    TyCon((Seq<Seq<char>>, Seq<char>)),
    /// The name of an associated type, by its key.
    AssocTy((Seq<Seq<char>>, Seq<char>)),
}

/// Whether `src` touches `pos`.
pub open spec fn touches(src: Option<Span>, pos: SourcePos) -> bool {
    src matches Some(s) && s.file@ == pos.file@ && s.start <= pos.pos <= s.end
}

/// What the smallest node of the type covering `pos` stands on: the argument of an application
/// is searched before the type applied, and the arguments of an associated type before its name.
pub open spec fn part_at(n: TypeNode, pos: SourcePos) -> Option<TypePart>
    decreases n, 1nat,
{
    if !touches(n.info.source, pos) {
        None
    } else {
        match n.ty {
            Type::TyVar(_) => None,
            Type::TyCon(tc) => Some(TypePart::TyCon(tycon_key(*tc))),
            Type::TyApp(f, a) => match part_at(*a, pos) {
                Some(p) => Some(p),
                None => part_at(*f, pos),
            },
            Type::AssocTy(at, args) => match part_at_args(n, pos, 0) {
                Some(p) => Some(p),
                None => if touches(at.src, pos) {
                    Some(TypePart::AssocTy(assoc_key(at)))
                } else {
                    None
                },
            },
        }
    }
}

/// What the first argument from the one at `k` on of the associated type application `n` that
/// covers `pos` stands on.
pub open spec fn part_at_args(n: TypeNode, pos: SourcePos, k: int) -> Option<TypePart>
    decreases n, 0nat, n.ty->AssocTy_1@.len() - k,
{
    match n.ty {
        Type::AssocTy(_, args) => if k < 0 || k >= args@.len() {
            None
        } else {
            match part_at(*args@[k], pos) {
                Some(p) => Some(p),
                None => part_at_args(n, pos, k + 1),
            }
        },
        _ => None,
    }
}

/// What a node an editor was pointed to stands on, for a node a type gives.
pub open spec fn end_node_part(e: EndNode) -> Option<TypePart> {
    match e {
        EndNode::Type(tc) => Some(TypePart::TyCon(tycon_key(tc))),
        EndNode::AssocType(at) => Some(TypePart::AssocTy(assoc_key(at))),
        _ => None,
    }
}

impl TypeNode {
    /// The kind of this type, read from the kinds `kind_env` gives the type constructors and the
    /// associated types, and from the kinds the type variables carry. A type applied to an
    /// argument whose kind its own kind does not take is reported as an error.
    pub fn kind(&self, kind_env: &KindEnv) -> (r: Result<Arc<Kind>, Errors>)
        requires
            kinds_known(*self, *kind_env),
        ensures
            r matches Ok(k) ==> kind_of(*self, *kind_env) == Some(*k),
            r is Err ==> kind_of(*self, *kind_env) is None,
        decreases self,
    {
        match &self.ty {
            Type::TyVar(tv) => Ok(tv.kind.clone()),
            Type::TyCon(tc) => Ok(kind_env.tycon_kind(tc).unwrap()),
            Type::TyApp(fun, arg) => {
                let fun_kind = fun.kind(kind_env)?;
                let arg_kind = arg.kind(kind_env)?;
                match &*fun_kind {
                    Kind::Arrow(arg2, res) => {
                        if !kind_eq(&arg_kind, arg2) {
                            return Err(self.kind_mismatch_error(fun, &fun_kind, arg, &arg_kind));
                        }
                        Ok(res.clone())
                    },
                    Kind::Star => Err(self.kind_mismatch_error(fun, &fun_kind, arg, &arg_kind)),
                }
            },
            Type::AssocTy(assoc_ty, args) => {
                let kind_info = kind_env.assoc_info(assoc_ty).unwrap();
                let mut i: usize = 0;
                while i < args.len()
                    invariant
                        self.ty == Type::AssocTy(self.ty->AssocTy_0, *args),
                        *assoc_ty == self.ty->AssocTy_0,
                        env_assoc_info(kind_env.assoc_tys@, assoc_key(*assoc_ty)) == Some(*kind_info),
                        kinds_known(*self, *kind_env),
                        kind_info.param_kinds@.len() == args@.len(),
                        i <= args@.len(),
                        arg_kinds_fit(*self, *kind_env, kind_info.param_kinds@, i as int),
                    decreases args@.len() - i,
                {
                    proof {
                        lemma_assoc_arg_decreases(*self, i as int);
                        lemma_kinds_known_arg(*self, *kind_env, i as int + 1, args@.len() as int);
                    }
                    let expected = &kind_info.param_kinds[i];
                    let found = match args[i].kind(kind_env) {
                        Ok(k) => k,
                        Err(e) => {
                            proof {
                                lemma_arg_kinds_fit_stop(*self, *kind_env, kind_info.param_kinds@, i as int + 1, args@.len() as int);
                            }
                            return Err(e);
                        },
                    };
                    if !kind_eq(expected, &found) {
                        let mut msg = crate::strutil::to_string("Kind mismatch in `");
                        let t = self.to_string();
                        msg.append(t.as_str());
                        msg.append("`. Expected `");
                        let e = expected.to_string();
                        msg.append(e.as_str());
                        msg.append("`, found `");
                        let f = found.to_string();
                        msg.append(f.as_str());
                        msg.append("`.");
                        proof {
                            lemma_arg_kinds_fit_stop(*self, *kind_env, kind_info.param_kinds@, i as int + 1, args@.len() as int);
                        }
                        return Err(Errors::from_msg_src(msg, crate::source::clone_span_opt(args[i].get_source())));
                    }
                    i = i + 1;
                }
                Ok(kind_info.value_kind.clone())
            },
        }
    }

    /// The report that this application applies `fun` of kind `fun_kind` to `arg` of kind
    /// `arg_kind`, which `fun_kind` does not accept.
    fn kind_mismatch_error(
        &self,
        fun: &TypeNode,
        fun_kind: &Kind,
        arg: &TypeNode,
        arg_kind: &Kind,
    ) -> (r: Errors)
        ensures
            r.errs@.len() == 1,
            r.errs@[0].msg@ == "Kind mismatch in `"@ + type_text(*self) + "`. Type `"@
                + type_text(*fun) + "` of kind `"@ + crate::ast::types::kind_text(*fun_kind)
                + "` cannot be applied to type `"@ + type_text(*arg) + "` of kind `"@
                + crate::ast::types::kind_text(*arg_kind) + "`."@,
    {
        let mut msg = crate::strutil::to_string("Kind mismatch in `");
        let a = self.to_string();
        msg.append(a.as_str());
        msg.append("`. Type `");
        let f = fun.to_string();
        msg.append(f.as_str());
        msg.append("` of kind `");
        let fk = fun_kind.to_string();
        msg.append(fk.as_str());
        msg.append("` cannot be applied to type `");
        let g = arg.to_string();
        msg.append(g.as_str());
        msg.append("` of kind `");
        let ak = arg_kind.to_string();
        msg.append(ak.as_str());
        msg.append("`.");
        Errors::from_msg_src(msg, crate::source::clone_span_opt(self.get_source()))
    }

    /// This type with each type variable carrying the kind `scope` gives its name.
    pub fn set_kinds(self: &Arc<TypeNode>, scope: &KindScope) -> (r: Arc<TypeNode>)
        ensures
            kinds_set(*r, **self, scope@),
        decreases self,
    {
        match &self.ty {
            Type::TyVar(tv) => self.set_tyvar(scope.set_tv(tv)),
            Type::TyCon(_) => self.clone(),
            Type::TyApp(fun, arg) => {
                let f = fun.set_kinds(scope);
                let a = arg.set_kinds(scope);
                self.set_tyapp_fun(f).set_tyapp_arg(a)
            },
            Type::AssocTy(_, args) => {
                let node: &TypeNode = &**self;
                let mut new_args: Vec<Arc<TypeNode>> = Vec::new();
                let mut i: usize = 0;
                while i < args.len()
                    invariant
                        node.ty == Type::AssocTy(node.ty->AssocTy_0, *args),
                        *node == **self,
                        i <= args@.len(),
                        new_args@.len() == i,
                        kinds_set_args(new_args@, *node, scope@, i as int),
                    decreases args@.len() - i,
                {
                    proof {
                        lemma_assoc_arg_decreases(*node, i as int);
                    }
                    let a = args[i].set_kinds(scope);
                    let ghost before = new_args@;
                    new_args.push(a);
                    proof {
                        lemma_kinds_set_args_extend(before, new_args@, *node, scope@, i as int);
                    }
                    i = i + 1;
                }
                self.set_assocty_args(new_args)
            },
        }
    }

    /// This type with every name standing in it spelled as an absolute path, so that it names
    /// the same entity from any namespace.
    pub fn global_to_absolute(&self) -> (r: Arc<TypeNode>)
        ensures
            absolute_names(*r, *self),
        decreases self,
    {
        match &self.ty {
            Type::TyVar(_) => Arc::new(self.clone()),
            Type::TyCon(tycon) => {
                let new_tycon = tycon.global_to_absolute();
                self.set_tycon_tc(new_tycon)
            },
            Type::TyApp(tyfun, arg) => {
                let new_fun = tyfun.global_to_absolute();
                let new_arg = arg.global_to_absolute();
                self.set_tyapp_fun(new_fun).set_tyapp_arg(new_arg)
            },
            Type::AssocTy(assoc_ty, args) => {
                let new_assoc_ty = assoc_ty.global_to_absolute();
                let mut new_args: Vec<Arc<TypeNode>> = Vec::new();
                let mut i: usize = 0;
                while i < args.len()
                    invariant
                        self.ty == Type::AssocTy(self.ty->AssocTy_0, *args),
                        i <= args@.len(),
                        new_args@.len() == i,
                        absolute_names_args(new_args@, *self, i as int),
                    decreases args@.len() - i,
                {
                    proof {
                        lemma_assoc_arg_decreases(*self, i as int);
                    }
                    let a = args[i].global_to_absolute();
                    let ghost before = new_args@;
                    new_args.push(a);
                    proof {
                        lemma_absolute_names_args_extend(before, new_args@, *self, i as int);
                    }
                    i = i + 1;
                }
                self.set_assocty_name(new_assoc_ty).set_assocty_args(new_args)
            },
        }
    }

    /// The smallest node of this type covering `pos`, for a type read from a source file: a type
    /// constructor, or the name of an associated type.
    pub fn find_node_at(&self, pos: &SourcePos) -> (r: Option<EndNode>)
        ensures
            match r {
                None => part_at(*self, *pos) is None,
                Some(e) => end_node_part(e) == part_at(*self, *pos) && part_at(*self, *pos) is Some,
            },
        decreases self,
    {
        match &self.info.source {
            None => {
                return None;
            },
            Some(src) => {
                if !src.includes_pos_lsp(pos) {
                    return None;
                }
            },
        }
        match &self.ty {
            Type::TyVar(_) => None,
            Type::TyCon(tc) => Some(EndNode::Type((**tc).clone())),
            Type::TyApp(func, arg) => {
                let node = arg.find_node_at(pos);
                if node.is_some() {
                    return node;
                }
                func.find_node_at(pos)
            },
            Type::AssocTy(ty_assoc, args) => {
                let mut i: usize = 0;
                while i < args.len()
                    invariant
                        self.ty == Type::AssocTy(self.ty->AssocTy_0, *args),
                        i <= args@.len(),
                        part_at_args(*self, *pos, 0) == part_at_args(*self, *pos, i as int),
                        touches(self.info.source, *pos),
                    decreases args@.len() - i,
                {
                    proof {
                        lemma_assoc_arg_decreases(*self, i as int);
                    }
                    let node = args[i].find_node_at(pos);
                    if node.is_some() {
                        return node;
                    }
                    i = i + 1;
                }
                match &ty_assoc.src {
                    Some(src) => {
                        if src.includes_pos_lsp(pos) {
                            return Some(EndNode::AssocType(ty_assoc.clone()));
                        }
                        None
                    },
                    None => None,
                }
            },
        }
    }
}

/// The first `k` arguments of an associated type application have their kinds known where all
/// of them have.
pub proof fn lemma_kinds_known_arg(n: TypeNode, env: KindEnv, k: int, l: int)
    requires
        n.ty is AssocTy,
        0 < k <= l <= n.ty->AssocTy_1@.len(),
        kinds_known_args(n, env, l),
    ensures
        kinds_known(*n.ty->AssocTy_1@[k - 1], env),
        kinds_known_args(n, env, k),
    decreases l - k,
{
    if k < l {
        lemma_kinds_known_arg(n, env, k, l - 1);
    }
}

/// Once an argument's kind does not fit, no longer prefix of the arguments fits.
pub proof fn lemma_arg_kinds_fit_stop(n: TypeNode, env: KindEnv, params: Seq<Arc<Kind>>, k: int, l: int)
    requires
        n.ty is AssocTy,
        0 < k <= l <= n.ty->AssocTy_1@.len(),
        !arg_kinds_fit(n, env, params, k),
    ensures
        !arg_kinds_fit(n, env, params, l),
    decreases l - k,
{
    if k < l {
        lemma_arg_kinds_fit_stop(n, env, params, k, l - 1);
    }
}

/// Extending the converted arguments by one more keeps the relation on the ones before it.
pub proof fn lemma_kinds_set_args_extend(
    before: Seq<Arc<TypeNode>>,
    after: Seq<Arc<TypeNode>>,
    n: TypeNode,
    scope: Map<Seq<char>, Arc<Kind>>,
    k: int,
)
    requires
        n.ty is AssocTy,
        0 <= k < n.ty->AssocTy_1@.len(),
        before.len() == k,
        after == before.push(after[k]),
        kinds_set_args(before, n, scope, k),
        kinds_set(*after[k], *n.ty->AssocTy_1@[k], scope),
    ensures
        kinds_set_args(after, n, scope, k + 1),
{
    lemma_kinds_set_args_prefix(before, after, n, scope, k);
}

/// The relation on a prefix of the arguments reads only that prefix of the converted ones.
pub proof fn lemma_kinds_set_args_prefix(
    before: Seq<Arc<TypeNode>>,
    after: Seq<Arc<TypeNode>>,
    n: TypeNode,
    scope: Map<Seq<char>, Arc<Kind>>,
    k: int,
)
    requires
        n.ty is AssocTy,
        0 <= k <= n.ty->AssocTy_1@.len(),
        before.len() >= k,
        after.len() >= k,
        forall|j: int| 0 <= j < k ==> before[j] == after[j],
        kinds_set_args(before, n, scope, k),
    ensures
        kinds_set_args(after, n, scope, k),
    decreases k,
{
    if k > 0 {
        lemma_kinds_set_args_prefix(before, after, n, scope, k - 1);
    }
}

/// Extending the converted arguments by one more keeps the relation on the ones before it.
pub proof fn lemma_absolute_names_args_extend(
    before: Seq<Arc<TypeNode>>,
    after: Seq<Arc<TypeNode>>,
    n: TypeNode,
    k: int,
)
    requires
        n.ty is AssocTy,
        0 <= k < n.ty->AssocTy_1@.len(),
        before.len() == k,
        after == before.push(after[k]),
        absolute_names_args(before, n, k),
        absolute_names(*after[k], *n.ty->AssocTy_1@[k]),
    ensures
        absolute_names_args(after, n, k + 1),
{
    lemma_absolute_names_args_prefix(before, after, n, k);
}

/// The relation on a prefix of the arguments reads only that prefix of the converted ones.
pub proof fn lemma_absolute_names_args_prefix(
    before: Seq<Arc<TypeNode>>,
    after: Seq<Arc<TypeNode>>,
    n: TypeNode,
    k: int,
)
    requires
        n.ty is AssocTy,
        0 <= k <= n.ty->AssocTy_1@.len(),
        before.len() >= k,
        after.len() >= k,
        forall|j: int| 0 <= j < k ==> before[j] == after[j],
        absolute_names_args(before, n, k),
    ensures
        absolute_names_args(after, n, k),
    decreases k,
{
    if k > 0 {
        lemma_absolute_names_args_prefix(before, after, n, k - 1);
    }
}


/// What `find_wildcard_inferred_type` finds at `pos` in the annotation `s` against the inferred
/// type `r`: the node of `r` standing where a `_` of `s` touching `pos` stands, the two walked in
/// step, an application's argument before what it applies; nothing where their shapes part.
pub open spec fn wildcard_at(s: TypeNode, r: Arc<TypeNode>, pos: SourcePos) -> Option<Arc<TypeNode>>
    decreases s, 1nat, 0int,
{
    if !touches(s.info.source, pos) {
        None
    } else {
        match s.ty {
            Type::TyVar(tv) => if starts_with(tv.name@, crate::constants::spec_type_wildcard_prefix()) {
                Some(r)
            } else {
                None
            },
            Type::TyApp(sf, sa) => match r.ty {
                Type::TyApp(rf, ra) => match wildcard_at(*sa, ra, pos) {
                    Some(x) => Some(x),
                    None => wildcard_at(*sf, rf, pos),
                },
                _ => None,
            },
            Type::AssocTy(_, sargs) => match r.ty {
                Type::AssocTy(_, rargs) => if sargs@.len() == rargs@.len() {
                    wildcard_args(s, r, pos, 0)
                } else {
                    None
                },
                _ => None,
            },
            _ => None,
        }
    }
}

/// What `wildcard_at` finds in the first pair of arguments from the `k`-th on of the associated
/// type applications `s` and `r` that gives something.
pub open spec fn wildcard_args(s: TypeNode, r: Arc<TypeNode>, pos: SourcePos, k: int) -> Option<Arc<TypeNode>>
    decreases s, 0nat, s.ty->AssocTy_1@.len() - k,
{
    match (s.ty, r.ty) {
        (Type::AssocTy(_, sargs), Type::AssocTy(_, rargs)) => if k < 0 || k >= sargs@.len() || k >= rargs@.len() {
            None
        } else {
            match wildcard_at(*sargs@[k], rargs@[k], pos) {
                Some(x) => Some(x),
                None => wildcard_args(s, r, pos, k + 1),
            }
        },
        _ => None,
    }
}

/// The report that no trait may be implemented for the type `n`, or none where it may.
pub open spec fn implementable_message(n: TypeNode) -> Seq<char> {
    if !head_is_tycon(n) {
        "Implementing trait for type `"@ + type_text(n) + "` is not allowed. The head (in this case, `"@
            + head_text(n) + "`) of the type should be a type constructor."@
    } else {
        "Implementing trait for type `"@ + type_text(n)
            + "` is not allowed. Associated types cannot appear in the type."@
    }
}

impl TypeNode {
    /// Checks that a trait implementation may be written for this type: a type constructor
    /// heads it, and no associated type application stands in it.
    pub fn is_implementable(self: &Arc<TypeNode>) -> (r: Result<(), Errors>)
        ensures
            r is Ok <==> head_is_tycon(**self) && assoc_free(**self),
            r matches Err(e) ==> e.errs@.len() == 1 && e.errs@[0].srcs@ == seq![self.info.source]
                && e.errs@[0].msg@ == implementable_message(**self),
    {
        if !self.is_head_tycon() {
            let mut msg = crate::strutil::to_string("Implementing trait for type `");
            let t = self.to_string();
            msg.append(t.as_str());
            msg.append("` is not allowed. The head (in this case, `");
            let h = self.get_head_string();
            msg.append(h.as_str());
            msg.append("`) of the type should be a type constructor.");
            proof {
                reveal_strlit("Implementing trait for type `");
                reveal_strlit("` is not allowed. The head (in this case, `");
                reveal_strlit("`) of the type should be a type constructor.");
            }
            return Err(Errors::from_msg_src(msg, clone_span_opt(self.get_source())));
        }
        if !self.is_assoc_ty_free() {
            let mut msg = crate::strutil::to_string("Implementing trait for type `");
            let t = self.to_string();
            msg.append(t.as_str());
            msg.append("` is not allowed. Associated types cannot appear in the type.");
            proof {
                reveal_strlit("Implementing trait for type `");
                reveal_strlit("` is not allowed. Associated types cannot appear in the type.");
            }
            return Err(Errors::from_msg_src(msg, clone_span_opt(self.get_source())));
        }
        Ok(())
    }

    /// In an annotation read from a source file, where each `_` stands as a type variable whose
    /// name begins with the wildcard prefix, the type inferred for the `_` touching `pos`:
    /// `resolved` is the annotation after inference, walked in step with it.
    pub fn find_wildcard_inferred_type(self: &Arc<TypeNode>, resolved: &Arc<TypeNode>, pos: &SourcePos) -> (r: Option<EndNode>)
        ensures
            r == match wildcard_at(**self, *resolved, *pos) {
                Some(x) => Some(EndNode::InferredType(x)),
                None => None,
            },
        decreases self,
    {
        match &self.info.source {
            None => {
                return None;
            },
            Some(src) => {
                if !src.includes_pos_lsp(pos) {
                    return None;
                }
            },
        }
        if let Type::TyVar(tv) = &self.ty {
            if crate::ast::scheme::is_type_wildcard_tyvar(tv.name.as_str()) {
                return Some(EndNode::InferredType(resolved.clone()));
            }
            return None;
        }
        match (&self.ty, &resolved.ty) {
            (Type::TyApp(sfun, sarg), Type::TyApp(rfun, rarg)) => {
                let found = sarg.find_wildcard_inferred_type(rarg, pos);
                if found.is_some() {
                    return found;
                }
                sfun.find_wildcard_inferred_type(rfun, pos)
            },
            (Type::AssocTy(_, sargs), Type::AssocTy(_, rargs)) => {
                if sargs.len() != rargs.len() {
                    return None;
                }
                assert(touches(self.info.source, *pos));
                assert(wildcard_at(**self, *resolved, *pos) == wildcard_args(**self, *resolved, *pos, 0));
                let mut i: usize = 0;
                while i < sargs.len()
                    invariant
                        self.ty == Type::AssocTy(self.ty->AssocTy_0, *sargs),
                        resolved.ty == Type::AssocTy(resolved.ty->AssocTy_0, *rargs),
                        sargs@.len() == rargs@.len(),
                        i <= sargs@.len(),
                        wildcard_args(**self, *resolved, *pos, 0) == wildcard_args(**self, *resolved, *pos, i as int),
                        wildcard_at(**self, *resolved, *pos) == wildcard_args(**self, *resolved, *pos, 0),
                    decreases sargs@.len() - i,
                {
                    proof {
                        let me: &TypeNode = &**self;
                        lemma_assoc_arg_decreases(*me, i as int);
                    }
                    let found = sargs[i].find_wildcard_inferred_type(&rargs[i], pos);
                    proof {
                        let sa: &TypeNode = &*sargs@[i as int];
                        assert(wildcard_args(**self, *resolved, *pos, i as int) == match wildcard_at(*sa, rargs@[i as int], *pos) {
                            Some(x) => Some(x),
                            None => wildcard_args(**self, *resolved, *pos, i + 1),
                        });
                    }
                    if found.is_some() {
                        return found;
                    }
                    i = i + 1;
                }
                None
            },
            _ => None,
        }
    }
}


/// The function type `src -> dst`, with the `->` written at `arrow_src`: the arrow applied to
/// `src`, written where `src` was, applied to `dst`.
pub fn type_fun_with_arrow_src(src: Arc<TypeNode>, dst: Arc<TypeNode>, arrow_src: Option<Span>) -> (r: Arc<TypeNode>)
    ensures
        r.info.source.is_none(),
        r.ty is TyApp,
        r.ty->TyApp_1 == dst,
        ({
            let partial = *r.ty->TyApp_0;
            &&& partial.info.source == src.info.source
            &&& partial.ty is TyApp
            &&& partial.ty->TyApp_1 == src
            &&& partial.ty->TyApp_0.ty is TyCon
            &&& partial.ty->TyApp_0.ty->TyCon_0.name@.namespace.names == seq![spec_std_name()]
            &&& partial.ty->TyApp_0.ty->TyCon_0.name@.namespace.is_absolute
            &&& partial.ty->TyApp_0.ty->TyCon_0.name@.name == arrow_name()
            &&& partial.ty->TyApp_0.info.source == arrow_src
        }),
{
    let src_span = clone_span_opt(src.get_source());
    let arrow = type_tycon(&tycon(make_arrow_name_abs())).set_source(arrow_src);
    let partial = type_tyapp(arrow, src).set_source_if_none(src_span);
    type_tyapp(partial, dst)
}

/// The function type `src -> dst`.
pub fn type_fun(src: Arc<TypeNode>, dst: Arc<TypeNode>) -> (r: Arc<TypeNode>)
    ensures
        r.info.source.is_none(),
        r.ty is TyApp,
        r.ty->TyApp_1 == dst,
        ({
            let partial = *r.ty->TyApp_0;
            &&& partial.info.source == src.info.source
            &&& partial.ty is TyApp
            &&& partial.ty->TyApp_1 == src
            &&& partial.ty->TyApp_0.ty is TyCon
            &&& partial.ty->TyApp_0.ty->TyCon_0.name@.namespace.names == seq![spec_std_name()]
            &&& partial.ty->TyApp_0.ty->TyCon_0.name@.name == arrow_name()
            &&& partial.ty->TyApp_0.info.source.is_none()
        }),
{
    type_fun_with_arrow_src(src, dst, None)
}

/// The function pointer type taking `srcs` to `dst`: the constructor `Std::#FunPtr{n}`, `n` the
/// number of arguments, applied to the arguments and then to `dst`. There are fewer arguments
/// than `u32` counts.
pub fn type_funptr(srcs: Vec<Arc<TypeNode>>, dst: Arc<TypeNode>) -> (r: Arc<TypeNode>)
    requires
        srcs@.len() <= u32::MAX,
    ensures
        app_head(*r).ty is TyCon,
        funptr_n(tycon_key(*app_head(*r).ty->TyCon_0)) == Some(srcs@.len()),
        app_args(*r) == srcs@.push(dst),
{
    let n = srcs.len() as u32;
    let head = Arc::new(make_funptr_tycon(n));
    let mut ty = type_tycon(&head);
    let mut i: usize = 0;
    assert(app_args(*ty) =~= srcs@.subrange(0, 0));
    while i < srcs.len()
        invariant
            i <= srcs@.len(),
            app_head(*ty).ty == Type::TyCon(head),
            app_args(*ty) == srcs@.subrange(0, i as int),
        decreases srcs@.len() - i,
    {
        ty = type_tyapp(ty, srcs[i].clone());
        i = i + 1;
        assert(app_args(*ty) =~= srcs@.subrange(0, i as int));
    }
    assert(srcs@.subrange(0, srcs@.len() as int) =~= srcs@);
    type_tyapp(ty, dst)
}

impl TypeNode {
    /// This struct type punched at the field `punched_at`: the same type with its head renamed
    /// to the type constructor of the struct whose field there is a hole. A type constructor
    /// heads the type.
    pub fn to_punched_struct(self: &Arc<TypeNode>, punched_at: usize) -> (r: Arc<TypeNode>)
        requires
            head_is_tycon(**self),
        ensures
            app_args(*r) == app_args(**self),
            toplevel(*r) is Some,
            toplevel(*r)->0.name@.namespace == toplevel(**self)->0.name@.namespace,
            toplevel(*r)->0.name@.name == toplevel(**self)->0.name@.name + "#punched"@ + nat_text(
                punched_at as nat,
            ),
    {
        proof {
            lemma_toplevel_head(&**self);
        }
        let mut tycon = (*self.toplevel_tycon().unwrap()).clone();
        tycon.into_punched_type_name(punched_at);
        self.set_toplevel_tycon(Arc::new(tycon))
    }
}


/// The text `d` stands for as documentation: none where it is empty.
pub open spec fn nonempty_doc(d: Option<String>) -> Option<String> {
    match d {
        Some(s) => if s@.len() == 0 {
            None
        } else {
            Some(s)
        },
        None => None,
    }
}

/// The documentation `d`, none where it is empty.
pub fn nonempty(d: Option<String>) -> (r: Option<String>)
    ensures
        r == nonempty_doc(d),
{
    match d {
        Some(s) => if s.as_str().is_empty() {
            None
        } else {
            Some(s)
        },
        None => None,
    }
}

impl TyConInfo {
    /// The documentation of this type: `from_source`, the comment written above the declaration
    /// where it was read from a source file and there is one, and otherwise the `document`
    /// field; documentation with no text in it counts as none.
    pub fn get_document(&self, from_source: Option<String>) -> (r: Option<String>)
        ensures
            r == match nonempty_doc(from_source) {
                Some(d) => Some(d),
                None => nonempty_doc(self.document),
            },
    {
        match nonempty(from_source) {
            Some(d) => Some(d),
            None => nonempty(self.document.clone()),
        }
    }
}

/// The head of an associated type's definition or implementation, read and checked: the
/// `AssocTypeName ImplType tv1 ... tvN` of `type AssocTypeName ImplType tv1 ... tvN [= Value]`.
pub struct AssocTypeDefnHead {
    /// The local name of the associated type.
    pub name: Name,
    /// Where that name was written.
    pub name_src: Option<Span>,
    /// The parameters: the variable standing for the implemented type, then the variables
    /// written after it.
    pub params: Vec<Arc<TyVar>>,
    /// The implemented type as it was written.
    pub impl_type_as_written: Arc<TypeNode>,
}

/// What an opaque type constructor stands for: `?it a` standing for `MapIterator (RangeIterator
/// I64) a`, say.
pub struct OpaqueTyConResolution {
    /// The opaque type constructor applied to its arguments.
    pub lhs: Arc<TypeNode>,
    /// The type it stands for, once type checking has found it.
    pub rhs: Option<Arc<TypeNode>>,
    /// Where the definition whose type checking finds it was written.
    pub src: Option<Span>,
}

} // verus!
