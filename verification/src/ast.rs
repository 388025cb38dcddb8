//! The syntax trees of Fix programs, and beside them the small core calculus the compiler first
//! lowered programs to: variables, literals, applications, lambdas, non-recursive `let`, `if`,
//! type application and type abstraction, over types built from type variables, literal types,
//! applications, constructor applications, functions and `for<..>` quantification.
pub mod deprecation;
pub mod digest;
pub mod equality;
pub mod expr;
pub mod global_values;
pub mod expr_find;
pub mod expr_text;
pub mod free_vars;
pub mod import;
pub mod kind_scope;
pub mod module;
pub mod name;
pub mod pattern;
pub mod predicate;
pub mod qual_pred;
pub mod qual_predicate;
pub mod qual_type;
pub mod scheme;
pub mod scheme_check;
pub mod program;
pub mod traits;
pub mod traverse;
pub mod export_statement;
pub mod typedecl;
pub mod types;
pub mod assoc_head;
pub mod type_env;

use crate::ast::types::{insert_name, name_set, names_distinct, remove_name, union_names};
use crate::constants::{self_name, spec_self_name};
use crate::source::{clone_span_opt, Span};
use crate::strutil::{join, join_strings, strs};
use std::sync::Arc;
use vstd::prelude::*;

verus! {

broadcast use vstd::std_specs::vec::axiom_vec_index_decreases;

/// An expression of the core calculus together with what the compiler learns about it.
pub struct ExprInfo {
    /// The expression.
    pub expr: Arc<Expr>,
    /// The names occurring free in the expression, each once.
    pub free_vars: Vec<String>,
    /// The type inferred for the expression, once it is known.
    pub deduced_type: Option<Arc<Type>>,
    /// Where the expression was written.
    pub source: Option<Span>,
}

/// An expression of the core calculus.
pub enum Expr {
    /// A variable.
    Var(Arc<Var>),
    /// A literal.
    Lit(Arc<Literal>),
    /// The application of a function to an argument.
    App(Arc<ExprInfo>, Arc<ExprInfo>),
    /// A lambda binding a variable in its body.
    Lam(Arc<Var>, Arc<ExprInfo>),
    /// `let x = bound in body`, where `x` is not bound in `bound`.
    Let(Arc<Var>, Arc<ExprInfo>, Arc<ExprInfo>),
    /// `if cond then t else e`.
    If(Arc<ExprInfo>, Arc<ExprInfo>, Arc<ExprInfo>),
    /// An expression applied to a type.
    AppType(Arc<ExprInfo>, Arc<Type>),
    /// An expression abstracted over a type variable.
    ForAll(Arc<TyVar>, Arc<ExprInfo>),
}

/// A literal of the core calculus: a named value of a given type whose code refers to some
/// variables (the `+` literal refers to its two operands).
pub struct Literal {
    /// The names the literal's code refers to.
    pub free_vars: Vec<String>,
    /// The name the literal is written with.
    pub name: String,
    /// The literal's type.
    pub ty: Arc<Type>,
}

/// A term variable, with the type written for it, if any.
pub struct Var {
    /// The variable's name.
    pub name: String,
    /// The type written for the variable.
    pub type_annotation: Option<Arc<Type>>,
    /// Where the variable was written.
    pub source: Option<Span>,
}

/// A type variable of the core calculus.
pub struct TyVar {
    /// The variable's name.
    pub name: String,
}

/// A kind of the core calculus.
pub enum Kind {
    /// The kind of types of values.
    Star,
    /// The kind of a type constructor from the first kind to the second.
    Arrow(Arc<Kind>, Arc<Kind>),
}

/// A literal type: a builtin type known by a number and a name.
pub struct TyLit {
    /// The number the type is known by.
    pub id: u32,
    /// The type's name.
    pub name: String,
}

/// A type of the core calculus.
pub enum Type {
    /// A type variable.
    TyVar(Arc<TyVar>),
    /// A literal type.
    LitTy(Arc<TyLit>),
    /// A type applied to a type.
    AppTy(Arc<Type>, Arc<Type>),
    /// A type constructor applied to its arguments.
    TyConApp(Arc<TyCon>, Vec<Arc<Type>>),
    /// The type of functions from the first type to the second.
    FunTy(Arc<Type>, Arc<Type>),
    /// A type quantified over a type variable.
    ForAllTy(Arc<TyVar>, Arc<Type>),
}

/// A type constructor of the core calculus, with the number of arguments it takes.
pub struct TyCon {
    /// The constructor's name.
    pub name: String,
    /// The number of type arguments the constructor takes.
    pub arity: u32,
}

impl PartialEq for TyVar {
    fn eq(&self, other: &Self) -> (r: bool) {
        self.name == other.name
    }
}

impl vstd::std_specs::cmp::PartialEqSpecImpl for TyVar {
    open spec fn obeys_eq_spec() -> bool {
        true
    }

    open spec fn eq_spec(&self, other: &Self) -> bool {
        self.name@ == other.name@
    }
}

impl Eq for TyVar {}

impl PartialEq for TyLit {
    fn eq(&self, other: &Self) -> (r: bool) {
        self.id == other.id && self.name == other.name
    }
}

impl vstd::std_specs::cmp::PartialEqSpecImpl for TyLit {
    open spec fn obeys_eq_spec() -> bool {
        true
    }

    open spec fn eq_spec(&self, other: &Self) -> bool {
        self.id == other.id && self.name@ == other.name@
    }
}

impl Eq for TyLit {}

impl PartialEq for TyCon {
    fn eq(&self, other: &Self) -> (r: bool) {
        self.name == other.name && self.arity == other.arity
    }
}

impl vstd::std_specs::cmp::PartialEqSpecImpl for TyCon {
    open spec fn obeys_eq_spec() -> bool {
        true
    }

    open spec fn eq_spec(&self, other: &Self) -> bool {
        self.name@ == other.name@ && self.arity == other.arity
    }
}

impl Eq for TyCon {}

impl Clone for TyCon {
    fn clone(&self) -> (r: Self)
        ensures
            r.name@ == self.name@,
            r.arity == self.arity,
    {
        TyCon { name: self.name.clone(), arity: self.arity }
    }
}

/// Whether the two kinds are the same kind.
pub fn core_kind_eq(a: &Kind, b: &Kind) -> (r: bool)
    ensures
        r == (*a == *b),
    decreases a,
{
    match (a, b) {
        (Kind::Star, Kind::Star) => true,
        (Kind::Arrow(a1, a2), Kind::Arrow(b1, b2)) => core_kind_eq(a1, b1) && core_kind_eq(a2, b2),
        _ => false,
    }
}

impl PartialEq for Kind {
    fn eq(&self, other: &Self) -> (r: bool) {
        core_kind_eq(self, other)
    }
}

impl vstd::std_specs::cmp::PartialEqSpecImpl for Kind {
    open spec fn obeys_eq_spec() -> bool {
        true
    }

    open spec fn eq_spec(&self, other: &Self) -> bool {
        *self == *other
    }
}

impl Eq for Kind {}

/// Whether the two types are the same type: built alike, from variables, literal types and
/// constructors of the same names.
pub open spec fn same_type(a: Type, b: Type) -> bool
    decreases a,
{
    match (a, b) {
        (Type::TyVar(x), Type::TyVar(y)) => x.name@ == y.name@,
        (Type::LitTy(x), Type::LitTy(y)) => x.id == y.id && x.name@ == y.name@,
        (Type::AppTy(f1, a1), Type::AppTy(f2, a2)) => same_type(*f1, *f2) && same_type(*a1, *a2),
        (Type::TyConApp(c1, as1), Type::TyConApp(c2, as2)) => {
            &&& c1.name@ == c2.name@
            &&& c1.arity == c2.arity
            &&& as1@.len() == as2@.len()
            &&& forall|i: int| 0 <= i < as1@.len() ==> same_type(*as1@[i], *as2@[i])
        },
        (Type::FunTy(s1, d1), Type::FunTy(s2, d2)) => same_type(*s1, *s2) && same_type(*d1, *d2),
        (Type::ForAllTy(v1, b1), Type::ForAllTy(v2, b2)) => v1.name@ == v2.name@ && same_type(
            *b1,
            *b2,
        ),
        _ => false,
    }
}

/// An argument of a constructor application is smaller than the application.
pub proof fn lemma_conapp_arg_decreases(t: &Type, i: int)
    requires
        *t is TyConApp,
        0 <= i < t->TyConApp_1@.len(),
    ensures
        decreases_to!(*t => *t->TyConApp_1@[i]),
{
    let v = t->TyConApp_1;
    assert(decreases_to!(v => v[i]));
    assert(decreases_to!(*t => t->TyConApp_1));
}

/// Whether the two types are the same type.
pub fn core_type_eq(a: &Type, b: &Type) -> (r: bool)
    ensures
        r == same_type(*a, *b),
    decreases a,
{
    match (a, b) {
        (Type::TyVar(x), Type::TyVar(y)) => x.name == y.name,
        (Type::LitTy(x), Type::LitTy(y)) => x.id == y.id && x.name == y.name,
        (Type::AppTy(f1, a1), Type::AppTy(f2, a2)) => core_type_eq(f1, f2) && core_type_eq(a1, a2),
        (Type::TyConApp(c1, as1), Type::TyConApp(c2, as2)) => {
            if !(c1.name == c2.name && c1.arity == c2.arity && as1.len() == as2.len()) {
                return false;
            }
            for i in 0..as1.len()
                invariant
                    as1@.len() == as2@.len(),
                    *a == Type::TyConApp(*c1, *as1),
                    *b == Type::TyConApp(*c2, *as2),
                    c1.name@ == c2.name@,
                    c1.arity == c2.arity,
                    forall|j: int| 0 <= j < i ==> same_type(*as1@[j], *as2@[j]),
            {
                proof {
                    lemma_conapp_arg_decreases(a, i as int);
                }
                if !core_type_eq(&as1[i], &as2[i]) {
                    return false;
                }
            }
            true
        },
        (Type::FunTy(s1, d1), Type::FunTy(s2, d2)) => core_type_eq(s1, s2) && core_type_eq(d1, d2),
        (Type::ForAllTy(v1, b1), Type::ForAllTy(v2, b2)) => v1.name == v2.name && core_type_eq(
            b1,
            b2,
        ),
        _ => false,
    }
}

impl PartialEq for Type {
    fn eq(&self, other: &Self) -> (r: bool) {
        core_type_eq(self, other)
    }
}

impl vstd::std_specs::cmp::PartialEqSpecImpl for Type {
    open spec fn obeys_eq_spec() -> bool {
        true
    }

    open spec fn eq_spec(&self, other: &Self) -> bool {
        same_type(*self, *other)
    }
}

impl Eq for Type {}

/// The type constructor `name` taking `arity` arguments.
pub fn tycon(name: &str, arity: u32) -> (r: Arc<TyCon>)
    ensures
        r.name@ == name@,
        r.arity == arity,
{
    Arc::new(TyCon { name: crate::strutil::to_string(name), arity })
}

/// The kind `*`.
pub fn star_kind() -> (r: Arc<Kind>)
    ensures
        *r == Kind::Star,
{
    Arc::new(Kind::Star)
}

/// The kind `src -> dst`.
pub fn arrow_kind(src: Arc<Kind>, dst: Arc<Kind>) -> (r: Arc<Kind>)
    ensures
        *r == Kind::Arrow(src, dst),
{
    Arc::new(Kind::Arrow(src, dst))
}

/// The function type from `src` to `dst`.
pub fn type_func(src: Arc<Type>, dst: Arc<Type>) -> (r: Arc<Type>)
    ensures
        *r == Type::FunTy(src, dst),
{
    Arc::new(Type::FunTy(src, dst))
}

/// The type variable `var_name`.
pub fn var_tyvar(var_name: &str) -> (r: Arc<TyVar>)
    ensures
        r.name@ == var_name@,
{
    Arc::new(TyVar { name: crate::strutil::to_string(var_name) })
}

/// The type that is the type variable `var_name`.
pub fn type_tyvar(var_name: &str) -> (r: Arc<Type>)
    ensures
        *r is TyVar,
        r->TyVar_0.name@ == var_name@,
{
    Arc::new(Type::TyVar(var_tyvar(var_name)))
}

/// The term variable `var_name`, with the type written for it and where it was written.
pub fn var_var(var_name: &str, type_annotation: Option<Arc<Type>>, src: Option<Span>) -> (r: Arc<Var>)
    ensures
        r.name@ == var_name@,
        r.type_annotation == type_annotation,
        r.source == src,
{
    Arc::new(Var { name: crate::strutil::to_string(var_name), type_annotation, source: src })
}

/// The literal type `name`, known by the number `id`.
pub fn lit_ty(id: u32, name: &str) -> (r: Arc<Type>)
    ensures
        *r is LitTy,
        r->LitTy_0.id == id,
        r->LitTy_0.name@ == name@,
{
    Arc::new(Type::LitTy(Arc::new(TyLit { id, name: crate::strutil::to_string(name) })))
}

/// The type `head` applied to `param`.
pub fn type_app(head: Arc<Type>, param: Arc<Type>) -> (r: Arc<Type>)
    ensures
        *r == Type::AppTy(head, param),
{
    Arc::new(Type::AppTy(head, param))
}

/// The function type from `src` to `dst`.
pub fn type_fun(src: Arc<Type>, dst: Arc<Type>) -> (r: Arc<Type>)
    ensures
        *r == Type::FunTy(src, dst),
{
    Arc::new(Type::FunTy(src, dst))
}

/// The type `ty` quantified over `var`.
pub fn type_forall(var: Arc<TyVar>, ty: Arc<Type>) -> (r: Arc<Type>)
    ensures
        *r == Type::ForAllTy(var, ty),
{
    Arc::new(Type::ForAllTy(var, ty))
}

/// The type constructor `tycon` applied to `params`.
pub fn tycon_app(tycon: Arc<TyCon>, params: Vec<Arc<Type>>) -> (r: Arc<Type>)
    ensures
        *r == Type::TyConApp(tycon, params),
{
    Arc::new(Type::TyConApp(tycon, params))
}

/// The innermost type a chain of applications applies, and the arguments in the order they are
/// applied: `a<b><c>` gives `a` and `[b, c]`.
pub open spec fn appty_head(t: Type) -> Type
    decreases t,
{
    match t {
        Type::AppTy(f, _) => appty_head(*f),
        _ => t,
    }
}

/// The arguments a chain of applications applies, in the order they are applied.
pub open spec fn appty_args(t: Type) -> Seq<Arc<Type>>
    decreases t,
{
    match t {
        Type::AppTy(f, a) => appty_args(*f).push(a),
        _ => Seq::empty(),
    }
}

/// The type under a chain of quantifications.
pub open spec fn forall_body(t: Type) -> Type
    decreases t,
{
    match t {
        Type::ForAllTy(_, b) => forall_body(*b),
        _ => t,
    }
}

/// The variables a chain of quantifications binds, in the order the type is written with: the
/// outermost first, so that `for<b, c> a` binds `[b, c]`.
pub open spec fn forall_binders(t: Type) -> Seq<Arc<TyVar>>
    decreases t,
{
    match t {
        Type::ForAllTy(v, b) => seq![v] + forall_binders(*b),
        _ => Seq::empty(),
    }
}

/// Whether `t` stands in parentheses on the left of a function arrow.
pub open spec fn braced_fun_src(t: Type) -> bool {
    t is FunTy || t is ForAllTy
}

/// A type written out: a variable or a literal type by its name, an application as
/// `head<arg, ..>`, a constructor application as `name<arg, ..>`, a function type as `a => b`
/// (with a function or quantified type on the left in parentheses), and a quantified type as
/// `for<a, ..> body`.
pub open spec fn ty_text(t: Type) -> Seq<char>
    decreases t, 1nat,
{
    match t {
        Type::TyVar(v) => v.name@,
        Type::LitTy(l) => l.name@,
        Type::AppTy(_, _) => appty_head_text(t) + "<"@ + join(appty_arg_texts(t), ", "@) + ">"@,
        Type::TyConApp(tc, args) => tc.name@ + "<"@ + join(conapp_texts(t, args@.len() as int), ", "@)
            + ">"@,
        Type::FunTy(src, dst) => (if braced_fun_src(*src) {
            "("@ + ty_text(*src) + ")"@
        } else {
            ty_text(*src)
        }) + " => "@ + ty_text(*dst),
        Type::ForAllTy(_, _) => "for<"@ + join(
            forall_binders(t).map_values(|v: Arc<TyVar>| v.name@),
            ", "@,
        ) + "> "@ + forall_body_text(t),
    }
}

/// The text of the head of a chain of applications.
pub open spec fn appty_head_text(t: Type) -> Seq<char>
    decreases t, 0nat,
{
    match t {
        Type::AppTy(f, _) => match *f {
            Type::AppTy(_, _) => appty_head_text(*f),
            _ => ty_text(*f),
        },
        _ => Seq::empty(),
    }
}

/// The texts of the arguments of a chain of applications, in order.
pub open spec fn appty_arg_texts(t: Type) -> Seq<Seq<char>>
    decreases t, 0nat,
{
    match t {
        Type::AppTy(f, a) => appty_arg_texts(*f).push(ty_text(*a)),
        _ => Seq::empty(),
    }
}

/// The texts of the first `k` arguments of a constructor application.
pub open spec fn conapp_texts(t: Type, k: int) -> Seq<Seq<char>>
    decreases t, 0nat, k,
{
    match t {
        Type::TyConApp(_, args) => if k <= 0 || k > args@.len() {
            Seq::empty()
        } else {
            conapp_texts(t, k - 1).push(ty_text(*args@[k - 1]))
        },
        _ => Seq::empty(),
    }
}

/// The text of the type under a chain of quantifications.
pub open spec fn forall_body_text(t: Type) -> Seq<char>
    decreases t, 0nat,
{
    match t {
        Type::ForAllTy(_, b) => match *b {
            Type::ForAllTy(_, _) => forall_body_text(*b),
            _ => ty_text(*b),
        },
        _ => Seq::empty(),
    }
}

/// The head text of a chain of applications is the text of its head, and its argument texts
/// are the texts of its arguments.
pub proof fn lemma_appty_texts(t: &Type)
    requires
        t is AppTy,
    ensures
        appty_head_text(*t) == ty_text(appty_head(*t)),
        appty_arg_texts(*t) == appty_args(*t).map_values(|a: Arc<Type>| ty_text(*a)),
    decreases t,
{
    let f: &Type = &*t->AppTy_0;
    let a: Type = *t->AppTy_1;
    assert(appty_head(*t) == appty_head(*f));
    assert(appty_args(*t) == appty_args(*f).push(t->AppTy_1));
    assert(appty_arg_texts(*t) == appty_arg_texts(*f).push(ty_text(a)));
    if *f is AppTy {
        lemma_appty_texts(f);
        assert(appty_head_text(*t) == appty_head_text(*f));
    } else {
        assert(appty_head(*f) == *f);
        assert(appty_head_text(*t) == ty_text(*f));
    }
    assert(appty_arg_texts(*t) =~= appty_args(*t).map_values(|a: Arc<Type>| ty_text(*a)));
}

/// The body text of a chain of quantifications is the text of its body.
pub proof fn lemma_forall_body_text(t: &Type)
    requires
        t is ForAllTy,
    ensures
        forall_body_text(*t) == ty_text(forall_body(*t)),
    decreases t,
{
    let b: &Type = &*t->ForAllTy_1;
    assert(forall_body(*t) == forall_body(*b));
    if *b is ForAllTy {
        lemma_forall_body_text(b);
        assert(forall_body_text(*t) == forall_body_text(*b));
    } else {
        assert(forall_body(*b) == *b);
        assert(forall_body_text(*t) == ty_text(*b));
    }
}

/// A copy of `v` in reverse order.
fn reversed_tyvars(v: &Vec<Arc<TyVar>>) -> (r: Vec<Arc<TyVar>>)
    ensures
        r@ == v@.reverse(),
{
    let mut r: Vec<Arc<TyVar>> = Vec::new();
    let mut i = v.len();
    while i > 0
        invariant
            i <= v@.len(),
            r@ == v@.subrange(i as int, v@.len() as int).reverse(),
        decreases i,
    {
        i = i - 1;
        r.push(v[i].clone());
        assert(r@ =~= v@.subrange(i as int, v@.len() as int).reverse());
    }
    assert(v@.subrange(0, v@.len() as int) =~= v@);
    r
}

impl Type {
    /// This type written out: a variable or a literal type by its name, an application as
    /// `head<arg, ..>`, a constructor application as `name<arg, ..>`, a function type as
    /// `a => b`, and a quantified type as `for<a, ..> body`.
    pub fn to_string(self: Arc<Type>) -> (r: String)
        ensures
            r@ == ty_text(*self),
        decreases self,
    {
        match &*self {
            Type::TyVar(v) => v.name.clone(),
            Type::LitTy(l) => l.name.clone(),
            Type::AppTy(_, _) => {
                let (ty, args) = self.clone().decompose_appty();
                proof {
                    lemma_appty_head_decreases(&*self);
                }
                let ty = ty.to_string();
                let mut texts: Vec<String> = Vec::new();
                for i in 0..args.len()
                    invariant
                        args@ == appty_args(*self),
                        strs(texts@) == args@.take(i as int).map_values(|a: Arc<Type>| ty_text(*a)),
                {
                    proof {
                        lemma_appty_arg_decreases(&*self, i as int);
                    }
                    let t = args[i].clone().to_string();
                    let ghost before = texts@;
                    texts.push(t);
                    proof {
                        assert(args@.take(i + 1) =~= args@.take(i as int).push(args@[i as int]));
                        assert(strs(texts@) =~= strs(before).push(t@));
                        assert(strs(texts@) =~= args@.take(i + 1).map_values(|a: Arc<Type>| ty_text(*a)));
                    }
                }
                let mut res = ty;
                res.append("<");
                let joined = join_strings(&texts, ", ");
                res.append(joined.as_str());
                res.append(">");
                proof {
                    lemma_appty_texts(&*self);
                    assert(args@.take(args@.len() as int) =~= args@);
                }
                res
            },
            Type::TyConApp(tycon, args) => {
                let mut texts: Vec<String> = Vec::new();
                for i in 0..args.len()
                    invariant
                        *self == Type::TyConApp(*tycon, *args),
                        strs(texts@) == conapp_texts(*self, i as int),
                {
                    proof {
                        lemma_conapp_arg_decreases(&*self, i as int);
                    }
                    let t = args[i].clone().to_string();
                    texts.push(t);
                    assert(strs(texts@) =~= conapp_texts(*self, i + 1));
                }
                let mut res = tycon.name.clone();
                res.append("<");
                let joined = join_strings(&texts, ", ");
                res.append(joined.as_str());
                res.append(">");
                res
            },
            Type::FunTy(src, dst) => {
                let src_brace_needed = match &**src {
                    Type::FunTy(_, _) => true,
                    Type::ForAllTy(_, _) => true,
                    _ => false,
                };
                let src = src.clone().to_string();
                let dst = dst.clone().to_string();
                let mut res = String::new();
                if src_brace_needed {
                    res.append("(");
                    res.append(src.as_str());
                    res.append(")");
                } else {
                    res.append(src.as_str());
                }
                res.append(" => ");
                res.append(dst.as_str());
                res
            },
            Type::ForAllTy(_, _) => {
                let (vars, ty) = self.clone().decompose_forall();
                let mut names: Vec<String> = Vec::new();
                for i in 0..vars.len()
                    invariant
                        strs(names@) == vars@.take(i as int).map_values(|v: Arc<TyVar>| v.name@),
                {
                    let ghost before = names@;
                    names.push(vars[i].name.clone());
                    proof {
                        assert(vars@.take(i + 1) =~= vars@.take(i as int).push(vars@[i as int]));
                        assert(strs(names@) =~= strs(before).push(vars@[i as int].name@));
                        assert(strs(names@) =~= vars@.take(i + 1).map_values(|v: Arc<TyVar>| v.name@));
                    }
                }
                proof {
                    lemma_forall_body_decreases(&*self);
                }
                let body = ty.to_string();
                let mut res = crate::strutil::to_string("for<");
                let joined = join_strings(&names, ", ");
                res.append(joined.as_str());
                res.append("> ");
                res.append(body.as_str());
                proof {
                    lemma_forall_body_text(&*self);
                    assert(vars@.take(vars@.len() as int) =~= vars@);
                }
                res
            },
        }
    }

    /// The head of a chain of applications and the arguments in the order they are applied:
    /// `a<b><c>` gives `a` and `[b, c]`.
    fn decompose_appty(self: Arc<Type>) -> (r: (Arc<Type>, Vec<Arc<Type>>))
        ensures
            *r.0 == appty_head(*self),
            r.1@ == appty_args(*self),
        decreases self,
    {
        match &*self {
            Type::AppTy(ty, arg) => {
                let (ty, mut args) = ty.clone().decompose_appty();
                args.push(arg.clone());
                (ty, args)
            },
            _ => (self.clone(), Vec::new()),
        }
    }

    /// The variables a chain of quantifications binds, in the order the type is written with,
    /// and the type under them.
    fn decompose_forall(self: Arc<Type>) -> (r: (Vec<Arc<TyVar>>, Arc<Type>))
        ensures
            r.0@ == forall_binders(*self),
            *r.1 == forall_body(*self),
    {
        let (vars, ty) = self.decompose_forall_inner();
        let vars = reversed_tyvars(&vars);
        proof {
            assert(forall_binders(*self).reverse().reverse() =~= forall_binders(*self));
        }
        (vars, ty)
    }

    /// The variables a chain of quantifications binds, in reverse of the order the type is
    /// written with, and the type under them.
    fn decompose_forall_inner(self: Arc<Type>) -> (r: (Vec<Arc<TyVar>>, Arc<Type>))
        ensures
            r.0@ == forall_binders(*self).reverse(),
            *r.1 == forall_body(*self),
        decreases self,
    {
        match &*self {
            Type::ForAllTy(var, ty) => {
                let (mut vars, ty) = ty.clone().decompose_forall_inner();
                let ghost before = vars@;
                vars.push(var.clone());
                proof {
                    assert(vars@ =~= (seq![*var] + before.reverse()).reverse());
                }
                (vars, ty)
            },
            _ => (Vec::new(), self.clone()),
        }
    }
}

/// An argument of a chain of applications is smaller than the chain.
pub proof fn lemma_appty_arg_decreases(t: &Type, i: int)
    requires
        0 <= i < appty_args(*t).len(),
    ensures
        decreases_to!(*t => *appty_args(*t)[i]),
    decreases t,
{
    match t {
        Type::AppTy(f, a) => {
            let f: &Type = &**f;
            if i < appty_args(*f).len() {
                lemma_appty_arg_decreases(f, i);
            }
        },
        _ => {},
    }
}

/// The body of a chain of quantifications is smaller than the chain.
pub proof fn lemma_forall_body_decreases(t: &Type)
    requires
        *t is ForAllTy,
    ensures
        decreases_to!(*t => forall_body(*t)),
    decreases t,
{
    let b: &Type = &*t->ForAllTy_1;
    assert(decreases_to!(*t => *b));
    assert(forall_body(*t) == forall_body(*b));
    if *b is ForAllTy {
        lemma_forall_body_decreases(b);
    } else {
        assert(forall_body(*b) == *b);
    }
}

/// The head of a chain of applications is smaller than the chain.
pub proof fn lemma_appty_head_decreases(t: &Type)
    requires
        *t is AppTy,
    ensures
        decreases_to!(*t => appty_head(*t)),
    decreases t,
{
    let f: &Type = &*t->AppTy_0;
    assert(decreases_to!(*t => *f));
    assert(appty_head(*t) == appty_head(*f));
    if *f is AppTy {
        lemma_appty_head_decreases(f);
    } else {
        assert(appty_head(*f) == *f);
    }
}

/// The names occurring free in an expression: a variable, the names a literal refers to, and
/// those of the parts, less the variable a lambda binds and the name of the lambda itself in a
/// lambda's body, and less the variable a `let` binds in the body it binds it in (the bound
/// expression does not see it).
pub open spec fn free_names(e: Expr) -> Set<Seq<char>>
    decreases e,
{
    match e {
        Expr::Var(v) => set![v.name@],
        Expr::Lit(l) => name_set(l.free_vars@),
        Expr::App(f, a) => free_names(*f.expr) + free_names(*a.expr),
        Expr::Lam(x, body) => free_names(*body.expr).remove(x.name@).remove(spec_self_name()),
        Expr::Let(x, bound, body) => free_names(*body.expr).remove(x.name@) + free_names(
            *bound.expr,
        ),
        Expr::If(c, t, f) => free_names(*c.expr) + free_names(*t.expr) + free_names(*f.expr),
        Expr::AppType(inner, _) => free_names(*inner.expr),
        Expr::ForAll(_, inner) => free_names(*inner.expr),
    }
}

/// Whether `r` is `e` with the free names of every node recorded: each node of `r` is built as
/// the node of `e` is, over the same variables, literals and types, and holds the names free in
/// it, each once. A variable or a literal keeps the inferred type and the source `e` had; every
/// other node is built afresh, with neither.
pub open spec fn free_vars_recorded(r: ExprInfo, e: ExprInfo) -> bool
    decreases e,
{
    &&& names_distinct(r.free_vars@)
    &&& name_set(r.free_vars@) == free_names(*e.expr)
    &&& match *e.expr {
        Expr::Var(_) | Expr::Lit(_) => {
            &&& *r.expr == *e.expr
            &&& r.deduced_type == e.deduced_type
            &&& r.source == e.source
        },
        _ => {
            &&& r.deduced_type is None
            &&& r.source is None
            &&& match (*e.expr, *r.expr) {
                (Expr::App(f, a), Expr::App(rf, ra)) => free_vars_recorded(*rf, *f)
                    && free_vars_recorded(*ra, *a),
                (Expr::Lam(x, b), Expr::Lam(rx, rb)) => rx == x && free_vars_recorded(*rb, *b),
                (Expr::Let(x, b, v), Expr::Let(rx, rb, rv)) => rx == x && free_vars_recorded(*rb, *b)
                    && free_vars_recorded(*rv, *v),
                (Expr::If(c, t, f), Expr::If(rc, rt, rf)) => free_vars_recorded(*rc, *c)
                    && free_vars_recorded(*rt, *t) && free_vars_recorded(*rf, *f),
                (Expr::AppType(i, ty), Expr::AppType(ri, rty)) => rty == ty && free_vars_recorded(
                    *ri,
                    *i,
                ),
                (Expr::ForAll(v, i), Expr::ForAll(rv, ri)) => rv == v && free_vars_recorded(*ri, *i),
                _ => false,
            }
        },
    }
}

/// An expression written out: a variable or a literal by its name, `(f) (a)`, `\x->(body)`,
/// `let x=bound in (body)`, `if c then t else (e)`, `(e)<type>` and `for<a> (e)`.
pub open spec fn expr_text(e: Expr) -> Seq<char>
    decreases e,
{
    match e {
        Expr::Var(v) => v.name@,
        Expr::Lit(l) => l.name@,
        Expr::App(f, a) => "("@ + expr_text(*f.expr) + ") ("@ + expr_text(*a.expr) + ")"@,
        Expr::Lam(x, body) => "\\"@ + x.name@ + "->("@ + expr_text(*body.expr) + ")"@,
        Expr::Let(x, bound, body) => "let "@ + x.name@ + "="@ + expr_text(*bound.expr) + " in ("@
            + expr_text(*body.expr) + ")"@,
        Expr::If(c, t, f) => "if "@ + expr_text(*c.expr) + " then "@ + expr_text(*t.expr)
            + " else ("@ + expr_text(*f.expr) + ")"@,
        Expr::AppType(inner, ty) => "("@ + expr_text(*inner.expr) + ")<"@ + ty_text(*ty) + ">"@,
        Expr::ForAll(v, inner) => "for<"@ + v.name@ + "> ("@ + expr_text(*inner.expr) + ")"@,
    }
}

/// A copy of `v`.
fn clone_type_opt(v: &Option<Arc<Type>>) -> (r: Option<Arc<Type>>)
    ensures
        r == *v,
{
    match v {
        Some(t) => Some(t.clone()),
        None => None,
    }
}

impl ExprInfo {
    /// The same expression carrying `free_vars` as its free names.
    fn with_free_vars(self: &Arc<Self>, free_vars: Vec<String>) -> (r: Arc<Self>)
        ensures
            r.expr == self.expr,
            r.free_vars == free_vars,
            r.deduced_type == self.deduced_type,
            r.source == self.source,
    {
        Arc::new(
            ExprInfo {
                expr: self.expr.clone(),
                free_vars,
                deduced_type: clone_type_opt(&self.deduced_type),
                source: clone_span_opt(&self.source),
            },
        )
    }

    /// The same expression carrying `ty` as its inferred type.
    pub fn with_deduced_type(self: &Arc<Self>, ty: Arc<Type>) -> (r: Arc<Self>)
        ensures
            r.expr == self.expr,
            r.free_vars@ == self.free_vars@,
            r.deduced_type == Some(ty),
            r.source == self.source,
    {
        Arc::new(
            ExprInfo {
                expr: self.expr.clone(),
                free_vars: self.free_vars.clone(),
                deduced_type: Some(ty),
                source: clone_span_opt(&self.source),
            },
        )
    }

    /// The same expression written at `src`.
    pub fn with_source(self: &Arc<Self>, src: Option<Span>) -> (r: Arc<Self>)
        ensures
            r.expr == self.expr,
            r.free_vars@ == self.free_vars@,
            r.deduced_type == self.deduced_type,
            r.source == src,
    {
        Arc::new(
            ExprInfo {
                expr: self.expr.clone(),
                free_vars: self.free_vars.clone(),
                deduced_type: clone_type_opt(&self.deduced_type),
                source: src,
            },
        )
    }
}

impl Expr {
    /// The expression with nothing learnt about it yet: no free names, no inferred type and no
    /// source. The source given is not kept.
    pub fn into_expr_info(self: &Arc<Self>, src: Option<Span>) -> (r: Arc<ExprInfo>)
        ensures
            r.expr == *self,
            r.free_vars@.len() == 0,
            r.deduced_type is None,
            r.source is None,
    {
        Arc::new(ExprInfo { expr: self.clone(), free_vars: Vec::new(), deduced_type: None, source: None })
    }

    /// The expression written out: a variable or a literal by its name, `(f) (a)`,
    /// `\x->(body)`, `let x=bound in (body)`, `if c then t else (e)`, `(e)<type>` and
    /// `for<a> (e)`.
    pub fn to_string(&self) -> (r: String)
        ensures
            r@ == expr_text(*self),
        decreases self,
    {
        match self {
            Expr::Var(v) => v.name.clone(),
            Expr::Lit(l) => l.name.clone(),
            Expr::App(f, a) => {
                let mut r = crate::strutil::to_string("(");
                r.append(f.expr.to_string().as_str());
                r.append(") (");
                r.append(a.expr.to_string().as_str());
                r.append(")");
                r
            },
            Expr::Lam(x, fx) => {
                let mut r = crate::strutil::to_string("\\");
                r.append(x.name.as_str());
                r.append("->(");
                r.append(fx.expr.to_string().as_str());
                r.append(")");
                r
            },
            Expr::Let(x, b, v) => {
                let mut r = crate::strutil::to_string("let ");
                r.append(x.name.as_str());
                r.append("=");
                r.append(b.expr.to_string().as_str());
                r.append(" in (");
                r.append(v.expr.to_string().as_str());
                r.append(")");
                r
            },
            Expr::If(c, t, e) => {
                let mut r = crate::strutil::to_string("if ");
                r.append(c.expr.to_string().as_str());
                r.append(" then ");
                r.append(t.expr.to_string().as_str());
                r.append(" else (");
                r.append(e.expr.to_string().as_str());
                r.append(")");
                r
            },
            Expr::AppType(expr, ty) => {
                let mut r = crate::strutil::to_string("(");
                r.append(expr.expr.to_string().as_str());
                r.append(")<");
                r.append(ty.clone().to_string().as_str());
                r.append(">");
                r
            },
            Expr::ForAll(tyvar, expr) => {
                let mut r = crate::strutil::to_string("for<");
                r.append(tyvar.name.as_str());
                r.append("> (");
                r.append(expr.expr.to_string().as_str());
                r.append(")");
                r
            },
        }
    }
}

/// The literal `name` of type `ty`, whose code refers to `free_vars`.
pub fn expr_lit(free_vars: Vec<String>, name: String, ty: Arc<Type>, src: Option<Span>) -> (r: Arc<
    ExprInfo,
>)
    ensures
        *r.expr is Lit,
        r.expr->Lit_0.free_vars == free_vars,
        r.expr->Lit_0.name == name,
        r.expr->Lit_0.ty == ty,
        r.free_vars@.len() == 0,
        r.deduced_type is None,
        r.source is None,
{
    Arc::new(Expr::Lit(Arc::new(Literal { free_vars, name, ty }))).into_expr_info(src)
}

/// `let var = bound in expr`.
pub fn expr_let(var: Arc<Var>, bound: Arc<ExprInfo>, expr: Arc<ExprInfo>, src: Option<Span>) -> (r:
    Arc<ExprInfo>)
    ensures
        *r.expr == Expr::Let(var, bound, expr),
        r.free_vars@.len() == 0,
        r.deduced_type is None,
        r.source is None,
{
    Arc::new(Expr::Let(var, bound, expr)).into_expr_info(src)
}

/// The lambda binding `var` in `val`.
pub fn expr_abs(var: Arc<Var>, val: Arc<ExprInfo>, src: Option<Span>) -> (r: Arc<ExprInfo>)
    ensures
        *r.expr == Expr::Lam(var, val),
        r.free_vars@.len() == 0,
        r.deduced_type is None,
        r.source is None,
{
    Arc::new(Expr::Lam(var, val)).into_expr_info(src)
}

/// `lam` applied to `arg`.
pub fn expr_app(lam: Arc<ExprInfo>, arg: Arc<ExprInfo>, src: Option<Span>) -> (r: Arc<ExprInfo>)
    ensures
        *r.expr == Expr::App(lam, arg),
        r.free_vars@.len() == 0,
        r.deduced_type is None,
        r.source is None,
{
    Arc::new(Expr::App(lam, arg)).into_expr_info(src)
}

/// The variable `var_name`, written at `src`.
pub fn expr_var(var_name: &str, src: Option<Span>) -> (r: Arc<ExprInfo>)
    ensures
        *r.expr is Var,
        r.expr->Var_0.name@ == var_name@,
        r.expr->Var_0.type_annotation is None,
        r.expr->Var_0.source == src,
        r.free_vars@.len() == 0,
        r.deduced_type is None,
        r.source is None,
{
    Arc::new(Expr::Var(var_var(var_name, None, clone_span_opt(&src)))).into_expr_info(src)
}

/// `if cond then then_expr else else_expr`.
pub fn expr_if(
    cond: Arc<ExprInfo>,
    then_expr: Arc<ExprInfo>,
    else_expr: Arc<ExprInfo>,
    src: Option<Span>,
) -> (r: Arc<ExprInfo>)
    ensures
        *r.expr == Expr::If(cond, then_expr, else_expr),
        r.free_vars@.len() == 0,
        r.deduced_type is None,
        r.source is None,
{
    Arc::new(Expr::If(cond, then_expr, else_expr)).into_expr_info(src)
}

/// `expr` applied to the type `ty`.
pub fn app_ty(expr: Arc<ExprInfo>, ty: Arc<Type>, src: Option<Span>) -> (r: Arc<ExprInfo>)
    ensures
        *r.expr == Expr::AppType(expr, ty),
        r.free_vars@.len() == 0,
        r.deduced_type is None,
        r.source is None,
{
    Arc::new(Expr::AppType(expr, ty)).into_expr_info(src)
}

/// `val` abstracted over the type variable `var`.
pub fn expr_forall(var: Arc<TyVar>, val: Arc<ExprInfo>, src: Option<Span>) -> (r: Arc<ExprInfo>)
    ensures
        *r.expr == Expr::ForAll(var, val),
        r.free_vars@.len() == 0,
        r.deduced_type is None,
        r.source is None,
{
    Arc::new(Expr::ForAll(var, val)).into_expr_info(src)
}

/// A copy of the names of `v`, which holds each name once.
fn copy_names(v: &Vec<String>) -> (r: Vec<String>)
    ensures
        strs(r@) == strs(v@),
{
    crate::strutil::clone_strings(v)
}

/// The expression with the free names of every node recorded.
pub fn calculate_free_vars(ei: Arc<ExprInfo>) -> (r: Arc<ExprInfo>)
    ensures
        free_vars_recorded(*r, *ei),
    decreases ei,
{
    proof {
        assert(strs(Seq::<String>::empty()).to_set() =~= Set::<Seq<char>>::empty());
    }
    match &*ei.expr {
        Expr::Var(var) => {
            let mut free_vars: Vec<String> = Vec::new();
            insert_name(&mut free_vars, &var.name);
            proof {
                assert(Set::<Seq<char>>::empty().insert(var.name@) =~= set![var.name@]);
            }
            ei.with_free_vars(free_vars)
        },
        Expr::Lit(lit) => {
            let mut free_vars: Vec<String> = Vec::new();
            union_names(&mut free_vars, &lit.free_vars);
            proof {
                assert(Set::<Seq<char>>::empty() + name_set(lit.free_vars@) =~= name_set(
                    lit.free_vars@,
                ));
            }
            ei.with_free_vars(free_vars)
        },
        Expr::App(func, arg) => {
            let func = calculate_free_vars(func.clone());
            let arg = calculate_free_vars(arg.clone());
            let mut free_vars = copy_names(&func.free_vars);
            union_names(&mut free_vars, &arg.free_vars);
            expr_app(func, arg, clone_span_opt(&ei.source)).with_free_vars(free_vars)
        },
        Expr::Lam(arg, val) => {
            let val = calculate_free_vars(val.clone());
            let mut free_vars = copy_names(&val.free_vars);
            remove_name(&mut free_vars, arg.name.as_str());
            remove_name(&mut free_vars, self_name());
            expr_abs(arg.clone(), val, clone_span_opt(&ei.source)).with_free_vars(free_vars)
        },
        Expr::Let(var, bound, val) => {
            let bound = calculate_free_vars(bound.clone());
            let val = calculate_free_vars(val.clone());
            let mut free_vars = copy_names(&val.free_vars);
            remove_name(&mut free_vars, var.name.as_str());
            union_names(&mut free_vars, &bound.free_vars);
            expr_let(var.clone(), bound, val, clone_span_opt(&ei.source)).with_free_vars(free_vars)
        },
        Expr::If(cond, then, else_expr) => {
            let cond = calculate_free_vars(cond.clone());
            let then = calculate_free_vars(then.clone());
            let else_expr = calculate_free_vars(else_expr.clone());
            let mut free_vars = copy_names(&cond.free_vars);
            union_names(&mut free_vars, &then.free_vars);
            union_names(&mut free_vars, &else_expr.free_vars);
            expr_if(cond, then, else_expr, clone_span_opt(&ei.source)).with_free_vars(free_vars)
        },
        Expr::AppType(inner, ty) => {
            let inner = calculate_free_vars(inner.clone());
            let free_vars = copy_names(&inner.free_vars);
            app_ty(inner.clone(), ty.clone(), clone_span_opt(&inner.source)).with_free_vars(
                free_vars,
            )
        },
        Expr::ForAll(tyvar, inner) => {
            let inner = calculate_free_vars(inner.clone());
            let free_vars = copy_names(&inner.free_vars);
            expr_forall(tyvar.clone(), inner.clone(), clone_span_opt(&inner.source)).with_free_vars(
                free_vars,
            )
        },
    }
}

} // verus!
