//! Variables of Fix expressions, and the ways an application is written.
use crate::ast::name::{FullName, FullNameView, Name, NameSpace};
use crate::ast::pattern::{name_keys, PatternNode};
use crate::ast::types::{TyCon, TypeNode};
use crate::source::{clone_span_opt, Span};
use std::sync::Arc;
use vstd::prelude::*;

verus! {

/// The ways an application of a function to an argument is written in source.
#[derive(PartialEq, Eq, Structural, Clone, Copy)]
pub enum AppSourceCodeOrderType {
    /// `f(x)`.
    FX,
    /// `x.f`.
    XDotF,
}

/// A variable, by its full name.
pub struct Var {
    /// The variable's name.
    pub name: FullName,
}

impl Clone for Var {
    fn clone(&self) -> (r: Self)
        ensures
            r.name@ == self.name@,
    {
        Var { name: self.name.clone() }
    }
}

impl Var {
    /// A copy of this variable under the namespace `ns`, keeping its name.
    pub fn set_namsapce(&self, ns: NameSpace) -> (r: Arc<Self>)
        ensures
            r.name@.namespace == ns@,
            r.name@.name == self.name@.name,
    {
        let mut ret = self.clone();
        ret.name.namespace = ns;
        Arc::new(ret)
    }

    /// A copy of this variable named `fullname`.
    pub fn set_name(&self, fullname: FullName) -> (r: Arc<Self>)
        ensures
            r.name == fullname,
    {
        Arc::new(Var { name: fullname })
    }

    /// The variable named `name`.
    pub fn create(name: FullName) -> (r: Self)
        ensures
            r.name == name,
    {
        Var { name }
    }

    /// This variable with its name marked absolute where it is written under a namespace.
    pub fn global_to_absolute(&self) -> (r: Arc<Var>)
        ensures
            r.name@.namespace.names == self.name@.namespace.names,
            r.name@.name == self.name@.name,
            r.name@.namespace.is_absolute == (self.name@.namespace.is_absolute
                || self.name@.namespace.names.len() > 0),
    {
        let mut name = self.name.clone();
        name.global_to_absolute();
        Arc::new(Var { name })
    }
}

/// The variable named `name`.
pub fn var_var(name: FullName) -> (r: Arc<Var>)
    ensures
        r.name == name,
{
    Arc::new(Var { name })
}

/// The local variable `var_name`, written under no namespace.
pub fn var_local(var_name: &str) -> (r: Arc<Var>)
    ensures
        r.name@.namespace.names.len() == 0,
        !r.name@.namespace.is_absolute,
        r.name@.name == var_name@,
{
    var_var(FullName::local(var_name))
}

/// A piece of code the compiler writes in LLVM directly, as the expressions that read it see
/// it: the names it refers to, the name it is shown by, its type, and the variables it only
/// borrows.
pub struct InlineLLVM {
    /// The names the code refers to.
    pub free_vars: Vec<FullName>,
    /// The name the code is shown by.
    pub name: String,
    /// The type of the value the code computes.
    pub ty: Arc<TypeNode>,
    /// The variables the code reads without taking them over.
    pub borrowed_vars: Vec<FullName>,
}

/// An expression together with what the compiler learns about it.
pub struct ExprNode {
    /// The expression.
    pub expr: Arc<Expr>,
    /// The names occurring free in it, each once, once they are computed.
    pub free_vars: Option<Vec<FullName>>,
    /// Where it was written.
    pub source: Option<Span>,
    /// How an application was written.
    pub app_order: AppSourceCodeOrderType,
    /// Its type, once inferred.
    pub ty: Option<Arc<TypeNode>>,
    /// For a function, the parameters that a call releases exactly once, where known.
    pub released_params_indices: Option<Vec<usize>>,
}

/// A Fix expression.
pub enum Expr {
    /// A variable.
    Var(Arc<Var>),
    /// Code written in LLVM.
    LLVM(Arc<InlineLLVM>),
    /// A function applied to arguments; more than one only after optimization.
    App(Arc<ExprNode>, Vec<Arc<ExprNode>>),
    /// A lambda of parameters; more than one only after optimization.
    Lam(Vec<Arc<Var>>, Arc<ExprNode>),
    /// `let pattern = bound in value`.
    Let(Arc<PatternNode>, Arc<ExprNode>, Arc<ExprNode>),
    /// `if cond { then } else { else }`.
    If(Arc<ExprNode>, Arc<ExprNode>, Arc<ExprNode>),
    /// An expression annotated with a type.
    TyAnno(Arc<ExprNode>, Arc<TypeNode>),
    /// An array literal.
    ArrayLit(Vec<Arc<ExprNode>>),
    /// A value of a struct built from its fields, as a tuple `(x, y)` is.
    MakeStruct(Arc<TyCon>, Vec<(Name, Arc<ExprNode>)>),
    /// A call of a foreign function: its name, its result type, its parameter types, the
    /// arguments, and whether it does I/O.
    FFICall(Name, Arc<TyCon>, Vec<Arc<TyCon>>, Vec<Arc<ExprNode>>, bool),
}

/// The views of the names `v`.
pub open spec fn names_view(v: Seq<FullName>) -> Seq<FullNameView> {
    v.map_values(|f: FullName| f@)
}

/// The views of the names in `o`, where there are any.
pub open spec fn opt_names_view(o: Option<Vec<FullName>>) -> Option<Seq<FullNameView>> {
    match o {
        Some(v) => Some(names_view(v@)),
        None => None,
    }
}

/// The indices in `o`, where there are any.
pub open spec fn opt_indices_view(o: Option<Vec<usize>>) -> Option<Seq<usize>> {
    match o {
        Some(v) => Some(v@),
        None => None,
    }
}

/// Whether `r` carries what `s` carries besides its expression: free names, source, the way it
/// was written, type and released parameters.
pub open spec fn same_attrs(r: ExprNode, s: ExprNode) -> bool {
    &&& opt_names_view(r.free_vars) == opt_names_view(s.free_vars)
    &&& r.source == s.source
    &&& r.app_order == s.app_order
    &&& r.ty == s.ty
    &&& opt_indices_view(r.released_params_indices) == opt_indices_view(s.released_params_indices)
}

/// A copy of the names `v`.
pub fn clone_names(v: &Vec<FullName>) -> (r: Vec<FullName>)
    ensures
        names_view(r@) == names_view(v@),
        name_keys(r@) == name_keys(v@),
{
    let mut r: Vec<FullName> = Vec::new();
    for i in 0..v.len()
        invariant
            r@.len() == i,
            names_view(r@) == names_view(v@.take(i as int)),
    {
        let ghost before = r@;
        let c = v[i].clone();
        r.push(c);
        assert(r@ == before.push(c));
        assert(c@ == v@[i as int]@);
        assert(names_view(before) == names_view(v@.take(i as int)));
        assert(names_view(r@).len() == i + 1);
        assert(names_view(v@.take(i + 1)).len() == i + 1);
        assert forall|j: int| 0 <= j < i + 1 implies #[trigger] names_view(r@)[j] == names_view(
            v@.take(i + 1),
        )[j] by {
            assert(names_view(r@)[j] == r@[j]@);
            assert(names_view(v@.take(i + 1))[j] == v@[j]@);
            if j < i {
                assert(names_view(before)[j] == names_view(v@.take(i as int))[j]);
                assert(names_view(before)[j] == before[j]@);
                assert(names_view(v@.take(i as int))[j] == v@[j]@);
            }
        }
        assert(names_view(r@) =~= names_view(v@.take(i + 1)));
    }
    assert(v@.take(v@.len() as int) =~= v@);
    assert forall|j: int| 0 <= j < v@.len() implies #[trigger] name_keys(r@)[j] == name_keys(v@)[j] by {
        assert(names_view(r@)[j] == names_view(v@)[j]);
    }
    assert(name_keys(r@) =~= name_keys(v@));
    r
}

/// A copy of the shared values `v`.
pub fn clone_arcs<T>(v: &Vec<Arc<T>>) -> (r: Vec<Arc<T>>)
    ensures
        r@ == v@,
{
    let mut r: Vec<Arc<T>> = Vec::new();
    for i in 0..v.len()
        invariant
            r@ == v@.take(i as int),
    {
        r.push(v[i].clone());
        assert(r@ =~= v@.take(i + 1));
    }
    assert(v@.take(v@.len() as int) =~= v@);
    r
}

/// A copy of the named fields `v`.
pub fn clone_field_exprs(v: &Vec<(Name, Arc<ExprNode>)>) -> (r: Vec<(Name, Arc<ExprNode>)>)
    ensures
        r@ == v@,
{
    let mut r: Vec<(Name, Arc<ExprNode>)> = Vec::new();
    for i in 0..v.len()
        invariant
            r@ == v@.take(i as int),
    {
        r.push((v[i].0.clone(), v[i].1.clone()));
        assert(r@ =~= v@.take(i + 1));
    }
    assert(v@.take(v@.len() as int) =~= v@);
    r
}

/// A copy of the indices `v`.
fn clone_indices(v: &Vec<usize>) -> (r: Vec<usize>)
    ensures
        r@ == v@,
{
    let mut r: Vec<usize> = Vec::new();
    for i in 0..v.len()
        invariant
            r@ == v@.take(i as int),
    {
        r.push(v[i]);
        assert(r@ =~= v@.take(i + 1));
    }
    assert(v@.take(v@.len() as int) =~= v@);
    r
}

impl Clone for InlineLLVM {
    fn clone(&self) -> (r: Self)
        ensures
            names_view(r.free_vars@) == names_view(self.free_vars@),
            r.name == self.name,
            r.ty == self.ty,
            names_view(r.borrowed_vars@) == names_view(self.borrowed_vars@),
    {
        InlineLLVM {
            free_vars: clone_names(&self.free_vars),
            name: self.name.clone(),
            ty: self.ty.clone(),
            borrowed_vars: clone_names(&self.borrowed_vars),
        }
    }
}

impl ExprNode {
    /// This node with `expr` as its expression, keeping everything else it carries.
    fn with_expr(&self, expr: Expr) -> (r: Arc<ExprNode>)
        ensures
            *r.expr == expr,
            same_attrs(*r, *self),
    {
        ExprNode::with_expr_arc(self, Arc::new(expr))
    }

    /// This node with `expr` as its expression, keeping everything else it carries.
    fn with_expr_arc(&self, expr: Arc<Expr>) -> (r: Arc<ExprNode>)
        ensures
            r.expr == expr,
            same_attrs(*r, *self),
    {
        let mut n = self.copy();
        n.expr = expr;
        Arc::new(n)
    }

    /// This node carrying `free_vars` as the names free in it.
    pub(crate) fn set_free_vars(&self, free_vars: Vec<FullName>) -> (r: Arc<Self>)
        ensures
            r.expr == self.expr,
            r.free_vars == Some(free_vars),
            r.source == self.source,
            r.app_order == self.app_order,
            r.ty == self.ty,
            opt_indices_view(r.released_params_indices) == opt_indices_view(self.released_params_indices),
    {
        let mut n = self.copy();
        n.free_vars = Some(free_vars);
        Arc::new(n)
    }

    /// A copy of this node.
    fn copy(&self) -> (r: ExprNode)
        ensures
            r.expr == self.expr,
            same_attrs(r, *self),
    {
        ExprNode {
            expr: self.expr.clone(),
            free_vars: match &self.free_vars {
                Some(v) => Some(clone_names(v)),
                None => None,
            },
            source: clone_span_opt(&self.source),
            app_order: self.app_order,
            ty: match &self.ty {
                Some(t) => Some(t.clone()),
                None => None,
            },
            released_params_indices: match &self.released_params_indices {
                Some(v) => Some(clone_indices(v)),
                None => None,
            },
        }
    }
}

impl ExprNode {
    /// This node recording `indices` as the parameters a call releases exactly once.
    pub fn set_released_params_indices(&self, indices: Vec<usize>) -> (r: Arc<Self>)
        ensures
            r.expr == self.expr,
            opt_indices_view(r.released_params_indices) == Some(indices@),
            opt_names_view(r.free_vars) == opt_names_view(self.free_vars),
            r.source == self.source,
            r.app_order == self.app_order,
            r.ty == self.ty,
    {
        let mut n = self.copy();
        n.released_params_indices = Some(indices);
        Arc::new(n)
    }

    /// The names occurring free in this expression, once they are computed.
    pub fn free_vars(&self) -> (r: &Vec<FullName>)
        requires
            self.free_vars is Some,
        ensures
            *r == self.free_vars->0,
    {
        match &self.free_vars {
            Some(v) => v,
            None => unreached(),
        }
    }

    /// This node written at `src`.
    pub fn set_source(&self, src: Option<Span>) -> (r: Arc<Self>)
        ensures
            r.expr == self.expr,
            r.source == src,
            opt_names_view(r.free_vars) == opt_names_view(self.free_vars),
            r.app_order == self.app_order,
            r.ty == self.ty,
            opt_indices_view(r.released_params_indices) == opt_indices_view(self.released_params_indices),
    {
        let mut n = self.copy();
        n.source = src;
        Arc::new(n)
    }

    /// This node recording that the application was written as `app_order` says.
    pub fn set_app_order(&self, app_order: AppSourceCodeOrderType) -> (r: Arc<Self>)
        ensures
            r.expr == self.expr,
            r.app_order == app_order,
            opt_names_view(r.free_vars) == opt_names_view(self.free_vars),
            r.source == self.source,
            r.ty == self.ty,
            opt_indices_view(r.released_params_indices) == opt_indices_view(self.released_params_indices),
    {
        let mut n = self.copy();
        n.app_order = app_order;
        Arc::new(n)
    }

    /// This node with `ty` as its inferred type.
    pub fn set_inferred_type(&self, ty: Arc<TypeNode>) -> (r: Arc<Self>)
        ensures
            r.expr == self.expr,
            r.ty == Some(ty),
            opt_names_view(r.free_vars) == opt_names_view(self.free_vars),
            r.source == self.source,
            r.app_order == self.app_order,
            opt_indices_view(r.released_params_indices) == opt_indices_view(self.released_params_indices),
    {
        let mut n = self.copy();
        n.ty = Some(ty);
        Arc::new(n)
    }

    /// This node, a variable, with its variable moved under the namespace `ns`.
    pub fn set_var_namespace(&self, ns: NameSpace) -> (r: Arc<Self>)
        requires
            *self.expr is Var,
        ensures
            *r.expr is Var,
            (*r.expr)->Var_0.name@.namespace == ns@,
            (*r.expr)->Var_0.name@.name == (*self.expr)->Var_0.name@.name,
            same_attrs(*r, *self),
    {
        match &*self.expr {
            Expr::Var(var) => self.with_expr(Expr::Var(var.set_namsapce(ns))),
            _ => unreached(),
        }
    }

    /// This node, a variable, standing for `v`.
    pub fn set_var_var(&self, v: Arc<Var>) -> (r: Arc<Self>)
        requires
            *self.expr is Var,
        ensures
            *r.expr == Expr::Var(v),
            same_attrs(*r, *self),
    {
        self.with_expr(Expr::Var(v))
    }

    /// Whether this is a variable.
    pub fn is_var(&self) -> (r: bool)
        ensures
            r == (*self.expr is Var),
    {
        match &*self.expr {
            Expr::Var(_) => true,
            _ => false,
        }
    }

    /// The variable this node stands for; it is a variable.
    pub fn get_var(&self) -> (r: Arc<Var>)
        requires
            *self.expr is Var,
        ensures
            r == (*self.expr)->Var_0,
    {
        match &*self.expr {
            Expr::Var(v) => v.clone(),
            _ => unreached(),
        }
    }
}

impl ExprNode {
    /// This application with `func` as the function applied.
    pub fn set_app_func(&self, func: Arc<ExprNode>) -> (r: Arc<Self>)
        requires
            *self.expr is App,
        ensures
            *r.expr is App,
            (*r.expr)->App_0 == func,
            (*r.expr)->App_1@ == (*self.expr)->App_1@,
            same_attrs(*r, *self),
    {
        match &*self.expr {
            Expr::App(_, args) => self.with_expr(Expr::App(func, clone_arcs(args))),
            _ => unreached(),
        }
    }

    /// This application with `args` as the arguments.
    pub fn set_app_args(&self, args: Vec<Arc<ExprNode>>) -> (r: Arc<Self>)
        requires
            *self.expr is App,
        ensures
            *r.expr is App,
            (*r.expr)->App_0 == (*self.expr)->App_0,
            (*r.expr)->App_1@ == args@,
            same_attrs(*r, *self),
    {
        match &*self.expr {
            Expr::App(func, _) => self.with_expr(Expr::App(func.clone(), args)),
            _ => unreached(),
        }
    }

    /// The function this application applies.
    pub fn get_app_func(&self) -> (r: Arc<ExprNode>)
        requires
            *self.expr is App,
        ensures
            r == (*self.expr)->App_0,
    {
        match &*self.expr {
            Expr::App(func, _) => func.clone(),
            _ => unreached(),
        }
    }

    /// The arguments of this application.
    pub fn get_app_args(&self) -> (r: Vec<Arc<ExprNode>>)
        requires
            *self.expr is App,
        ensures
            r@ == (*self.expr)->App_1@,
    {
        match &*self.expr {
            Expr::App(_, args) => clone_arcs(args),
            _ => unreached(),
        }
    }

    /// The parameters and the body of this lambda.
    pub fn destructure_lam(&self) -> (r: (Vec<Arc<Var>>, Arc<ExprNode>))
        requires
            *self.expr is Lam,
        ensures
            r.0@ == (*self.expr)->Lam_0@,
            r.1 == (*self.expr)->Lam_1,
    {
        match &*self.expr {
            Expr::Lam(args, body) => (clone_arcs(args), body.clone()),
            _ => unreached(),
        }
    }

    /// This lambda with `params` as its parameters.
    pub fn set_lam_params(&self, params: Vec<Arc<Var>>) -> (r: Arc<Self>)
        requires
            *self.expr is Lam,
        ensures
            *r.expr is Lam,
            (*r.expr)->Lam_0@ == params@,
            (*r.expr)->Lam_1 == (*self.expr)->Lam_1,
            same_attrs(*r, *self),
    {
        match &*self.expr {
            Expr::Lam(_, body) => self.with_expr(Expr::Lam(params, body.clone())),
            _ => unreached(),
        }
    }

    /// This lambda with `body` as its body.
    pub fn set_lam_body(&self, body: Arc<ExprNode>) -> (r: Arc<Self>)
        requires
            *self.expr is Lam,
        ensures
            *r.expr is Lam,
            (*r.expr)->Lam_0@ == (*self.expr)->Lam_0@,
            (*r.expr)->Lam_1 == body,
            same_attrs(*r, *self),
    {
        match &*self.expr {
            Expr::Lam(args, _) => self.with_expr(Expr::Lam(clone_arcs(args), body)),
            _ => unreached(),
        }
    }

    /// Whether this is a lambda.
    pub fn is_lam(&self) -> (r: bool)
        ensures
            r == (*self.expr is Lam),
    {
        match &*self.expr {
            Expr::Lam(_, _) => true,
            _ => false,
        }
    }

    /// The body of this lambda.
    pub fn get_lam_body(&self) -> (r: Arc<ExprNode>)
        requires
            *self.expr is Lam,
        ensures
            r == (*self.expr)->Lam_1,
    {
        match &*self.expr {
            Expr::Lam(_, body) => body.clone(),
            _ => unreached(),
        }
    }

    /// The parameters of this lambda.
    pub fn get_lam_params(&self) -> (r: Vec<Arc<Var>>)
        requires
            *self.expr is Lam,
        ensures
            r@ == (*self.expr)->Lam_0@,
    {
        match &*self.expr {
            Expr::Lam(args, _) => clone_arcs(args),
            _ => unreached(),
        }
    }

    /// This `let` binding the pattern `pat`.
    pub fn set_let_pat(&self, pat: Arc<PatternNode>) -> (r: Arc<Self>)
        requires
            *self.expr is Let,
        ensures
            *r.expr == Expr::Let(pat, (*self.expr)->Let_1, (*self.expr)->Let_2),
            same_attrs(*r, *self),
    {
        match &*self.expr {
            Expr::Let(_, bound, val) => self.with_expr(Expr::Let(pat, bound.clone(), val.clone())),
            _ => unreached(),
        }
    }

    /// This `let` binding the value of `bound`.
    pub fn set_let_bound(&self, bound: Arc<ExprNode>) -> (r: Arc<Self>)
        requires
            *self.expr is Let,
        ensures
            *r.expr == Expr::Let((*self.expr)->Let_0, bound, (*self.expr)->Let_2),
            same_attrs(*r, *self),
    {
        match &*self.expr {
            Expr::Let(pat, _, val) => self.with_expr(Expr::Let(pat.clone(), bound, val.clone())),
            _ => unreached(),
        }
    }

    /// This `let` with `value` as the expression the binding is visible in.
    pub fn set_let_value(&self, value: Arc<ExprNode>) -> (r: Arc<Self>)
        requires
            *self.expr is Let,
        ensures
            *r.expr == Expr::Let((*self.expr)->Let_0, (*self.expr)->Let_1, value),
            same_attrs(*r, *self),
    {
        match &*self.expr {
            Expr::Let(pat, bound, _) => self.with_expr(Expr::Let(pat.clone(), bound.clone(), value)),
            _ => unreached(),
        }
    }

    /// The expression this `let` makes its binding visible in.
    pub fn get_let_value(&self) -> (r: Arc<Self>)
        requires
            *self.expr is Let,
        ensures
            r == (*self.expr)->Let_2,
    {
        match &*self.expr {
            Expr::Let(_, _, val) => val.clone(),
            _ => unreached(),
        }
    }

    /// This `if` testing `cond`.
    pub fn set_if_cond(&self, cond: Arc<ExprNode>) -> (r: Arc<Self>)
        requires
            *self.expr is If,
        ensures
            *r.expr == Expr::If(cond, (*self.expr)->If_1, (*self.expr)->If_2),
            same_attrs(*r, *self),
    {
        match &*self.expr {
            Expr::If(_, t, e) => self.with_expr(Expr::If(cond, t.clone(), e.clone())),
            _ => unreached(),
        }
    }

    /// This `if` with `then_expr` as the branch taken when the condition holds.
    pub fn set_if_then(&self, then_expr: Arc<ExprNode>) -> (r: Arc<Self>)
        requires
            *self.expr is If,
        ensures
            *r.expr == Expr::If((*self.expr)->If_0, then_expr, (*self.expr)->If_2),
            same_attrs(*r, *self),
    {
        match &*self.expr {
            Expr::If(c, _, e) => self.with_expr(Expr::If(c.clone(), then_expr, e.clone())),
            _ => unreached(),
        }
    }

    /// This `if` with `else_expr` as the branch taken when the condition fails.
    pub fn set_if_else(&self, else_expr: Arc<ExprNode>) -> (r: Arc<Self>)
        requires
            *self.expr is If,
        ensures
            *r.expr == Expr::If((*self.expr)->If_0, (*self.expr)->If_1, else_expr),
            same_attrs(*r, *self),
    {
        match &*self.expr {
            Expr::If(c, t, _) => self.with_expr(Expr::If(c.clone(), t.clone(), else_expr)),
            _ => unreached(),
        }
    }

    /// This annotation with `expr` as the expression annotated.
    pub fn set_tyanno_expr(&self, expr: Arc<ExprNode>) -> (r: Arc<Self>)
        requires
            *self.expr is TyAnno,
        ensures
            *r.expr == Expr::TyAnno(expr, (*self.expr)->TyAnno_1),
            same_attrs(*r, *self),
    {
        match &*self.expr {
            Expr::TyAnno(_, t) => self.with_expr(Expr::TyAnno(expr, t.clone())),
            _ => unreached(),
        }
    }

    /// This annotation with `ty` as the type written.
    pub fn set_tyanno_ty(&self, ty: Arc<TypeNode>) -> (r: Arc<Self>)
        requires
            *self.expr is TyAnno,
        ensures
            *r.expr == Expr::TyAnno((*self.expr)->TyAnno_0, ty),
            same_attrs(*r, *self),
    {
        match &*self.expr {
            Expr::TyAnno(e, _) => self.with_expr(Expr::TyAnno(e.clone(), ty)),
            _ => unreached(),
        }
    }

    /// This LLVM code replaced by `lit`.
    pub fn set_lit_lit(&self, lit: Arc<InlineLLVM>) -> (r: Arc<Self>)
        requires
            *self.expr is LLVM,
        ensures
            *r.expr == Expr::LLVM(lit),
            same_attrs(*r, *self),
    {
        self.with_expr(Expr::LLVM(lit))
    }

    /// This LLVM code replaced by `llvm`.
    pub fn set_llvm(&self, llvm: InlineLLVM) -> (r: Arc<ExprNode>)
        requires
            *self.expr is LLVM,
        ensures
            *r.expr == Expr::LLVM(Arc::new(llvm)),
            same_attrs(*r, *self),
    {
        self.with_expr(Expr::LLVM(Arc::new(llvm)))
    }

    /// The LLVM code this node is.
    pub fn get_llvm(&self) -> (r: Arc<InlineLLVM>)
        requires
            *self.expr is LLVM,
        ensures
            r == (*self.expr)->LLVM_0,
    {
        match &*self.expr {
            Expr::LLVM(llvm) => llvm.clone(),
            _ => unreached(),
        }
    }

    /// Whether this is LLVM code.
    pub fn is_llvm(&self) -> (r: bool)
        ensures
            r == (*self.expr is LLVM),
    {
        match &*self.expr {
            Expr::LLVM(_) => true,
            _ => false,
        }
    }

    /// This LLVM code recording `vars` as the variables it only borrows.
    pub fn set_llvm_borrowed_vars(&self, vars: Vec<FullName>) -> (r: Arc<ExprNode>)
        requires
            *self.expr is LLVM,
        ensures
            *r.expr is LLVM,
            (*r.expr)->LLVM_0.borrowed_vars@ == vars@,
            names_view((*r.expr)->LLVM_0.free_vars@) == names_view((*self.expr)->LLVM_0.free_vars@),
            (*r.expr)->LLVM_0.name == (*self.expr)->LLVM_0.name,
            (*r.expr)->LLVM_0.ty == (*self.expr)->LLVM_0.ty,
            same_attrs(*r, *self),
    {
        let llvm = self.get_llvm();
        let mut llvm: InlineLLVM = (*llvm).clone();
        llvm.borrowed_vars = vars;
        self.set_llvm(llvm)
    }
}

/// The fields `fs` with the expression of each field named `name` replaced by `e`.
pub open spec fn fields_set(fs: Seq<(Name, Arc<ExprNode>)>, name: Seq<char>, e: Arc<ExprNode>) -> Seq<
    (Name, Arc<ExprNode>),
> {
    fs.map_values(
        |f: (Name, Arc<ExprNode>)|
            if f.0@ == name {
                (f.0, e)
            } else {
                f
            },
    )
}

impl ExprNode {
    /// This struct construction building a value of `tc`.
    pub fn set_make_struct_tycon(&self, tc: Arc<TyCon>) -> (r: Arc<Self>)
        requires
            *self.expr is MakeStruct,
        ensures
            *r.expr is MakeStruct,
            (*r.expr)->MakeStruct_0 == tc,
            (*r.expr)->MakeStruct_1@ == (*self.expr)->MakeStruct_1@,
            same_attrs(*r, *self),
    {
        match &*self.expr {
            Expr::MakeStruct(_, fields) => self.with_expr(Expr::MakeStruct(tc, clone_field_exprs(fields))),
            _ => unreached(),
        }
    }

    /// This struct construction with `field_expr` as the expression of each field named
    /// `field_name`.
    pub fn set_make_struct_field(&self, field_name: &Name, field_expr: Arc<ExprNode>) -> (r: Arc<Self>)
        requires
            *self.expr is MakeStruct,
        ensures
            *r.expr is MakeStruct,
            (*r.expr)->MakeStruct_0 == (*self.expr)->MakeStruct_0,
            (*r.expr)->MakeStruct_1@ == fields_set((*self.expr)->MakeStruct_1@, field_name@, field_expr),
            same_attrs(*r, *self),
    {
        match &*self.expr {
            Expr::MakeStruct(tc, fields) => {
                let ghost fs = fields@;
                let mut out: Vec<(Name, Arc<ExprNode>)> = Vec::new();
                for i in 0..fields.len()
                    invariant
                        fs == fields@,
                        out@ == fields_set(fs.take(i as int), field_name@, field_expr),
                {
                    let (name, expr) = (&fields[i].0, &fields[i].1);
                    if *name == *field_name {
                        out.push((name.clone(), field_expr.clone()));
                    } else {
                        out.push((name.clone(), expr.clone()));
                    }
                    assert(out@ =~= fields_set(fs.take(i + 1), field_name@, field_expr));
                }
                assert(fs.take(fs.len() as int) =~= fs);
                self.with_expr(Expr::MakeStruct(tc.clone(), out))
            },
            _ => unreached(),
        }
    }

    /// This struct construction with `fields` as its fields.
    pub fn set_make_struct_fields(&self, fields: Vec<(Name, Arc<ExprNode>)>) -> (r: Arc<Self>)
        requires
            *self.expr is MakeStruct,
        ensures
            *r.expr is MakeStruct,
            (*r.expr)->MakeStruct_0 == (*self.expr)->MakeStruct_0,
            (*r.expr)->MakeStruct_1@ == fields@,
            same_attrs(*r, *self),
    {
        match &*self.expr {
            Expr::MakeStruct(tc, _) => self.with_expr(Expr::MakeStruct(tc.clone(), fields)),
            _ => unreached(),
        }
    }

    /// This array literal with `elem` as its element at `idx`.
    pub fn set_array_lit_elem(&self, elem: Arc<ExprNode>, idx: usize) -> (r: Arc<ExprNode>)
        requires
            *self.expr is ArrayLit,
            idx < (*self.expr)->ArrayLit_0@.len(),
        ensures
            *r.expr is ArrayLit,
            (*r.expr)->ArrayLit_0@ == (*self.expr)->ArrayLit_0@.update(idx as int, elem),
            same_attrs(*r, *self),
    {
        match &*self.expr {
            Expr::ArrayLit(elems) => {
                let mut elems = clone_arcs(elems);
                elems.set(idx, elem);
                self.with_expr(Expr::ArrayLit(elems))
            },
            _ => unreached(),
        }
    }

    /// This array literal with `elems` as its elements.
    pub fn set_array_lit_elems(&self, elems: Vec<Arc<ExprNode>>) -> (r: Arc<ExprNode>)
        requires
            *self.expr is ArrayLit,
        ensures
            *r.expr is ArrayLit,
            (*r.expr)->ArrayLit_0@ == elems@,
            same_attrs(*r, *self),
    {
        self.with_expr(Expr::ArrayLit(elems))
    }

    /// This foreign call with `arg` as its argument at `idx`.
    pub fn set_ffi_call_arg(&self, arg: Arc<ExprNode>, idx: usize) -> (r: Arc<ExprNode>)
        requires
            *self.expr is FFICall,
            idx < (*self.expr)->FFICall_3@.len(),
        ensures
            *r.expr is FFICall,
            (*r.expr)->FFICall_0 == (*self.expr)->FFICall_0,
            (*r.expr)->FFICall_1 == (*self.expr)->FFICall_1,
            (*r.expr)->FFICall_2@ == (*self.expr)->FFICall_2@,
            (*r.expr)->FFICall_3@ == (*self.expr)->FFICall_3@.update(idx as int, arg),
            (*r.expr)->FFICall_4 == (*self.expr)->FFICall_4,
            same_attrs(*r, *self),
    {
        match &*self.expr {
            Expr::FFICall(fun_name, ret_ty, param_tys, args, is_io) => {
                let mut args = clone_arcs(args);
                args.set(idx, arg);
                self.with_expr(
                    Expr::FFICall(fun_name.clone(), ret_ty.clone(), clone_arcs(param_tys), args, *is_io),
                )
            },
            _ => unreached(),
        }
    }

    /// This foreign call with `args` as its arguments.
    pub fn set_ffi_call_args(&self, args: Vec<Arc<ExprNode>>) -> (r: Arc<ExprNode>)
        requires
            *self.expr is FFICall,
        ensures
            *r.expr is FFICall,
            (*r.expr)->FFICall_0 == (*self.expr)->FFICall_0,
            (*r.expr)->FFICall_1 == (*self.expr)->FFICall_1,
            (*r.expr)->FFICall_2@ == (*self.expr)->FFICall_2@,
            (*r.expr)->FFICall_3@ == args@,
            (*r.expr)->FFICall_4 == (*self.expr)->FFICall_4,
            same_attrs(*r, *self),
    {
        match &*self.expr {
            Expr::FFICall(fun_name, ret_ty, param_tys, _, is_io) => self.with_expr(
                Expr::FFICall(fun_name.clone(), ret_ty.clone(), clone_arcs(param_tys), args, *is_io),
            ),
            _ => unreached(),
        }
    }
}

impl Expr {
    /// This expression written at `src`, with nothing learnt about it yet.
    pub fn into_expr_info(self: &Arc<Self>, src: Option<Span>) -> (r: Arc<ExprNode>)
        ensures
            r.expr == *self,
            r.free_vars is None,
            r.source == src,
            r.app_order == AppSourceCodeOrderType::FX,
            r.ty is None,
            r.released_params_indices is None,
    {
        Arc::new(
            ExprNode {
                expr: self.clone(),
                free_vars: None,
                source: src,
                app_order: AppSourceCodeOrderType::FX,
                ty: None,
                released_params_indices: None,
            },
        )
    }
}

/// Whether `r` is `e` written at `src`, with nothing learnt about it yet.
pub open spec fn fresh_node(r: ExprNode, e: Expr, src: Option<Span>) -> bool {
    &&& *r.expr == e
    &&& r.free_vars is None
    &&& r.source == src
    &&& r.app_order == AppSourceCodeOrderType::FX
    &&& r.ty is None
    &&& r.released_params_indices is None
}

/// LLVM code referring to `free_vars`, shown as `name`, of type `ty`, borrowing nothing, written
/// at `src`.
pub fn expr_llvm(free_vars: Vec<FullName>, name: String, ty: Arc<TypeNode>, src: Option<Span>) -> (r:
    Arc<ExprNode>)
    ensures
        *r.expr is LLVM,
        (*r.expr)->LLVM_0.free_vars == free_vars,
        (*r.expr)->LLVM_0.name == name,
        (*r.expr)->LLVM_0.ty == ty,
        (*r.expr)->LLVM_0.borrowed_vars@.len() == 0,
        r.free_vars is None,
        r.source == src,
        r.app_order == AppSourceCodeOrderType::FX,
        r.ty is None,
        r.released_params_indices is None,
{
    Arc::new(Expr::LLVM(Arc::new(InlineLLVM { free_vars, name, ty, borrowed_vars: Vec::new() })),
    ).into_expr_info(src)
}

/// `let pat = bound in expr`, written at `src`.
pub fn expr_let(pat: Arc<PatternNode>, bound: Arc<ExprNode>, expr: Arc<ExprNode>, src: Option<Span>) -> (r:
    Arc<ExprNode>)
    ensures
        fresh_node(*r, Expr::Let(pat, bound, expr), src),
{
    Arc::new(Expr::Let(pat, bound, expr)).into_expr_info(src)
}

/// The lambda of the parameters `vars` with body `val`, written at `src`.
pub fn expr_abs(vars: Vec<Arc<Var>>, val: Arc<ExprNode>, src: Option<Span>) -> (r: Arc<ExprNode>)
    ensures
        *r.expr is Lam,
        (*r.expr)->Lam_0@ == vars@,
        (*r.expr)->Lam_1 == val,
        r.free_vars is None,
        r.source == src,
        r.app_order == AppSourceCodeOrderType::FX,
        r.ty is None,
        r.released_params_indices is None,
{
    Arc::new(Expr::Lam(vars, val)).into_expr_info(src)
}

/// `e` under lambdas of one parameter each, binding the variables of `vars` in order: the
/// first is the outermost parameter.
pub open spec fn curried_lams(vars: Seq<Arc<Var>>, e: ExprNode) -> bool
    decreases vars.len(),
{
    if vars.len() == 0 {
        true
    } else {
        &&& *e.expr is Lam
        &&& (*e.expr)->Lam_0@ == seq![vars[0]]
        &&& e.source is None
        &&& curried_lams(vars.drop_first(), *(*e.expr)->Lam_1)
    }
}

/// The body under the lambdas of the `n` outermost parameters of `e`.
pub open spec fn lams_body(e: ExprNode, n: nat) -> ExprNode
    decreases n,
{
    if n == 0 {
        e
    } else {
        lams_body(*(*e.expr)->Lam_1, (n - 1) as nat)
    }
}

/// `val` under lambdas of one parameter for each variable of `vars`, the first the outermost.
pub fn expr_abs_many(vars: Vec<Arc<Var>>, val: Arc<ExprNode>) -> (r: Arc<ExprNode>)
    ensures
        curried_lams(vars@, *r),
        lams_body(*r, vars@.len()) == *val,
{
    let ghost all = vars@;
    let ghost orig = val;
    let mut vars = vars;
    let mut val = val;
    while vars.len() > 0
        invariant
            vars@ == all.take(vars@.len() as int),
            vars@.len() <= all.len(),
            curried_lams(all.skip(vars@.len() as int), *val),
            lams_body(*val, (all.len() - vars@.len()) as nat) == *orig,
        decreases vars@.len(),
    {
        let var = vars.pop().unwrap();
        let ghost k: int = vars@.len() as int;
        let ghost old_val = val;
        let mut one: Vec<Arc<Var>> = Vec::new();
        one.push(var);
        assert(one@ =~= seq![all.skip(k)[0]]);
        val = expr_abs(one, val, None);
        proof {
            assert(all.skip(k).drop_first() =~= all.skip(k + 1));
            assert(*(*val.expr)->Lam_1 == *old_val);
            assert((all.len() - k) as nat - 1 == (all.len() - (k + 1)) as nat);
        }
    }
    assert(all.skip(0) =~= all);
    val
}

/// `lam` applied to `args`, written at `src`.
pub fn expr_app(lam: Arc<ExprNode>, args: Vec<Arc<ExprNode>>, src: Option<Span>) -> (r: Arc<ExprNode>)
    ensures
        *r.expr is App,
        (*r.expr)->App_0 == lam,
        (*r.expr)->App_1@ == args@,
        r.free_vars is None,
        r.source == src,
        r.app_order == AppSourceCodeOrderType::FX,
        r.ty is None,
        r.released_params_indices is None,
{
    Arc::new(Expr::App(lam, args)).into_expr_info(src)
}

/// The variable `name`, written at `src`.
pub fn expr_var(name: FullName, src: Option<Span>) -> (r: Arc<ExprNode>)
    ensures
        *r.expr is Var,
        (*r.expr)->Var_0.name == name,
        r.free_vars is None,
        r.source == src,
        r.app_order == AppSourceCodeOrderType::FX,
        r.ty is None,
        r.released_params_indices is None,
{
    Arc::new(Expr::Var(var_var(name))).into_expr_info(src)
}

/// `if cond { then_expr } else { else_expr }`, written at `src`.
pub fn expr_if(cond: Arc<ExprNode>, then_expr: Arc<ExprNode>, else_expr: Arc<ExprNode>, src: Option<Span>) -> (r:
    Arc<ExprNode>)
    ensures
        fresh_node(*r, Expr::If(cond, then_expr, else_expr), src),
{
    Arc::new(Expr::If(cond, then_expr, else_expr)).into_expr_info(src)
}

/// `expr` annotated with the type `ty`, written at `src`.
pub fn expr_tyanno(expr: Arc<ExprNode>, ty: Arc<TypeNode>, src: Option<Span>) -> (r: Arc<ExprNode>)
    ensures
        fresh_node(*r, Expr::TyAnno(expr, ty), src),
{
    Arc::new(Expr::TyAnno(expr, ty)).into_expr_info(src)
}

/// The value of the struct `tc` built from `fields`, written nowhere.
pub fn expr_make_struct(tc: Arc<TyCon>, fields: Vec<(Name, Arc<ExprNode>)>) -> (r: Arc<ExprNode>)
    ensures
        *r.expr is MakeStruct,
        (*r.expr)->MakeStruct_0 == tc,
        (*r.expr)->MakeStruct_1@ == fields@,
        r.free_vars is None,
        r.source is None,
        r.app_order == AppSourceCodeOrderType::FX,
        r.ty is None,
        r.released_params_indices is None,
{
    Arc::new(Expr::MakeStruct(tc, fields)).into_expr_info(None)
}

/// The array literal of `elems`, written at `src`.
pub fn expr_array_lit(elems: Vec<Arc<ExprNode>>, src: Option<Span>) -> (r: Arc<ExprNode>)
    ensures
        *r.expr is ArrayLit,
        (*r.expr)->ArrayLit_0@ == elems@,
        r.free_vars is None,
        r.source == src,
        r.app_order == AppSourceCodeOrderType::FX,
        r.ty is None,
        r.released_params_indices is None,
{
    Arc::new(Expr::ArrayLit(elems)).into_expr_info(src)
}

/// A call of the foreign function `fun_name` with result type `ret_ty` and parameter types
/// `param_tys` on `args`, doing I/O where `is_io`, written at `src`.
pub fn expr_ffi_call(
    fun_name: Name,
    ret_ty: Arc<TyCon>,
    param_tys: Vec<Arc<TyCon>>,
    args: Vec<Arc<ExprNode>>,
    is_io: bool,
    src: Option<Span>,
) -> (r: Arc<ExprNode>)
    ensures
        *r.expr is FFICall,
        (*r.expr)->FFICall_0 == fun_name,
        (*r.expr)->FFICall_1 == ret_ty,
        (*r.expr)->FFICall_2@ == param_tys@,
        (*r.expr)->FFICall_3@ == args@,
        (*r.expr)->FFICall_4 == is_io,
        r.free_vars is None,
        r.source == src,
        r.app_order == AppSourceCodeOrderType::FX,
        r.ty is None,
        r.released_params_indices is None,
{
    Arc::new(Expr::FFICall(fun_name, ret_ty, param_tys, args, is_io)).into_expr_info(src)
}

/// The function an application chain applies: the innermost function of `f(x)(y)` is `f`; an
/// expression that is no application is its own.
pub open spec fn app_fun_node(n: ExprNode) -> ExprNode
    decreases n,
{
    match *n.expr {
        Expr::App(f, _) => app_fun_node(*f),
        _ => n,
    }
}

/// The arguments of an application chain, the innermost application's first: `f(x)(y, z)`
/// gives `[x, y, z]`.
pub open spec fn app_arg_nodes(n: ExprNode) -> Seq<Arc<ExprNode>>
    decreases n,
{
    match *n.expr {
        Expr::App(f, args) => app_arg_nodes(*f) + args@,
        _ => Seq::empty(),
    }
}

/// The function an application chain applies and all its arguments: `f(y)(z)` gives
/// `(f, [y, z])`.
pub fn collect_app(expr: &Arc<ExprNode>) -> (r: (Arc<ExprNode>, Vec<Arc<ExprNode>>))
    ensures
        *r.0 == app_fun_node(**expr),
        r.1@ == app_arg_nodes(**expr),
    decreases **expr,
{
    match &*expr.expr {
        Expr::App(fun, arg) => {
            let (fun, mut args) = collect_app(fun);
            let mut more = clone_arcs(arg);
            args.append(&mut more);
            (fun, args)
        },
        _ => (expr.clone(), Vec::new()),
    }
}

} // verus!
