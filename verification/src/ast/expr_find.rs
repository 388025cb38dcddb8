//! The node of an expression a position in a source file stands on.
use crate::ast::expr::{Expr, ExprNode};
use crate::ast::free_vars::{child, child_count, lemma_child_decreases, list_item, list_len};
use crate::ast::name::FullNameView;
use crate::ast::pattern::{pattern_end_view, pattern_part_at, PatternPart};
use crate::ast::program::EndNode;
use crate::ast::types::{end_node_part, part_at, tycon_key, TypeNode, TypePart};
use crate::source::{SourcePos, Span};
use std::sync::Arc;
use vstd::prelude::*;

verus! {

/// What a position in an expression stands on.
pub enum ExprPart {
    /// A variable, by its name, with the type inferred for it.
    Var(FullNameView, Option<Arc<TypeNode>>),
    /// A variable a `let` pattern binds, by its name, with the type its pattern carries.
    PatVar(FullNameView, Option<Arc<TypeNode>>),
    /// A type constructor or an associated type.
    Part(TypePart),
}

/// What the node `e` an expression gives stands on.
pub open spec fn expr_end_view(e: EndNode) -> Option<ExprPart> {
    match e {
        EndNode::Expr(n, t) => Some(ExprPart::Var(n@, t)),
        EndNode::Pattern(n, t) => Some(ExprPart::PatVar(n@, t)),
        _ => match end_node_part(e) {
            Some(p) => Some(ExprPart::Part(p)),
            None => None,
        },
    }
}

/// What a position in a pattern stands on, as a part of an expression.
pub open spec fn from_pattern(p: Option<PatternPart>) -> Option<ExprPart> {
    match p {
        Some(PatternPart::Var(n, t)) => Some(ExprPart::PatVar(n, t)),
        Some(PatternPart::Part(q)) => Some(ExprPart::Part(q)),
        None => None,
    }
}

/// What a position in a type stands on, as a part of an expression.
pub open spec fn from_type(p: Option<TypePart>) -> Option<ExprPart> {
    match p {
        Some(q) => Some(ExprPart::Part(q)),
        None => None,
    }
}

/// `a` where it is something, else `b`.
pub open spec fn first_of(a: Option<ExprPart>, b: Option<ExprPart>) -> Option<ExprPart> {
    if a is Some {
        a
    } else {
        b
    }
}

/// Whether the cursor at `pos` stands on a character of `src`.
pub open spec fn covers(src: Option<Span>, pos: SourcePos) -> bool {
    src matches Some(s) && s.file@ == pos.file@ && s.start <= pos.pos < s.end
}

/// What the smallest node of the expression `n` covering `pos` stands on, the parts searched in
/// the order they are written: a variable itself; nothing in LLVM code; in an application the
/// function, then the arguments; in a lambda its body; in a `let` the pattern, the bound
/// expression, then the rest; in an `if` the condition and the branches; in an annotation the
/// expression, then the type; in a struct construction the fields, then the struct's name; in
/// an array literal and a foreign call the elements or arguments.
pub open spec fn expr_part_at(n: ExprNode, pos: SourcePos) -> Option<ExprPart>
    decreases n, 1nat, 0int,
{
    if !covers(n.source, pos) {
        None
    } else {
        match *n.expr {
            Expr::Var(v) => Some(ExprPart::Var(v.name@, n.ty)),
            Expr::LLVM(_) => None,
            Expr::App(f, _) => first_of(expr_part_at(*f, pos), list_part_at(n, pos, 0)),
            Expr::Lam(_, b) => expr_part_at(*b, pos),
            Expr::Let(p, b, v) => first_of(
                from_pattern(pattern_part_at(*p, pos)),
                first_of(expr_part_at(*b, pos), expr_part_at(*v, pos)),
            ),
            Expr::If(c, t, e) => first_of(
                expr_part_at(*c, pos),
                first_of(expr_part_at(*t, pos), expr_part_at(*e, pos)),
            ),
            Expr::TyAnno(e, ty) => first_of(expr_part_at(*e, pos), from_type(part_at(*ty, pos))),
            Expr::MakeStruct(tc, _) => first_of(
                list_part_at(n, pos, 0),
                Some(ExprPart::Part(TypePart::TyCon(tycon_key(*tc)))),
            ),
            _ => list_part_at(n, pos, 0),
        }
    }
}

/// What the first of the listed parts of `n` from the `k`-th on whose search finds something
/// stands on.
pub open spec fn list_part_at(n: ExprNode, pos: SourcePos, k: int) -> Option<ExprPart>
    decreases n, 0nat, child_count(*n.expr) - k,
{
    if k < 0 || k >= child_count(*n.expr) {
        None
    } else {
        proof {
            lemma_child_decreases(n, k);
        }
        first_of(expr_part_at(*child(*n.expr, k), pos), list_part_at(n, pos, k + 1))
    }
}

impl ExprNode {
    /// The smallest node of this expression covering `pos`, for an expression read from a
    /// source file; see `expr_part_at`.
    pub fn find_node_at(self: &Arc<ExprNode>, pos: &SourcePos) -> (r: Option<EndNode>)
        ensures
            match r {
                None => expr_part_at(**self, *pos) is None,
                Some(e) => expr_end_view(e) == expr_part_at(**self, *pos) && expr_part_at(
                    **self,
                    *pos,
                ) is Some,
            },
        decreases **self, 1nat,
    {
        match &self.source {
            None => {
                return None;
            },
            Some(span) => {
                if !span.includes_pos(pos) {
                    return None;
                }
            },
        }
        match &*self.expr {
            Expr::Var(v) => Some(
                EndNode::Expr(
                    v.name.clone(),
                    match &self.ty {
                        Some(t) => Some(t.clone()),
                        None => None,
                    },
                ),
            ),
            Expr::LLVM(_) => None,
            Expr::App(func, _) => {
                let node = func.find_node_at(pos);
                if node.is_some() {
                    return node;
                }
                self.find_in_list(pos)
            },
            Expr::Lam(_, body) => body.find_node_at(pos),
            Expr::Let(pat, bound, val) => {
                let node = pat.find_node_at_pos(pos);
                if node.is_some() {
                    return node;
                }
                let node = bound.find_node_at(pos);
                if node.is_some() {
                    return node;
                }
                val.find_node_at(pos)
            },
            Expr::If(cond, then_expr, else_expr) => {
                let node = cond.find_node_at(pos);
                if node.is_some() {
                    return node;
                }
                let node = then_expr.find_node_at(pos);
                if node.is_some() {
                    return node;
                }
                else_expr.find_node_at(pos)
            },
            Expr::TyAnno(e, ty) => {
                let node = e.find_node_at(pos);
                if node.is_some() {
                    return node;
                }
                ty.find_node_at(pos)
            },
            Expr::MakeStruct(tc, _) => {
                let node = self.find_in_list(pos);
                if node.is_some() {
                    return node;
                }
                Some(EndNode::Type((**tc).clone()))
            },
            _ => self.find_in_list(pos),
        }
    }

    /// The node the first of the listed parts of this expression whose search finds one finds.
    fn find_in_list(self: &Arc<ExprNode>, pos: &SourcePos) -> (r: Option<EndNode>)
        ensures
            match r {
                None => list_part_at(**self, *pos, 0) is None,
                Some(e) => expr_end_view(e) == list_part_at(**self, *pos, 0) && list_part_at(
                    **self,
                    *pos,
                    0,
                ) is Some,
            },
        decreases **self, 0nat,
    {
        let ee: &ExprNode = &**self;
        let n = list_len(&self.expr);
        for i in 0..n
            invariant
                *ee == **self,
                n == child_count(*self.expr),
                list_part_at(**self, *pos, 0) == list_part_at(**self, *pos, i as int),
        {
            proof {
                lemma_child_decreases(*ee, i as int);
            }
            let node = list_item(&self.expr, i).find_node_at(pos);
            if node.is_some() {
                return node;
            }
        }
        None
    }
}

} // verus!
