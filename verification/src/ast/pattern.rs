//! Patterns: a variable, a struct taken apart field by field, or a union's variant, with the
//! checks the compiler runs over them.
use crate::ast::expr::Var;
use crate::ast::name::{fullname_text, ns_is_suffix_of, FullName, FullNameView, Name, NameSpace};
use crate::ast::program::EndNode;
use crate::ast::types::{
    absolute_names, end_node_part, type_text, tycon_text, name_made_absolute, part_at, touches, tycon_key, TyCon, TyConInfo, TypeNode, TypePart,
};
use crate::ast::type_env::{entry_lookup, TypeEnv};
use crate::builtin::{get_tuple_n, tuple_n};
use crate::error::Errors;
use crate::source::{clone_span_opt, SourcePos, Span};
use crate::strutil::{join, join_strings, strs, to_string};
use std::sync::Arc;
use vstd::prelude::*;

verus! {

broadcast use vstd::std_specs::vec::axiom_vec_index_decreases;

/// A pattern together with what the compiler learns about it.
pub struct PatternNode {
    /// The pattern.
    pub pattern: Pattern,
    /// Its type, where it is written, and where its parts are written.
    pub info: PatternInfo,
}

/// What the compiler learns about a pattern.
pub struct PatternInfo {
    /// The type of the values the pattern matches, once it is known.
    pub type_: Option<Arc<TypeNode>>,
    /// Where the pattern was written.
    pub source: Option<Span>,
    /// Where a part of it was written: for a struct pattern, the struct's name.
    pub aux_src: Option<Span>,
}

/// A pattern.
pub enum Pattern {
    /// A variable binding the whole value, with the type written for it, if any.
    Var(Arc<Var>, Option<Arc<TypeNode>>),
    /// A struct taken apart: a pattern for each field named, in the order written.
    Struct(Arc<TyCon>, Vec<(Name, Arc<PatternNode>)>),
    /// A variant of a union, and the pattern its value is matched against.
    Union(FullName, Arc<PatternNode>),
}

impl Clone for PatternInfo {
    fn clone(&self) -> (r: Self)
        ensures
            r == *self,
    {
        PatternInfo {
            type_: match &self.type_ {
                Some(t) => Some(t.clone()),
                None => None,
            },
            source: clone_span_opt(&self.source),
            aux_src: clone_span_opt(&self.aux_src),
        }
    }
}

/// The information of a pattern no one has learnt anything about yet.
pub open spec fn blank_info() -> PatternInfo {
    PatternInfo { type_: None, source: None, aux_src: None }
}

/// Whether the two patterns are alike: the same variable and annotation, the same struct and
/// field patterns, or the same variant and pattern.
pub open spec fn pattern_copy(a: Pattern, b: Pattern) -> bool {
    match (a, b) {
        (Pattern::Var(v1, t1), Pattern::Var(v2, t2)) => v1 == v2 && t1 == t2,
        (Pattern::Struct(c1, f1), Pattern::Struct(c2, f2)) => c1 == c2 && f1@ == f2@,
        (Pattern::Union(n1, p1), Pattern::Union(n2, p2)) => n1@ == n2@ && p1 == p2,
        _ => false,
    }
}

/// A copy of the field patterns `v`.
fn clone_field_pats(v: &Vec<(Name, Arc<PatternNode>)>) -> (r: Vec<(Name, Arc<PatternNode>)>)
    ensures
        r@ == v@,
{
    let mut r: Vec<(Name, Arc<PatternNode>)> = Vec::new();
    for i in 0..v.len()
        invariant
            r@ == v@.take(i as int),
    {
        r.push((v[i].0.clone(), v[i].1.clone()));
        assert(r@ =~= v@.take(i + 1));
    }
    assert(v@.take(v@.len() as int) =~= v@);
    r
}

impl Pattern {
    /// A copy of this pattern.
    pub fn copy(&self) -> (r: Pattern)
        ensures
            pattern_copy(r, *self),
    {
        match self {
            Pattern::Var(v, t) => Pattern::Var(
                v.clone(),
                match t {
                    Some(t) => Some(t.clone()),
                    None => None,
                },
            ),
            Pattern::Struct(tc, fields) => Pattern::Struct(tc.clone(), clone_field_pats(fields)),
            Pattern::Union(n, p) => Pattern::Union(n.clone(), p.clone()),
        }
    }

    /// The pattern binding `var` to the whole value, with no type written.
    pub fn var_pattern(var: Arc<Var>) -> (r: Arc<Pattern>)
        ensures
            *r == Pattern::Var(var, None),
    {
        Arc::new(Pattern::Var(var, None))
    }
}

/// A field's pattern is smaller than the struct pattern holding it.
pub proof fn lemma_field_pat_decreases(n: PatternNode, i: int)
    requires
        n.pattern is Struct,
        0 <= i < n.pattern->Struct_1@.len(),
    ensures
        decreases_to!(n => *n.pattern->Struct_1@[i].1),
{
    let v = n.pattern->Struct_1;
    assert(decreases_to!(v => v@[i]));
    assert(decreases_to!(n => n.pattern));
}

/// A field's pattern is smaller than the struct pattern holding it.
pub proof fn lemma_field_pattern_decreases(p: Pattern, i: int)
    requires
        p is Struct,
        0 <= i < p->Struct_1@.len(),
    ensures
        decreases_to!(p => p->Struct_1@[i].1.pattern),
{
    let v = p->Struct_1;
    assert(decreases_to!(v => v@[i]));
}

impl PatternNode {
    /// A copy of this pattern carrying the type annotation `tyanno`. The pattern is a variable.
    pub fn set_var_tyanno(&self, tyanno: Option<Arc<TypeNode>>) -> (r: Arc<PatternNode>)
        requires
            self.pattern is Var,
        ensures
            r.pattern == Pattern::Var(self.pattern->Var_0, tyanno),
            r.info == self.info,
    {
        match &self.pattern {
            Pattern::Var(v, _) => Arc::new(PatternNode { pattern: Pattern::Var(v.clone(), tyanno), info: self.info.clone() }),
            _ => unreached(),
        }
    }

    /// A copy of this pattern taking apart the struct `tc`. The pattern is a struct pattern.
    pub fn set_struct_tycon(&self, tc: Arc<TyCon>) -> (r: Arc<PatternNode>)
        requires
            self.pattern is Struct,
        ensures
            r.pattern is Struct,
            r.pattern->Struct_0 == tc,
            r.pattern->Struct_1@ == self.pattern->Struct_1@,
            r.info == self.info,
    {
        match &self.pattern {
            Pattern::Struct(_, fields) => Arc::new(PatternNode { pattern: Pattern::Struct(tc, clone_field_pats(fields)), info: self.info.clone() }),
            _ => unreached(),
        }
    }

    /// A copy of this pattern with `field_to_pat` as its field patterns. The pattern is a struct
    /// pattern.
    pub fn set_struct_field_to_pat(&self, field_to_pat: Vec<(Name, Arc<PatternNode>)>) -> (r: Arc<PatternNode>)
        requires
            self.pattern is Struct,
        ensures
            r.pattern == Pattern::Struct(self.pattern->Struct_0, field_to_pat),
            r.info == self.info,
    {
        match &self.pattern {
            Pattern::Struct(tc, _) => Arc::new(PatternNode { pattern: Pattern::Struct(tc.clone(), field_to_pat), info: self.info.clone() }),
            _ => unreached(),
        }
    }

    /// A copy of this pattern matching its variant's value against `pat`. The pattern is a
    /// union pattern.
    pub fn set_union_pat(&self, pat: Arc<PatternNode>) -> (r: Arc<PatternNode>)
        requires
            self.pattern is Union,
        ensures
            r.pattern is Union,
            r.pattern->Union_0@ == self.pattern->Union_0@,
            r.pattern->Union_1 == pat,
            r.info == self.info,
    {
        match &self.pattern {
            Pattern::Union(variant, _) => Arc::new(PatternNode { pattern: Pattern::Union(variant.clone(), pat), info: self.info.clone() }),
            _ => unreached(),
        }
    }

    /// The variant a union pattern matches. The pattern is a union pattern.
    pub fn get_union_variant(&self) -> (r: &FullName)
        requires
            self.pattern is Union,
        ensures
            *r == self.pattern->Union_0,
    {
        match &self.pattern {
            Pattern::Union(variant, _) => variant,
            _ => unreached(),
        }
    }

    /// Whether this is a union pattern.
    pub fn is_union(&self) -> (r: bool)
        ensures
            r == (self.pattern is Union),
    {
        match &self.pattern {
            Pattern::Union(_, _) => true,
            _ => false,
        }
    }

    /// Whether this is a variable pattern.
    pub fn is_var(&self) -> (r: bool)
        ensures
            r == (self.pattern is Var),
    {
        match &self.pattern {
            Pattern::Var(_, _) => true,
            _ => false,
        }
    }

    /// The variable a variable pattern binds. The pattern is a variable pattern.
    pub fn get_var(&self) -> (r: Arc<Var>)
        requires
            self.pattern is Var,
        ensures
            r == self.pattern->Var_0,
    {
        match &self.pattern {
            Pattern::Var(v, _) => v.clone(),
            _ => unreached(),
        }
    }

    /// A copy of this pattern written at `src`.
    pub fn set_source(&self, src: Span) -> (r: Arc<PatternNode>)
        ensures
            pattern_copy(r.pattern, self.pattern),
            r.info == (PatternInfo { source: Some(src), ..self.info }),
    {
        let mut info = self.info.clone();
        info.source = Some(src);
        Arc::new(PatternNode { pattern: self.pattern.copy(), info })
    }

    /// A copy of this pattern with `src` as where its part was written.
    pub fn set_aux_src(&self, src: Span) -> (r: Arc<PatternNode>)
        ensures
            pattern_copy(r.pattern, self.pattern),
            r.info == (PatternInfo { aux_src: Some(src), ..self.info }),
    {
        let mut info = self.info.clone();
        info.aux_src = Some(src);
        Arc::new(PatternNode { pattern: self.pattern.copy(), info })
    }

    /// A copy of this pattern matching values of the type `ty`.
    pub fn set_type(&self, ty: Arc<TypeNode>) -> (r: Arc<PatternNode>)
        ensures
            pattern_copy(r.pattern, self.pattern),
            r.info == (PatternInfo { type_: Some(ty), ..self.info }),
    {
        let mut info = self.info.clone();
        info.type_ = Some(ty);
        Arc::new(PatternNode { pattern: self.pattern.copy(), info })
    }

    /// The pattern binding `var`, annotated with `anno_ty` where it is given.
    pub fn make_var(var: Arc<Var>, anno_ty: Option<Arc<TypeNode>>) -> (r: Arc<PatternNode>)
        ensures
            r.pattern == Pattern::Var(var, anno_ty),
            r.info == blank_info(),
    {
        Arc::new(PatternNode { pattern: Pattern::Var(var, anno_ty), info: PatternInfo { type_: None, source: None, aux_src: None } })
    }

    /// The pattern taking apart the struct `tycon` by the field patterns `fields`.
    pub fn make_struct(tycon: Arc<TyCon>, fields: Vec<(Name, Arc<PatternNode>)>) -> (r: Arc<PatternNode>)
        ensures
            r.pattern == Pattern::Struct(tycon, fields),
            r.info == blank_info(),
    {
        Arc::new(PatternNode { pattern: Pattern::Struct(tycon, fields), info: PatternInfo { type_: None, source: None, aux_src: None } })
    }

    /// The pattern matching the variant `variant` and its value against `subpat`.
    pub fn make_union(variant: FullName, subpat: Arc<PatternNode>) -> (r: Arc<PatternNode>)
        ensures
            r.pattern == Pattern::Union(variant, subpat),
            r.info == blank_info(),
    {
        Arc::new(PatternNode { pattern: Pattern::Union(variant, subpat), info: PatternInfo { type_: None, source: None, aux_src: None } })
    }
}

/// The variables a pattern binds, left to right, each with the type its pattern carries.
pub open spec fn pat_vars_typed(n: PatternNode) -> Seq<(FullNameView, Option<Arc<TypeNode>>)>
    decreases n, 1nat,
{
    match n.pattern {
        Pattern::Var(v, _) => seq![(v.name@, n.info.type_)],
        Pattern::Struct(_, fs) => fields_vars_typed(n, fs@.len() as int),
        Pattern::Union(_, p) => pat_vars_typed(*p),
    }
}

/// The variables the first `k` field patterns of the struct pattern `n` bind, left to right.
pub open spec fn fields_vars_typed(n: PatternNode, k: int) -> Seq<(FullNameView, Option<Arc<TypeNode>>)>
    decreases n, 0nat, k,
{
    match n.pattern {
        Pattern::Struct(_, fs) => if k <= 0 || k > fs@.len() {
            Seq::empty()
        } else {
            fields_vars_typed(n, k - 1) + pat_vars_typed(*fs@[k - 1].1)
        },
        _ => Seq::empty(),
    }
}

/// What each pair of `v` is, the name by its view.
pub open spec fn typed_vars_view(v: Seq<(FullName, Option<Arc<TypeNode>>)>) -> Seq<(FullNameView, Option<Arc<TypeNode>>)> {
    v.map_values(|e: (FullName, Option<Arc<TypeNode>>)| (e.0@, e.1))
}

/// The names of the variables a pattern binds, left to right, with the repetitions.
pub open spec fn pattern_var_names(p: Pattern) -> Seq<(Seq<Seq<char>>, Seq<char>)>
    decreases p, 1nat,
{
    match p {
        Pattern::Var(v, _) => seq![(v.name@.namespace.names, v.name@.name)],
        Pattern::Struct(_, fs) => field_var_names(p, fs@.len() as int),
        Pattern::Union(_, n) => pattern_var_names(n.pattern),
    }
}

/// The names of the variables the first `k` field patterns of the struct pattern `p` bind.
pub open spec fn field_var_names(p: Pattern, k: int) -> Seq<(Seq<Seq<char>>, Seq<char>)>
    decreases p, 0nat, k,
{
    match p {
        Pattern::Struct(_, fs) => if k <= 0 || k > fs@.len() {
            Seq::empty()
        } else {
            field_var_names(p, k - 1) + pattern_var_names(fs@[k - 1].1.pattern)
        },
        _ => Seq::empty(),
    }
}

/// The key a full name is told apart by: its namespace's names and its own.
pub open spec fn name_key(f: FullNameView) -> (Seq<Seq<char>>, Seq<char>) {
    (f.namespace.names, f.name)
}

/// The keys of the names `v`.
pub open spec fn name_keys(v: Seq<FullName>) -> Seq<(Seq<Seq<char>>, Seq<char>)> {
    v.map_values(|f: FullName| name_key(f@))
}

/// Adds `name` to the names `names`, which holds each key once.
pub(crate) fn insert_fullname(names: &mut Vec<FullName>, name: &FullName)
    requires
        name_keys(old(names)@).no_duplicates(),
    ensures
        name_keys(final(names)@).no_duplicates(),
        name_keys(final(names)@).to_set() == name_keys(old(names)@).to_set().insert(name_key(name@)),
{
    let ghost before = names@;
    let ghost keys = name_keys(before);
    for i in 0..names.len()
        invariant
            names@ == before,
            keys == name_keys(before),
            keys.no_duplicates(),
            forall|j: int| 0 <= j < i ==> keys[j] != name_key(name@),
    {
        if names[i] == *name {
            assert(keys[i as int] == name_key(name@));
            assert(keys.to_set().contains(name_key(name@)));
            assert(keys.to_set().insert(name_key(name@)) =~= keys.to_set());
            return;
        }
    }
    names.push(name.clone());
    proof {
        let k = name_key(name@);
        assert(name_keys(names@) =~= keys.push(k));
        assert(!keys.contains(k)) by {
            if keys.contains(k) {
                let j = choose|j: int| 0 <= j < keys.len() && keys[j] == k;
                assert(keys[j] != k);
            }
        }
        keys.lemma_push_to_set_commute(k);
    }
}

impl Pattern {
    /// The number of variables this pattern binds, repetitions counted. The count fits in a
    /// `u32`.
    fn count_vars(&self) -> (r: u32)
        requires
            pattern_var_names(*self).len() <= u32::MAX,
        ensures
            r == pattern_var_names(*self).len(),
        decreases self,
    {
        match self {
            Pattern::Var(_, _) => 1,
            Pattern::Struct(_, field_to_pat) => {
                let mut ret: u32 = 0;
                for i in 0..field_to_pat.len()
                    invariant
                        *self == Pattern::Struct(self->Struct_0, *field_to_pat),
                        pattern_var_names(*self).len() <= u32::MAX,
                        ret == field_var_names(*self, i as int).len(),
                {
                    proof {
                        lemma_field_pattern_decreases(*self, i as int);
                        lemma_field_var_names_grow(*self, i + 1, field_to_pat@.len() as int);
                    }
                    ret = ret + field_to_pat[i].1.pattern.count_vars();
                }
                ret
            },
            Pattern::Union(_, pat) => pat.pattern.count_vars(),
        }
    }

    /// The names of the variables this pattern binds, each once.
    pub fn vars(&self) -> (r: Vec<FullName>)
        ensures
            name_keys(r@).no_duplicates(),
            name_keys(r@).to_set() == pattern_var_names(*self).to_set(),
        decreases self,
    {
        match self {
            Pattern::Var(var, _) => {
                let mut r: Vec<FullName> = Vec::new();
                r.push(var.name.clone());
                proof {
                    assert(name_keys(r@) =~= pattern_var_names(*self));
                }
                r
            },
            Pattern::Struct(_, pats) => {
                let mut ret: Vec<FullName> = Vec::new();
                proof {
                    assert(name_keys(ret@) =~= Seq::empty());
                    assert(field_var_names(*self, 0) =~= Seq::empty());
                }
                for i in 0..pats.len()
                    invariant
                        *self == Pattern::Struct(self->Struct_0, *pats),
                        name_keys(ret@).no_duplicates(),
                        name_keys(ret@).to_set() == field_var_names(*self, i as int).to_set(),
                {
                    proof {
                        lemma_field_pattern_decreases(*self, i as int);
                    }
                    let sub = pats[i].1.pattern.vars();
                    let ghost before = name_keys(ret@).to_set();
                    for j in 0..sub.len()
                        invariant
                            name_keys(ret@).no_duplicates(),
                            name_keys(ret@).to_set() == before + name_keys(sub@.take(j as int)).to_set(),
                    {
                        insert_fullname(&mut ret, &sub[j]);
                        proof {
                            assert(name_keys(sub@.take(j + 1)) =~= name_keys(sub@.take(j as int)).push(name_key(sub@[j as int]@)));
                            name_keys(sub@.take(j as int)).lemma_push_to_set_commute(name_key(sub@[j as int]@));
                            assert(name_keys(ret@).to_set() =~= before + name_keys(sub@.take(j + 1)).to_set());
                        }
                    }
                    proof {
                        assert(sub@.take(sub@.len() as int) =~= sub@);
                        let a = field_var_names(*self, i as int);
                        let pn: &PatternNode = &*pats@[i as int].1;
                        let b = pattern_var_names(pn.pattern);
                        assert((a + b).to_set() =~= a.to_set() + b.to_set()) by {
                            assert forall|x| #[trigger] (a + b).to_set().contains(x) <==> (a.to_set() + b.to_set()).contains(x) by {
                                if (a + b).contains(x) {
                                    let k = choose|k: int| 0 <= k < (a + b).len() && (a + b)[k] == x;
                                    if k < a.len() {
                                        assert(a[k] == x);
                                    } else {
                                        assert(b[k - a.len()] == x);
                                    }
                                }
                                if a.contains(x) {
                                    let k = choose|k: int| 0 <= k < a.len() && a[k] == x;
                                    assert((a + b)[k] == x);
                                }
                                if b.contains(x) {
                                    let k = choose|k: int| 0 <= k < b.len() && b[k] == x;
                                    assert((a + b)[k + a.len()] == x);
                                }
                            }
                        }
                    }
                }
                ret
            },
            Pattern::Union(_, pat) => pat.pattern.vars(),
        }
    }

    /// Whether some variable is bound twice in this pattern, as in `(x, x)`. The number of
    /// variables fits in a `u32`.
    pub fn has_duplicate_vars(&self) -> (r: bool)
        requires
            pattern_var_names(*self).len() <= u32::MAX,
        ensures
            r == !pattern_var_names(*self).no_duplicates(),
    {
        let vars = self.vars();
        let count = self.count_vars();
        proof {
            let keys = pattern_var_names(*self);
            let vk = name_keys(vars@);
            vk.unique_seq_to_set();
            keys.lemma_cardinality_of_set();
            if keys.no_duplicates() {
                keys.unique_seq_to_set();
            } else {
                lemma_dup_set_smaller(keys);
            }
            assert(vk.len() == vars@.len());
        }
        (vars.len() as u32) < count
    }
}

/// A sequence holding some element twice has fewer distinct elements than it has elements.
proof fn lemma_dup_set_smaller<A>(s: Seq<A>)
    requires
        !s.no_duplicates(),
    ensures
        s.to_set().len() < s.len(),
    decreases s.len(),
{
    let (i, j) = choose|i: int, j: int| 0 <= i < s.len() && 0 <= j < s.len() && i != j && s[i] == s[j];
    let last = s.last();
    let init = s.drop_last();
    init.lemma_cardinality_of_set();
    assert(s =~= init.push(last));
    init.lemma_push_to_set_commute(last);
    if init.contains(last) {
        assert(init.to_set().insert(last) =~= init.to_set());
    } else {
        assert(!init.no_duplicates()) by {
            assert(i != s.len() - 1 && j != s.len() - 1) by {
                if i == s.len() - 1 {
                    assert(init[j] == last);
                }
                if j == s.len() - 1 {
                    assert(init[i] == last);
                }
            }
            assert(init[i] == init[j]);
        }
        lemma_dup_set_smaller(init);
    }
}

/// Counting the variables of more field patterns never counts fewer.
proof fn lemma_field_var_names_grow(p: Pattern, k: int, l: int)
    requires
        p is Struct,
        0 <= k <= l <= p->Struct_1@.len(),
    ensures
        field_var_names(p, k).len() <= field_var_names(p, l).len(),
    decreases l - k,
{
    if k < l {
        lemma_field_var_names_grow(p, k, l - 1);
    }
}

impl PatternNode {
    /// The variables this pattern binds, left to right, each with the type its pattern carries.
    pub fn vars_with_types(&self) -> (r: Vec<(FullName, Option<Arc<TypeNode>>)>)
        ensures
            typed_vars_view(r@) == pat_vars_typed(*self),
        decreases self,
    {
        match &self.pattern {
            Pattern::Var(var, _) => {
                let mut r: Vec<(FullName, Option<Arc<TypeNode>>)> = Vec::new();
                let t = match &self.info.type_ {
                    Some(t) => Some(t.clone()),
                    None => None,
                };
                r.push((var.name.clone(), t));
                proof {
                    assert(typed_vars_view(r@) =~= pat_vars_typed(*self));
                }
                r
            },
            Pattern::Struct(_, pats) => {
                let mut ret: Vec<(FullName, Option<Arc<TypeNode>>)> = Vec::new();
                proof {
                    assert(typed_vars_view(ret@) =~= Seq::empty());
                }
                for i in 0..pats.len()
                    invariant
                        self.pattern == Pattern::Struct(self.pattern->Struct_0, *pats),
                        typed_vars_view(ret@) == fields_vars_typed(*self, i as int),
                {
                    proof {
                        lemma_field_pat_decreases(*self, i as int);
                    }
                    let mut sub = pats[i].1.vars_with_types();
                    let ghost before = ret@;
                    let ghost subv = sub@;
                    ret.append(&mut sub);
                    proof {
                        assert(typed_vars_view(ret@) =~= typed_vars_view(before) + typed_vars_view(subv));
                    }
                }
                ret
            },
            Pattern::Union(_, pat) => pat.vars_with_types(),
        }
    }
}


/// What a position in a pattern stands on.
pub enum PatternPart {
    /// A type constructor or an associated type written in the pattern.
    Part(TypePart),
    /// A variable the pattern binds, with the type its pattern carries.
    Var(FullNameView, Option<Arc<TypeNode>>),
}

/// What the node `e` stands on, for a node a pattern gives.
pub open spec fn pattern_end_view(e: EndNode) -> Option<PatternPart> {
    match e {
        EndNode::Pattern(n, t) => Some(PatternPart::Var(n@, t)),
        _ => match end_node_part(e) {
            Some(p) => Some(PatternPart::Part(p)),
            None => None,
        },
    }
}

/// What the smallest node of the pattern `n` touching `pos` stands on: in a variable, its type
/// annotation before the variable; in a struct pattern, the field patterns in order before the
/// struct's name; in a union pattern, only its pattern.
pub open spec fn pattern_part_at(n: PatternNode, pos: SourcePos) -> Option<PatternPart>
    decreases n, 1nat,
{
    if !touches(n.info.source, pos) {
        None
    } else {
        match n.pattern {
            Pattern::Var(v, ty) => match ty {
                Some(t) => match part_at(*t, pos) {
                    Some(p) => Some(PatternPart::Part(p)),
                    None => Some(PatternPart::Var(v.name@, n.info.type_)),
                },
                None => Some(PatternPart::Var(v.name@, n.info.type_)),
            },
            Pattern::Struct(tc, _) => match field_pats_part_at(n, pos, 0) {
                Some(p) => Some(p),
                None => Some(PatternPart::Part(TypePart::TyCon(tycon_key(*tc)))),
            },
            Pattern::Union(_, sub) => pattern_part_at(*sub, pos),
        }
    }
}

/// What the first of the field patterns of the struct pattern `n` from the `k`-th on that
/// touches `pos` stands on.
pub open spec fn field_pats_part_at(n: PatternNode, pos: SourcePos, k: int) -> Option<PatternPart>
    decreases n, 0nat, n.pattern->Struct_1@.len() - k,
{
    match n.pattern {
        Pattern::Struct(_, fs) => if k < 0 || k >= fs@.len() {
            None
        } else {
            match pattern_part_at(*fs@[k].1, pos) {
                Some(p) => Some(p),
                None => field_pats_part_at(n, pos, k + 1),
            }
        },
        _ => None,
    }
}

impl PatternNode {
    /// The smallest node of this pattern touching `pos`, for a pattern read from a source file.
    pub fn find_node_at_pos(&self, pos: &SourcePos) -> (r: Option<EndNode>)
        ensures
            match r {
                None => pattern_part_at(*self, *pos) is None,
                Some(e) => pattern_end_view(e) == pattern_part_at(*self, *pos)
                    && pattern_part_at(*self, *pos) is Some,
            },
        decreases self,
    {
        match &self.info.source {
            None => {
                return None;
            },
            Some(span) => {
                if !span.includes_pos_lsp(pos) {
                    return None;
                }
            },
        }
        match &self.pattern {
            Pattern::Var(v, ty) => {
                match ty {
                    Some(t) => {
                        let node = t.find_node_at(pos);
                        if node.is_some() {
                            return node;
                        }
                    },
                    None => {},
                }
                let t = match &self.info.type_ {
                    Some(t) => Some(t.clone()),
                    None => None,
                };
                Some(EndNode::Pattern(v.name.clone(), t))
            },
            Pattern::Struct(tc, field_to_pat) => {
                let mut i: usize = 0;
                while i < field_to_pat.len()
                    invariant
                        self.pattern == Pattern::Struct(*tc, *field_to_pat),
                        i <= field_to_pat@.len(),
                        field_pats_part_at(*self, *pos, 0) == field_pats_part_at(*self, *pos, i as int),
                        touches(self.info.source, *pos),
                    decreases field_to_pat@.len() - i,
                {
                    proof {
                        lemma_field_pat_decreases(*self, i as int);
                    }
                    let res = field_to_pat[i].1.find_node_at_pos(pos);
                    proof {
                        let sub: PatternNode = *field_to_pat@[i as int].1;
                        assert(field_pats_part_at(*self, *pos, i as int) == match pattern_part_at(sub, *pos) {
                            Some(p) => Some(p),
                            None => field_pats_part_at(*self, *pos, i + 1),
                        });
                    }
                    if res.is_some() {
                        return res;
                    }
                    i = i + 1;
                }
                Some(EndNode::Type((**tc).clone()))
            },
            Pattern::Union(_, subpat) => subpat.find_node_at_pos(pos),
        }
    }
}


/// Whether the pattern `r` is `n` with every name written in it spelled as an absolute path:
/// the variables, the types written for them, the structs' names and the variants.
pub open spec fn pattern_absolute(r: PatternNode, n: PatternNode) -> bool
    decreases n, 1nat,
{
    &&& r.info == n.info
    &&& match n.pattern {
        Pattern::Var(v, ty) => r.pattern is Var && name_made_absolute(r.pattern->Var_0.name@, v.name@)
            && match ty {
            None => r.pattern->Var_1 is None,
            Some(t) => r.pattern->Var_1 is Some && absolute_names(*r.pattern->Var_1->0, *t),
        },
        Pattern::Struct(tc, fs) => r.pattern is Struct && name_made_absolute(
            r.pattern->Struct_0.name@,
            tc.name@,
        ) && r.pattern->Struct_1@.len() == fs@.len() && fields_absolute(
            r.pattern->Struct_1@,
            n,
            fs@.len() as int,
        ),
        Pattern::Union(vn, sub) => r.pattern is Union && name_made_absolute(r.pattern->Union_0@, vn@)
            && pattern_absolute(*r.pattern->Union_1, *sub),
    }
}

/// `pattern_absolute` of the first `k` field patterns of the struct pattern `n` against `rs`,
/// the fields' names kept.
pub open spec fn fields_absolute(rs: Seq<(Name, Arc<PatternNode>)>, n: PatternNode, k: int) -> bool
    decreases n, 0nat, k,
{
    match n.pattern {
        Pattern::Struct(_, fs) => if k <= 0 || k > fs@.len() {
            true
        } else {
            fields_absolute(rs, n, k - 1) && rs[k - 1].0@ == fs@[k - 1].0@ && pattern_absolute(
                *rs[k - 1].1,
                *fs@[k - 1].1,
            )
        },
        _ => true,
    }
}

/// `fields_absolute` up to `k` reads only the first `k` converted field patterns.
proof fn lemma_fields_absolute_prefix(
    before: Seq<(Name, Arc<PatternNode>)>,
    after: Seq<(Name, Arc<PatternNode>)>,
    n: PatternNode,
    k: int,
)
    requires
        n.pattern is Struct,
        0 <= k <= before.len(),
        k <= after.len(),
        k <= n.pattern->Struct_1@.len(),
        forall|j: int| 0 <= j < k ==> after[j] == before[j],
        fields_absolute(before, n, k),
    ensures
        fields_absolute(after, n, k),
    decreases k,
{
    if k > 0 {
        lemma_fields_absolute_prefix(before, after, n, k - 1);
    }
}

impl PatternNode {
    /// This pattern with every name written in it spelled as an absolute path, so that it names
    /// the same entities from any namespace.
    pub fn global_to_absolute(&self) -> (r: Arc<PatternNode>)
        ensures
            pattern_absolute(*r, *self),
        decreases self,
    {
        let info = self.info.clone();
        match &self.pattern {
            Pattern::Var(v, ty) => {
                let new_v = v.global_to_absolute();
                let new_ty = match ty {
                    Some(t) => Some(t.global_to_absolute()),
                    None => None,
                };
                Arc::new(PatternNode { pattern: Pattern::Var(new_v, new_ty), info })
            },
            Pattern::Struct(tc, field_to_pat) => {
                let new_tc = tc.global_to_absolute();
                let mut new_fields: Vec<(Name, Arc<PatternNode>)> = Vec::new();
                let mut i: usize = 0;
                while i < field_to_pat.len()
                    invariant
                        self.pattern == Pattern::Struct(*tc, *field_to_pat),
                        i <= field_to_pat@.len(),
                        new_fields@.len() == i,
                        fields_absolute(new_fields@, *self, i as int),
                    decreases field_to_pat@.len() - i,
                {
                    proof {
                        lemma_field_pat_decreases(*self, i as int);
                    }
                    let p = field_to_pat[i].1.global_to_absolute();
                    let ghost before = new_fields@;
                    new_fields.push((field_to_pat[i].0.clone(), p));
                    proof {
                        lemma_fields_absolute_prefix(before, new_fields@, *self, i as int);
                    }
                    i = i + 1;
                }
                Arc::new(PatternNode { pattern: Pattern::Struct(new_tc, new_fields), info })
            },
            Pattern::Union(variant_name, subpat) => {
                let mut new_variant_name = variant_name.clone();
                new_variant_name.global_to_absolute();
                let new_subpat = subpat.global_to_absolute();
                Arc::new(PatternNode { pattern: Pattern::Union(new_variant_name, new_subpat), info })
            },
        }
    }
}


/// Whether every one-element tuple pattern in `p` has a pattern for its element.
pub open spec fn one_tuples_ok(p: Pattern) -> bool
    decreases p, 1nat,
{
    match p {
        Pattern::Var(_, _) => true,
        Pattern::Struct(tc, fs) => (tuple_n(tycon_key(*tc)) == Some(1nat) ==> fs@.len() >= 1)
            && fields_one_tuples_ok(p, fs@.len() as int),
        Pattern::Union(_, sub) => one_tuples_ok(sub.pattern),
    }
}

/// `one_tuples_ok` of the first `k` field patterns of the struct pattern `p`.
pub open spec fn fields_one_tuples_ok(p: Pattern, k: int) -> bool
    decreases p, 0nat, k,
{
    match p {
        Pattern::Struct(_, fs) => if k <= 0 || k > fs@.len() {
            true
        } else {
            fields_one_tuples_ok(p, k - 1) && one_tuples_ok(fs@[k - 1].1.pattern)
        },
        _ => true,
    }
}

/// What `fields_one_tuples_ok` up to `k` says of a field pattern below `k`.
proof fn lemma_fields_one_tuples_ok(p: Pattern, k: int, i: int)
    requires
        p is Struct,
        0 <= i < k <= p->Struct_1@.len(),
        fields_one_tuples_ok(p, k),
    ensures
        one_tuples_ok(p->Struct_1@[i].1.pattern),
    decreases k,
{
    if i < k - 1 {
        lemma_fields_one_tuples_ok(p, k - 1, i);
    }
}

/// A pattern written in source syntax: a variable with the type written for it after `: `, a
/// tuple as `(a, b)` or `(a,)`, another struct as `S {x: a, y: b}`, a union's variant as
/// `V(a)`. With `with_type`, each pattern is followed by its type in angle brackets, or by
/// `<na>` where none is known.
pub open spec fn pattern_text(p: Pattern, with_type: bool) -> Seq<char>
    decreases p, 1nat, 0nat,
{
    match p {
        Pattern::Var(v, t) => fullname_text(v.name@) + match t {
            Some(t) => ": "@ + type_text(*t),
            None => Seq::empty(),
        },
        Pattern::Struct(tc, fs) => match tuple_n(tycon_key(*tc)) {
            Some(n) => if n == 1 {
                "("@ + field_texts(p, with_type, false, 1)[0] + ",)"@
            } else {
                "("@ + join(field_texts(p, with_type, false, fs@.len() as int), ", "@) + ")"@
            },
            None => tycon_text(*tc) + " {"@ + join(
                field_texts(p, with_type, true, fs@.len() as int),
                ", "@,
            ) + "}"@,
        },
        Pattern::Union(vn, sub) => fullname_text(vn@) + "("@ + node_text(*sub, with_type) + ")"@,
    }
}

/// The texts of the first `k` field patterns of the struct pattern `p`, each after its field's
/// name and `: ` where `named`.
pub open spec fn field_texts(p: Pattern, with_type: bool, named: bool, k: int) -> Seq<Seq<char>>
    decreases p, 0nat, k,
{
    match p {
        Pattern::Struct(_, fs) => if k <= 0 || k > fs@.len() {
            Seq::empty()
        } else {
            field_texts(p, with_type, named, k - 1).push(
                if named {
                    fs@[k - 1].0@ + ": "@ + node_text(*fs@[k - 1].1, with_type)
                } else {
                    node_text(*fs@[k - 1].1, with_type)
                },
            )
        },
        _ => Seq::empty(),
    }
}

/// The pattern of `n` written in source syntax, followed, with `with_type`, by its type in angle
/// brackets, or by `<na>` where none is known.
pub open spec fn node_text(n: PatternNode, with_type: bool) -> Seq<char>
    decreases n, 0nat, 0nat,
{
    if with_type {
        pattern_text(n.pattern, with_type) + "<"@ + match n.info.type_ {
            Some(t) => type_text(*t),
            None => "na"@,
        } + ">"@
    } else {
        pattern_text(n.pattern, with_type)
    }
}

/// The texts of the first `k` field patterns: `k` of them, each that of its field pattern.
proof fn lemma_field_texts(p: Pattern, with_type: bool, named: bool, k: int)
    requires
        p is Struct,
        0 <= k <= p->Struct_1@.len(),
    ensures
        field_texts(p, with_type, named, k).len() == k,
        forall|j: int| 0 <= j < k ==> #[trigger] field_texts(p, with_type, named, k)[j] == if named {
            p->Struct_1@[j].0@ + ": "@ + node_text(*p->Struct_1@[j].1, with_type)
        } else {
            node_text(*p->Struct_1@[j].1, with_type)
        },
    decreases k,
{
    if k > 0 {
        lemma_field_texts(p, with_type, named, k - 1);
    }
}

impl Pattern {
    /// This pattern written in source syntax.
    pub fn to_string(&self) -> (r: String)
        requires
            one_tuples_ok(*self),
        ensures
            r@ == pattern_text(*self, false),
    {
        self.to_string_internal(false)
    }

    /// This pattern written in source syntax, each part followed by its type where `with_type`.
    fn to_string_internal(&self, with_type: bool) -> (r: String)
        requires
            one_tuples_ok(*self),
        ensures
            r@ == pattern_text(*self, with_type),
        decreases self, 1nat,
    {
        match self {
            Pattern::Var(v, t) => {
                let mut ret = v.name.to_string();
                match t {
                    Some(t) => {
                        ret.append(": ");
                        let ts = t.to_string();
                        ret.append(ts.as_str());
                    },
                    None => {},
                }
                proof {
                    reveal_strlit(": ");
                }
                ret
            },
            Pattern::Struct(tc, fields) => {
                let tn = get_tuple_n(&tc.name);
                let named = tn.is_none();
                let mut pats: Vec<String> = Vec::new();
                proof {
                    assert(strs(pats@) =~= field_texts(*self, with_type, named, 0));
                }
                for i in 0..fields.len()
                    invariant
                        *self == Pattern::Struct(*tc, *fields),
                        one_tuples_ok(*self),
                        strs(pats@) == field_texts(*self, with_type, named, i as int),
                {
                    proof {
                        lemma_field_pattern_decreases(*self, i as int);
                        lemma_fields_one_tuples_ok(*self, fields@.len() as int, i as int);
                    }
                    let sub = fields[i].1.to_string_internal(with_type);
                    let text = if named {
                        let mut t = fields[i].0.clone();
                        t.append(": ");
                        t.append(sub.as_str());
                        proof {
                            reveal_strlit(": ");
                        }
                        t
                    } else {
                        sub
                    };
                    let ghost before = pats@;
                    pats.push(text);
                    proof {
                        assert(strs(pats@) =~= strs(before).push(text@));
                    }
                }
                proof {
                    lemma_field_texts(*self, with_type, named, fields@.len() as int);
                    if fields@.len() >= 1 {
                        lemma_field_texts(*self, with_type, named, 1);
                    }
                }
                match tn {
                    Some(n) => {
                        if n == 1 {
                            let mut ret = to_string("(");
                            ret.append(pats[0].as_str());
                            ret.append(",)");
                            proof {
                                reveal_strlit("(");
                                reveal_strlit(",)");
                                assert(strs(pats@)[0] == pats@[0]@);
                            }
                            ret
                        } else {
                            let mut ret = to_string("(");
                            let body = join_strings(&pats, ", ");
                            ret.append(body.as_str());
                            ret.append(")");
                            proof {
                                reveal_strlit("(");
                                reveal_strlit(")");
                            }
                            ret
                        }
                    },
                    None => {
                        let mut ret = tc.to_string();
                        ret.append(" {");
                        let body = join_strings(&pats, ", ");
                        ret.append(body.as_str());
                        ret.append("}");
                        proof {
                            reveal_strlit(" {");
                            reveal_strlit("}");
                        }
                        ret
                    },
                }
            },
            Pattern::Union(variant, pat) => {
                let mut ret = variant.to_string();
                ret.append("(");
                let sub = pat.to_string_internal(with_type);
                ret.append(sub.as_str());
                ret.append(")");
                proof {
                    reveal_strlit("(");
                    reveal_strlit(")");
                }
                ret
            },
        }
    }
}

impl PatternNode {
    /// The pattern written in source syntax, followed by its type where `with_type`.
    fn to_string_internal(&self, with_type: bool) -> (r: String)
        requires
            one_tuples_ok(self.pattern),
        ensures
            r@ == node_text(*self, with_type),
        decreases self, 0nat,
    {
        let pat_str = self.pattern.to_string_internal(with_type);
        if with_type {
            let mut ret = pat_str;
            ret.append("<");
            match &self.info.type_ {
                Some(t) => {
                    let ts = t.to_string();
                    ret.append(ts.as_str());
                },
                None => {
                    ret.append("na");
                },
            }
            ret.append(">");
            proof {
                reveal_strlit("<");
                reveal_strlit("na");
                reveal_strlit(">");
            }
            ret
        } else {
            pat_str
        }
    }

    /// The pattern written in source syntax.
    pub fn to_string(&self) -> (r: String)
        requires
            one_tuples_ok(self.pattern),
        ensures
            r@ == node_text(*self, false),
    {
        self.to_string_internal(false)
    }

    /// The pattern written in source syntax, each part followed by its type in angle brackets.
    pub fn to_string_with_type(&self) -> (r: String)
        requires
            one_tuples_ok(self.pattern),
        ensures
            r@ == node_text(*self, true),
    {
        self.to_string_internal(true)
    }
}


/// What the renaming `m` maps the name with key `key` to: the new name of its first entry with
/// that key from the `i`-th on, if any.
pub open spec fn rename_lookup(m: Seq<(FullName, FullName)>, key: (Seq<Seq<char>>, Seq<char>), i: int) -> Option<FullNameView>
    decreases m.len() - i,
{
    if i < 0 || i >= m.len() {
        None
    } else if name_key(m[i].0@) == key {
        Some(m[i].1@)
    } else {
        rename_lookup(m, key, i + 1)
    }
}

/// The new name the renaming `rename` gives `name`, if it gives one.
fn rename_get(rename: &Vec<(FullName, FullName)>, name: &FullName) -> (r: Option<FullName>)
    ensures
        match r {
            Some(x) => rename_lookup(rename@, name_key(name@), 0) == Some(x@),
            None => rename_lookup(rename@, name_key(name@), 0) is None,
        },
{
    let mut i: usize = 0;
    while i < rename.len()
        invariant
            i <= rename@.len(),
            rename_lookup(rename@, name_key(name@), 0) == rename_lookup(rename@, name_key(name@), i as int),
        decreases rename@.len() - i,
    {
        if rename[i].0 == *name {
            return Some(rename[i].1.clone());
        }
        i = i + 1;
    }
    None
}

/// Whether the pattern `r` is `n` with each variable it binds renamed as `m` says, and the rest
/// kept.
pub open spec fn pattern_renamed(r: PatternNode, n: PatternNode, m: Seq<(FullName, FullName)>) -> bool
    decreases n, 1nat,
{
    &&& r.info == n.info
    &&& match n.pattern {
        Pattern::Var(v, t) => r.pattern is Var && r.pattern->Var_1 == t && match rename_lookup(
            m,
            name_key(v.name@),
            0,
        ) {
            Some(x) => r.pattern->Var_0.name@ == x,
            None => r.pattern->Var_0 == v,
        },
        Pattern::Struct(tc, fs) => r.pattern is Struct && r.pattern->Struct_0 == tc
            && r.pattern->Struct_1@.len() == fs@.len() && fields_renamed(
            r.pattern->Struct_1@,
            n,
            m,
            fs@.len() as int,
        ),
        Pattern::Union(vn, sub) => r.pattern is Union && r.pattern->Union_0@ == vn@
            && pattern_renamed(*r.pattern->Union_1, *sub, m),
    }
}

/// `pattern_renamed` of the first `k` field patterns of the struct pattern `n` against `rs`, the
/// fields' names kept.
pub open spec fn fields_renamed(rs: Seq<(Name, Arc<PatternNode>)>, n: PatternNode, m: Seq<(FullName, FullName)>, k: int) -> bool
    decreases n, 0nat, k,
{
    match n.pattern {
        Pattern::Struct(_, fs) => if k <= 0 || k > fs@.len() {
            true
        } else {
            fields_renamed(rs, n, m, k - 1) && rs[k - 1].0@ == fs@[k - 1].0@ && pattern_renamed(
                *rs[k - 1].1,
                *fs@[k - 1].1,
                m,
            )
        },
        _ => true,
    }
}

/// `fields_renamed` up to `k` reads only the first `k` renamed field patterns.
proof fn lemma_fields_renamed_prefix(
    before: Seq<(Name, Arc<PatternNode>)>,
    after: Seq<(Name, Arc<PatternNode>)>,
    n: PatternNode,
    m: Seq<(FullName, FullName)>,
    k: int,
)
    requires
        n.pattern is Struct,
        0 <= k <= before.len(),
        k <= after.len(),
        k <= n.pattern->Struct_1@.len(),
        forall|j: int| 0 <= j < k ==> after[j] == before[j],
        fields_renamed(before, n, m, k),
    ensures
        fields_renamed(after, n, m, k),
    decreases k,
{
    if k > 0 {
        lemma_fields_renamed_prefix(before, after, n, m, k - 1);
    }
}

impl PatternNode {
    /// This pattern with each variable it binds renamed as `rename` says: a variable takes the
    /// new name of the first entry of `rename` whose old name is its own, and keeps its name
    /// where there is none.
    pub fn rename_by_map(&self, rename: &Vec<(FullName, FullName)>) -> (r: Arc<PatternNode>)
        ensures
            pattern_renamed(*r, *self, rename@),
        decreases self,
    {
        let info = self.info.clone();
        match &self.pattern {
            Pattern::Var(v, t) => {
                let new_v = match rename_get(rename, &v.name) {
                    Some(new_name) => v.set_name(new_name),
                    None => v.clone(),
                };
                let t = match t {
                    Some(t) => Some(t.clone()),
                    None => None,
                };
                Arc::new(PatternNode { pattern: Pattern::Var(new_v, t), info })
            },
            Pattern::Struct(tc, fields) => {
                let mut new_fields: Vec<(Name, Arc<PatternNode>)> = Vec::new();
                let mut i: usize = 0;
                while i < fields.len()
                    invariant
                        self.pattern == Pattern::Struct(*tc, *fields),
                        i <= fields@.len(),
                        new_fields@.len() == i,
                        fields_renamed(new_fields@, *self, rename@, i as int),
                    decreases fields@.len() - i,
                {
                    proof {
                        lemma_field_pat_decreases(*self, i as int);
                    }
                    let p = fields[i].1.rename_by_map(rename);
                    let ghost before = new_fields@;
                    new_fields.push((fields[i].0.clone(), p));
                    proof {
                        lemma_fields_renamed_prefix(before, new_fields@, *self, rename@, i as int);
                    }
                    i = i + 1;
                }
                Arc::new(PatternNode { pattern: Pattern::Struct(tc.clone(), new_fields), info })
            },
            Pattern::Union(variant, pat) => {
                let p = pat.rename_by_map(rename);
                Arc::new(PatternNode { pattern: Pattern::Union(variant.clone(), p), info })
            },
        }
    }

    /// This union pattern with its variant checked against the union `cond_tycon` declared by
    /// `cond_ti`, and written under the union's full name. A variant whose path is not a tail of
    /// the union's name, or that names no variant of the union, is reported.
    pub fn validate_variant_name(&self, cond_tycon: &TyCon, cond_ti: &TyConInfo) -> (r: Result<Arc<PatternNode>, Errors>)
        requires
            self.pattern is Union,
        ensures
            ({
                let variant = self.pattern->Union_0;
                let ns = crate::ast::name::NameSpaceView {
                    names: cond_tycon.name@.namespace.names.push(cond_tycon.name@.name),
                    is_absolute: cond_tycon.name@.namespace.is_absolute,
                };
                let ok = ns_is_suffix_of(variant@.namespace, ns) && exists|i: int|
                    0 <= i < cond_ti.fields@.len() && #[trigger] cond_ti.fields@[i].name@
                        == variant@.name;
                match r {
                    Ok(p) => ok && p.info == self.info && p.pattern is Union
                        && p.pattern->Union_1 == self.pattern->Union_1
                        && p.pattern->Union_0@ == (FullNameView { namespace: ns, name: variant@.name }),
                    Err(e) => !ok && e.errs@.len() == 1 && e.errs@[0].srcs@ == seq![self.info.source]
                        && e.errs@[0].msg@ == "`"@ + fullname_text(variant@)
                        + "` is not a variant of union `"@ + fullname_text(cond_tycon.name@)
                        + "`."@,
                }
            }),
    {
        let name_space = cond_tycon.name.to_namespace();
        match &self.pattern {
            Pattern::Union(variant, subpat) => {
                let is_ns_ok = variant.namespace.is_suffix_of(&name_space);
                let mut is_name_ok = false;
                let mut i: usize = 0;
                while i < cond_ti.fields.len()
                    invariant
                        i <= cond_ti.fields@.len(),
                        is_name_ok == exists|j: int| 0 <= j < i && #[trigger] cond_ti.fields@[j].name@
                            == variant@.name,
                    decreases cond_ti.fields@.len() - i,
                {
                    if cond_ti.fields[i].name == variant.name {
                        is_name_ok = true;
                    }
                    i = i + 1;
                }
                if !is_ns_ok || !is_name_ok {
                    let mut msg = to_string("`");
                    let vs = variant.to_string();
                    msg.append(vs.as_str());
                    msg.append("` is not a variant of union `");
                    let ts = cond_tycon.name.to_string();
                    msg.append(ts.as_str());
                    msg.append("`.");
                    proof {
                        reveal_strlit("`");
                        reveal_strlit("` is not a variant of union `");
                        reveal_strlit("`.");
                    }
                    return Err(Errors::from_msg_src(msg, clone_span_opt(&self.info.source)));
                }
                let mut variant = variant.clone();
                variant.namespace = name_space;
                Ok(Arc::new(PatternNode { pattern: Pattern::Union(variant, subpat.clone()), info: self.info.clone() }))
            },
            _ => unreached(),
        }
    }
}


/// The names of the variants the union patterns among the first `k` of `pats` name.
pub open spec fn covered_variants(pats: Seq<Arc<PatternNode>>, k: int) -> Set<Seq<char>>
    decreases k,
{
    if k <= 0 {
        Set::empty()
    } else {
        let c = covered_variants(pats, k - 1);
        match pats[k - 1].pattern {
            Pattern::Union(v, _) => c.insert(v@.name),
            _ => c,
        }
    }
}

/// The names of the fields of `fields`.
pub open spec fn field_names(fields: Seq<crate::ast::typedecl::Field>) -> Seq<Seq<char>> {
    fields.map_values(|f: crate::ast::typedecl::Field| f.name@)
}

/// Whether the `i`-th of `pats` is a union pattern whose variant is none of `fields`, or one an
/// earlier case already covers.
pub open spec fn bad_case(pats: Seq<Arc<PatternNode>>, fields: Seq<crate::ast::typedecl::Field>, i: int) -> bool {
    pats[i].pattern is Union && ({
        let name = pats[i].pattern->Union_0@.name;
        !field_names(fields).contains(name) || covered_variants(pats, i).contains(name)
    })
}

/// The first `k` of the names `names`, each once, those in `covered` left out.
pub open spec fn uncovered(names: Seq<Seq<char>>, covered: Set<Seq<char>>, k: int) -> Seq<Seq<char>>
    decreases k,
{
    if k <= 0 {
        Seq::empty()
    } else {
        let r = uncovered(names, covered, k - 1);
        let x = names[k - 1];
        if covered.contains(x) || r.contains(x) {
            r
        } else {
            r.push(x)
        }
    }
}

/// The report that the variants `rest` of the union `tc` are not covered by a `match`.
pub open spec fn uncovered_message(rest: Seq<Seq<char>>, tc: TyCon) -> Seq<char> {
    if rest.len() == 1 {
        "Variant `"@ + rest[0] + "` of union `"@ + tycon_text(tc) + "` is not covered."@
    } else {
        "Variants "@ + join(rest.map_values(|x: Seq<char>| "`"@ + x + "`"@), ", "@) + " of union `"@
            + tycon_text(tc) + "` are not covered."@
    }
}

impl Pattern {
    /// Checks that the cases `pats` of a `match` on a value of the union `cond_tc` declared by
    /// `cond_ti` cover every variant: a case that is not a union pattern covers all of them. A
    /// union pattern naming no variant of the union, or one an earlier case covered, is
    /// reported, the first such one; otherwise, the variants left uncovered are reported, in the
    /// order they are declared, at the `match`.
    pub fn validate_match_cases_exhaustiveness(
        cond_tc: &TyCon,
        cond_ti: &TyConInfo,
        match_src: &Option<Span>,
        pats: &Vec<Arc<PatternNode>>,
    ) -> (r: Result<(), Errors>)
        ensures
            ({
                let fields = cond_ti.fields@;
                let names = field_names(fields);
                let n = pats@.len() as int;
                let rest = uncovered(names, covered_variants(pats@, n), names.len() as int);
                let otherwise = exists|i: int| 0 <= i < n && !(#[trigger] pats@[i].pattern is Union);
                match r {
                    Ok(()) => (forall|i: int| 0 <= i < n ==> !#[trigger] bad_case(pats@, fields, i))
                        && (otherwise || rest.len() == 0),
                    Err(e) => e.errs@.len() == 1 && ((exists|i: int|
                        0 <= i < n && bad_case(pats@, fields, i) && (forall|j: int|
                            0 <= j < i ==> !#[trigger] bad_case(pats@, fields, j))
                            && e.errs@[0].srcs@ == seq![pats@[i].info.source]
                            && e.errs@[0].msg@ == "`"@ + fullname_text(pats@[i].pattern->Union_0@)
                            + "` is not a variant of union `"@ + tycon_text(*cond_tc) + "`."@)
                        || ((forall|i: int| 0 <= i < n ==> !#[trigger] bad_case(pats@, fields, i))
                        && !otherwise && rest.len() > 0 && e.errs@[0].srcs@ == seq![*match_src]
                        && e.errs@[0].msg@ == uncovered_message(rest, *cond_tc))),
                }
            }),
    {
        let ghost fields = cond_ti.fields@;
        let ghost names = field_names(fields);
        let mut covered: Vec<Name> = Vec::new();
        let mut found_otherwise = false;
        let mut i: usize = 0;
        while i < pats.len()
            invariant
                fields == cond_ti.fields@,
                names == field_names(fields),
                i <= pats@.len(),
                strs(covered@).to_set() == covered_variants(pats@, i as int),
                forall|j: int| 0 <= j < i ==> !#[trigger] bad_case(pats@, fields, j),
                found_otherwise == exists|j: int| 0 <= j < i && !(#[trigger] pats@[j].pattern is Union),
            decreases pats@.len() - i,
        {
            match &pats[i].pattern {
                Pattern::Union(variant, _) => {
                    let mut in_fields = false;
                    let mut k: usize = 0;
                    while k < cond_ti.fields.len()
                        invariant
                            fields == cond_ti.fields@,
                            names == field_names(fields),
                            k <= fields.len(),
                            in_fields == exists|j: int| 0 <= j < k && #[trigger] names[j] == variant@.name,
                        decreases fields.len() - k,
                    {
                        assert(names[k as int] == cond_ti.fields@[k as int].name@);
                        if cond_ti.fields[k].name == variant.name {
                            in_fields = true;
                        }
                        k = k + 1;
                    }
                    let mut in_covered = false;
                    let mut k: usize = 0;
                    while k < covered.len()
                        invariant
                            k <= covered@.len(),
                            in_covered == exists|j: int| 0 <= j < k && #[trigger] covered@[j]@ == variant@.name,
                        decreases covered@.len() - k,
                    {
                        if covered[k] == variant.name {
                            in_covered = true;
                        }
                        k = k + 1;
                    }
                    proof {
                        assert(in_fields == names.contains(variant@.name));
                        assert(in_covered == strs(covered@).contains(variant@.name)) by {
                            if in_covered {
                                let j = choose|j: int| 0 <= j < covered@.len() && #[trigger] covered@[j]@ == variant@.name;
                                assert(strs(covered@)[j] == variant@.name);
                            }
                            if strs(covered@).contains(variant@.name) {
                                let j = choose|j: int| 0 <= j < strs(covered@).len() && strs(covered@)[j] == variant@.name;
                                assert(covered@[j]@ == variant@.name);
                            }
                        }
                    }
                    if !in_fields || in_covered {
                        let mut msg = to_string("`");
                        let vs = variant.to_string();
                        msg.append(vs.as_str());
                        msg.append("` is not a variant of union `");
                        let ts = cond_tc.to_string();
                        msg.append(ts.as_str());
                        msg.append("`.");
                        proof {
                            reveal_strlit("`");
                            reveal_strlit("` is not a variant of union `");
                            reveal_strlit("`.");
                            assert(bad_case(pats@, fields, i as int));
                        }
                        return Err(Errors::from_msg_src(msg, clone_span_opt(&pats[i].info.source)));
                    }
                    let ghost before = covered@;
                    covered.push(variant.name.clone());
                    proof {
                        assert(strs(covered@) =~= strs(before).push(variant@.name));
                        strs(before).lemma_push_to_set_commute(variant@.name);
                    }
                },
                _ => {
                    found_otherwise = true;
                },
            }
            i = i + 1;
        }
        if found_otherwise {
            return Ok(());
        }
        let ghost cov = covered_variants(pats@, pats@.len() as int);
        let mut rest: Vec<Name> = Vec::new();
        let mut k: usize = 0;
        while k < cond_ti.fields.len()
            invariant
                fields == cond_ti.fields@,
                names == field_names(fields),
                k <= fields.len(),
                strs(covered@).to_set() == cov,
                strs(rest@) == uncovered(names, cov, k as int),
            decreases fields.len() - k,
        {
            let name = &cond_ti.fields[k].name;
            let mut seen = false;
            let mut j: usize = 0;
            while j < covered.len()
                invariant
                    j <= covered@.len(),
                    seen == exists|l: int| 0 <= l < j && #[trigger] covered@[l]@ == name@,
                decreases covered@.len() - j,
            {
                if covered[j] == *name {
                    seen = true;
                }
                j = j + 1;
            }
            let mut j: usize = 0;
            while j < rest.len()
                invariant
                    j <= rest@.len(),
                    seen ==> (exists|l: int| 0 <= l < covered@.len() && #[trigger] covered@[l]@ == name@)
                        || (exists|l: int| 0 <= l < rest@.len() && #[trigger] rest@[l]@ == name@),
                    !seen ==> (forall|l: int| 0 <= l < covered@.len() ==> #[trigger] covered@[l]@ != name@)
                        && (forall|l: int| 0 <= l < j ==> #[trigger] rest@[l]@ != name@),
                decreases rest@.len() - j,
            {
                if rest[j] == *name {
                    seen = true;
                }
                j = j + 1;
            }
            proof {
                let x = names[k as int];
                assert(x == name@);
                let sc = strs(covered@);
                let sr = strs(rest@);
                assert(seen == (cov.contains(x) || sr.contains(x))) by {
                    if seen {
                        if exists|l: int| 0 <= l < covered@.len() && #[trigger] covered@[l]@ == name@ {
                            let l = choose|l: int| 0 <= l < covered@.len() && #[trigger] covered@[l]@ == name@;
                            assert(sc[l] == x);
                            assert(sc.contains(x));
                        } else {
                            let l = choose|l: int| 0 <= l < rest@.len() && #[trigger] rest@[l]@ == name@;
                            assert(sr[l] == x);
                        }
                    } else {
                        if sc.contains(x) {
                            let l = choose|l: int| 0 <= l < sc.len() && sc[l] == x;
                            assert(covered@[l]@ == x);
                        }
                        if sr.contains(x) {
                            let l = choose|l: int| 0 <= l < sr.len() && sr[l] == x;
                            assert(rest@[l]@ == x);
                        }
                    }
                }
            }
            if !seen {
                let ghost before = rest@;
                rest.push(name.clone());
                proof {
                    assert(strs(rest@) =~= strs(before).push(name@));
                }
            }
            k = k + 1;
        }
        proof {
            assert(fields.len() == names.len());
        }
        if rest.len() == 0 {
            return Ok(());
        }
        let msg = if rest.len() == 1 {
            let mut msg = to_string("Variant `");
            msg.append(rest[0].as_str());
            msg.append("` of union `");
            let ts = cond_tc.to_string();
            msg.append(ts.as_str());
            msg.append("` is not covered.");
            proof {
                reveal_strlit("Variant `");
                reveal_strlit("` of union `");
                reveal_strlit("` is not covered.");
                assert(strs(rest@)[0] == rest@[0]@);
            }
            msg
        } else {
            let mut quoted: Vec<String> = Vec::new();
            let mut j: usize = 0;
            while j < rest.len()
                invariant
                    j <= rest@.len(),
                    quoted@.len() == j,
                    forall|l: int| 0 <= l < j ==> #[trigger] quoted@[l]@ == "`"@ + rest@[l]@ + "`"@,
                decreases rest@.len() - j,
            {
                let mut q = to_string("`");
                q.append(rest[j].as_str());
                q.append("`");
                proof {
                    reveal_strlit("`");
                }
                quoted.push(q);
                j = j + 1;
            }
            let mut msg = to_string("Variants ");
            let body = join_strings(&quoted, ", ");
            msg.append(body.as_str());
            msg.append(" of union `");
            let ts = cond_tc.to_string();
            msg.append(ts.as_str());
            msg.append("` are not covered.");
            proof {
                reveal_strlit("Variants ");
                reveal_strlit(" of union `");
                reveal_strlit("` are not covered.");
                assert(strs(quoted@) =~= strs(rest@).map_values(|x: Seq<char>| "`"@ + x + "`"@));
            }
            msg
        };
        Err(Errors::from_msg_src(msg, clone_span_opt(match_src)))
    }
}


impl Pattern {
    /// For a variant's full name: its index among the variants of its union, the union, and
    /// the union's declaration, which `type_env` holds, with a variant of that name.
    pub fn get_variant_info<'b>(variant_name: &FullName, type_env: &'b TypeEnv) -> (r: (usize, TyCon, &'b TyConInfo))
        requires
            variant_name@.namespace.names.len() > 0,
            entry_lookup(
                type_env.tycon_entries(),
                (variant_name@.namespace.names.drop_last(), variant_name@.namespace.names.last()),
            ) matches Some(ti) && exists|j: int| 0 <= j < ti.fields@.len() && #[trigger] ti.fields@[j].name@ == variant_name@.name,
        ensures
            tycon_key(r.1) == (variant_name@.namespace.names.drop_last(), variant_name@.namespace.names.last()),
            entry_lookup(type_env.tycon_entries(), tycon_key(r.1)) == Some(*r.2),
            r.0 < r.2.fields@.len(),
            r.2.fields@[r.0 as int].name@ == variant_name@.name,
            forall|j: int| 0 <= j < r.0 ==> (#[trigger] r.2.fields@[j]).name@ != variant_name@.name,
    {
        let tc = TyCon { name: variant_name.namespace.clone().to_fullname() };
        let ti = type_env.get_tycon(&tc).unwrap();
        let mut i: usize = 0;
        while i < ti.fields.len()
            invariant
                i <= ti.fields@.len(),
                tycon_key(tc) == (variant_name@.namespace.names.drop_last(), variant_name@.namespace.names.last()),
                entry_lookup(type_env.tycon_entries(), tycon_key(tc)) == Some(*ti),
                exists|j: int| 0 <= j < ti.fields@.len() && #[trigger] ti.fields@[j].name@ == variant_name@.name,
                forall|j: int| 0 <= j < i ==> (#[trigger] ti.fields@[j]).name@ != variant_name@.name,
            decreases ti.fields@.len() - i,
        {
            if ti.fields[i].name == variant_name.name {
                return (i, tc, ti);
            }
            i = i + 1;
        }
        unreached()
    }
}

} // verus!
