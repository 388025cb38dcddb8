//! `import` statements: the module a statement brings in, the items it takes from that module,
//! and the items it keeps out; which names they make accessible; and how a statement grows to
//! reach one name more.
use crate::ast::name::{FullName, FullNameView, Name, NameSpace, NameSpaceView};
use crate::ast::program::EndNode;
use crate::constants::{spec_std_name, std_name};
use crate::order::{key_views, lemma_sort_order_len, sort_order, stable_sort};
use crate::source::{clone_span_opt, SourcePos, Span};
use crate::strutil::{clone_strings, strs, to_string};
use std::sync::Arc;
use vstd::prelude::*;

verus! {

broadcast use vstd::std_specs::vec::axiom_vec_index_decreases;

/// An `import` statement: the module it brings in, the items it takes from that module, and the
/// items it keeps out.
pub struct ImportStatement {
    /// The module the statement is written in.
    pub importer: Name,
    /// The imported module's name.
    pub module_name: Name,
    /// Where the token naming the imported module was written; the imports the compiler adds
    /// carry none.
    pub module_span: Option<Span>,
    /// The items brought in, each as one path under the imported module.
    pub items: Vec<ImportTreeNode>,
    /// The items the `hiding` clause keeps out, even where `items` covers them.
    pub hiding: Vec<ImportTreeNode>,
    /// Where the whole statement was written; a statement the compiler added carries none.
    pub source: Option<Span>,
    /// Whether the compiler added the statement rather than the source.
    pub implicit: bool,
}

/// A node of the tree an import path spells out under the imported module, as `Lib::{f, Ns::g}`
/// does, with where the token naming it was written.
pub enum ImportTreeNode {
    /// The `*` of `import Lib::*`, standing for every item of the namespace the node sits in.
    Any(Option<Span>),
    /// A value's name.
    Symbol(Name, Option<Span>),
    /// A type's or a trait's name.
    TypeOrTrait(Name, Option<Span>),
    /// A namespace's name, and the items taken from within it.
    NameSpace(Name, Vec<ImportTreeNode>, Option<Span>),
}

/// An item an import statement names, with where the token naming it was written.
pub enum ImportItem {
    /// A value's name.
    Symbol(FullName, Option<Span>),
    /// A type's or a trait's name.
    TypeOrTrait(FullName, Option<Span>),
    /// A namespace, every item of which the statement names.
    NameSpace(NameSpace, Option<Span>),
}

/// What an item an import statement names is: its kind, its path as texts, and where it was
/// written.
pub enum ImportItemView {
    /// A value's name.
    Symbol(FullNameView, Option<Span>),
    /// A type's or a trait's name.
    TypeOrTrait(FullNameView, Option<Span>),
    /// A namespace.
    NameSpace(NameSpaceView, Option<Span>),
}

impl View for ImportItem {
    type V = ImportItemView;

    open spec fn view(&self) -> ImportItemView {
        match self {
            ImportItem::Symbol(f, s) => ImportItemView::Symbol(f@, *s),
            ImportItem::TypeOrTrait(f, s) => ImportItemView::TypeOrTrait(f@, *s),
            ImportItem::NameSpace(n, s) => ImportItemView::NameSpace(n@, *s),
        }
    }
}

/// Whether the tree `node` covers the name `name` written under the path `path`, both read
/// relative to the namespace the node sits in: `*` covers everything, a value's or a type's node
/// covers its own name written with no path, and a namespace's node covers what one of its items
/// covers under the rest of a path that begins with the namespace's name.
pub open spec fn tree_covers(node: ImportTreeNode, path: Seq<Seq<char>>, name: Seq<char>) -> bool
    decreases node, 1nat,
{
    match node {
        ImportTreeNode::Any(_) => true,
        ImportTreeNode::Symbol(n, _) => path.len() == 0 && name == n@,
        ImportTreeNode::TypeOrTrait(n, _) => path.len() == 0 && name == n@,
        ImportTreeNode::NameSpace(ns, items, _) => {
            &&& path.len() > 0
            &&& path[0] == ns@
            &&& inner_covers(node, path.drop_first(), name, items@.len() as int)
        },
    }
}

/// Whether one of the first `k` items of the namespace's node `node` covers `name` written under
/// `path`.
pub open spec fn inner_covers(node: ImportTreeNode, path: Seq<Seq<char>>, name: Seq<char>, k: int) -> bool
    decreases node, 0nat, k,
{
    match node {
        ImportTreeNode::NameSpace(_, items, _) => if k <= 0 || k > items@.len() {
            false
        } else {
            inner_covers(node, path, name, k - 1) || tree_covers(items@[k - 1], path, name)
        },
        _ => false,
    }
}

/// One of the first `k` items of a namespace's node covers a name exactly where some item among
/// them does.
pub proof fn lemma_inner_covers(node: ImportTreeNode, path: Seq<Seq<char>>, name: Seq<char>, k: int)
    requires
        node is NameSpace,
        0 <= k <= node->NameSpace_1@.len(),
    ensures
        inner_covers(node, path, name, k) <==> exists|i: int|
            0 <= i < k && #[trigger] tree_covers(node->NameSpace_1@[i], path, name),
    decreases k,
{
    let items = node->NameSpace_1@;
    if k > 0 {
        lemma_inner_covers(node, path, name, k - 1);
        if inner_covers(node, path, name, k) {
            if inner_covers(node, path, name, k - 1) {
                let i = choose|i: int| 0 <= i < k - 1 && #[trigger] tree_covers(items[i], path, name);
                assert(0 <= i < k && tree_covers(items[i], path, name));
            } else {
                assert(tree_covers(items[k - 1], path, name));
            }
        }
        if exists|i: int| 0 <= i < k && #[trigger] tree_covers(items[i], path, name) {
            let i = choose|i: int| 0 <= i < k && #[trigger] tree_covers(items[i], path, name);
            if i < k - 1 {
                assert(inner_covers(node, path, name, k - 1));
            }
        }
    }
}

/// Whether one of the trees `items` covers the name `name` written under `path`.
pub open spec fn trees_cover(items: Seq<ImportTreeNode>, path: Seq<Seq<char>>, name: Seq<char>) -> bool {
    exists|i: int| 0 <= i < items.len() && #[trigger] tree_covers(items[i], path, name)
}

/// Whether the statement `s` makes the global name `name` accessible: the name lies in the
/// imported module, an item of the statement covers it, and the `hiding` clause leaves it in.
pub open spec fn stmt_covers(s: ImportStatement, name: FullNameView) -> bool {
    &&& name.namespace.names.len() > 0
    &&& name.namespace.names[0] == s.module_name@
    &&& !trees_cover(s.hiding@, name.namespace.names.drop_first(), name.name)
    &&& trees_cover(s.items@, name.namespace.names.drop_first(), name.name)
}

/// Whether one of the statements `stmts` makes `name` accessible.
pub open spec fn stmts_cover(stmts: Seq<ImportStatement>, name: FullNameView) -> bool {
    exists|i: int| 0 <= i < stmts.len() && #[trigger] stmt_covers(stmts[i], name)
}

/// Whether the statements `stmts` make `name` accessible in the module they are written in.
/// `name` is a global name: it lies in a module.
pub fn is_accessible(stmts: &[ImportStatement], name: &FullName) -> (r: bool)
    requires
        name@.namespace.names.len() > 0,
    ensures
        r == stmts_cover(stmts@, name@),
{
    for i in 0..stmts.len()
        invariant
            name@.namespace.names.len() > 0,
            forall|j: int| 0 <= j < i ==> !#[trigger] stmt_covers(stmts@[j], name@),
    {
        if stmts[i].is_accessible(name) {
            return true;
        }
    }
    false
}

/// Whether one of the trees `items` covers `name`, a name written relative to the namespace the
/// trees sit in.
fn trees_accessible(items: &Vec<ImportTreeNode>, name: &FullName) -> (r: bool)
    ensures
        r == trees_cover(items@, name@.namespace.names, name@.name),
{
    for i in 0..items.len()
        invariant
            forall|j: int|
                0 <= j < i ==> !#[trigger] tree_covers(items@[j], name@.namespace.names, name@.name),
    {
        if items[i].is_accessible(name) {
            return true;
        }
    }
    false
}

impl ImportStatement {
    /// Whether this statement makes the global name `name` accessible: `name` lies in the
    /// imported module, an item of the statement covers it, and the `hiding` clause leaves it in.
    pub fn is_accessible(&self, name: &FullName) -> (r: bool)
        requires
            name@.namespace.names.len() > 0,
        ensures
            r == stmt_covers(*self, name@),
    {
        if name.module() != self.module_name {
            return false;
        }
        let mut name = name.clone();
        let popped = name.pop_front_namespace();
        if trees_accessible(&self.hiding, &name) {
            return false;
        }
        trees_accessible(&self.items, &name)
    }

    /// The statement by which `module` brings in every item of its own.
    pub fn implicit_self_import(module: Name) -> (r: ImportStatement)
        ensures
            r.importer == module,
            r.module_name == module,
            r.module_span is None,
            r.items@.len() == 1,
            r.items@[0] == ImportTreeNode::Any(None),
            r.hiding@.len() == 0,
            r.source is None,
            r.implicit,
    {
        let mut items: Vec<ImportTreeNode> = Vec::new();
        items.push(ImportTreeNode::Any(None));
        ImportStatement {
            importer: module.clone(),
            module_name: module,
            module_span: None,
            items,
            hiding: Vec::new(),
            source: None,
            implicit: true,
        }
    }

    /// The statement by which `module` brings in every item of `Std`.
    pub fn implicit_std_import(module: Name) -> (r: ImportStatement)
        ensures
            r.importer == module,
            r.module_name@ == spec_std_name(),
            r.module_span is None,
            r.items@.len() == 1,
            r.items@[0] == ImportTreeNode::Any(None),
            r.hiding@.len() == 0,
            r.source is None,
            r.implicit,
    {
        let mut items: Vec<ImportTreeNode> = Vec::new();
        items.push(ImportTreeNode::Any(None));
        ImportStatement {
            importer: module,
            module_name: to_string(std_name()),
            module_span: None,
            items,
            hiding: Vec::new(),
            source: None,
            implicit: true,
        }
    }
}

/// An item of a namespace's node is smaller than the node.
pub proof fn lemma_tree_item_decreases(node: ImportTreeNode, i: int)
    requires
        node is NameSpace,
        0 <= i < node->NameSpace_1@.len(),
    ensures
        decreases_to!(node => node->NameSpace_1@[i]),
{
    let v = node->NameSpace_1;
    assert(decreases_to!(v => v@[i]));
}

impl ImportTreeNode {
    /// Whether this node covers `name`, a name written relative to the namespace the node sits
    /// in.
    pub fn is_accessible(&self, name: &FullName) -> (r: bool)
        ensures
            r == tree_covers(*self, name@.namespace.names, name@.name),
        decreases self,
    {
        match self {
            ImportTreeNode::Any(_) => true,
            ImportTreeNode::Symbol(item_name, _) => name.is_local() && name.name == *item_name,
            ImportTreeNode::TypeOrTrait(item_name, _) => name.is_local() && name.name == *item_name,
            ImportTreeNode::NameSpace(namespace, items, _) => {
                if name.is_local() {
                    return false;
                }
                if name.namespace.names[0] != *namespace {
                    return false;
                }
                let ghost orig = name@;
                let mut rest = name.clone();
                let popped = rest.pop_front_namespace();
                for i in 0..items.len()
                    invariant
                        *self == ImportTreeNode::NameSpace(*namespace, *items, self->NameSpace_2),
                        orig == name@,
                        orig.namespace.names.len() > 0,
                        orig.namespace.names[0] == namespace@,
                        rest@.namespace.names == orig.namespace.names.drop_first(),
                        rest@.name == orig.name,
                        !inner_covers(*self, rest@.namespace.names, rest@.name, i as int),
                {
                    proof {
                        lemma_tree_item_decreases(*self, i as int);
                    }
                    if items[i].is_accessible(&rest) {
                        proof {
                            assert(tree_covers(self->NameSpace_1@[i as int], rest@.namespace.names, rest@.name));
                            lemma_inner_covers(*self, rest@.namespace.names, rest@.name, items@.len() as int);
                            assert(inner_covers(*self, orig.namespace.names.drop_first(), orig.name, items@.len() as int));
                            assert(tree_covers(*self, orig.namespace.names, orig.name));
                        }
                        return true;
                    }
                }
                false
            },
        }
    }
}

/// Whether `name` is written as a type's or a trait's name: it begins with a capital letter.
pub open spec fn capital_head(name: Seq<char>) -> bool {
    name.len() > 0 && 'A' <= name[0] <= 'Z'
}

/// Whether `name` begins with a capital letter, which marks it as a type's or a trait's name.
pub fn is_capital_head(name: &str) -> (r: bool)
    ensures
        r == capital_head(name@),
{
    let chars = crate::strutil::str_chars(name);
    chars.len() > 0 && 'A' <= chars[0] && chars[0] <= 'Z'
}

/// The span `spans` holds first, if any.
pub open spec fn first_span(spans: Seq<Span>) -> Option<Span> {
    if spans.len() > 0 {
        Some(spans[0])
    } else {
        None
    }
}

/// The spans after the first one.
pub open spec fn rest_spans(spans: Seq<Span>) -> Seq<Span> {
    if spans.len() > 0 {
        spans.drop_first()
    } else {
        spans
    }
}

/// Whether `node` is the tree taking `names` as one path, with each span of `spans` as the
/// source of the node the name at its place becomes: every name but the last becomes a
/// namespace holding the tree of the rest, and the last becomes a type's or a trait's node where
/// it begins with a capital letter and a value's node otherwise. No name at all becomes `*`.
pub open spec fn is_path_tree(node: ImportTreeNode, names: Seq<Seq<char>>, spans: Seq<Span>) -> bool
    decreases names.len(),
{
    if names.len() == 0 {
        node == ImportTreeNode::Any(first_span(spans))
    } else if names.len() == 1 {
        if capital_head(names[0]) {
            node is TypeOrTrait && node->TypeOrTrait_0@ == names[0] && node->TypeOrTrait_1
                == first_span(spans)
        } else {
            node is Symbol && node->Symbol_0@ == names[0] && node->Symbol_1 == first_span(spans)
        }
    } else {
        &&& node is NameSpace
        &&& node->NameSpace_0@ == names[0]
        &&& node->NameSpace_2 == first_span(spans)
        &&& node->NameSpace_1@.len() == 1
        &&& is_path_tree(node->NameSpace_1@[0], names.drop_first(), rest_spans(spans))
    }
}

/// The tree a path spells out covers the name at its end, under the names before it, and
/// nothing else.
pub proof fn lemma_path_tree_covers(node: ImportTreeNode, names: Seq<Seq<char>>, spans: Seq<Span>, path: Seq<Seq<char>>, name: Seq<char>)
    requires
        names.len() > 0,
        is_path_tree(node, names, spans),
    ensures
        tree_covers(node, path, name) <==> (path == names.drop_last() && name == names.last()),
    decreases names.len(),
{
    if names.len() > 1 {
        let sub = node->NameSpace_1@[0];
        if path.len() > 0 {
            lemma_path_tree_covers(sub, names.drop_first(), rest_spans(spans), path.drop_first(), name);
            assert(names.drop_first().drop_last() =~= names.drop_last().drop_first());
            if path == names.drop_last() {
                assert(path.drop_first() == names.drop_first().drop_last());
            }
            if path.drop_first() == names.drop_first().drop_last() && path[0] == names[0] {
                assert(names.drop_last() =~= seq![names[0]] + names.drop_first().drop_last());
                assert(path =~= seq![path[0]] + path.drop_first());
            }
        }
        lemma_inner_covers(node, path.drop_first(), name, 1);
    } else {
        if path == names.drop_last() {
            assert(path.len() == 0);
        }
        if path.len() == 0 {
            assert(path =~= names.drop_last());
        }
    }
}

impl ImportTreeNode {
    /// The tree taking `names` as one path: every name but the last becomes a namespace holding
    /// the next, and the last becomes the item its head character tells it to be. An empty
    /// `names` becomes `*`.
    pub fn from_names(names: &[Name]) -> (r: ImportTreeNode)
        requires
            names@.len() > 0 ==> names@.last()@.len() > 0,
        ensures
            is_path_tree(r, strs(names@), Seq::empty()),
    {
        let spans: Vec<Span> = Vec::new();
        Self::from_names_with_spans(names, spans.as_slice())
    }

    /// The tree taking `names` as one path, with `spans[i]` as the source of the node `names[i]`
    /// becomes. Names a shorter `spans` leaves uncovered carry no span, and an empty `names`
    /// becomes `*`.
    pub fn from_names_with_spans(names: &[Name], spans: &[Span]) -> (r: ImportTreeNode)
        requires
            names@.len() > 0 ==> names@.last()@.len() > 0,
        ensures
            is_path_tree(r, strs(names@), spans@),
    {
        proof {
            lemma_spans_from(spans@, 0);
            assert(strs(names@).skip(0) =~= strs(names@));
        }
        Self::path_tree_from(names, 0, spans, 0)
    }

    /// The tree taking `names` from the `k`-th on as one path, with the spans from the `sk`-th
    /// on as the sources of its nodes.
    fn path_tree_from(names: &[Name], k: usize, spans: &[Span], sk: usize) -> (r: ImportTreeNode)
        requires
            k <= names@.len(),
            sk <= k + 1,
            names@.len() > 0 ==> names@.last()@.len() > 0,
        ensures
            is_path_tree(r, strs(names@).skip(k as int), spans_from(spans@, sk as int)),
        decreases names@.len() - k,
    {
        let head_span = if sk < spans.len() {
            Some(spans[sk].clone())
        } else {
            None
        };
        proof {
            lemma_spans_from(spans@, sk as int);
        }
        if k == names.len() {
            return ImportTreeNode::Any(head_span);
        }
        if k + 1 == names.len() {
            let name = &names[k];
            if is_capital_head(name.as_str()) {
                return ImportTreeNode::TypeOrTrait(name.clone(), head_span);
            }
            return ImportTreeNode::Symbol(name.clone(), head_span);
        }
        let sub = Self::path_tree_from(names, k + 1, spans, sk + 1);
        let mut items: Vec<ImportTreeNode> = Vec::new();
        items.push(sub);
        proof {
            assert(strs(names@).skip(k as int).drop_first() =~= strs(names@).skip(k + 1));
        }
        ImportTreeNode::NameSpace(names[k].clone(), items, head_span)
    }
}

/// The spans from the `k`-th on, none where `spans` holds fewer.
pub open spec fn spans_from(spans: Seq<Span>, k: int) -> Seq<Span> {
    if k <= spans.len() {
        spans.skip(k)
    } else {
        Seq::empty()
    }
}

proof fn lemma_spans_from(spans: Seq<Span>, k: int)
    requires
        0 <= k,
    ensures
        first_span(spans_from(spans, k)) == (if k < spans.len() {
            Some(spans[k])
        } else {
            None::<Span>
        }),
        rest_spans(spans_from(spans, k)) == spans_from(spans, k + 1),
        spans_from(spans, 0) == spans,
{
    if k < spans.len() {
        assert(spans.skip(k).drop_first() =~= spans.skip(k + 1));
    }
    if k == spans.len() {
        assert(spans.skip(k) =~= Seq::<Span>::empty());
    }
    assert(spans.skip(0) =~= spans);
}

impl ImportStatement {
    /// A statement bringing the global name `name` alone into `importer`.
    pub fn import_to_use(importer: Name, name: FullName) -> (r: ImportStatement)
        requires
            name@.namespace.names.len() > 0,
            name@.name.len() > 0,
        ensures
            r.importer == importer,
            r.module_name@ == name@.namespace.names[0],
            r.module_span is None,
            r.items@.len() == 1,
            is_path_tree(r.items@[0], name@.namespace.names.drop_first().push(name@.name), Seq::empty()),
            r.hiding@.len() == 0,
            r.source is None,
            !r.implicit,
            forall|n: FullNameView| #[trigger] stmt_covers(r, n) <==> (n.namespace.names == name@.namespace.names && n.name == name@.name),
    {
        let spans: Vec<Span> = Vec::new();
        Self::import_to_use_with_spans(importer, name, spans.as_slice())
    }

    /// A statement bringing the global name `name` alone into `importer`, carrying the spans of
    /// the tokens that named it: `path_spans` holds the span of each name along `name`'s whole
    /// path, the module's first; names a shorter `path_spans` leaves uncovered carry no span.
    pub fn import_to_use_with_spans(importer: Name, name: FullName, path_spans: &[Span]) -> (r: ImportStatement)
        requires
            name@.namespace.names.len() > 0,
            name@.name.len() > 0,
        ensures
            r.importer == importer,
            r.module_name@ == name@.namespace.names[0],
            r.module_span == first_span(path_spans@),
            r.items@.len() == 1,
            is_path_tree(r.items@[0], name@.namespace.names.drop_first().push(name@.name), rest_spans(path_spans@)),
            r.hiding@.len() == 0,
            r.source is None,
            !r.implicit,
            forall|n: FullNameView| #[trigger] stmt_covers(r, n) <==> (n.namespace.names == name@.namespace.names && n.name == name@.name),
    {
        let module_span = if path_spans.len() > 0 {
            Some(path_spans[0].clone())
        } else {
            None
        };
        let module = name.module();
        let full = name.to_namespace();
        let mut names: Vec<String> = Vec::new();
        let mut i: usize = 1;
        assert(full.names@.len() == full@.names.len());
        while i < full.names.len()
            invariant
                1 <= i <= full.names@.len(),
                full@.names == name@.namespace.names.push(name@.name),
                strs(names@) == full@.names.subrange(1, i as int),
            decreases full.names@.len() - i,
        {
            let ghost before = names@;
            names.push(full.names[i].clone());
            assert(strs(names@) =~= strs(before).push(full@.names[i as int]));
            assert(strs(names@) =~= full@.names.subrange(1, i + 1));
            i += 1;
        }
        proof {
            assert(strs(names@) =~= name@.namespace.names.drop_first().push(name@.name));
            assert(strs(names@).last() == names@.last()@);
            lemma_spans_from(path_spans@, 1);
        }
        proof {
            assert(strs(names@).skip(0) =~= strs(names@));
            if path_spans@.len() == 0 {
                assert(spans_from(path_spans@, 1) =~= path_spans@);
            }
        }
        let tree = ImportTreeNode::path_tree_from(names.as_slice(), 0, path_spans, 1);
        let mut items: Vec<ImportTreeNode> = Vec::new();
        items.push(tree);
        let r = ImportStatement {
            importer,
            module_name: module,
            module_span,
            items,
            hiding: Vec::new(),
            source: None,
            implicit: false,
        };
        proof {
            let path = name@.namespace.names.drop_first().push(name@.name);
            assert forall|n: FullNameView| #[trigger] stmt_covers(r, n) <==> (n.namespace.names == name@.namespace.names && n.name == name@.name) by {
                lemma_path_tree_covers(r.items@[0], path, rest_spans(path_spans@), n.namespace.names.drop_first(), n.name);
                assert(path.drop_last() =~= name@.namespace.names.drop_first());
                if n.namespace.names.len() > 0 && n.namespace.names[0] == name@.namespace.names[0] && n.namespace.names.drop_first() == name@.namespace.names.drop_first() {
                    assert(n.namespace.names =~= seq![n.namespace.names[0]] + n.namespace.names.drop_first());
                    assert(name@.namespace.names =~= seq![name@.namespace.names[0]] + name@.namespace.names.drop_first());
                }
                assert(!trees_cover(r.hiding@, n.namespace.names.drop_first(), n.name));
                if tree_covers(r.items@[0], n.namespace.names.drop_first(), n.name) {
                    assert(trees_cover(r.items@, n.namespace.names.drop_first(), n.name));
                }
            }
        }
        r
    }
}

/// A namespace's node covers a name exactly where the name's path begins with the namespace's
/// name and one of its items covers the name under the rest of the path.
pub proof fn lemma_namespace_covers(node: ImportTreeNode, path: Seq<Seq<char>>, name: Seq<char>)
    requires
        node is NameSpace,
    ensures
        tree_covers(node, path, name) <==> (path.len() > 0 && path[0] == node->NameSpace_0@
            && trees_cover(node->NameSpace_1@, path.drop_first(), name)),
{
    lemma_inner_covers(node, path.drop_first(), name, node->NameSpace_1@.len() as int);
}

/// Pushing a tree onto a list of trees adds what the tree covers to what the list covers.
pub proof fn lemma_push_covers(items: Seq<ImportTreeNode>, t: ImportTreeNode, path: Seq<Seq<char>>, name: Seq<char>)
    ensures
        trees_cover(items.push(t), path, name) <==> (trees_cover(items, path, name) || tree_covers(t, path, name)),
{
    if trees_cover(items, path, name) {
        let i = choose|i: int| 0 <= i < items.len() && #[trigger] tree_covers(items[i], path, name);
        assert(items.push(t)[i] == items[i]);
    }
    if tree_covers(t, path, name) {
        assert(items.push(t)[items.len() as int] == t);
    }
    if trees_cover(items.push(t), path, name) {
        let i = choose|i: int| 0 <= i < items.len() + 1 && #[trigger] tree_covers(items.push(t)[i], path, name);
        if i < items.len() {
            assert(items.push(t)[i] == items[i]);
        }
    }
}

/// Replacing one tree of a list by a tree covering what it covered and `extra` besides adds
/// `extra` to what the list covers.
pub proof fn lemma_update_covers(items: Seq<ImportTreeNode>, idx: int, t: ImportTreeNode, path: Seq<Seq<char>>, name: Seq<char>, extra: bool)
    requires
        0 <= idx < items.len(),
        tree_covers(t, path, name) <==> (tree_covers(items[idx], path, name) || extra),
    ensures
        trees_cover(items.update(idx, t), path, name) <==> (trees_cover(items, path, name) || extra),
{
    let u = items.update(idx, t);
    if trees_cover(items, path, name) {
        let i = choose|i: int| 0 <= i < items.len() && #[trigger] tree_covers(items[i], path, name);
        if i != idx {
            assert(u[i] == items[i]);
        } else {
            assert(tree_covers(u[idx], path, name));
        }
    }
    if extra {
        assert(tree_covers(u[idx], path, name));
    }
    if trees_cover(u, path, name) {
        let i = choose|i: int| 0 <= i < u.len() && #[trigger] tree_covers(u[i], path, name);
        if i != idx {
            assert(u[i] == items[i]);
        }
    }
}

/// Whether `node` is the namespace's node named `name`.
fn is_namespace_named(node: &ImportTreeNode, name: &String) -> (r: bool)
    ensures
        r == (*node is NameSpace && node->NameSpace_0@ == name@),
{
    match node {
        ImportTreeNode::NameSpace(n, _, _) => *n == *name,
        _ => false,
    }
}

/// Whether `node` is a value's or a type's node named `name`.
fn is_item_named(node: &ImportTreeNode, name: &String) -> (r: bool)
    ensures
        r == ((*node is Symbol && node->Symbol_0@ == name@) || (*node is TypeOrTrait
            && node->TypeOrTrait_0@ == name@)),
{
    match node {
        ImportTreeNode::Symbol(n, _) => *n == *name,
        ImportTreeNode::TypeOrTrait(n, _) => *n == *name,
        _ => false,
    }
}

/// Adds the path `names` from its `k`-th name on to the trees `items`, walking into the
/// namespace's node that already carries the head name where `items` holds one; an item `items`
/// already names is left as it stands. Afterwards the trees cover what they covered and the
/// name at the end of the path under the names before it, and nothing more.
fn add_path(items: &mut Vec<ImportTreeNode>, names: &[Name], k: usize)
    requires
        k < names@.len(),
        names@.last()@.len() > 0,
    ensures
        forall|path: Seq<Seq<char>>, name: Seq<char>|
            #[trigger] trees_cover(final(items)@, path, name) <==> (trees_cover(old(items)@, path, name)
                || (path == strs(names@).skip(k as int).drop_last() && name == strs(names@).last())),
    decreases 2 * (names@.len() - k),
{
    let ghost old_items = items@;
    let ghost full = strs(names@).skip(k as int);
    if k < names.len() - 1 {
        let mut idx: usize = 0;
        while idx < items.len()
            invariant_except_break
                idx <= items@.len(),
                items@ == old_items,
                k < names@.len(),
                forall|j: int| 0 <= j < idx ==> !(#[trigger] items@[j] is NameSpace && items@[j]->NameSpace_0@ == names@[k as int]@),
            ensures
                idx <= items@.len(),
                items@ == old_items,
                idx < items@.len() ==> (items@[idx as int] is NameSpace && items@[idx as int]->NameSpace_0@ == names@[k as int]@),
                idx == items@.len() ==> forall|j: int| 0 <= j < idx ==> !(#[trigger] items@[j] is NameSpace && items@[j]->NameSpace_0@ == names@[k as int]@),
            decreases items@.len() - idx,
        {
            if is_namespace_named(&items[idx], &names[k]) {
                break;
            }
            idx += 1;
        }
        match (if idx < items.len() { Some(idx) } else { None }) {
            Some(idx) => {
                let mut node = items.remove(idx);
                assert(node == old_items[idx as int]);
                node.add_item(names, k + 1);
                items.insert(idx, node);
                proof {
                    assert(items@ =~= old_items.update(idx as int, node));
                    assert forall|path: Seq<Seq<char>>, name: Seq<char>|
                        #[trigger] trees_cover(items@, path, name) <==> (trees_cover(old_items, path, name)
                            || (path == full.drop_last() && name == strs(names@).last())) by {
                        let extra = path == full.drop_last() && name == strs(names@).last();
                        lemma_namespace_covers(node, path, name);
                        lemma_namespace_covers(old_items[idx as int], path, name);
                        assert(full.drop_first() =~= strs(names@).skip(k + 1));
                        assert(full[0] == names@[k as int]@);
                        if path.len() > 0 && path.drop_first() == strs(names@).skip(k + 1).drop_last() && path[0] == names@[k as int]@ {
                            assert(path =~= seq![path[0]] + path.drop_first());
                            assert(full.drop_last() =~= seq![full[0]] + full.drop_first().drop_last());
                        }
                        if extra {
                            assert(full.drop_last() =~= seq![full[0]] + full.drop_first().drop_last());
                            assert(path.drop_first() =~= full.drop_first().drop_last());
                        }
                        lemma_update_covers(old_items, idx as int, node, path, name, extra);
                    }
                }
                return;
            },
            None => {},
        }
        let empty: Vec<Span> = Vec::new();
        let tree = ImportTreeNode::path_tree_from(names, k, empty.as_slice(), 0);
        items.push(tree);
        proof {
            assert forall|path: Seq<Seq<char>>, name: Seq<char>|
                #[trigger] trees_cover(items@, path, name) <==> (trees_cover(old_items, path, name)
                    || (path == full.drop_last() && name == strs(names@).last())) by {
                lemma_push_covers(old_items, tree, path, name);
                lemma_path_tree_covers(tree, full, spans_from(empty@, 0), path, name);
            }
        }
        return;
    }
    for i in 0..items.len()
        invariant
            items@ == old_items,
            old_items == old(items)@,
            k + 1 == names@.len(),
            full == strs(names@).skip(k as int),
            forall|j: int| 0 <= j < i ==> !((#[trigger] items@[j] is Symbol && items@[j]->Symbol_0@ == names@[k as int]@) || (items@[j] is TypeOrTrait && items@[j]->TypeOrTrait_0@ == names@[k as int]@)),
    {
        if is_item_named(&items[i], &names[k]) {
            proof {
                assert(full =~= seq![names@[k as int]@]);
                assert forall|path: Seq<Seq<char>>, name: Seq<char>|
                    #[trigger] trees_cover(items@, path, name) <==> (trees_cover(old_items, path, name)
                        || (path == full.drop_last() && name == strs(names@).last())) by {
                    if path == full.drop_last() && name == strs(names@).last() {
                        assert(tree_covers(items@[i as int], path, name));
                    }
                }
            }
            return;
        }
    }
    let empty: Vec<Span> = Vec::new();
    let tree = ImportTreeNode::path_tree_from(names, k, empty.as_slice(), 0);
    items.push(tree);
    proof {
        assert forall|path: Seq<Seq<char>>, name: Seq<char>|
            #[trigger] trees_cover(items@, path, name) <==> (trees_cover(old_items, path, name)
                || (path == full.drop_last() && name == strs(names@).last())) by {
            lemma_push_covers(old_items, tree, path, name);
            lemma_path_tree_covers(tree, full, spans_from(empty@, 0), path, name);
        }
    }
}

impl ImportTreeNode {
    /// Adds the path `names` from its `k`-th name on to the items taken from this namespace.
    /// Afterwards the items cover what they covered and the name at the end of the path under
    /// the names before it, and nothing more.
    fn add_item(&mut self, names: &[Name], k: usize)
        requires
            *old(self) is NameSpace,
            k < names@.len(),
            names@.last()@.len() > 0,
        ensures
            *final(self) is NameSpace,
            final(self)->NameSpace_0 == old(self)->NameSpace_0,
            final(self)->NameSpace_2 == old(self)->NameSpace_2,
            forall|path: Seq<Seq<char>>, name: Seq<char>|
                #[trigger] trees_cover(final(self)->NameSpace_1@, path, name) <==> (trees_cover(old(self)->NameSpace_1@, path, name)
                    || (path == strs(names@).skip(k as int).drop_last() && name == strs(names@).last())),
        decreases 2 * (names@.len() - k) + 1,
    {
        match self {
            ImportTreeNode::NameSpace(_, items, _) => {
                add_path(items, names, k);
            },
            _ => {},
        }
    }
}

impl ImportTreeNode {
    /// Adds the path `names` to the trees `items`, walking into the namespace's node that already
    /// carries the head name where `items` holds one; an item `items` already names is left as it
    /// stands. Afterwards the trees cover what they covered and the name at the end of the path
    /// under the names before it, and nothing more.
    fn add_item_internal(items: &mut Vec<ImportTreeNode>, names: &[Name])
        requires
            names@.len() >= 1,
            names@.last()@.len() > 0,
        ensures
            forall|path: Seq<Seq<char>>, name: Seq<char>|
                #[trigger] trees_cover(final(items)@, path, name) <==> (trees_cover(old(items)@, path, name)
                    || (path == strs(names@).drop_last() && name == strs(names@).last())),
    {
        assert(strs(names@).skip(0) =~= strs(names@));
        add_path(items, names, 0);
    }
}

/// Whether the `i`-th of `stmts` is the first that brings in the module `module` and carries no
/// `hiding` clause.
pub open spec fn first_open_stmt(stmts: Seq<ImportStatement>, module: Seq<char>, i: int) -> bool {
    &&& 0 <= i < stmts.len()
    &&& stmts[i].module_name@ == module
    &&& stmts[i].hiding@.len() == 0
    &&& forall|j: int| 0 <= j < i ==> !((#[trigger] stmts[j]).module_name@ == module && stmts[j].hiding@.len() == 0)
}

impl ImportStatement {
    /// Adds the item at the path `names`, which runs from inside the imported module, to the
    /// items brought in. The statement carries no `hiding` clause. Afterwards the statement
    /// makes accessible what it did and the name at the end of the path, and nothing more.
    fn add_item(&mut self, names: &[Name])
        requires
            names@.len() >= 1,
            names@.last()@.len() > 0,
            old(self).hiding@.len() == 0,
        ensures
            final(self).importer == old(self).importer,
            final(self).module_name == old(self).module_name,
            final(self).module_span == old(self).module_span,
            final(self).hiding@ == old(self).hiding@,
            final(self).source == old(self).source,
            final(self).implicit == old(self).implicit,
            forall|path: Seq<Seq<char>>, name: Seq<char>|
                #[trigger] trees_cover(final(self).items@, path, name) <==> (trees_cover(old(self).items@, path, name)
                    || (path == strs(names@).drop_last() && name == strs(names@).last())),
    {
        ImportTreeNode::add_item_internal(&mut self.items, names);
    }

    /// Makes the global name `name` accessible from `importer`: it is added to the first
    /// statement of `imports` that brings in `name`'s module and carries no `hiding` clause, and
    /// becomes a statement of its own where `imports` holds no such statement. Statements that
    /// already make `name` accessible are left as they stand. Afterwards the statements make
    /// accessible what they did and `name`, and nothing more.
    pub fn add_import(imports: &mut Vec<ImportStatement>, importer: Name, name: FullName)
        requires
            name@.namespace.names.len() > 0,
            name@.name.len() > 0 || stmts_cover(old(imports)@, name@),
        ensures
            stmts_cover(final(imports)@, name@),
            forall|n: FullNameView|
                #[trigger] stmts_cover(final(imports)@, n) <==> (stmts_cover(old(imports)@, n) || (
                n.namespace.names == name@.namespace.names && n.name == name@.name)),
            stmts_cover(old(imports)@, name@) ==> final(imports)@ == old(imports)@,
            !stmts_cover(old(imports)@, name@) ==> forall|i: int|
                #[trigger] first_open_stmt(old(imports)@, name@.namespace.names[0], i) ==> {
                    &&& final(imports)@.len() == old(imports)@.len()
                    &&& forall|j: int| 0 <= j < old(imports)@.len() && j != i ==> #[trigger] final(imports)@[j] == old(imports)@[j]
                    &&& final(imports)@[i].importer == old(imports)@[i].importer
                    &&& final(imports)@[i].module_name == old(imports)@[i].module_name
                    &&& final(imports)@[i].module_span == old(imports)@[i].module_span
                    &&& final(imports)@[i].hiding@ == old(imports)@[i].hiding@
                    &&& final(imports)@[i].source == old(imports)@[i].source
                    &&& final(imports)@[i].implicit == old(imports)@[i].implicit
                    &&& forall|path: Seq<Seq<char>>, nm: Seq<char>|
                        #[trigger] trees_cover(final(imports)@[i].items@, path, nm) <==> (trees_cover(
                            old(imports)@[i].items@,
                            path,
                            nm,
                        ) || (path == name@.namespace.names.drop_first() && nm == name@.name))
                },
            !stmts_cover(old(imports)@, name@) && !(exists|i: int| #[trigger] first_open_stmt(old(imports)@, name@.namespace.names[0], i)) ==> {
                let last = final(imports)@.last();
                &&& final(imports)@.len() == old(imports)@.len() + 1
                &&& final(imports)@.drop_last() == old(imports)@
                &&& last.importer == importer
                &&& last.module_name@ == name@.namespace.names[0]
                &&& last.module_span is None
                &&& last.hiding@.len() == 0
                &&& last.source is None
                &&& !last.implicit
                &&& forall|n: FullNameView| #[trigger] stmt_covers(last, n) <==> (n.namespace.names == name@.namespace.names && n.name == name@.name)
            },
    {
        let ghost old_stmts = imports@;
        if is_accessible(imports.as_slice(), &name) {
            proof {
                assert forall|n: FullNameView|
                    #[trigger] stmts_cover(imports@, n) <==> (stmts_cover(old_stmts, n) || (
                    n.namespace.names == name@.namespace.names && n.name == name@.name)) by {
                    if n.namespace.names == name@.namespace.names && n.name == name@.name {
                        let i = choose|i: int| 0 <= i < old_stmts.len() && #[trigger] stmt_covers(old_stmts[i], name@);
                        assert(stmt_covers(old_stmts[i], n));
                    }
                }
            }
            return;
        }
        let module = name.module();
        let mut idx: usize = 0;
        while idx < imports.len()
            invariant_except_break
                idx <= imports@.len(),
                imports@ == old_stmts,
                module@ == name@.namespace.names[0],
                forall|j: int| 0 <= j < idx ==> !((#[trigger] old_stmts[j]).module_name@ == module@ && old_stmts[j].hiding@.len() == 0),
            ensures
                idx <= imports@.len(),
                imports@ == old_stmts,
                forall|j: int| 0 <= j < idx ==> !((#[trigger] old_stmts[j]).module_name@ == module@ && old_stmts[j].hiding@.len() == 0),
                idx < imports@.len() ==> (imports@[idx as int].module_name@ == module@
                    && imports@[idx as int].hiding@.len() == 0),
            decreases imports@.len() - idx,
        {
            if imports[idx].module_name == module && imports[idx].hiding.len() == 0 {
                break;
            }
            idx += 1;
        }
        if idx == imports.len() {
            let new_import = ImportStatement::import_to_use(importer, name.clone());
            imports.push(new_import);
            proof {
                assert(imports@.drop_last() =~= old_stmts);
                assert forall|i: int| !first_open_stmt(old_stmts, name@.namespace.names[0], i) by {
                    if 0 <= i < old_stmts.len() {
                        assert(!(old_stmts[i].module_name@ == module@ && old_stmts[i].hiding@.len() == 0));
                    }
                }
                assert forall|n: FullNameView|
                    #[trigger] stmts_cover(imports@, n) <==> (stmts_cover(old_stmts, n) || (
                    n.namespace.names == name@.namespace.names && n.name == name@.name)) by {
                    lemma_push_stmt_covers(old_stmts, new_import, n);
                }
                assert(stmt_covers(new_import, name@));
                assert(imports@[old_stmts.len() as int] == new_import);
            }
            return;
        }
        let full = name.to_namespace();
        let mut names: Vec<String> = Vec::new();
        let mut i: usize = 1;
        assert(full.names@.len() == full@.names.len());
        while i < full.names.len()
            invariant
                1 <= i <= full.names@.len(),
                full@.names == name@.namespace.names.push(name@.name),
                strs(names@) == full@.names.subrange(1, i as int),
            decreases full.names@.len() - i,
        {
            let ghost before = names@;
            names.push(full.names[i].clone());
            assert(strs(names@) =~= strs(before).push(full@.names[i as int]));
            assert(strs(names@) =~= full@.names.subrange(1, i + 1));
            i += 1;
        }
        proof {
            assert(strs(names@) =~= name@.namespace.names.drop_first().push(name@.name));
            assert(strs(names@).last() == names@.last()@);
        }
        let mut stmt = imports.remove(idx);
        let ghost before = stmt;
        stmt.add_item(names.as_slice());
        imports.insert(idx, stmt);
        proof {
            assert(imports@ =~= old_stmts.update(idx as int, stmt));
            let path = name@.namespace.names.drop_first().push(name@.name);
            assert(path.drop_last() =~= name@.namespace.names.drop_first());
            assert forall|n: FullNameView|
                #[trigger] stmts_cover(imports@, n) <==> (stmts_cover(old_stmts, n) || (
                n.namespace.names == name@.namespace.names && n.name == name@.name)) by {
                let extra = n.namespace.names == name@.namespace.names && n.name == name@.name;
                assert(!trees_cover(stmt.hiding@, n.namespace.names.drop_first(), n.name));
                assert(!trees_cover(before.hiding@, n.namespace.names.drop_first(), n.name));
                if n.namespace.names.len() > 0 && n.namespace.names[0] == name@.namespace.names[0] && n.namespace.names.drop_first() == name@.namespace.names.drop_first() {
                    assert(n.namespace.names =~= seq![n.namespace.names[0]] + n.namespace.names.drop_first());
                    assert(name@.namespace.names =~= seq![name@.namespace.names[0]] + name@.namespace.names.drop_first());
                }
                assert(trees_cover(stmt.items@, n.namespace.names.drop_first(), n.name) <==> (trees_cover(before.items@, n.namespace.names.drop_first(), n.name)
                    || (n.namespace.names.drop_first() == path.drop_last() && n.name == path.last())));
                assert(stmt_covers(stmt, n) <==> (stmt_covers(before, n) || extra));
                lemma_update_stmt_covers(old_stmts, idx as int, stmt, n, extra);
            }
            assert(stmt_covers(stmt, name@));
            assert(imports@[idx as int] == stmt);
            assert(first_open_stmt(old_stmts, name@.namespace.names[0], idx as int));
            assert forall|i: int| #[trigger] first_open_stmt(old_stmts, name@.namespace.names[0], i) implies i == idx by {
                if i < idx {
                    assert(!(old_stmts[i].module_name@ == module@ && old_stmts[i].hiding@.len() == 0));
                } else if i > idx {
                    assert(!(old_stmts[idx as int].module_name@ == module@ && old_stmts[idx as int].hiding@.len() == 0));
                }
            }
        }
    }
}

/// Pushing a statement onto a list of statements adds what it makes accessible.
pub proof fn lemma_push_stmt_covers(stmts: Seq<ImportStatement>, s: ImportStatement, n: FullNameView)
    ensures
        stmts_cover(stmts.push(s), n) <==> (stmts_cover(stmts, n) || stmt_covers(s, n)),
{
    if stmts_cover(stmts, n) {
        let i = choose|i: int| 0 <= i < stmts.len() && #[trigger] stmt_covers(stmts[i], n);
        assert(stmts.push(s)[i] == stmts[i]);
    }
    if stmt_covers(s, n) {
        assert(stmts.push(s)[stmts.len() as int] == s);
    }
    if stmts_cover(stmts.push(s), n) {
        let i = choose|i: int| 0 <= i < stmts.len() + 1 && #[trigger] stmt_covers(stmts.push(s)[i], n);
        if i < stmts.len() {
            assert(stmts.push(s)[i] == stmts[i]);
        }
    }
}

/// Replacing one statement of a list by one making accessible what it did and `extra` besides
/// adds `extra` to what the list makes accessible.
pub proof fn lemma_update_stmt_covers(stmts: Seq<ImportStatement>, idx: int, s: ImportStatement, n: FullNameView, extra: bool)
    requires
        0 <= idx < stmts.len(),
        stmt_covers(s, n) <==> (stmt_covers(stmts[idx], n) || extra),
    ensures
        stmts_cover(stmts.update(idx, s), n) <==> (stmts_cover(stmts, n) || extra),
{
    let u = stmts.update(idx, s);
    if stmts_cover(stmts, n) {
        let i = choose|i: int| 0 <= i < stmts.len() && #[trigger] stmt_covers(stmts[i], n);
        if i != idx {
            assert(u[i] == stmts[i]);
        } else {
            assert(stmt_covers(u[idx], n));
        }
    }
    if extra {
        assert(stmt_covers(u[idx], n));
    }
    if stmts_cover(u, n) {
        let i = choose|i: int| 0 <= i < u.len() && #[trigger] stmt_covers(u[i], n);
        if i != idx {
            assert(u[i] == stmts[i]);
        }
    }
}

/// The path of no names, written with no leading `::`.
pub open spec fn local_namespace() -> NameSpaceView {
    NameSpaceView { names: Seq::empty(), is_absolute: false }
}

/// The item `it` qualified by one more namespace, `n`, put before its path.
pub open spec fn prefixed_item(it: ImportItemView, n: Seq<char>) -> ImportItemView {
    match it {
        ImportItemView::Symbol(f, s) => ImportItemView::Symbol(
            FullNameView {
                namespace: NameSpaceView {
                    names: seq![n] + f.namespace.names,
                    is_absolute: f.namespace.is_absolute,
                },
                name: f.name,
            },
            s,
        ),
        ImportItemView::TypeOrTrait(f, s) => ImportItemView::TypeOrTrait(
            FullNameView {
                namespace: NameSpaceView {
                    names: seq![n] + f.namespace.names,
                    is_absolute: f.namespace.is_absolute,
                },
                name: f.name,
            },
            s,
        ),
        ImportItemView::NameSpace(ns, s) => ImportItemView::NameSpace(
            NameSpaceView { names: seq![n] + ns.names, is_absolute: ns.is_absolute },
            s,
        ),
    }
}

/// The items the tree `node` names, each with the path from the node down to it: `*` names the
/// whole namespace it sits in, a value's or a type's node names itself, and a namespace's node
/// names the items of its items, in order, each qualified by the namespace's name.
pub open spec fn tree_items(node: ImportTreeNode) -> Seq<ImportItemView>
    decreases node, 1nat,
{
    match node {
        ImportTreeNode::Any(src) => seq![ImportItemView::NameSpace(local_namespace(), src)],
        ImportTreeNode::Symbol(n, src) => seq![
            ImportItemView::Symbol(FullNameView { namespace: local_namespace(), name: n@ }, src),
        ],
        ImportTreeNode::TypeOrTrait(n, src) => seq![
            ImportItemView::TypeOrTrait(FullNameView { namespace: local_namespace(), name: n@ }, src),
        ],
        ImportTreeNode::NameSpace(n, items, _) => inner_items(node, items@.len() as int).map_values(
            |it: ImportItemView| prefixed_item(it, n@),
        ),
    }
}

/// The items the first `k` items of the namespace's node `node` name, in order.
pub open spec fn inner_items(node: ImportTreeNode, k: int) -> Seq<ImportItemView>
    decreases node, 0nat, k,
{
    match node {
        ImportTreeNode::NameSpace(_, items, _) => if k <= 0 || k > items@.len() {
            Seq::empty()
        } else {
            inner_items(node, k - 1) + tree_items(items@[k - 1])
        },
        _ => Seq::empty(),
    }
}

/// The items the trees `trees` name, in order.
pub open spec fn trees_items(trees: Seq<ImportTreeNode>) -> Seq<ImportItemView>
    decreases trees.len(),
{
    if trees.len() == 0 {
        Seq::empty()
    } else {
        trees_items(trees.drop_last()) + tree_items(trees.last())
    }
}

/// What each item of `v` is.
pub open spec fn item_views(v: Seq<ImportItem>) -> Seq<ImportItemView> {
    v.map_values(|it: ImportItem| it@)
}

impl ImportItem {
    /// Puts `name` before the item's path, qualifying it by one more namespace.
    pub fn push_front(&mut self, name: Name)
        ensures
            final(self)@ == prefixed_item(old(self)@, name@),
    {
        match self {
            ImportItem::Symbol(fullname, _) => {
                fullname.push_front(name);
            },
            ImportItem::TypeOrTrait(fullname, _) => {
                fullname.push_front(name);
            },
            ImportItem::NameSpace(namespace, _) => {
                namespace.push_front(name);
            },
        }
    }
}

/// Moves the items of `children` to the end of `result`, each qualified by `name`.
fn append_prefixed(result: &mut Vec<ImportItem>, children: Vec<ImportItem>, name: &Name)
    ensures
        item_views(final(result)@) == item_views(old(result)@) + item_views(children@).map_values(
            |it: ImportItemView| prefixed_item(it, name@),
        ),
{
    let mut children = children;
    let ghost kids = children@;
    let ghost start = result@;
    let mut i: usize = 0;
    let n = children.len();
    assert(kids.len() == n);
    while children.len() > 0
        invariant
            kids.len() <= usize::MAX,
            i + children@.len() == kids.len(),
            children@ == kids.skip(i as int),
            item_views(result@) == item_views(start) + item_views(kids.take(i as int)).map_values(
                |it: ImportItemView| prefixed_item(it, name@),
            ),
        decreases children@.len(),
    {
        let mut c = children.remove(0);
        c.push_front(name.clone());
        let ghost before = result@;
        result.push(c);
        proof {
            assert(kids.skip(i as int)[0] == kids[i as int]);
            assert(kids.take(i + 1) =~= kids.take(i as int).push(kids[i as int]));
            assert(item_views(result@) =~= item_views(before).push(c@));
            assert(item_views(kids.take(i + 1)).map_values(|it: ImportItemView| prefixed_item(it, name@))
                =~= item_views(kids.take(i as int)).map_values(|it: ImportItemView| prefixed_item(it, name@)).push(
                prefixed_item(kids[i as int]@, name@),
            ));
            assert(kids.skip(i as int).drop_first() =~= kids.skip(i + 1));
        }
        i += 1;
    }
    proof {
        assert(kids.take(i as int) =~= kids);
    }
}

/// Moves the items of `more` to the end of `result`.
fn append_items(result: &mut Vec<ImportItem>, more: Vec<ImportItem>)
    ensures
        item_views(final(result)@) == item_views(old(result)@) + item_views(more@),
{
    let mut more = more;
    let ghost start = result@;
    let ghost m = more@;
    result.append(&mut more);
    assert(item_views(result@) =~= item_views(start) + item_views(m));
}

impl ImportTreeNode {
    /// The items this tree names, each carrying the path from here down to it.
    pub fn to_items(&self) -> (r: Vec<ImportItem>)
        ensures
            item_views(r@) == tree_items(*self),
        decreases self,
    {
        match self {
            ImportTreeNode::Any(src) => {
                let mut r: Vec<ImportItem> = Vec::new();
                let ns = NameSpace::new(Vec::new());
                assert(ns@.names =~= Seq::<Seq<char>>::empty());
                assert(ns@ == local_namespace());
                r.push(ImportItem::NameSpace(ns, clone_span_opt(src)));
                proof {
                    assert(item_views(r@) =~= tree_items(*self));
                }
                r
            },
            ImportTreeNode::Symbol(name, src) => {
                let mut r: Vec<ImportItem> = Vec::new();
                let f = FullName::local(name.as_str());
                assert(f@.namespace.names =~= Seq::<Seq<char>>::empty());
                assert(f@.namespace == local_namespace());
                r.push(ImportItem::Symbol(f, clone_span_opt(src)));
                proof {
                    assert(item_views(r@) =~= tree_items(*self));
                }
                r
            },
            ImportTreeNode::TypeOrTrait(name, src) => {
                let mut r: Vec<ImportItem> = Vec::new();
                let f = FullName::local(name.as_str());
                assert(f@.namespace.names =~= Seq::<Seq<char>>::empty());
                assert(f@.namespace == local_namespace());
                r.push(ImportItem::TypeOrTrait(f, clone_span_opt(src)));
                proof {
                    assert(item_views(r@) =~= tree_items(*self));
                }
                r
            },
            ImportTreeNode::NameSpace(name, items, _src) => {
                let mut result: Vec<ImportItem> = Vec::new();
                for i in 0..items.len()
                    invariant
                        *self == ImportTreeNode::NameSpace(*name, *items, self->NameSpace_2),
                        item_views(result@) == inner_items(*self, i as int).map_values(
                            |it: ImportItemView| prefixed_item(it, name@),
                        ),
                {
                    proof {
                        lemma_tree_item_decreases(*self, i as int);
                    }
                    let children = items[i].to_items();
                    append_prefixed(&mut result, children, name);
                    proof {
                        assert(inner_items(*self, i + 1) == inner_items(*self, i as int) + tree_items(items@[i as int]));
                        assert(inner_items(*self, i + 1).map_values(|it: ImportItemView| prefixed_item(it, name@))
                            =~= inner_items(*self, i as int).map_values(|it: ImportItemView| prefixed_item(it, name@))
                            + tree_items(items@[i as int]).map_values(|it: ImportItemView| prefixed_item(it, name@)));
                    }
                }
                result
            },
        }
    }
}

impl ImportStatement {
    /// The items the statement names, the items of the `hiding` clause after the others, each
    /// qualified by the imported module.
    pub fn referred_items(&self) -> (r: Vec<ImportItem>)
        ensures
            item_views(r@) == (trees_items(self.items@) + trees_items(self.hiding@)).map_values(
                |it: ImportItemView| prefixed_item(it, self.module_name@),
            ),
    {
        let mut result: Vec<ImportItem> = Vec::new();
        for i in 0..self.items.len()
            invariant
                item_views(result@) == trees_items(self.items@.take(i as int)),
        {
            let children = self.items[i].to_items();
            append_items(&mut result, children);
            proof {
                assert(self.items@.take(i + 1).drop_last() =~= self.items@.take(i as int));
            }
        }
        proof {
            assert(self.items@.take(self.items@.len() as int) =~= self.items@);
        }
        let ghost first = result@;
        for i in 0..self.hiding.len()
            invariant
                item_views(result@) == item_views(first) + trees_items(self.hiding@.take(i as int)),
        {
            let children = self.hiding[i].to_items();
            append_items(&mut result, children);
            proof {
                assert(self.hiding@.take(i + 1).drop_last() =~= self.hiding@.take(i as int));
            }
        }
        proof {
            assert(self.hiding@.take(self.hiding@.len() as int) =~= self.hiding@);
        }
        let mut out: Vec<ImportItem> = Vec::new();
        append_prefixed(&mut out, result, &self.module_name);
        proof {
            assert(item_views(Seq::<ImportItem>::empty()) =~= Seq::<ImportItemView>::empty());
        }
        out
    }
}

/// What an import statement names at a position: a value, a type or trait, or a module.
pub enum ImportPart {
    /// A value, by its full name.
    Value(FullNameView),
    /// A type or a trait, by its full name.
    TypeOrTrait(FullNameView),
    /// A module, by its name.
    Module(Seq<char>),
}

/// What `e` names, as far as an import statement can name it.
pub open spec fn end_node_import_part(e: EndNode) -> Option<ImportPart> {
    match e {
        EndNode::Expr(f, None) => Some(ImportPart::Value(f@)),
        EndNode::TypeOrTrait(f) => Some(ImportPart::TypeOrTrait(f@)),
        EndNode::Module(m) => Some(ImportPart::Module(m@)),
        _ => None,
    }
}

/// What an optional node names, as far as an import statement can name it.
pub open spec fn opt_import_part(e: Option<EndNode>) -> Option<ImportPart> {
    match e {
        Some(x) => end_node_import_part(x),
        None => None,
    }
}

/// Whether the optional span `s` covers the position `pos`, its end included.
pub open spec fn span_hits(s: Option<Span>, pos: SourcePos) -> bool {
    s is Some && s->0.file@ == pos.file@ && s->0.start <= pos.pos <= s->0.end
}

/// What the tree `node`, sitting in the namespace `ns`, names at `pos`: the value or the type or
/// trait whose node's span covers `pos`, found under namespaces whose spans cover it too, the
/// first item of a namespace first.
pub open spec fn tree_part_at(node: ImportTreeNode, pos: SourcePos, ns: NameSpaceView) -> Option<ImportPart>
    decreases node, 1nat,
{
    match node {
        ImportTreeNode::Any(_) => None,
        ImportTreeNode::Symbol(n, sp) => if span_hits(sp, pos) {
            Some(ImportPart::Value(FullNameView { namespace: ns, name: n@ }))
        } else {
            None
        },
        ImportTreeNode::TypeOrTrait(n, sp) => if span_hits(sp, pos) {
            Some(ImportPart::TypeOrTrait(FullNameView { namespace: ns, name: n@ }))
        } else {
            None
        },
        ImportTreeNode::NameSpace(n, items, sp) => if span_hits(sp, pos) {
            inner_part_at(
                node,
                pos,
                NameSpaceView { names: ns.names.push(n@), is_absolute: ns.is_absolute },
                items@.len() as int,
            )
        } else {
            None
        },
    }
}

/// What the first `k` items of the namespace's node `node` name at `pos`, the first of them
/// that names something.
pub open spec fn inner_part_at(node: ImportTreeNode, pos: SourcePos, ns: NameSpaceView, k: int) -> Option<ImportPart>
    decreases node, 0nat, k,
{
    match node {
        ImportTreeNode::NameSpace(_, items, _) => if k <= 0 || k > items@.len() {
            None
        } else {
            match inner_part_at(node, pos, ns, k - 1) {
                Some(p) => Some(p),
                None => tree_part_at(items@[k - 1], pos, ns),
            }
        },
        _ => None,
    }
}

/// What the trees `trees`, sitting in the namespace `ns`, name at `pos`, the first of them that
/// names something.
pub open spec fn trees_part_at(trees: Seq<ImportTreeNode>, pos: SourcePos, ns: NameSpaceView) -> Option<ImportPart>
    decreases trees.len(),
{
    if trees.len() == 0 {
        None
    } else {
        match trees_part_at(trees.drop_last(), pos, ns) {
            Some(p) => Some(p),
            None => tree_part_at(trees.last(), pos, ns),
        }
    }
}

/// What the statement `s` names at `pos`: the imported module where its token covers `pos`,
/// and otherwise what an item, then an item of the `hiding` clause, names there. A statement
/// whose module token has no span names nothing.
pub open spec fn stmt_part_at(s: ImportStatement, pos: SourcePos) -> Option<ImportPart> {
    if s.module_span is None {
        None
    } else if span_hits(s.module_span, pos) {
        Some(ImportPart::Module(s.module_name@))
    } else {
        let ns = NameSpaceView { names: seq![s.module_name@], is_absolute: false };
        match trees_part_at(s.items@, pos, ns) {
            Some(p) => Some(p),
            None => trees_part_at(s.hiding@, pos, ns),
        }
    }
}

/// Whether the optional span `s` covers `pos`, its end included.
fn span_opt_hits(s: &Option<Span>, pos: &SourcePos) -> (r: bool)
    ensures
        r == span_hits(*s, *pos),
{
    match s {
        Some(sp) => sp.includes_pos_lsp(pos),
        None => false,
    }
}

impl ImportTreeNode {
    /// The entity this node names at `pos`, `namespace` being the path the walk down the tree has
    /// reached.
    pub fn find_node_at(&self, pos: &SourcePos, namespace: &NameSpace) -> (r: Option<EndNode>)
        ensures
            opt_import_part(r) == tree_part_at(*self, *pos, namespace@),
            r is Some ==> end_node_import_part(r->0) is Some,
        decreases self,
    {
        match self {
            ImportTreeNode::Any(_span) => None,
            ImportTreeNode::Symbol(name, span) => {
                if !span_opt_hits(span, pos) {
                    return None;
                }
                let name = FullName::new(namespace, name.as_str());
                Some(EndNode::Expr(name, None))
            },
            ImportTreeNode::TypeOrTrait(name, span) => {
                if !span_opt_hits(span, pos) {
                    return None;
                }
                let name = FullName::new(namespace, name.as_str());
                Some(EndNode::TypeOrTrait(name))
            },
            ImportTreeNode::NameSpace(name, items, span) => {
                if !span_opt_hits(span, pos) {
                    return None;
                }
                let mut inner_ns = namespace.clone();
                inner_ns.push_back(name.clone());
                for i in 0..items.len()
                    invariant
                        *self == ImportTreeNode::NameSpace(*name, *items, *span),
                        span_hits(*span, *pos),
                        inner_ns@ == (NameSpaceView {
                            names: namespace@.names.push(name@),
                            is_absolute: namespace@.is_absolute,
                        }),
                        inner_part_at(*self, *pos, inner_ns@, i as int) is None,
                {
                    proof {
                        lemma_tree_item_decreases(*self, i as int);
                    }
                    let node = items[i].find_node_at(pos, &inner_ns);
                    if node.is_some() {
                        proof {
                            lemma_inner_part_at_first(*self, *pos, inner_ns@, i + 1, items@.len() as int);
                        }
                        return node;
                    }
                }
                None
            },
        }
    }
}

/// Once one of the first `k` items of a namespace's node names something at a position, the
/// first `l` of them name the same, for every `l` from `k` on.
proof fn lemma_inner_part_at_first(node: ImportTreeNode, pos: SourcePos, ns: NameSpaceView, k: int, l: int)
    requires
        node is NameSpace,
        0 <= k <= l <= node->NameSpace_1@.len(),
        inner_part_at(node, pos, ns, k) is Some,
    ensures
        inner_part_at(node, pos, ns, l) == inner_part_at(node, pos, ns, k),
    decreases l - k,
{
    if k < l {
        lemma_inner_part_at_first(node, pos, ns, k, l - 1);
    }
}

/// Once the first `k` of some trees name something at a position, the first `l` of them name
/// the same, for every `l` from `k` on.
proof fn lemma_trees_part_at_first(trees: Seq<ImportTreeNode>, pos: SourcePos, ns: NameSpaceView, k: int, l: int)
    requires
        0 <= k <= l <= trees.len(),
        trees_part_at(trees.take(k), pos, ns) is Some,
    ensures
        trees_part_at(trees.take(l), pos, ns) == trees_part_at(trees.take(k), pos, ns),
    decreases l - k,
{
    if k < l {
        lemma_trees_part_at_first(trees, pos, ns, k, l - 1);
        assert(trees.take(l).drop_last() =~= trees.take(l - 1));
    }
}

/// What the trees `trees`, sitting in the namespace `namespace`, name at `pos`.
fn find_in_trees(trees: &Vec<ImportTreeNode>, pos: &SourcePos, namespace: &NameSpace) -> (r: Option<EndNode>)
    ensures
        opt_import_part(r) == trees_part_at(trees@, *pos, namespace@),
        r is Some ==> end_node_import_part(r->0) is Some,
{
    for i in 0..trees.len()
        invariant
            trees_part_at(trees@.take(i as int), *pos, namespace@) is None,
    {
        let node = trees[i].find_node_at(pos, namespace);
        proof {
            assert(trees@.take(i + 1).drop_last() =~= trees@.take(i as int));
        }
        if node.is_some() {
            proof {
                lemma_trees_part_at_first(trees@, *pos, namespace@, i + 1, trees@.len() as int);
                assert(trees@.take(trees@.len() as int) =~= trees@);
            }
            return node;
        }
    }
    proof {
        assert(trees@.take(trees@.len() as int) =~= trees@);
    }
    None
}

impl ImportStatement {
    /// The entity the statement names at `pos`: the imported module, or the item the path
    /// written there reaches.
    pub fn find_node_at(&self, pos: &SourcePos) -> (r: Option<EndNode>)
        ensures
            opt_import_part(r) == stmt_part_at(*self, *pos),
            r is Some ==> end_node_import_part(r->0) is Some,
    {
        if self.module_span.is_none() {
            return None;
        }
        if span_opt_hits(&self.module_span, pos) {
            return Some(EndNode::Module(self.module_name.clone()));
        }
        let mut names: Vec<String> = Vec::new();
        names.push(self.module_name.clone());
        let namespace = NameSpace::new(names);
        assert(namespace@.names =~= seq![self.module_name@]);
        let node = find_in_trees(&self.items, pos, &namespace);
        if node.is_some() {
            return node;
        }
        find_in_trees(&self.hiding, pos, &namespace)
    }
}


/// The key an import tree node is ordered by: `*` first, then values, then types and traits,
/// then namespaces, each kind by its name.
pub open spec fn node_key(n: ImportTreeNode) -> (u8, Seq<char>) {
    match n {
        ImportTreeNode::Any(_) => (0u8, Seq::empty()),
        ImportTreeNode::Symbol(name, _) => (1u8, name@),
        ImportTreeNode::TypeOrTrait(name, _) => (2u8, name@),
        ImportTreeNode::NameSpace(name, _, _) => (3u8, name@),
    }
}

/// The keys of the nodes `v`.
pub open spec fn node_keys(v: Seq<ImportTreeNode>) -> Seq<(u8, Seq<char>)> {
    v.map_values(|n: ImportTreeNode| node_key(n))
}

/// Whether the nodes `r` are the nodes `v` sorted stably by `node_key`, the items of each
/// namespace sorted the same way.
pub open spec fn tree_sorted(r: Seq<ImportTreeNode>, v: Seq<ImportTreeNode>) -> bool
    decreases v, 1nat, 0int,
{
    r.len() == v.len() && tree_sorted_from(r, v, sort_order(node_keys(v), v.len() as int), r.len() as int)
}

/// Whether each of the first `k` nodes of `r` is the node of `v` at the same place of the order
/// `p`, with its items sorted.
pub open spec fn tree_sorted_from(r: Seq<ImportTreeNode>, v: Seq<ImportTreeNode>, p: Seq<int>, k: int) -> bool
    decreases v, 0nat, k,
{
    if k <= 0 || k > r.len() || k > p.len() {
        true
    } else {
        tree_sorted_from(r, v, p, k - 1) && 0 <= p[k - 1] < v.len() && node_sorted(r[k - 1], v[p[k - 1]])
    }
}

/// Whether the node `a` is `b` with the items of a namespace sorted.
pub open spec fn node_sorted(a: ImportTreeNode, b: ImportTreeNode) -> bool
    decreases b, 2nat, 0int,
{
    match (a, b) {
        (ImportTreeNode::Any(s1), ImportTreeNode::Any(s2)) => s1 == s2,
        (ImportTreeNode::Symbol(n1, s1), ImportTreeNode::Symbol(n2, s2)) => n1@ == n2@ && s1 == s2,
        (ImportTreeNode::TypeOrTrait(n1, s1), ImportTreeNode::TypeOrTrait(n2, s2)) => n1@ == n2@ && s1 == s2,
        (ImportTreeNode::NameSpace(n1, i1, s1), ImportTreeNode::NameSpace(n2, i2, s2)) => n1@ == n2@ && s1 == s2
            && tree_sorted(i1@, i2@),
        _ => false,
    }
}

/// `tree_sorted_from` up to `k` holds where each node up to `k` is the sorted one.
proof fn lemma_tree_sorted_from(r: Seq<ImportTreeNode>, v: Seq<ImportTreeNode>, p: Seq<int>, k: int)
    requires
        0 <= k <= r.len(),
        k <= p.len(),
        forall|q: int| 0 <= q < k ==> 0 <= #[trigger] p[q] < v.len() && node_sorted(r[q], v[p[q]]),
    ensures
        tree_sorted_from(r, v, p, k),
    decreases k,
{
    if k > 0 {
        lemma_tree_sorted_from(r, v, p, k - 1);
    }
}

impl ImportTreeNode {
    /// Sorts `nodes` by kind, `*` first, then values, then types and traits, then namespaces,
    /// and by name within a kind, nodes that tie keeping their order; the items of each
    /// namespace are sorted the same way.
    pub fn sort(nodes: &mut Vec<ImportTreeNode>)
        ensures
            tree_sorted(final(nodes)@, old(nodes)@),
        decreases old(nodes)@,
    {
        let mut v: Vec<ImportTreeNode> = Vec::new();
        std::mem::swap(nodes, &mut v);
        let ghost v0 = v@;
        let n = v.len();
        let mut c: Vec<ImportTreeNode> = Vec::new();
        let mut keys: Vec<(u8, String)> = Vec::new();
        let mut i: usize = 0;
        while i < n
            invariant
                v0 == old(nodes)@,
                n == v0.len(),
                i <= n,
                v@ == v0.skip(i as int),
                c@.len() == i,
                keys@.len() == i,
                forall|j: int| 0 <= j < i ==> node_sorted(#[trigger] c@[j], v0[j]),
                forall|j: int| 0 <= j < i ==> #[trigger] key_views(keys@)[j] == node_key(v0[j]),
            decreases n - i,
        {
            let node = v.remove(0);
            proof {
                assert(node == v0[i as int]);
                assert(v@ =~= v0.skip(i + 1));
            }
            let ghost before_keys = keys@;
            match node {
                ImportTreeNode::Any(s) => {
                    keys.push((0u8, String::new()));
                    c.push(ImportTreeNode::Any(s));
                },
                ImportTreeNode::Symbol(name, s) => {
                    keys.push((1u8, name.clone()));
                    c.push(ImportTreeNode::Symbol(name, s));
                },
                ImportTreeNode::TypeOrTrait(name, s) => {
                    keys.push((2u8, name.clone()));
                    c.push(ImportTreeNode::TypeOrTrait(name, s));
                },
                ImportTreeNode::NameSpace(name, items, s) => {
                    let mut items = items;
                    proof {
                        assert(decreases_to!(v0 => v0[i as int]));
                        assert(decreases_to!(v0[i as int] => v0[i as int]->NameSpace_1));
                        assert(decreases_to!(v0[i as int]->NameSpace_1 => v0[i as int]->NameSpace_1@));
                    }
                    Self::sort(&mut items);
                    keys.push((3u8, name.clone()));
                    c.push(ImportTreeNode::NameSpace(name, items, s));
                },
            }
            proof {
                assert(key_views(keys@) =~= key_views(before_keys).push(node_key(v0[i as int])));
            }
            i = i + 1;
        }
        proof {
            assert(key_views(keys@) =~= node_keys(v0));
            lemma_sort_order_len(node_keys(v0), n as int);
        }
        let ghost cv = c@;
        let out = stable_sort(c, &keys);
        proof {
            let p = sort_order(node_keys(v0), n as int);
            assert forall|q: int| 0 <= q < n implies 0 <= #[trigger] p[q] < v0.len() && node_sorted(out@[q], v0[p[q]]) by {
                assert(out@[q] == cv[p[q]]);
            }
            lemma_tree_sorted_from(out@, v0, p, n as int);
        }
        *nodes = out;
    }
}

/// Whether the statement `a` is `b` with its items and hidden items sorted.
pub open spec fn stmt_sorted(a: ImportStatement, b: ImportStatement) -> bool {
    &&& a.importer@ == b.importer@
    &&& a.module_name@ == b.module_name@
    &&& a.module_span == b.module_span
    &&& a.source == b.source
    &&& a.implicit == b.implicit
    &&& tree_sorted(a.items@, b.items@)
    &&& tree_sorted(a.hiding@, b.hiding@)
}

/// The keys statements are ordered by: the name of the module each imports.
pub open spec fn stmt_keys(v: Seq<ImportStatement>) -> Seq<(u8, Seq<char>)> {
    v.map_values(|s: ImportStatement| (0u8, s.module_name@))
}

impl ImportStatement {
    /// Sorts `stmts` by the name of the module each imports, statements that tie keeping their
    /// order, and sorts the items and the hidden items of each.
    pub fn sort(stmts: &mut Vec<ImportStatement>)
        ensures
            final(stmts)@.len() == old(stmts)@.len(),
            forall|q: int| 0 <= q < old(stmts)@.len() ==> stmt_sorted(
                #[trigger] final(stmts)@[q],
                old(stmts)@[sort_order(stmt_keys(old(stmts)@), old(stmts)@.len() as int)[q]],
            ),
    {
        let mut v: Vec<ImportStatement> = Vec::new();
        std::mem::swap(stmts, &mut v);
        let ghost v0 = v@;
        let n = v.len();
        let mut keys: Vec<(u8, String)> = Vec::new();
        for i in 0..n
            invariant
                v@ == v0,
                n == v0.len(),
                keys@.len() == i,
                forall|j: int| 0 <= j < i ==> #[trigger] key_views(keys@)[j] == (0u8, v0[j].module_name@),
        {
            let ghost before = keys@;
            keys.push((0u8, v[i].module_name.clone()));
            assert(key_views(keys@) =~= key_views(before).push((0u8, v0[i as int].module_name@)));
        }
        proof {
            assert(key_views(keys@) =~= stmt_keys(v0));
        }
        let mut sorted = stable_sort(v, &keys);
        let ghost sv = sorted@;
        let mut out: Vec<ImportStatement> = Vec::new();
        let mut i: usize = 0;
        while i < n
            invariant
                n == v0.len(),
                sv.len() == n,
                i <= n,
                sorted@ == sv.skip(i as int),
                out@.len() == i,
                forall|q: int| 0 <= q < i ==> stmt_sorted(#[trigger] out@[q], sv[q]),
            decreases n - i,
        {
            let mut stmt = sorted.remove(0);
            proof {
                assert(stmt == sv[i as int]);
                assert(sorted@ =~= sv.skip(i + 1));
            }
            ImportTreeNode::sort(&mut stmt.items);
            ImportTreeNode::sort(&mut stmt.hiding);
            out.push(stmt);
            i = i + 1;
        }
        *stmts = out;
    }
}

} // verus!
