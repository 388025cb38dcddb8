//! Names: the path a name is written under, and the full name of an entity.
use crate::constants::{
    module_separator, namespace_separator, pattern_wildcard_prefix, spec_module_separator,
    spec_namespace_separator, spec_pattern_wildcard_prefix,
};
use crate::strutil::{
    char_vecs, char_vecs_eq, chars_eq, clone_strings, has_char, join, join_chars, join_strings,
    lemma_join_push, lemma_split_join, lemma_split_nonempty, replace, split, split_chars, starts_with, str_chars, str_starts_with,
    string_from_chars, strs, to_string,
};
use vstd::prelude::*;

verus! {

/// The name of a module, a namespace, a type, a trait, a value or a field, as it is written in
/// source.
pub type Name = String;

/// The path of names an entity is written under: the `Std::Iterator` of `Std::Iterator::empty`.
pub struct NameSpace {
    /// The names of the path, the outermost first.
    pub names: Vec<String>,
    /// Whether the path was written with a leading `::`, as `::Main::x` is and `Main::x` is not.
    /// A leading `::` says that the first name is a module's, so it cannot be a namespace's.
    pub is_absolute: bool,
}

/// What a path is: its names as texts, and whether it was written with a leading `::`.
pub struct NameSpaceView {
    pub names: Seq<Seq<char>>,
    pub is_absolute: bool,
}

impl View for NameSpace {
    type V = NameSpaceView;

    open spec fn view(&self) -> NameSpaceView {
        NameSpaceView { names: strs(self.names@), is_absolute: self.is_absolute }
    }
}

/// The path joined by `::`.
pub open spec fn ns_text(names: Seq<Seq<char>>) -> Seq<char> {
    join(names, spec_namespace_separator())
}

/// The parts a path is compared by in `is_suffix_of`: the path joined by `::`, with `::` read as
/// `.`, cut at each `.`. A path of no name has no part.
pub open spec fn ns_components(names: Seq<Seq<char>>) -> Seq<Seq<char>> {
    if names.len() == 0 {
        Seq::empty()
    } else {
        split(
            replace(ns_text(names), spec_namespace_separator(), spec_module_separator()),
            spec_module_separator(),
        )
    }
}

/// Whether the path `lhs` names the tail of the path `rhs`, part by part; an absolute `lhs`
/// matches `rhs` whole.
pub open spec fn ns_is_suffix_of(lhs: NameSpaceView, rhs: NameSpaceView) -> bool {
    let l = ns_components(lhs.names);
    let r = ns_components(rhs.names);
    if lhs.is_absolute {
        l == r
    } else {
        l.len() <= r.len() && r.subrange(r.len() - l.len(), r.len() as int) == l
    }
}

/// Whether the names `p` head the names `s`.
pub open spec fn names_prefix(p: Seq<Seq<char>>, s: Seq<Seq<char>>) -> bool {
    p.len() <= s.len() && s.subrange(0, p.len() as int) == p
}

/// The path the text `s` spells: the names between `::`, with a leading `::` marking it
/// absolute. No path is spelled by an empty text, nor by one with an empty name in it.
pub open spec fn ns_parse(s: Seq<char>) -> Option<NameSpaceView> {
    if s.len() == 0 {
        None
    } else {
        let parts = split(s, spec_namespace_separator());
        let names = parts_names(parts);
        if has_empty_name(names) {
            None
        } else {
            Some(NameSpaceView { names, is_absolute: parts_absolute(parts) })
        }
    }
}

/// Whether the pieces of a path cut at `::` begin with an empty one, as a leading `::` makes.
pub open spec fn parts_absolute(parts: Seq<Seq<char>>) -> bool {
    parts.len() > 0 && parts[0].len() == 0
}

/// The names the pieces of a path cut at `::` hold, leaving out the empty piece a leading `::`
/// makes.
pub open spec fn parts_names(parts: Seq<Seq<char>>) -> Seq<Seq<char>> {
    if parts_absolute(parts) {
        parts.drop_first()
    } else {
        parts
    }
}

/// Whether some name of `names` is empty.
pub open spec fn has_empty_name(names: Seq<Seq<char>>) -> bool {
    exists|i: int| 0 <= i < names.len() && #[trigger] names[i].len() == 0
}

/// Whether each name of `names` is a non-empty text holding no `:`, as a name written in source
/// is.
pub open spec fn plain_names(names: Seq<Seq<char>>) -> bool {
    forall|i: int| 0 <= i < names.len() ==> #[trigger] names[i].len() > 0 && !has_char(names[i], ':')
}

impl Clone for NameSpace {
    fn clone(&self) -> (r: Self)
        ensures
            r@ == self@,
    {
        NameSpace { names: clone_strings(&self.names), is_absolute: self.is_absolute }
    }
}

impl PartialEq for NameSpace {
    /// Whether the two paths hold the same names; `is_absolute` takes no part.
    fn eq(&self, other: &Self) -> (r: bool) {
        strings_eq(&self.names, &other.names)
    }
}

impl vstd::std_specs::cmp::PartialEqSpecImpl for NameSpace {
    open spec fn obeys_eq_spec() -> bool {
        true
    }

    open spec fn eq_spec(&self, other: &Self) -> bool {
        self@.names == other@.names
    }
}

impl Eq for NameSpace {}

impl core::hash::Hash for NameSpace {
    /// Hashes the names of the path; `is_absolute` takes no part, as it takes none in equality.
    #[verifier::external_body]
    fn hash<H: core::hash::Hasher>(&self, state: &mut H) {
        self.names.hash(state);
    }
}

/// Whether the two lists of strings hold the same texts.
pub fn strings_eq(a: &Vec<String>, b: &Vec<String>) -> (r: bool)
    ensures
        r == (strs(a@) == strs(b@)),
{
    if a.len() != b.len() {
        assert(strs(a@).len() != strs(b@).len());
        return false;
    }
    for i in 0..a.len()
        invariant
            a@.len() == b@.len(),
            forall|j: int| 0 <= j < i ==> a@[j]@ == b@[j]@,
    {
        if a[i] != b[i] {
            assert(strs(a@)[i as int] != strs(b@)[i as int]);
            return false;
        }
    }
    assert(strs(a@) =~= strs(b@));
    true
}

/// Each string of `names`, made a `String`.
pub fn strings_from_strs(names: &[&str]) -> (r: Vec<String>)
    ensures
        r@.len() == names@.len(),
        forall|i: int| 0 <= i < names@.len() ==> #[trigger] r@[i]@ == names@[i]@,
{
    let mut r: Vec<String> = Vec::new();
    for i in 0..names.len()
        invariant
            r@.len() == i,
            forall|j: int| 0 <= j < i ==> #[trigger] r@[j]@ == names@[j]@,
    {
        r.push(to_string(names[i]));
    }
    r
}

impl NameSpace {
    /// The empty path, which a name written with no qualification carries.
    pub fn local() -> (r: Self)
        ensures
            r@.names == Seq::<Seq<char>>::empty(),
            !r@.is_absolute,
    {
        let r = NameSpace { names: Vec::new(), is_absolute: false };
        assert(r@.names =~= Seq::<Seq<char>>::empty());
        r
    }

    /// A path of `names`, the outermost first, written with no leading `::`.
    pub fn new(names: Vec<String>) -> (r: Self)
        ensures
            r@.names == strs(names@),
            !r@.is_absolute,
    {
        NameSpace { names, is_absolute: false }
    }

    /// Marks the path as one written with a leading `::`.
    pub fn set_absolute(&mut self)
        ensures
            final(self)@.names == old(self)@.names,
            final(self)@.is_absolute,
    {
        self.is_absolute = true;
    }

    /// A path of `names`, the outermost first, written with no leading `::`.
    pub fn from_strs(names: &[&str]) -> (r: Self)
        ensures
            r@.names.len() == names@.len(),
            forall|i: int| 0 <= i < names@.len() ==> #[trigger] r@.names[i] == names@[i]@,
            !r@.is_absolute,
    {
        Self::new(strings_from_strs(names))
    }

    /// Whether the path holds no name, as the path of a name written with no qualification does.
    pub fn is_local(&self) -> (r: bool)
        ensures
            r == (self@.names.len() == 0),
    {
        self.names.len() == 0
    }

    /// Reads the last name of the path as an entity's name and the names before it as the
    /// namespace it lies under. The path must hold at least one name.
    pub fn to_fullname(self) -> (r: FullName)
        requires
            self@.names.len() > 0,
        ensures
            r@.namespace.names == self@.names.drop_last(),
            r@.namespace.is_absolute == self@.is_absolute,
            r@.name == self@.names.last(),
    {
        let mut ns = self;
        let name = ns.names.pop().unwrap();
        proof {
            assert(strs(ns.names@) =~= self@.names.drop_last());
        }
        FullName { namespace: ns, name }
    }

    /// The names joined by `::`. An absolute path renders as a relative one does.
    pub fn to_string(&self) -> (r: String)
        ensures
            r@ == ns_text(self@.names),
    {
        join_strings(&self.names, namespace_separator())
    }

    /// Whether `self` names the tail of `rhs`, down to the parts a module name is built from: a
    /// module name is split at `.` as the path is at `::`. An absolute `self` matches `rhs` whole.
    pub fn is_suffix_of(&self, rhs: &NameSpace) -> (r: bool)
        ensures
            r == ns_is_suffix_of(self@, rhs@),
    {
        let lc = components(self);
        let rc = components(rhs);
        if self.is_absolute {
            return char_vecs_eq(&lc, &rc);
        }
        let n = lc.len();
        let m = rc.len();
        let ghost l = char_vecs(lc@);
        let ghost r = char_vecs(rc@);
        if n > m {
            return false;
        }
        for i in 0..n
            invariant
                n == l.len(),
                m == r.len(),
                n <= m,
                l == char_vecs(lc@),
                r == char_vecs(rc@),
                l == ns_components(self@.names),
                r == ns_components(rhs@.names),
                !self@.is_absolute,
                forall|k: int| n - i <= k < n ==> #[trigger] l[k] == r[k + (m - n)],
        {
            if !chars_eq(&lc[n - 1 - i], &rc[m - i - 1]) {
                assert(r.subrange(m - n, m as int)[n - 1 - i] == r[m - 1 - i]);
                assert(r.subrange(m - n, m as int)[n - 1 - i] != l[n - 1 - i]);
                return false;
            }
        }
        assert(r.subrange(m - n, m as int) =~= l) by {
            assert forall|k: int| 0 <= k < n implies r.subrange(m - n, m as int)[k] == l[k] by {
                assert(l[k] == r[k + (m - n)]);
            }
        }
        true
    }

    /// Whether the names of `self` head the names of `rhs`.
    pub fn is_prefix_of(&self, rhs: &NameSpace) -> (r: bool)
        ensures
            r == names_prefix(self@.names, rhs@.names),
    {
        let n = self.names.len();
        let m = rhs.names.len();
        if n > m {
            return false;
        }
        for i in 0..n
            invariant
                n == self.names@.len(),
                m == rhs.names@.len(),
                n <= m,
                forall|j: int| 0 <= j < i ==> self@.names[j] == rhs@.names[j],
        {
            if self.names[i] != rhs.names[i] {
                assert(rhs@.names.subrange(0, n as int)[i as int] != self@.names[i as int]);
                return false;
            }
        }
        assert(rhs@.names.subrange(0, n as int) =~= self@.names);
        true
    }

    /// The number of names in the path.
    pub fn len(&self) -> (r: usize)
        ensures
            r == self@.names.len(),
    {
        self.names.len()
    }

    /// The module the path lies in, which is the first of its names. The path must hold at least
    /// one name.
    pub fn module(&self) -> (r: Name)
        requires
            self@.names.len() > 0,
        ensures
            r@ == self@.names[0],
    {
        self.names[0].clone()
    }

    /// The names of `self` followed by the names of `rhs`, as a path written with no leading `::`.
    pub fn append(&self, rhs: NameSpace) -> (r: NameSpace)
        ensures
            r@.names == self@.names + rhs@.names,
            !r@.is_absolute,
    {
        let mut names = clone_strings(&self.names);
        let mut rest = rhs.names;
        names.append(&mut rest);
        let r = NameSpace::new(names);
        assert(r@.names =~= self@.names + rhs@.names);
        r
    }

    /// Removes the first name of the path, and reports whether there was one to remove.
    pub fn pop_front(&mut self) -> (r: bool)
        ensures
            r == (old(self)@.names.len() > 0),
            r ==> final(self)@.names == old(self)@.names.drop_first(),
            !r ==> final(self)@.names == old(self)@.names,
            final(self)@.is_absolute == old(self)@.is_absolute,
    {
        if self.names.len() == 0 {
            return false;
        }
        self.names.remove(0);
        assert(self@.names =~= old(self)@.names.drop_first());
        true
    }

    /// Puts `name` before the names of the path.
    pub fn push_front(&mut self, name: Name)
        ensures
            final(self)@.names == seq![name@] + old(self)@.names,
            final(self)@.is_absolute == old(self)@.is_absolute,
    {
        self.names.insert(0, name);
        assert(self@.names =~= seq![name@] + old(self)@.names);
    }

    /// Puts `name` after the names of the path.
    pub fn push_back(&mut self, name: Name)
        ensures
            final(self)@.names == old(self)@.names.push(name@),
            final(self)@.is_absolute == old(self)@.is_absolute,
    {
        self.names.push(name);
        assert(self@.names =~= old(self)@.names.push(name@));
    }

    /// Reads a path from its written form: the names between `::`, with a leading `::` marking
    /// the path absolute.
    pub fn parse(s: &str) -> (r: Option<Self>)
        ensures
            match r {
                Some(ns) => ns_parse(s@) == Some(ns@),
                None => ns_parse(s@).is_none(),
            },
    {
        let text = str_chars(s);
        if text.len() == 0 {
            return None;
        }
        let sep = str_chars(namespace_separator());
        let parts = split_chars(&text, &sep);
        proof {
            lemma_split_nonempty(s@, spec_namespace_separator());
        }
        let ghost ps = char_vecs(parts@);
        let is_absolute = parts.len() > 0 && parts[0].len() == 0;
        let mut names: Vec<String> = Vec::new();
        let start: usize = if is_absolute { 1 } else { 0 };
        let ghost want = if is_absolute { ps.drop_first() } else { ps };
        let mut i = start;
        while i < parts.len()
            invariant
                ps == char_vecs(parts@),
                ps == split(s@, spec_namespace_separator()),
                start <= i <= parts@.len(),
                s@.len() > 0,
                is_absolute == (ps.len() > 0 && ps[0].len() == 0),
                start == if is_absolute { 1usize } else { 0usize },
                want == if is_absolute { ps.drop_first() } else { ps },
                want == ps.subrange(start as int, ps.len() as int),
                strs(names@) == ps.subrange(start as int, i as int),
                forall|j: int| start <= j < i ==> #[trigger] ps[j].len() > 0,
            decreases parts@.len() - i,
        {
            if parts[i].len() == 0 {
                proof {
                    assert(ps[i as int] == parts@[i as int]@);
                    assert(want[i - start] == ps[i as int]);
                    assert(want[i - start].len() == 0);
                    assert(parts_names(ps) == want);
                    assert(parts_names(ps)[i - start].len() == 0);
                }
                return None;
            }
            let ghost before = names@;
            let piece = string_from_chars(parts[i].as_slice());
            assert(piece@ == ps[i as int]);
            names.push(piece);
            i = i + 1;
            assert(strs(names@) =~= strs(before).push(piece@));
            assert(strs(names@) =~= ps.subrange(start as int, i as int));
        }
        proof {
            assert(want =~= ps.subrange(start as int, ps.len() as int));
            assert(strs(names@) =~= want);
            assert forall|k: int| 0 <= k < want.len() implies #[trigger] want[k].len() != 0 by {
                assert(want[k] == ps[k + start]);
            }
        }
        Some(NameSpace { names, is_absolute })
    }
}

/// The parts `is_suffix_of` compares a path by.
fn components(ns: &NameSpace) -> (r: Vec<Vec<char>>)
    ensures
        char_vecs(r@) == ns_components(ns@.names),
{
    if ns.names.len() == 0 {
        let r: Vec<Vec<char>> = Vec::new();
        assert(char_vecs(r@) =~= Seq::<Seq<char>>::empty());
        return r;
    }
    let text = str_chars(ns.to_string().as_str());
    let dcolon = str_chars(namespace_separator());
    let dot = str_chars(module_separator());
    let pieces = split_chars(&text, &dcolon);
    let replaced = join_chars(&pieces, &dot);
    split_chars(&replaced, &dot)
}

/// What a full name is: its namespace and its name, as texts.
pub struct FullNameView {
    pub namespace: NameSpaceView,
    pub name: Seq<char>,
}

/// An entity's name together with the path it is written under: `Std::Iterator::empty` is the
/// name `empty` under the namespace `Std::Iterator`.
pub struct FullName {
    /// The path the entity is written under.
    pub namespace: NameSpace,
    /// The name of the entity itself.
    pub name: String,
}

impl View for FullName {
    type V = FullNameView;

    open spec fn view(&self) -> FullNameView {
        FullNameView { namespace: self.namespace@, name: self.name@ }
    }
}

/// A full name written out: the namespace and the name joined by `::`, and the name alone where
/// the namespace writes as nothing.
pub open spec fn fullname_text(f: FullNameView) -> Seq<char> {
    let ns = ns_text(f.namespace.names);
    if ns.len() == 0 {
        f.name
    } else {
        ns + spec_namespace_separator() + f.name
    }
}

/// The full name the text `s` spells, where it spells a path of at least one name.
pub open spec fn fullname_parse(s: Seq<char>) -> Option<FullNameView> {
    match ns_parse(s) {
        None => None,
        Some(ns) => if ns.names.len() == 0 {
            None
        } else {
            Some(
                FullNameView {
                    namespace: NameSpaceView { names: ns.names.drop_last(), is_absolute: ns.is_absolute },
                    name: ns.names.last(),
                },
            )
        },
    }
}

impl Clone for FullName {
    fn clone(&self) -> (r: Self)
        ensures
            r@ == self@,
    {
        FullName { namespace: self.namespace.clone(), name: self.name.clone() }
    }
}

impl PartialEq for FullName {
    /// Whether the two names hold the same names; `is_absolute` takes no part.
    fn eq(&self, other: &Self) -> (r: bool) {
        self.name == other.name && self.namespace == other.namespace
    }
}

impl vstd::std_specs::cmp::PartialEqSpecImpl for FullName {
    open spec fn obeys_eq_spec() -> bool {
        true
    }

    open spec fn eq_spec(&self, other: &Self) -> bool {
        self@.name == other@.name && self@.namespace.names == other@.namespace.names
    }
}

impl Eq for FullName {}

impl core::hash::Hash for FullName {
    /// Hashes the names of the namespace and the entity's name; `is_absolute` takes no part.
    #[verifier::external_body]
    fn hash<H: core::hash::Hasher>(&self, state: &mut H) {
        self.namespace.names.hash(state);
        self.name.hash(state);
    }
}

impl FullName {
    /// The name `name` under the namespace `ns`.
    pub fn new(ns: &NameSpace, name: &str) -> (r: Self)
        ensures
            r@.namespace == ns@,
            r@.name == name@,
    {
        FullName { namespace: ns.clone(), name: to_string(name) }
    }

    /// The name `name` under the namespace `ns` spells out, the outermost name first.
    pub fn from_strs(ns: &[&str], name: &str) -> (r: Self)
        ensures
            r@.namespace.names.len() == ns@.len(),
            forall|i: int| 0 <= i < ns@.len() ==> #[trigger] r@.namespace.names[i] == ns@[i]@,
            !r@.namespace.is_absolute,
            r@.name == name@,
    {
        Self::new(&NameSpace::from_strs(ns), name)
    }

    /// The name `name` written with no namespace.
    pub fn local(name: &str) -> (r: Self)
        ensures
            r@.namespace.names.len() == 0,
            !r@.namespace.is_absolute,
            r@.name == name@,
    {
        Self::new(&NameSpace::local(), name)
    }

    /// Whether the name is written with no namespace, as a local variable's is.
    pub fn is_local(&self) -> (r: bool)
        ensures
            r == (self@.namespace.names.len() == 0),
    {
        self.namespace.is_local()
    }

    /// Whether the name is written under a namespace, as a global value's is.
    pub fn is_global(&self) -> (r: bool)
        ensures
            r == (self@.namespace.names.len() > 0),
    {
        !self.is_local()
    }

    /// Whether this is the binder the compiler makes for a `_` the user wrote in a pattern.
    pub fn is_pattern_wildcard(&self) -> (r: bool)
        ensures
            r == starts_with(self@.name, spec_pattern_wildcard_prefix()),
    {
        str_starts_with(self.name.as_str(), pattern_wildcard_prefix())
    }

    /// The name as it is shown to the user, which for a pattern-wildcard binder is the `_` the
    /// user wrote.
    pub fn display_name(&self) -> (r: String)
        ensures
            r@ == if starts_with(self@.name, spec_pattern_wildcard_prefix()) {
                seq!['_']
            } else {
                fullname_text(self@)
            },
    {
        if self.is_pattern_wildcard() {
            proof {
                reveal_strlit("_");
            }
            to_string("_")
        } else {
            self.to_string()
        }
    }

    /// Reads `self` as a path relative to `container`, and returns it with `container` before its
    /// namespace. A `self` written with a leading `::` is returned as it stands.
    pub fn join_under(self, container: &NameSpace) -> (r: FullName)
        ensures
            self@.namespace.is_absolute ==> r@ == self@,
            !self@.namespace.is_absolute ==> r@.namespace.names == container@.names
                + self@.namespace.names && !r@.namespace.is_absolute && r@.name == self@.name,
    {
        if self.namespace.is_absolute {
            return self;
        }
        let mut this = self;
        let mut joined = clone_strings(&container.names);
        joined.append(&mut this.namespace.names);
        this.namespace.names = joined;
        this.namespace.is_absolute = false;
        assert(this@.namespace.names =~= container@.names + self@.namespace.names);
        this
    }

    /// The namespace and the name joined by `::`.
    pub fn to_string(&self) -> (r: String)
        ensures
            r@ == fullname_text(self@),
    {
        let ns = self.namespace.to_string();
        if ns.as_str().is_empty() {
            self.name.clone()
        } else {
            let mut r = ns;
            r.append(namespace_separator());
            r.append(self.name.as_str());
            r
        }
    }

    /// Whether `self` names the tail of `other`: the same entity name, under a namespace `self`'s
    /// namespace is a suffix of.
    pub fn is_suffix_of(&self, other: &FullName) -> (r: bool)
        ensures
            r == (self@.name == other@.name && ns_is_suffix_of(
                self@.namespace,
                other@.namespace,
            )),
    {
        self.name == other.name && self.namespace.is_suffix_of(&other.namespace)
    }

    /// The whole name read as a path, with the entity's name as its last name.
    pub fn to_namespace(&self) -> (r: NameSpace)
        ensures
            r@.names == self@.namespace.names.push(self@.name),
            r@.is_absolute == self@.namespace.is_absolute,
    {
        let mut names = clone_strings(&self.namespace.names);
        names.push(self.name.clone());
        let r = NameSpace { names, is_absolute: self.namespace.is_absolute };
        assert(r@.names =~= self@.namespace.names.push(self@.name));
        r
    }

    /// The module the name lies in, which is the first name of its namespace. The namespace must
    /// hold at least one name.
    pub fn module(&self) -> (r: Name)
        requires
            self@.namespace.names.len() > 0,
        ensures
            r@ == self@.namespace.names[0],
    {
        self.namespace.module()
    }

    /// A mutable handle on the entity's name, leaving the namespace as it is.
    pub fn name_as_mut(&mut self) -> (r: &mut Name)
        ensures
            *r == old(self).name,
            final(self).namespace == old(self).namespace,
            final(self).name == *final(r),
    {
        &mut self.name
    }

    /// Removes the first name of the namespace, and reports whether there was one to remove.
    pub fn pop_front_namespace(&mut self) -> (r: bool)
        ensures
            r == (old(self)@.namespace.names.len() > 0),
            r ==> final(self)@.namespace.names == old(self)@.namespace.names.drop_first(),
            !r ==> final(self)@.namespace.names == old(self)@.namespace.names,
            final(self)@.namespace.is_absolute == old(self)@.namespace.is_absolute,
            final(self)@.name == old(self)@.name,
    {
        self.namespace.pop_front()
    }

    /// Puts `name` before the names of the namespace.
    pub fn push_front(&mut self, name: Name)
        ensures
            final(self)@.namespace.names == seq![name@] + old(self)@.namespace.names,
            final(self)@.namespace.is_absolute == old(self)@.namespace.is_absolute,
            final(self)@.name == old(self)@.name,
    {
        self.namespace.push_front(name);
    }

    /// Whether `namespace` heads this name's namespace, so the name lies within it.
    pub fn is_in_namespace(&self, namespace: &NameSpace) -> (r: bool)
        ensures
            r == names_prefix(namespace@.names, self@.namespace.names),
    {
        namespace.is_prefix_of(&self.namespace)
    }

    /// Reads a full name from its written form: the last name between `::` as the entity's, the
    /// names before it as its namespace, and a leading `::` marking the path absolute.
    pub fn parse(s: &str) -> (r: Option<FullName>)
        ensures
            match r {
                Some(f) => fullname_parse(s@) == Some(f@),
                None => fullname_parse(s@).is_none(),
            },
    {
        if s.is_empty() {
            return None;
        }
        let namespace = NameSpace::parse(s);
        match namespace {
            None => None,
            Some(ns) => {
                if ns.names.len() == 0 {
                    return None;
                }
                let mut ns = ns;
                let ghost before = ns.names@;
                let name = ns.names.pop().unwrap();
                assert(strs(ns.names@) =~= strs(before).drop_last());
                Some(FullName { namespace: ns, name })
            }
        }
    }

    /// Whether the name was written with a leading `::`.
    pub fn is_absolute(&self) -> (r: bool)
        ensures
            r == self@.namespace.is_absolute,
    {
        self.namespace.is_absolute
    }

    /// Marks the name as one written with a leading `::`.
    pub fn set_absolute(&mut self)
        ensures
            final(self)@.namespace.names == old(self)@.namespace.names,
            final(self)@.namespace.is_absolute,
            final(self)@.name == old(self)@.name,
    {
        self.namespace.is_absolute = true;
    }

    /// Marks a name written under a namespace as absolute, and leaves a name written with none as
    /// it stands.
    pub fn global_to_absolute(&mut self)
        ensures
            final(self)@.namespace.names == old(self)@.namespace.names,
            final(self)@.name == old(self)@.name,
            final(self)@.namespace.is_absolute == (old(self)@.namespace.is_absolute
                || old(self)@.namespace.names.len() > 0),
    {
        if !self.is_local() {
            self.namespace.is_absolute = true;
        }
    }
}


/// Reading back the text a path writes gives the path, marked relative, for a path of one or
/// more names each of which is non-empty and holds no `:`.
pub proof fn lemma_namespace_parse_to_string(names: Seq<Seq<char>>)
    requires
        names.len() > 0,
        plain_names(names),
    ensures
        ns_parse(ns_text(names)) == Some(NameSpaceView { names, is_absolute: false }),
{
    let sep = spec_namespace_separator();
    assert forall|i: int| 0 <= i < names.len() implies !has_char(#[trigger] names[i], sep[0]) by {
        assert(sep[0] == ':');
    }
    lemma_split_join(names, sep);
    let text = ns_text(names);
    if text.len() == 0 {
        assert(split(text, sep) == seq![text]);
        assert(names[0].len() > 0);
    }
    let parts = split(text, sep);
    assert(parts == names);
    assert(!parts_absolute(parts));
    assert(!has_empty_name(names));
}

/// Reading back the text a full name writes gives the full name, marked relative, where every
/// name in it is non-empty and holds no `:`.
pub proof fn lemma_fullname_parse_to_string(f: FullNameView)
    requires
        plain_names(f.namespace.names),
        f.name.len() > 0,
        !has_char(f.name, ':'),
    ensures
        fullname_parse(fullname_text(f)) == Some(
            FullNameView {
                namespace: NameSpaceView { names: f.namespace.names, is_absolute: false },
                name: f.name,
            },
        ),
{
    let names = f.namespace.names;
    let all = names.push(f.name);
    assert(plain_names(all)) by {
        assert forall|i: int| 0 <= i < all.len() implies #[trigger] all[i].len() > 0 && !has_char(all[i], ':') by {
            if i < names.len() {
                assert(all[i] == names[i]);
            }
        }
    }
    if names.len() == 0 {
        assert(all =~= seq![f.name]);
        assert(ns_text(names) == Seq::<char>::empty());
        assert(fullname_text(f) == ns_text(all));
    } else {
        lemma_namespace_parse_to_string(names);
        if ns_text(names).len() == 0 {
            lemma_split_nonempty(ns_text(names), spec_namespace_separator());
            assert(split(ns_text(names), spec_namespace_separator()) == seq![ns_text(names)]);
        }
        lemma_join_push(names, f.name, spec_namespace_separator());
        assert(fullname_text(f) == ns_text(all));
    }
    lemma_namespace_parse_to_string(all);
    assert(all.drop_last() =~= names);
}

/// Reading a path as a full name and that full name back as a path gives the path.
pub proof fn lemma_to_namespace_undoes_to_fullname(ns: NameSpaceView)
    requires
        ns.names.len() > 0,
    ensures
        ns.names.drop_last().push(ns.names.last()) == ns.names,
{
    assert(ns.names.drop_last().push(ns.names.last()) =~= ns.names);
}

/// Taking off the first name of a path that a name was put before gives the path back.
pub proof fn lemma_pop_front_undoes_push_front(names: Seq<Seq<char>>, name: Seq<char>)
    ensures
        (seq![name] + names).drop_first() == names,
{
    assert((seq![name] + names).drop_first() =~= names);
}

/// Every path heads itself, and a path heading one that heads a third heads the third.
pub proof fn lemma_prefix_order(a: Seq<Seq<char>>, b: Seq<Seq<char>>, c: Seq<Seq<char>>)
    ensures
        names_prefix(a, a),
        names_prefix(a, b) && names_prefix(b, c) ==> names_prefix(a, c),
{
    assert(a.subrange(0, a.len() as int) =~= a);
    if names_prefix(a, b) && names_prefix(b, c) {
        assert(c.subrange(0, a.len() as int) =~= b.subrange(0, a.len() as int)) by {
            assert forall|k: int| 0 <= k < a.len() implies c.subrange(0, a.len() as int)[k]
                == b.subrange(0, a.len() as int)[k] by {
                assert(c.subrange(0, b.len() as int)[k] == b[k]);
            }
        }
    }
}

/// Every path names the tail of itself.
pub proof fn lemma_suffix_reflexive(ns: NameSpaceView)
    ensures
        ns_is_suffix_of(ns, ns),
{
    let l = ns_components(ns.names);
    assert(l.subrange(0, l.len() as int) =~= l);
}

/// A relative name joined under a path lies in that path, and keeps its own name.
pub proof fn lemma_join_under_lies_in_container(f: FullNameView, container: NameSpaceView)
    requires
        !f.namespace.is_absolute,
    ensures
        names_prefix(container.names, container.names + f.namespace.names),
{
    assert((container.names + f.namespace.names).subrange(0, container.names.len() as int)
        =~= container.names);
}

} // verus!
