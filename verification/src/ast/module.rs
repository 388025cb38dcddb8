//! Reading a name written in a module as the full name of a type or a trait the program
//! declares.
use crate::ast::name::{fullname_text, ns_is_suffix_of, FullName, FullNameView, Name};
use crate::strutil::to_string;
use vstd::prelude::*;

verus! {

/// The names a module can refer to: the types and the traits declared, and the module the
/// reference is written in.
pub struct NameResolutionContext {
    /// The full names of the types, each once.
    pub types: Vec<FullName>,
    /// The full names of the traits, each once.
    pub traits: Vec<FullName>,
    /// The module the names are read in.
    pub module_name: Name,
}

/// Whether a name stands for a type or for a trait.
#[derive(PartialEq, Eq, Structural, Clone, Copy)]
pub enum NameResolutionType {
    /// A type.
    Type,
    /// A trait.
    Trait,
}

/// Whether the name `ns` as written can stand for the full name `id`: the same name, under a
/// namespace that is a tail of its namespace.
pub open spec fn may_stand_for(ns: FullNameView, id: FullNameView) -> bool {
    ns.name == id.name && ns_is_suffix_of(ns.namespace, id.namespace)
}

/// The first `k` of the full names `v` that the name `ns` may stand for.
pub open spec fn candidates(v: Seq<FullName>, ns: FullNameView, k: int) -> Seq<FullNameView>
    decreases k,
{
    if k <= 0 {
        Seq::empty()
    } else if may_stand_for(ns, v[k - 1]@) {
        candidates(v, ns, k - 1).push(v[k - 1]@)
    } else {
        candidates(v, ns, k - 1)
    }
}

/// The first `k` of the full names `v` declared under a namespace in the module `module`.
pub open spec fn in_module(v: Seq<FullNameView>, module: Seq<char>, k: int) -> Seq<FullNameView>
    decreases k,
{
    if k <= 0 {
        Seq::empty()
    } else if v[k - 1].namespace.names.len() >= 1 && v[k - 1].namespace.names[0] == module {
        in_module(v, module, k - 1).push(v[k - 1])
    } else {
        in_module(v, module, k - 1)
    }
}

/// What reading `ns` among the full names `v` in the module `module` gives: the one name it may
/// stand for; or, where it may stand for several, the one of them declared in `module`; and
/// otherwise, no name, with the report of why.
pub open spec fn resolution(v: Seq<FullName>, ns: FullNameView, module: Seq<char>) -> Result<FullNameView, Seq<char>> {
    let c = candidates(v, ns, v.len() as int);
    if c.len() == 0 {
        Err("unknown name: "@ + fullname_text(ns))
    } else if c.len() == 1 {
        Ok(c[0])
    } else {
        let m = in_module(c, module, c.len() as int);
        if m.len() == 1 {
            Ok(m[0])
        } else {
            Err("Trait name `{}` is ambiguous."@)
        }
    }
}

/// Whether the full name `x` is declared in the module `module`.
pub open spec fn declared_in(x: FullNameView, module: Seq<char>) -> bool {
    x.namespace.names.len() >= 1 && x.namespace.names[0] == module
}

/// The candidates among the first `k` of `v` are exactly the names there `ns` may stand for.
proof fn lemma_candidates(v: Seq<FullName>, ns: FullNameView, k: int)
    requires
        0 <= k <= v.len(),
    ensures
        forall|i: int| 0 <= i < candidates(v, ns, k).len() ==> {
            &&& may_stand_for(ns, #[trigger] candidates(v, ns, k)[i])
            &&& exists|j: int| 0 <= j < k && v[j]@ == candidates(v, ns, k)[i]
        },
    decreases k,
{
    if k > 0 {
        lemma_candidates(v, ns, k - 1);
        let c = candidates(v, ns, k);
        let c0 = candidates(v, ns, k - 1);
        assert forall|i: int| 0 <= i < c.len() implies {
            &&& may_stand_for(ns, #[trigger] c[i])
            &&& exists|j: int| 0 <= j < k && v[j]@ == c[i]
        } by {
            if i < c0.len() {
                assert(c[i] == c0[i]);
                let j = choose|j: int| 0 <= j < k - 1 && v[j]@ == c0[i];
                assert(v[j]@ == c[i]);
            } else {
                assert(v[k - 1]@ == c[i]);
            }
        }
    }
}

/// The names kept from the first `k` of `c` are exactly those of them declared in `module`.
proof fn lemma_in_module(c: Seq<FullNameView>, module: Seq<char>, k: int)
    requires
        0 <= k <= c.len(),
    ensures
        forall|i: int| 0 <= i < in_module(c, module, k).len() ==> declared_in(
            #[trigger] in_module(c, module, k)[i],
            module,
        ),
        forall|j: int| 0 <= j < k && declared_in(#[trigger] c[j], module) ==> in_module(c, module, k).contains(c[j]),
    decreases k,
{
    if k > 0 {
        lemma_in_module(c, module, k - 1);
        let m = in_module(c, module, k);
        let m0 = in_module(c, module, k - 1);
        assert forall|j: int| 0 <= j < k && declared_in(#[trigger] c[j], module) implies m.contains(c[j]) by {
            if j < k - 1 {
                let t = choose|t: int| 0 <= t < m0.len() && m0[t] == c[j];
                assert(m[t] == m0[t]);
            } else {
                assert(m[m.len() - 1] == c[j]);
            }
        }
    }
}

/// Reading a written name gives one of the declarations it may stand for. Where it may stand for
/// several, the reading succeeds only with one declared in the module it is read in, and only
/// where no other of them is declared there: of `Lib::Vec` and `Main::Vec`, `Vec` read in `Main`
/// is `Main::Vec`, whatever order they are listed in, and of `Lib::Vec` and `Other::Vec` it is
/// ambiguous. A name that may stand for none is unknown.
pub proof fn law_resolution_prefers_the_current_module(v: Seq<FullName>, ns: FullNameView, module: Seq<char>)
    ensures
        ({
            let c = candidates(v, ns, v.len() as int);
            let r = resolution(v, ns, module);
            &&& r is Ok ==> may_stand_for(ns, r->Ok_0) && exists|j: int|
                0 <= j < v.len() && (#[trigger] v[j])@ == r->Ok_0
            &&& (r is Ok && c.len() >= 2) ==> declared_in(r->Ok_0, module) && forall|j: int|
                0 <= j < c.len() && declared_in(#[trigger] c[j], module) ==> c[j] == r->Ok_0
            &&& (c.len() >= 2 && forall|j: int| 0 <= j < c.len() ==> !declared_in(#[trigger] c[j], module))
                ==> r is Err
            &&& c.len() == 0 ==> r is Err
        }),
{
    let c = candidates(v, ns, v.len() as int);
    lemma_candidates(v, ns, v.len() as int);
    lemma_in_module(c, module, c.len() as int);
    let m = in_module(c, module, c.len() as int);
    if c.len() >= 2 && m.len() == 1 {
        assert(declared_in(m[0], module));
        assert(c.contains(m[0])) by {
            lemma_in_module_from(c, module, c.len() as int);
        }
        assert forall|j: int| 0 <= j < c.len() && declared_in(#[trigger] c[j], module) implies c[j] == m[0] by {
            assert(m.contains(c[j]));
        }
    }
    if c.len() >= 2 && (forall|j: int| 0 <= j < c.len() ==> !declared_in(#[trigger] c[j], module)) {
        if m.len() == 1 {
            assert(declared_in(m[0], module));
            lemma_in_module_from(c, module, c.len() as int);
            let j = choose|j: int| 0 <= j < c.len() && c[j] == m[0];
            assert(!declared_in(c[j], module));
        }
    }
}

/// The names kept from the first `k` of `c` are among them.
proof fn lemma_in_module_from(c: Seq<FullNameView>, module: Seq<char>, k: int)
    requires
        0 <= k <= c.len(),
    ensures
        forall|i: int| 0 <= i < in_module(c, module, k).len() ==> c.contains(#[trigger] in_module(c, module, k)[i]),
    decreases k,
{
    if k > 0 {
        lemma_in_module_from(c, module, k - 1);
        let m = in_module(c, module, k);
        let m0 = in_module(c, module, k - 1);
        assert forall|i: int| 0 <= i < m.len() implies c.contains(#[trigger] m[i]) by {
            if i < m0.len() {
                assert(m[i] == m0[i]);
            } else {
                assert(c[k - 1] == m[i]);
            }
        }
    }
}

/// The views of the full names `v`.
pub open spec fn fullname_views(v: Seq<FullName>) -> Seq<FullNameView> {
    v.map_values(|f: FullName| f@)
}

impl NameResolutionContext {
    /// The full name the name `ns`, written in this context's module, stands for among the
    /// types or among the traits: the one it may stand for, or, of several, the one declared in
    /// this module. A name that stands for none, or for several none or more than one of which
    /// lies in this module, is reported.
    pub fn resolve(&self, ns: &FullName, type_or_trait: NameResolutionType) -> (r: Result<FullName, String>)
        ensures
            ({
                let v = if type_or_trait == NameResolutionType::Type {
                    self.types@
                } else {
                    self.traits@
                };
                match (r, resolution(v, ns@, self.module_name@)) {
                    (Ok(x), Ok(y)) => x@ == y,
                    (Err(m), Err(n)) => m@ == n,
                    _ => false,
                }
            }),
    {
        let all = if type_or_trait == NameResolutionType::Type {
            &self.types
        } else {
            &self.traits
        };
        let mut cands: Vec<FullName> = Vec::new();
        for i in 0..all.len()
            invariant
                fullname_views(cands@) == candidates(all@, ns@, i as int),
        {
            let ghost before = cands@;
            if ns.is_suffix_of(&all[i]) {
                cands.push(all[i].clone());
                assert(fullname_views(cands@) =~= fullname_views(before).push(all@[i as int]@));
            }
        }
        let ghost c = fullname_views(cands@);
        if cands.len() == 0 {
            let mut msg = to_string("unknown name: ");
            let t = ns.to_string();
            msg.append(t.as_str());
            proof {
                reveal_strlit("unknown name: ");
            }
            return Err(msg);
        }
        if cands.len() == 1 {
            assert(c[0] == cands@[0]@);
            return Ok(cands[0].clone());
        }
        let mut local: Vec<FullName> = Vec::new();
        for i in 0..cands.len()
            invariant
                c == fullname_views(cands@),
                fullname_views(local@) == in_module(c, self.module_name@, i as int),
        {
            let ghost before = local@;
            assert(c[i as int] == cands@[i as int]@);
            if cands[i].namespace.len() >= 1 && cands[i].namespace.module() == self.module_name {
                local.push(cands[i].clone());
                assert(fullname_views(local@) =~= fullname_views(before).push(c[i as int]));
            }
        }
        if local.len() == 1 {
            assert(fullname_views(local@)[0] == local@[0]@);
            return Ok(local[0].clone());
        }
        proof {
            reveal_strlit("Trait name `{}` is ambiguous.");
        }
        Err(to_string("Trait name `{}` is ambiguous."))
    }
}

} // verus!
