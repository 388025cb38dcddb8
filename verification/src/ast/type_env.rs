//! What a program declares about its types: the type constructors and the type aliases it can
//! name, and which of its newtypes a value has stopped being built at.
use crate::ast::kind_scope::env_tycon_kind;
use crate::ast::name::{FullName, Name};
use crate::ast::types::{
    closure_type, toplevel, tycon_key, Kind, TyAliasInfo, TyCon, TyConInfo, TyConVariant, TypeNode,
};
use crate::strutil::to_string;
use std::sync::Arc;
use vstd::prelude::*;

verus! {

/// The name a struct's `act_{field}` function is given is the field's name after this.
pub open spec fn spec_struct_act_symbol() -> Seq<char> {
    "act_"@
}

/// The declaration the entries `v` hold for the type constructor with the key `key`: that of its
/// first entry.
pub open spec fn entry_lookup<V>(v: Seq<(TyCon, V)>, key: (Seq<Seq<char>>, Seq<char>)) -> Option<V>
    decreases v.len(),
{
    if v.len() == 0 {
        None
    } else if tycon_key(v[0].0) == key {
        Some(v[0].1)
    } else {
        entry_lookup(v.drop_first(), key)
    }
}

/// Whether one of the type constructors `v` has the key `key`.
pub open spec fn has_tycon(v: Seq<TyCon>, key: (Seq<Seq<char>>, Seq<char>)) -> bool {
    exists|i: int| 0 <= i < v.len() && tycon_key(#[trigger] v[i]) == key
}

/// What a program declares about its types.
pub struct TypeEnv {
    /// The declaration of every type constructor, built-in and user-defined, by its name; the
    /// first entry for a name is the one that counts.
    tycons: Vec<(TyCon, TyConInfo)>,
    /// The declaration of every type alias, by its name.
    pub aliases: Vec<(TyCon, TyAliasInfo)>,
    /// The newtypes a value of which has become a value of its one field.
    unwrapped_newtypes: Vec<TyCon>,
}

impl TypeEnv {
    /// The declarations of the type constructors, as entries by name.
    pub closed spec fn tycon_entries(self) -> Seq<(TyCon, TyConInfo)> {
        self.tycons@
    }

    /// The declarations of the type aliases, as entries by name.
    pub closed spec fn alias_entries(self) -> Seq<(TyCon, TyAliasInfo)> {
        self.aliases@
    }

    /// The newtypes a value of which has become a value of its one field.
    pub closed spec fn unwrapped(self) -> Seq<TyCon> {
        self.unwrapped_newtypes@
    }

    /// Whether every newtype recorded as unwrapped is one this environment declares.
    pub open spec fn wf(self) -> bool {
        forall|i: int| 0 <= i < self.unwrapped().len() ==> entry_lookup(
            self.tycon_entries(),
            tycon_key(#[trigger] self.unwrapped()[i]),
        ) is Some
    }

    /// An environment holding `tycons` and `aliases` as declared, with every newtype among them
    /// still a type values are built at.
    pub fn new(tycons: Vec<(TyCon, TyConInfo)>, aliases: Vec<(TyCon, TyAliasInfo)>) -> (r: TypeEnv)
        ensures
            r.tycon_entries() == tycons@,
            r.alias_entries() == aliases@,
            r.unwrapped().len() == 0,
            r.wf(),
    {
        TypeEnv { tycons, aliases, unwrapped_newtypes: Vec::new() }
    }

    /// The declaration of every type constructor this environment holds, by its name.
    pub fn tycons(&self) -> (r: &Vec<(TyCon, TyConInfo)>)
        ensures
            r@ == self.tycon_entries(),
    {
        &self.tycons
    }

    /// The declaration of `tycon`, if this environment holds one.
    pub fn get_tycon(&self, tycon: &TyCon) -> (r: Option<&TyConInfo>)
        ensures
            match r {
                Some(ti) => entry_lookup(self.tycon_entries(), tycon_key(*tycon)) == Some(*ti),
                None => entry_lookup(self.tycon_entries(), tycon_key(*tycon)) is None,
            },
    {
        let mut i: usize = 0;
        proof {
            assert(self.tycons@.skip(0) =~= self.tycons@);
        }
        while i < self.tycons.len()
            invariant
                i <= self.tycons@.len(),
                entry_lookup(self.tycons@, tycon_key(*tycon)) == entry_lookup(self.tycons@.skip(i as int), tycon_key(*tycon)),
            decreases self.tycons@.len() - i,
        {
            let ghost rest = self.tycons@.skip(i as int);
            if self.tycons[i].0 == *tycon {
                return Some(&self.tycons[i].1);
            }
            assert(rest.drop_first() =~= self.tycons@.skip(i + 1));
            i = i + 1;
        }
        None
    }

    /// Whether a value of `tycon` has become a value of its one field.
    pub fn is_unwrapped_newtype(&self, tycon: &TyCon) -> (r: bool)
        ensures
            r == has_tycon(self.unwrapped(), tycon_key(*tycon)),
    {
        for i in 0..self.unwrapped_newtypes.len()
            invariant
                forall|j: int| 0 <= j < i ==> tycon_key(#[trigger] self.unwrapped_newtypes@[j]) != tycon_key(*tycon),
        {
            if self.unwrapped_newtypes[i] == *tycon {
                return true;
            }
        }
        false
    }

    /// The declaration of `tycon` if a value of it has become a value of its one field, and none
    /// otherwise.
    pub fn unwrapped_newtype_info(&self, tycon: &TyCon) -> (r: Option<&TyConInfo>)
        requires
            self.wf(),
        ensures
            match r {
                Some(ti) => has_tycon(self.unwrapped(), tycon_key(*tycon)) && entry_lookup(
                    self.tycon_entries(),
                    tycon_key(*tycon),
                ) == Some(*ti),
                None => !has_tycon(self.unwrapped(), tycon_key(*tycon)),
            },
    {
        if !self.is_unwrapped_newtype(tycon) {
            return None;
        }
        proof {
            let i = choose|i: int| 0 <= i < self.unwrapped().len() && tycon_key(#[trigger] self.unwrapped()[i]) == tycon_key(*tycon);
            assert(entry_lookup(self.tycon_entries(), tycon_key(self.unwrapped()[i])) is Some);
        }
        self.get_tycon(tycon)
    }

    /// The kind of every name this environment gives a meaning to, type constructors and type
    /// aliases together, each name once: an alias's kind stands over a type constructor's, and
    /// of two entries for one name the later one's kind stands.
    pub fn kinds(&self) -> (r: Vec<(TyCon, Arc<Kind>)>)
        ensures
            forall|a: int, b: int| 0 <= a < b < r@.len() ==> tycon_key(#[trigger] r@[a].0) != tycon_key(#[trigger] r@[b].0),
            forall|key: (Seq<Seq<char>>, Seq<char>)| #[trigger] env_tycon_kind(r@, key) == kind_of_name(self.tycon_entries(), self.alias_entries(), key),
    {
        let mut res: Vec<(TyCon, Arc<Kind>)> = Vec::new();
        for i in 0..self.tycons.len()
            invariant
                forall|a: int, b: int| 0 <= a < b < res@.len() ==> tycon_key(#[trigger] res@[a].0) != tycon_key(#[trigger] res@[b].0),
                forall|key: (Seq<Seq<char>>, Seq<char>)| #[trigger] env_tycon_kind(res@, key) == last_kind(self.tycons@, key, i as int, None),
        {
            let ghost before = res@;
            set_kind(&mut res, &self.tycons[i].0, self.tycons[i].1.kind.clone());
            proof {
                assert forall|key: (Seq<Seq<char>>, Seq<char>)| #[trigger] env_tycon_kind(res@, key) == last_kind(self.tycons@, key, i + 1, None) by {
                    lemma_last_kind_step(self.tycons@, key, i as int, None);
                }
            }
        }
        for i in 0..self.aliases.len()
            invariant
                forall|a: int, b: int| 0 <= a < b < res@.len() ==> tycon_key(#[trigger] res@[a].0) != tycon_key(#[trigger] res@[b].0),
                forall|key: (Seq<Seq<char>>, Seq<char>)| #[trigger] env_tycon_kind(res@, key) == last_alias_kind(
                    self.aliases@,
                    key,
                    i as int,
                    last_kind(self.tycons@, key, self.tycons@.len() as int, None),
                ),
        {
            set_kind(&mut res, &self.aliases[i].0, self.aliases[i].1.kind.clone());
            proof {
                assert forall|key: (Seq<Seq<char>>, Seq<char>)| #[trigger] env_tycon_kind(res@, key) == last_alias_kind(
                    self.aliases@,
                    key,
                    i + 1,
                    last_kind(self.tycons@, key, self.tycons@.len() as int, None),
                ) by {
                    lemma_last_alias_kind_step(self.aliases@, key, i as int, last_kind(self.tycons@, key, self.tycons@.len() as int, None));
                }
            }
        }
        res
    }

    /// The struct and the field that `name` is the `act_{field}` function of: `name` is a global
    /// name whose namespace, read as a full name, is a struct this environment declares, and whose
    /// own name is `act_` followed by the name of one of the struct's fields, the first such.
    pub fn is_struct_act(&self, name: &FullName) -> (r: Option<(TyCon, Name)>)
        ensures
            match r {
                None => name@.namespace.names.len() == 0 || !struct_act_of(self.tycon_entries(), name@),
                Some((tc, field)) => name@.namespace.names.len() > 0 && tc.name@.namespace.names
                    == name@.namespace.names.drop_last() && tc.name@.name == name@.namespace.names.last()
                    && struct_act_of(self.tycon_entries(), name@) && name@.name == spec_struct_act_symbol() + field@,
            },
    {
        if name.is_local() {
            return None;
        }
        let str_name = TyCon { name: name.namespace.clone().to_fullname() };
        let ghost key = tycon_key(str_name);
        match self.get_tycon(&str_name) {
            Some(ti) => {
                if ti.variant != TyConVariant::Struct {
                    return None;
                }
                for i in 0..ti.fields.len()
                    invariant
                        entry_lookup(self.tycons@, key) == Some(*ti),
                        ti.variant == TyConVariant::Struct,
                        key == (name@.namespace.names.drop_last(), name@.namespace.names.last()),
                        name@.namespace.names.len() > 0,
                        str_name.name@.namespace.names == name@.namespace.names.drop_last(),
                        str_name.name@.name == name@.namespace.names.last(),
                        forall|j: int| 0 <= j < i ==> spec_struct_act_symbol() + (#[trigger] ti.fields@[j]).name@ != name@.name,
                {
                    let mut act = to_string("act_");
                    act.append(ti.fields[i].name.as_str());
                    proof {
                        reveal_strlit("act_");
                    }
                    if act == name.name {
                        proof {
                            assert(act@ == name.name@);
                            assert(spec_struct_act_symbol() + ti.fields@[i as int].name@ == name@.name);
                            assert(struct_act_of(self.tycon_entries(), name@));
                        }
                        let field = ti.fields[i].name.clone();
                        assert(field@ == ti.fields@[i as int].name@);
                        assert(str_name.name@.namespace.names == name@.namespace.names.drop_last());
                        assert(str_name.name@.name == name@.namespace.names.last());
                        return Some((str_name, field));
                    }
                }
                None
            },
            None => None,
        }
    }
}

/// Whether `name` is the `act_{field}` function of a struct the entries `v` declare: its
/// namespace, read as a full name, is such a struct, and its own name is `act_` followed by the
/// name of one of its fields.
pub open spec fn struct_act_of(v: Seq<(TyCon, TyConInfo)>, name: crate::ast::name::FullNameView) -> bool {
    let key = (name.namespace.names.drop_last(), name.namespace.names.last());
    match entry_lookup(v, key) {
        Some(ti) => ti.variant == TyConVariant::Struct && exists|j: int|
            0 <= j < ti.fields@.len() && spec_struct_act_symbol() + (#[trigger] ti.fields@[j]).name@ == name.name,
        None => false,
    }
}

/// The kind the last of the first `k` entries of `v` for the key `key` gives, or `d` where none
/// of them is for it.
pub open spec fn last_kind(v: Seq<(TyCon, TyConInfo)>, key: (Seq<Seq<char>>, Seq<char>), k: int, d: Option<Arc<Kind>>) -> Option<Arc<Kind>>
    decreases k,
{
    if k <= 0 {
        d
    } else if tycon_key(v[k - 1].0) == key {
        Some(v[k - 1].1.kind)
    } else {
        last_kind(v, key, k - 1, d)
    }
}

/// The kind the last of the first `k` aliases of `v` for the key `key` gives, or `d` where none
/// of them is for it.
pub open spec fn last_alias_kind(v: Seq<(TyCon, TyAliasInfo)>, key: (Seq<Seq<char>>, Seq<char>), k: int, d: Option<Arc<Kind>>) -> Option<Arc<Kind>>
    decreases k,
{
    if k <= 0 {
        d
    } else if tycon_key(v[k - 1].0) == key {
        Some(v[k - 1].1.kind)
    } else {
        last_alias_kind(v, key, k - 1, d)
    }
}

/// The kind a name has among the type constructors `tycons` and the aliases `aliases`: that of
/// its last alias, or else that of its last type constructor.
pub open spec fn kind_of_name(tycons: Seq<(TyCon, TyConInfo)>, aliases: Seq<(TyCon, TyAliasInfo)>, key: (Seq<Seq<char>>, Seq<char>)) -> Option<Arc<Kind>> {
    last_alias_kind(aliases, key, aliases.len() as int, last_kind(tycons, key, tycons.len() as int, None))
}

proof fn lemma_last_kind_step(v: Seq<(TyCon, TyConInfo)>, key: (Seq<Seq<char>>, Seq<char>), k: int, d: Option<Arc<Kind>>)
    requires
        0 <= k,
    ensures
        last_kind(v, key, k + 1, d) == if tycon_key(v[k].0) == key {
            Some(v[k].1.kind)
        } else {
            last_kind(v, key, k, d)
        },
{
}

proof fn lemma_last_alias_kind_step(v: Seq<(TyCon, TyAliasInfo)>, key: (Seq<Seq<char>>, Seq<char>), k: int, d: Option<Arc<Kind>>)
    requires
        0 <= k,
    ensures
        last_alias_kind(v, key, k + 1, d) == if tycon_key(v[k].0) == key {
            Some(v[k].1.kind)
        } else {
            last_alias_kind(v, key, k, d)
        },
{
}

/// Binds the name `tc` to `kind` in the entries `res`, which hold each name once: the entry for
/// it changes where there is one, and one is added where there is none.
fn set_kind(res: &mut Vec<(TyCon, Arc<Kind>)>, tc: &TyCon, kind: Arc<Kind>)
    requires
        forall|a: int, b: int| 0 <= a < b < old(res)@.len() ==> tycon_key(#[trigger] old(res)@[a].0) != tycon_key(#[trigger] old(res)@[b].0),
    ensures
        forall|a: int, b: int| 0 <= a < b < final(res)@.len() ==> tycon_key(#[trigger] final(res)@[a].0) != tycon_key(#[trigger] final(res)@[b].0),
        forall|key: (Seq<Seq<char>>, Seq<char>)| #[trigger] env_tycon_kind(final(res)@, key) == if key == tycon_key(*tc) {
            Some(kind)
        } else {
            env_tycon_kind(old(res)@, key)
        },
{
    let ghost before = res@;
    let mut i: usize = 0;
    while i < res.len()
        invariant
            res@ == before,
            before == old(res)@,
            forall|a: int, b: int| 0 <= a < b < before.len() ==> tycon_key(#[trigger] before[a].0) != tycon_key(#[trigger] before[b].0),
            i <= before.len(),
            forall|j: int| 0 <= j < i ==> tycon_key(#[trigger] before[j].0) != tycon_key(*tc),
        decreases before.len() - i,
    {
        if res[i].0 == *tc {
            let name = res[i].0.clone();
            res.set(i, (name, kind));
            proof {
                assert(res@ == before.update(i as int, (name, kind)));
                assert forall|a: int, b: int| 0 <= a < b < res@.len() implies tycon_key(#[trigger] res@[a].0) != tycon_key(#[trigger] res@[b].0) by {
                    if a != i && b != i {
                        assert(res@[a] == before[a] && res@[b] == before[b]);
                    } else if a == i {
                        assert(res@[b] == before[b]);
                    } else {
                        assert(res@[a] == before[a]);
                    }
                }
                assert forall|key: (Seq<Seq<char>>, Seq<char>)| #[trigger] env_tycon_kind(res@, key) == if key == tycon_key(*tc) {
                    Some(kind)
                } else {
                    env_tycon_kind(before, key)
                } by {
                    lemma_env_kind_update(before, i as int, (name, kind), key);
                }
            }
            return;
        }
        i = i + 1;
    }
    res.push((tc.clone(), kind));
    proof {
        assert forall|key: (Seq<Seq<char>>, Seq<char>)| #[trigger] env_tycon_kind(res@, key) == if key == tycon_key(*tc) {
            Some(kind)
        } else {
            env_tycon_kind(before, key)
        } by {
            lemma_env_kind_push(before, (res@.last().0, kind), key);
        }
    }
}


/// Replacing the entry at `i` by one for the same name, where no earlier entry is for it, binds
/// that name to the new kind and leaves the others.
proof fn lemma_env_kind_update(env: Seq<(TyCon, Arc<Kind>)>, i: int, e: (TyCon, Arc<Kind>), key: (Seq<Seq<char>>, Seq<char>))
    requires
        0 <= i < env.len(),
        tycon_key(e.0) == tycon_key(env[i].0),
        forall|j: int| 0 <= j < i ==> tycon_key(#[trigger] env[j].0) != tycon_key(e.0),
    ensures
        env_tycon_kind(env.update(i, e), key) == if key == tycon_key(e.0) {
            Some(e.1)
        } else {
            env_tycon_kind(env, key)
        },
    decreases i,
{
    let u = env.update(i, e);
    if i > 0 {
        assert(u.drop_first() =~= env.drop_first().update(i - 1, e));
        assert forall|j: int| 0 <= j < i - 1 implies tycon_key(#[trigger] env.drop_first()[j].0) != tycon_key(e.0) by {
            assert(env.drop_first()[j] == env[j + 1]);
        }
        lemma_env_kind_update(env.drop_first(), i - 1, e, key);
        assert(u[0] == env[0]);
        assert(env_tycon_kind(u, key) == if tycon_key(u[0].0) == key {
            Some(u[0].1)
        } else {
            env_tycon_kind(u.drop_first(), key)
        });
    } else {
        assert(u.drop_first() =~= env.drop_first());
        assert(u[0] == e);
        assert(env_tycon_kind(u, key) == if tycon_key(u[0].0) == key {
            Some(u[0].1)
        } else {
            env_tycon_kind(u.drop_first(), key)
        });
    }
}

/// Adding an entry for a name no entry is for binds that name to its kind and leaves the
/// others.
proof fn lemma_env_kind_push(env: Seq<(TyCon, Arc<Kind>)>, e: (TyCon, Arc<Kind>), key: (Seq<Seq<char>>, Seq<char>))
    requires
        forall|j: int| 0 <= j < env.len() ==> tycon_key(#[trigger] env[j].0) != tycon_key(e.0),
    ensures
        env_tycon_kind(env.push(e), key) == if key == tycon_key(e.0) {
            Some(e.1)
        } else {
            env_tycon_kind(env, key)
        },
    decreases env.len(),
{
    let p = env.push(e);
    if env.len() > 0 {
        assert(p.drop_first() =~= env.drop_first().push(e));
        assert forall|j: int| 0 <= j < env.drop_first().len() implies tycon_key(#[trigger] env.drop_first()[j].0) != tycon_key(e.0) by {
            assert(env.drop_first()[j] == env[j + 1]);
        }
        lemma_env_kind_push(env.drop_first(), e, key);
        assert(p[0] == env[0]);
        assert(env_tycon_kind(p, key) == if tycon_key(p[0].0) == key {
            Some(p[0].1)
        } else {
            env_tycon_kind(p.drop_first(), key)
        });
    } else {
        assert(p.drop_first() =~= Seq::<(TyCon, Arc<Kind>)>::empty());
        assert(p[0] == e);
        assert(env_tycon_kind(p, key) == if tycon_key(p[0].0) == key {
            Some(p[0].1)
        } else {
            env_tycon_kind(p.drop_first(), key)
        });
    }
}


/// Whether the declaration of the type constructor heading `n` is one `env` holds.
pub open spec fn head_declared(n: TypeNode, env: TypeEnv) -> bool {
    toplevel(n) is Some && entry_lookup(env.tycon_entries(), tycon_key(*toplevel(n)->0)) is Some
}

/// The declaration `env` holds of the type constructor heading `n`.
pub open spec fn head_info(n: TypeNode, env: TypeEnv) -> TyConInfo {
    entry_lookup(env.tycon_entries(), tycon_key(*toplevel(n)->0))->0
}

impl TypeNode {
    /// The declaration of this type's outermost type constructor: its variant, boxedness, type
    /// parameters and fields. The type is no function type, and a type constructor `type_env`
    /// declares heads it.
    pub fn toplevel_tycon_info<'a>(&self, type_env: &'a TypeEnv) -> (r: &'a TyConInfo)
        requires
            !closure_type(*self),
            head_declared(*self, *type_env),
        ensures
            *r == head_info(*self, *type_env),
    {
        let tycon = self.toplevel_tycon().unwrap();
        type_env.get_tycon(&tycon).unwrap()
    }

    /// Whether a struct heads this type. The type is no function type, and a type constructor
    /// `type_env` declares heads it.
    pub fn is_struct(&self, type_env: &TypeEnv) -> (r: bool)
        requires
            !closure_type(*self),
            head_declared(*self, *type_env),
        ensures
            r == (head_info(*self, *type_env).variant == TyConVariant::Struct),
    {
        let ti = self.toplevel_tycon_info(type_env);
        ti.variant == TyConVariant::Struct
    }

    /// Whether a value of this type is held in place, with its fields laid out where the value
    /// sits: a function type's is, and another type's is where its declaration says so. A type
    /// constructor `type_env` declares heads a type that is no function type.
    pub fn is_unbox(&self, type_env: &TypeEnv) -> (r: bool)
        requires
            !closure_type(*self) ==> head_declared(*self, *type_env),
        ensures
            r == (closure_type(*self) || head_info(*self, *type_env).is_unbox),
    {
        self.is_closure() || self.toplevel_tycon_info(type_env).is_unbox
    }

    /// Whether a value of this type is a pointer to a heap block holding its fields.
    pub fn is_box(&self, type_env: &TypeEnv) -> (r: bool)
        requires
            !closure_type(*self) ==> head_declared(*self, *type_env),
        ensures
            r == !(closure_type(*self) || head_info(*self, *type_env).is_unbox),
    {
        !self.is_unbox(type_env)
    }

    /// The index of the first struct field or union variant named `field_name`, which is the
    /// place it sits at in the layout.
    pub fn field_index(&self, type_env: &TypeEnv, field_name: &str) -> (r: Option<usize>)
        requires
            !closure_type(*self),
            head_declared(*self, *type_env),
        ensures
            ({
                let fields = head_info(*self, *type_env).fields@;
                match r {
                    Some(i) => i < fields.len() && fields[i as int].name@ == field_name@ && forall|j: int|
                        0 <= j < i ==> (#[trigger] fields[j]).name@ != field_name@,
                    None => forall|j: int| 0 <= j < fields.len() ==> (#[trigger] fields[j]).name@ != field_name@,
                }
            }),
    {
        let ti = self.toplevel_tycon_info(type_env);
        let target = to_string(field_name);
        for i in 0..ti.fields.len()
            invariant
                target@ == field_name@,
                *ti == head_info(*self, *type_env),
                forall|j: int| 0 <= j < i ==> (#[trigger] ti.fields@[j]).name@ != field_name@,
        {
            if ti.fields[i].name == target {
                return Some(i);
            }
        }
        None
    }
}


impl TypeEnv {
    /// The kind of the type constructor `tycon`, which this environment declares.
    pub fn kind(&self, tycon: &TyCon) -> (r: Arc<Kind>)
        requires
            entry_lookup(self.tycon_entries(), tycon_key(*tycon)) is Some,
        ensures
            r == entry_lookup(self.tycon_entries(), tycon_key(*tycon))->0.kind,
    {
        self.get_tycon(tycon).unwrap().kind.clone()
    }
}

impl TypeNode {
    /// Whether a union heads this type. The type is no function type, and a type constructor
    /// `type_env` declares heads it.
    pub fn is_union(&self, type_env: &TypeEnv) -> (r: bool)
        requires
            !closure_type(*self),
            head_declared(*self, *type_env),
        ensures
            r == (head_info(*self, *type_env).variant == TyConVariant::Union),
    {
        let ti = self.toplevel_tycon_info(type_env);
        ti.variant == TyConVariant::Union
    }
}

} // verus!
