//! The kinds in scope while the kinds of a declaration's type variables are worked out.
use crate::ast::equality::Equality;
use crate::ast::name::Name;
use crate::ast::predicate::Predicate;
use crate::ast::traits::{AssocTypeKindInfo, KindSignature, TraitId};
use crate::ast::types::{
    kind_eq, lemma_assoc_arg_decreases, tycon_key, AssocType, Kind, TyCon, TyVar, Type, TypeNode,
};
use std::sync::Arc;
use vstd::prelude::*;

verus! {

/// The kind bound to `name` in `scope`: the first binding of that name.
pub open spec fn scope_lookup(scope: Seq<(Name, Arc<Kind>)>, name: Seq<char>) -> Option<Arc<Kind>>
    decreases scope.len(),
{
    if scope.len() == 0 {
        None
    } else if scope[0].0@ == name {
        Some(scope[0].1)
    } else {
        scope_lookup(scope.drop_first(), name)
    }
}

/// The kinds of the type variables in scope, by the variables' names.
pub struct KindScope {
    /// The bindings, the first binding of a name deciding its kind.
    pub scope: Vec<(Name, Arc<Kind>)>,
}

impl View for KindScope {
    type V = Map<Seq<char>, Arc<Kind>>;

    open spec fn view(&self) -> Map<Seq<char>, Arc<Kind>> {
        Map::new(
            |n: Seq<char>| scope_lookup(self.scope@, n) is Some,
            |n: Seq<char>| scope_lookup(self.scope@, n)->0,
        )
    }
}

/// Looking a name up after a binding is added at the end finds the first binding where there
/// is one, and the added one otherwise.
pub proof fn lemma_scope_lookup_push(scope: Seq<(Name, Arc<Kind>)>, b: (Name, Arc<Kind>), n: Seq<char>)
    ensures
        scope_lookup(scope.push(b), n) == if scope_lookup(scope, n) is Some {
            scope_lookup(scope, n)
        } else if b.0@ == n {
            Some(b.1)
        } else {
            None
        },
    decreases scope.len(),
{
    if scope.len() > 0 {
        assert(scope.push(b).drop_first() =~= scope.drop_first().push(b));
        assert(scope.push(b)[0] == scope[0]);
        lemma_scope_lookup_push(scope.drop_first(), b, n);
    } else {
        assert(scope.push(b).drop_first() =~= Seq::<(Name, Arc<Kind>)>::empty());
        assert(scope.push(b)[0] == b);
        assert(scope_lookup(scope.push(b).drop_first(), n) is None);
        assert(scope_lookup(scope, n) is None);
    }
}

impl KindScope {
    /// The scope binding nothing.
    pub fn new() -> (r: Self)
        ensures
            r@ == Map::<Seq<char>, Arc<Kind>>::empty(),
    {
        let r = KindScope { scope: Vec::new() };
        assert(r@ =~= Map::<Seq<char>, Arc<Kind>>::empty());
        r
    }

    /// The kind bound to `name`, where one is.
    pub fn get(&self, name: &Name) -> (r: Option<Arc<Kind>>)
        ensures
            r == scope_lookup(self.scope@, name@),
    {
        let mut i: usize = 0;
        assert(self.scope@.skip(0) =~= self.scope@);
        while i < self.scope.len()
            invariant
                i <= self.scope@.len(),
                scope_lookup(self.scope@, name@) == scope_lookup(self.scope@.skip(i as int), name@),
            decreases self.scope@.len() - i,
        {
            let ghost rest = self.scope@.skip(i as int);
            if self.scope[i].0 == *name {
                return Some(self.scope[i].1.clone());
            }
            assert(rest.drop_first() =~= self.scope@.skip(i + 1));
            i = i + 1;
        }
        None
    }

    /// The type variable `tv` carrying the kind this scope binds its name to, and `tv` itself
    /// where the scope binds its name to none.
    pub fn set_tv(&self, tv: &Arc<TyVar>) -> (r: Arc<TyVar>)
        ensures
            r.name == tv.name,
            r.kind == if self@.contains_key(tv.name@) {
                self@[tv.name@]
            } else {
                tv.kind
            },
    {
        match self.get(&tv.name) {
            Some(kind) => tv.set_kind(kind),
            None => tv.clone(),
        }
    }

    /// Binds `tyvar` to `kind`. A name already bound keeps its kind, and is reported where that
    /// kind is another.
    pub fn insert(&mut self, tyvar: String, kind: Arc<Kind>) -> (r: Result<(), String>)
        ensures
            old(self)@.contains_key(tyvar@) ==> final(self)@ == old(self)@,
            old(self)@.contains_key(tyvar@) && *old(self)@[tyvar@] == *kind ==> r is Ok,
            old(self)@.contains_key(tyvar@) && *old(self)@[tyvar@] != *kind ==> r is Err
                && r->Err_0@ == mismatch_message(tyvar@),
            !old(self)@.contains_key(tyvar@) ==> r is Ok && final(self)@ == old(self)@.insert(
                tyvar@,
                kind,
            ),
    {
        match self.get(&tyvar) {
            Some(k) => {
                if !kind_eq(&k, &kind) {
                    let mut msg = crate::strutil::to_string("Kind mismatch on type variable `");
                    msg.append(tyvar.as_str());
                    msg.append("`.");
                    return Err(msg);
                }
                Ok(())
            },
            None => {
                let ghost before = self.scope@;
                let ghost n = tyvar@;
                self.scope.push((tyvar, kind));
                proof {
                    assert forall|m: Seq<char>| #[trigger] scope_lookup(self.scope@, m) == if scope_lookup(before, m) is Some {
                        scope_lookup(before, m)
                    } else if n == m {
                        Some(kind)
                    } else {
                        None
                    } by {
                        lemma_scope_lookup_push(before, (tyvar, kind), m);
                    }
                    assert(self@ =~= old(self)@.insert(n, kind));
                }
                Ok(())
            },
        }
    }
}

/// The report that a type variable is given two kinds.
pub open spec fn mismatch_message(tyvar: Seq<char>) -> Seq<char> {
    "Kind mismatch on type variable `"@ + tyvar + "`."@
}

/// The kind `env` gives the type constructor with the key `key`: the first entry for it.
pub open spec fn env_tycon_kind(env: Seq<(TyCon, Arc<Kind>)>, key: (Seq<Seq<char>>, Seq<char>)) -> Option<Arc<Kind>>
    decreases env.len(),
{
    if env.len() == 0 {
        None
    } else if tycon_key(env[0].0) == key {
        Some(env[0].1)
    } else {
        env_tycon_kind(env.drop_first(), key)
    }
}

/// The names an associated type is told apart by.
pub open spec fn assoc_key(a: AssocType) -> (Seq<Seq<char>>, Seq<char>) {
    (a.name@.namespace.names, a.name@.name)
}

/// What `env` records of the associated type with the key `key`: the first entry for it.
pub open spec fn env_assoc_info(env: Seq<(AssocType, AssocTypeKindInfo)>, key: (Seq<Seq<char>>, Seq<char>)) -> Option<AssocTypeKindInfo>
    decreases env.len(),
{
    if env.len() == 0 {
        None
    } else if assoc_key(env[0].0) == key {
        Some(env[0].1)
    } else {
        env_assoc_info(env.drop_first(), key)
    }
}

/// The names a trait is told apart by.
pub open spec fn trait_key(t: TraitId) -> (Seq<Seq<char>>, Seq<char>) {
    (t.name@.namespace.names, t.name@.name)
}

/// The kind `env` gives the trait with the key `key`: the first entry for it.
pub open spec fn env_trait_kind(env: Seq<(TraitId, Arc<Kind>)>, key: (Seq<Seq<char>>, Seq<char>)) -> Option<Arc<Kind>>
    decreases env.len(),
{
    if env.len() == 0 {
        None
    } else if trait_key(env[0].0) == key {
        Some(env[0].1)
    } else {
        env_trait_kind(env.drop_first(), key)
    }
}

/// The kinds of the type constructors, the associated types and the traits a program declares.
pub struct KindEnv {
    /// The kind of each type constructor.
    pub tycons: Vec<(TyCon, Arc<Kind>)>,
    /// The parameter kinds and the value kind of each associated type.
    pub assoc_tys: Vec<(AssocType, AssocTypeKindInfo)>,
    /// The kind of the type each trait and each trait alias constrains.
    pub traits_and_aliases: Vec<(TraitId, Arc<Kind>)>,
}

impl KindEnv {
    /// The kind of the type constructor `tc`, where one is recorded.
    pub fn tycon_kind(&self, tc: &TyCon) -> (r: Option<Arc<Kind>>)
        ensures
            r == env_tycon_kind(self.tycons@, tycon_key(*tc)),
    {
        let mut i: usize = 0;
        assert(self.tycons@.skip(0) =~= self.tycons@);
        while i < self.tycons.len()
            invariant
                i <= self.tycons@.len(),
                env_tycon_kind(self.tycons@, tycon_key(*tc)) == env_tycon_kind(self.tycons@.skip(i as int), tycon_key(*tc)),
            decreases self.tycons@.len() - i,
        {
            let ghost rest = self.tycons@.skip(i as int);
            if self.tycons[i].0 == *tc {
                return Some(self.tycons[i].1.clone());
            }
            assert(rest.drop_first() =~= self.tycons@.skip(i + 1));
            i = i + 1;
        }
        None
    }

    /// What is recorded of the associated type `a`, where anything is.
    pub fn assoc_info(&self, a: &AssocType) -> (r: Option<&AssocTypeKindInfo>)
        ensures
            r matches Some(info) ==> env_assoc_info(self.assoc_tys@, assoc_key(*a)) == Some(*info),
            r is None ==> env_assoc_info(self.assoc_tys@, assoc_key(*a)) is None,
    {
        let mut i: usize = 0;
        assert(self.assoc_tys@.skip(0) =~= self.assoc_tys@);
        while i < self.assoc_tys.len()
            invariant
                i <= self.assoc_tys@.len(),
                env_assoc_info(self.assoc_tys@, assoc_key(*a)) == env_assoc_info(self.assoc_tys@.skip(i as int), assoc_key(*a)),
            decreases self.assoc_tys@.len() - i,
        {
            let ghost rest = self.assoc_tys@.skip(i as int);
            if self.assoc_tys[i].0 == *a {
                return Some(&self.assoc_tys[i].1);
            }
            assert(rest.drop_first() =~= self.assoc_tys@.skip(i + 1));
            i = i + 1;
        }
        None
    }

    /// The kind of the type the trait `t` constrains, where one is recorded.
    pub fn trait_kind(&self, t: &TraitId) -> (r: Option<Arc<Kind>>)
        ensures
            r == env_trait_kind(self.traits_and_aliases@, trait_key(*t)),
    {
        let mut i: usize = 0;
        assert(self.traits_and_aliases@.skip(0) =~= self.traits_and_aliases@);
        while i < self.traits_and_aliases.len()
            invariant
                i <= self.traits_and_aliases@.len(),
                env_trait_kind(self.traits_and_aliases@, trait_key(*t)) == env_trait_kind(self.traits_and_aliases@.skip(i as int), trait_key(*t)),
            decreases self.traits_and_aliases@.len() - i,
        {
            let ghost rest = self.traits_and_aliases@.skip(i as int);
            if self.traits_and_aliases[i].0 == *t {
                return Some(self.traits_and_aliases[i].1.clone());
            }
            assert(rest.drop_first() =~= self.traits_and_aliases@.skip(i + 1));
            i = i + 1;
        }
        None
    }
}


/// The scope `m` with `name` bound to `kind`: unchanged where `name` is bound to that kind
/// already, and none where it is bound to another.
pub open spec fn scope_insert(m: Map<Seq<char>, Arc<Kind>>, name: Seq<char>, kind: Arc<Kind>) -> Option<Map<Seq<char>, Arc<Kind>>> {
    if m.contains_key(name) {
        if *m[name] == *kind {
            Some(m)
        } else {
            None
        }
    } else {
        Some(m.insert(name, kind))
    }
}

/// Whether every associated type application that `extend_by_assoc_ty_application` reaches in
/// `n` has its kinds recorded in `env`.
pub open spec fn assoc_known(n: TypeNode, env: KindEnv) -> bool
    decreases n, 1nat,
{
    match n.ty {
        Type::AssocTy(at, args) => env_assoc_info(env.assoc_tys@, assoc_key(at)) is Some
            && assoc_known_args(n, env, args@.len() as int),
        _ => true,
    }
}

/// `assoc_known` of the first `k` arguments of the associated type application `n`.
pub open spec fn assoc_known_args(n: TypeNode, env: KindEnv, k: int) -> bool
    decreases n, 0nat, k,
{
    match n.ty {
        Type::AssocTy(_, args) => if k <= 0 || k > args@.len() {
            true
        } else {
            assoc_known_args(n, env, k - 1) && assoc_known(*args@[k - 1], env)
        },
        _ => true,
    }
}

/// The scope `m` extended by the kinds the associated type application `n` demands of the type
/// variables standing as its arguments, nested applications included; none where the number of
/// arguments is wrong or a variable is demanded at two kinds.
pub open spec fn extend_assoc(m: Map<Seq<char>, Arc<Kind>>, n: TypeNode, env: KindEnv) -> Option<Map<Seq<char>, Arc<Kind>>>
    decreases n, 1nat,
{
    match n.ty {
        Type::AssocTy(at, args) => match env_assoc_info(env.assoc_tys@, assoc_key(at)) {
            Some(info) => if args@.len() != info.param_kinds@.len() {
                None
            } else {
                extend_assoc_args(m, n, env, info.param_kinds@, args@.len() as int)
            },
            None => None,
        },
        _ => None,
    }
}

/// `extend_assoc` over the first `k` arguments of the associated type application `n`, each at
/// the kind `params` gives its position.
pub open spec fn extend_assoc_args(
    m: Map<Seq<char>, Arc<Kind>>,
    n: TypeNode,
    env: KindEnv,
    params: Seq<Arc<Kind>>,
    k: int,
) -> Option<Map<Seq<char>, Arc<Kind>>>
    decreases n, 0nat, k,
{
    match n.ty {
        Type::AssocTy(_, args) => if k <= 0 || k > args@.len() {
            Some(m)
        } else {
            match extend_assoc_args(m, n, env, params, k - 1) {
                None => None,
                Some(m1) => match args@[k - 1].ty {
                    Type::TyVar(tv) => scope_insert(m1, tv.name@, params[k - 1]),
                    Type::AssocTy(_, _) => extend_assoc(m1, *args@[k - 1], env),
                    _ => Some(m1),
                },
            }
        },
        _ => Some(m),
    }
}

/// The scope `m` extended by the first `k` kind annotations of `signs`.
pub open spec fn extend_signs(m: Map<Seq<char>, Arc<Kind>>, signs: Seq<KindSignature>, k: int) -> Option<Map<Seq<char>, Arc<Kind>>>
    decreases k,
{
    if k <= 0 {
        Some(m)
    } else {
        match extend_signs(m, signs, k - 1) {
            None => None,
            Some(m1) => scope_insert(m1, signs[k - 1].tyvar@, signs[k - 1].kind),
        }
    }
}

/// The scope `m` extended by the kinds the first `k` trait constraints of `preds` demand: a
/// constraint on a type variable gives it the kind its trait constrains, and one on an
/// associated type application demands what that application does.
pub open spec fn extend_preds(m: Map<Seq<char>, Arc<Kind>>, preds: Seq<Predicate>, env: KindEnv, k: int) -> Option<Map<Seq<char>, Arc<Kind>>>
    decreases k,
{
    if k <= 0 {
        Some(m)
    } else {
        match extend_preds(m, preds, env, k - 1) {
            None => None,
            Some(m1) => match preds[k - 1].ty.ty {
                Type::TyVar(tv) => scope_insert(
                    m1,
                    tv.name@,
                    env_trait_kind(env.traits_and_aliases@, trait_key(preds[k - 1].trait_id))->0,
                ),
                Type::AssocTy(_, _) => extend_assoc(m1, *preds[k - 1].ty, env),
                _ => Some(m1),
            },
        }
    }
}

/// The scope `m` extended by the kinds the left sides of the first `k` equality constraints of
/// `eqs` demand.
pub open spec fn extend_eqs(m: Map<Seq<char>, Arc<Kind>>, eqs: Seq<Equality>, env: KindEnv, k: int) -> Option<Map<Seq<char>, Arc<Kind>>>
    decreases k,
{
    if k <= 0 {
        Some(m)
    } else {
        match extend_eqs(m, eqs, env, k - 1) {
            None => None,
            Some(m1) => extend_eq_lhs(m1, eqs[k - 1], env),
        }
    }
}

/// The scope `m` extended by what the left side of `eq` demands.
pub open spec fn extend_eq_lhs(m: Map<Seq<char>, Arc<Kind>>, eq: Equality, env: KindEnv) -> Option<Map<Seq<char>, Arc<Kind>>> {
    match env_assoc_info(env.assoc_tys@, assoc_key(eq.assoc_type)) {
        Some(info) => if eq.args@.len() != info.param_kinds@.len() {
            None
        } else {
            extend_seq_args(m, eq.args@, env, info.param_kinds@, eq.args@.len() as int)
        },
        None => None,
    }
}

/// `extend_assoc_args` over the arguments `args`, given as a sequence.
pub open spec fn extend_seq_args(
    m: Map<Seq<char>, Arc<Kind>>,
    args: Seq<Arc<TypeNode>>,
    env: KindEnv,
    params: Seq<Arc<Kind>>,
    k: int,
) -> Option<Map<Seq<char>, Arc<Kind>>>
    decreases k,
{
    if k <= 0 {
        Some(m)
    } else {
        match extend_seq_args(m, args, env, params, k - 1) {
            None => None,
            Some(m1) => match args[k - 1].ty {
                Type::TyVar(tv) => scope_insert(m1, tv.name@, params[k - 1]),
                Type::AssocTy(_, _) => extend_assoc(m1, *args[k - 1], env),
                _ => Some(m1),
            },
        }
    }
}

/// Over the arguments of an application, `extend_seq_args` and `extend_assoc_args` agree.
pub proof fn lemma_extend_seq_args(
    m: Map<Seq<char>, Arc<Kind>>,
    n: TypeNode,
    env: KindEnv,
    params: Seq<Arc<Kind>>,
    k: int,
)
    requires
        n.ty is AssocTy,
        0 <= k <= n.ty->AssocTy_1@.len(),
    ensures
        extend_seq_args(m, n.ty->AssocTy_1@, env, params, k) == extend_assoc_args(
            m,
            n,
            env,
            params,
            k,
        ),
    decreases k,
{
    if k > 0 {
        lemma_extend_seq_args(m, n, env, params, k - 1);
    }
}

/// Where the first `l` arguments are known, so are the first `k`.
pub proof fn lemma_assoc_known_prefix(n: TypeNode, env: KindEnv, k: int, l: int)
    requires
        n.ty is AssocTy,
        0 < k <= l <= n.ty->AssocTy_1@.len(),
        assoc_known_args(n, env, l),
    ensures
        assoc_known(*n.ty->AssocTy_1@[k - 1], env),
    decreases l - k,
{
    if k < l {
        lemma_assoc_known_prefix(n, env, k, l - 1);
    }
}

/// Once a prefix of the arguments fails, every longer prefix does.
pub proof fn lemma_extend_seq_args_stop(
    m: Map<Seq<char>, Arc<Kind>>,
    args: Seq<Arc<TypeNode>>,
    env: KindEnv,
    params: Seq<Arc<Kind>>,
    k: int,
    l: int,
)
    requires
        0 <= k <= l,
        extend_seq_args(m, args, env, params, k) is None,
    ensures
        extend_seq_args(m, args, env, params, l) is None,
    decreases l - k,
{
    if k < l {
        lemma_extend_seq_args_stop(m, args, env, params, k, l - 1);
    }
}

impl KindScope {
    /// Extends the scope by the kinds the associated type application `assoc_ty_app` demands of
    /// the type variables standing as its arguments, nested applications included: a type
    /// variable argument is given the kind of its position.
    pub fn extend_by_assoc_ty_application(&mut self, assoc_ty_app: &Arc<TypeNode>, kind_env: &KindEnv) -> (r: Result<(), String>)
        requires
            assoc_ty_app.ty is AssocTy,
            assoc_known(**assoc_ty_app, *kind_env),
        ensures
            r is Ok <==> extend_assoc(old(self)@, **assoc_ty_app, *kind_env) is Some,
            r is Ok ==> final(self)@ == extend_assoc(old(self)@, **assoc_ty_app, *kind_env)->0,
        decreases assoc_ty_app,
    {
        let node: &TypeNode = &**assoc_ty_app;
        match &node.ty {
            Type::AssocTy(assoc_ty, args) => {
                let kind_info = kind_env.assoc_info(assoc_ty).unwrap();
                if args.len() != kind_info.param_kinds.len() {
                    let mut msg = crate::strutil::to_string("Invalid number of arguments for associated type `");
                    let n = assoc_ty.name.to_string();
                    msg.append(n.as_str());
                    msg.append("`. Expect: ");
                    let e = crate::strutil::usize_string(kind_info.param_kinds.len());
                    msg.append(e.as_str());
                    msg.append(", found: ");
                    let f = crate::strutil::usize_string(args.len());
                    msg.append(f.as_str());
                    msg.append(".");
                    return Err(msg);
                }
                let params = &kind_info.param_kinds;
                let ghost m0 = self@;
                proof {
                    lemma_extend_seq_args(m0, *node, *kind_env, params@, args@.len() as int);
                }
                let mut i: usize = 0;
                while i < args.len()
                    invariant
                        i <= args@.len(),
                        args@.len() == params@.len(),
                        node.ty == Type::AssocTy(node.ty->AssocTy_0, *args),
                        *node == **assoc_ty_app,
                        assoc_known(*node, *kind_env),
                        node.ty->AssocTy_0 == *assoc_ty,
                        env_assoc_info(kind_env.assoc_tys@, assoc_key(*assoc_ty)) == Some(*kind_info),
                        *params == kind_info.param_kinds,
                        extend_assoc(m0, *node, *kind_env) == extend_seq_args(m0, args@, *kind_env, params@, args@.len() as int),
                        extend_seq_args(m0, args@, *kind_env, params@, i as int) == Some(self@),
                        m0 == old(self)@,
                    decreases args@.len() - i,
                {
                    proof {
                        lemma_assoc_arg_decreases(*node, i as int);
                        lemma_assoc_known_prefix(*node, *kind_env, i as int + 1, args@.len() as int);
                    }
                    let arg = &args[i];
                    match &arg.ty {
                        Type::TyVar(tv) => {
                            let res = self.insert(tv.name.clone(), params[i].clone());
                            if res.is_err() {
                                proof {
                                    lemma_extend_seq_args_stop(m0, args@, *kind_env, params@, i as int + 1, args@.len() as int);
                                }
                                return res;
                            }
                        },
                        Type::AssocTy(_, _) => {
                            let res = self.extend_by_assoc_ty_application(arg, kind_env);
                            if res.is_err() {
                                proof {
                                    lemma_extend_seq_args_stop(m0, args@, *kind_env, params@, i as int + 1, args@.len() as int);
                                }
                                return res;
                            }
                        },
                        _ => {},
                    }
                    i = i + 1;
                }
                Ok(())
            },
            _ => {
                assert(false);
                unreached()
            },
        }
    }
}


/// Whether the constraint's associated type, and every application its arguments reach, has its
/// kinds recorded in `env`.
pub open spec fn eq_assoc_known(eq: Equality, env: KindEnv) -> bool {
    &&& env_assoc_info(env.assoc_tys@, assoc_key(eq.assoc_type)) is Some
    &&& forall|i: int| 0 <= i < eq.args@.len() ==> assoc_known(*#[trigger] eq.args@[i], env)
}

/// Whether what `extend` reads of the constraint `p` is recorded in `env`: the kind of its
/// trait for a constraint on a type variable, and the kinds of the associated types for one on
/// an associated type application.
pub open spec fn pred_known(p: Predicate, env: KindEnv) -> bool {
    match p.ty.ty {
        Type::TyVar(_) => env_trait_kind(env.traits_and_aliases@, trait_key(p.trait_id)) is Some,
        Type::AssocTy(_, _) => assoc_known(*p.ty, env),
        _ => true,
    }
}

/// Arguments each of which is known make the application known.
pub proof fn lemma_assoc_known_args(n: TypeNode, env: KindEnv, k: int)
    requires
        n.ty is AssocTy,
        0 <= k <= n.ty->AssocTy_1@.len(),
        forall|i: int| 0 <= i < n.ty->AssocTy_1@.len() ==> assoc_known(*#[trigger] n.ty->AssocTy_1@[i], env),
    ensures
        assoc_known_args(n, env, k),
    decreases k,
{
    if k > 0 {
        lemma_assoc_known_args(n, env, k - 1);
    }
}

/// Once a prefix of the annotations fails, every longer prefix does.
pub proof fn lemma_extend_signs_stop(m: Map<Seq<char>, Arc<Kind>>, signs: Seq<KindSignature>, k: int, l: int)
    requires
        0 <= k <= l,
        extend_signs(m, signs, k) is None,
    ensures
        extend_signs(m, signs, l) is None,
    decreases l - k,
{
    if k < l {
        lemma_extend_signs_stop(m, signs, k, l - 1);
    }
}

/// Once a prefix of the constraints fails, every longer prefix does.
pub proof fn lemma_extend_preds_stop(m: Map<Seq<char>, Arc<Kind>>, preds: Seq<Predicate>, env: KindEnv, k: int, l: int)
    requires
        0 <= k <= l,
        extend_preds(m, preds, env, k) is None,
    ensures
        extend_preds(m, preds, env, l) is None,
    decreases l - k,
{
    if k < l {
        lemma_extend_preds_stop(m, preds, env, k, l - 1);
    }
}

/// Once a prefix of the constraints fails, every longer prefix does.
pub proof fn lemma_extend_eqs_stop(m: Map<Seq<char>, Arc<Kind>>, eqs: Seq<Equality>, env: KindEnv, k: int, l: int)
    requires
        0 <= k <= l,
        extend_eqs(m, eqs, env, k) is None,
    ensures
        extend_eqs(m, eqs, env, l) is None,
    decreases l - k,
{
    if k < l {
        lemma_extend_eqs_stop(m, eqs, env, k, l - 1);
    }
}

/// The scope `m` extended by the kind annotations, then by what the trait constraints demand,
/// then by what the left sides of the equality constraints demand.
pub open spec fn extend_all(
    m: Map<Seq<char>, Arc<Kind>>,
    preds: Seq<Predicate>,
    eqs: Seq<Equality>,
    signs: Seq<KindSignature>,
    env: KindEnv,
) -> Option<Map<Seq<char>, Arc<Kind>>> {
    match extend_signs(m, signs, signs.len() as int) {
        None => None,
        Some(m1) => match extend_preds(m1, preds, env, preds.len() as int) {
            None => None,
            Some(m2) => extend_eqs(m2, eqs, env, eqs.len() as int),
        },
    }
}

/// Whether what extending the scope `m` reads of `env` is recorded there: for each trait
/// constraint reached while the annotations and the constraints before it fit, the kind of its
/// trait or its associated types, and for each equality constraint reached while everything
/// before it fits, its associated types.
pub open spec fn extend_reads_known(
    m: Map<Seq<char>, Arc<Kind>>,
    preds: Seq<Predicate>,
    eqs: Seq<Equality>,
    signs: Seq<KindSignature>,
    env: KindEnv,
) -> bool {
    match extend_signs(m, signs, signs.len() as int) {
        None => true,
        Some(m1) => {
            &&& forall|i: int|
                0 <= i < preds.len() && extend_preds(m1, preds, env, i) is Some ==> pred_known(
                    #[trigger] preds[i],
                    env,
                )
            &&& match extend_preds(m1, preds, env, preds.len() as int) {
                None => true,
                Some(m2) => forall|i: int|
                    0 <= i < eqs.len() && extend_eqs(m2, eqs, env, i) is Some ==> eq_assoc_known(
                        #[trigger] eqs[i],
                        env,
                    ),
            }
        },
    }
}

impl KindScope {
    /// Extends the scope by the kind annotations `kind_signs`, then by the kinds the trait
    /// constraints `preds` demand of the type variables they constrain, then by the kinds the
    /// left sides of the equality constraints `eqs` demand. A variable demanded at two kinds, and
    /// an associated type applied to the wrong number of arguments, is reported.
    pub fn extend(
        &mut self,
        preds: &Vec<Predicate>,
        eqs: &Vec<Equality>,
        kind_signs: &Vec<KindSignature>,
        kind_env: &KindEnv,
    ) -> (r: Result<(), String>)
        requires
            extend_reads_known(old(self)@, preds@, eqs@, kind_signs@, *kind_env),
        ensures
            r is Ok <==> extend_all(old(self)@, preds@, eqs@, kind_signs@, *kind_env) is Some,
            r is Ok ==> final(self)@ == extend_all(old(self)@, preds@, eqs@, kind_signs@, *kind_env)->0,
    {
        let ghost m0 = self@;
        for i in 0..kind_signs.len()
            invariant
                m0 == old(self)@,
                extend_reads_known(m0, preds@, eqs@, kind_signs@, *kind_env),
                extend_signs(m0, kind_signs@, i as int) == Some(self@),
        {
            let res = self.insert(kind_signs[i].tyvar.clone(), kind_signs[i].kind.clone());
            if res.is_err() {
                proof {
                    lemma_extend_signs_stop(m0, kind_signs@, i as int + 1, kind_signs@.len() as int);
                }
                return res;
            }
        }
        let ghost m1 = self@;
        for i in 0..preds.len()
            invariant
                m0 == old(self)@,
                extend_signs(m0, kind_signs@, kind_signs@.len() as int) == Some(m1),
                extend_reads_known(m0, preds@, eqs@, kind_signs@, *kind_env),
                extend_preds(m1, preds@, *kind_env, i as int) == Some(self@),
        {
            let pred = &preds[i];
            assert(pred_known(preds@[i as int], *kind_env));
            match &pred.ty.ty {
                Type::TyVar(tv) => {
                    let kind = kind_env.trait_kind(&pred.trait_id).unwrap();
                    let res = self.insert(tv.name.clone(), kind);
                    if res.is_err() {
                        proof {
                            lemma_extend_preds_stop(m1, preds@, *kind_env, i as int + 1, preds@.len() as int);
                        }
                        return res;
                    }
                },
                Type::AssocTy(_, _) => {
                    let res = self.extend_by_assoc_ty_application(&pred.ty, kind_env);
                    if res.is_err() {
                        proof {
                            lemma_extend_preds_stop(m1, preds@, *kind_env, i as int + 1, preds@.len() as int);
                        }
                        return res;
                    }
                },
                _ => {},
            }
        }
        let ghost m2 = self@;
        for i in 0..eqs.len()
            invariant
                m0 == old(self)@,
                extend_signs(m0, kind_signs@, kind_signs@.len() as int) == Some(m1),
                extend_preds(m1, preds@, *kind_env, preds@.len() as int) == Some(m2),
                extend_reads_known(m0, preds@, eqs@, kind_signs@, *kind_env),
                extend_eqs(m2, eqs@, *kind_env, i as int) == Some(self@),
        {
            let lhs = eqs[i].lhs();
            let node: &TypeNode = &*lhs;
            proof {
                assert(eq_assoc_known(eqs@[i as int], *kind_env));
                lemma_assoc_known_args(*node, *kind_env, eqs@[i as int].args@.len() as int);
                lemma_extend_seq_args(self@, *node, *kind_env, env_assoc_info(kind_env.assoc_tys@, assoc_key(eqs@[i as int].assoc_type))->0.param_kinds@, eqs@[i as int].args@.len() as int);
            }
            let res = self.extend_by_assoc_ty_application(&lhs, kind_env);
            if res.is_err() {
                proof {
                    lemma_extend_eqs_stop(m2, eqs@, *kind_env, i as int + 1, eqs@.len() as int);
                }
                return res;
            }
        }
        Ok(())
    }
}

} // verus!
