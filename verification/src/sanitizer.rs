//! The bookkeeping of the reference-count sanitizer: every object a program allocates is
//! registered under an id, and each retain and release reported for it is checked against the
//! count the sanitizer keeps.
use vstd::prelude::*;

verus! {

/// What the sanitizer keeps of an object.
pub struct ObjectInfo {
    /// Where the object lives.
    pub addr: usize,
    /// Its reference count, as the sanitizer counts it.
    pub refcnt: i64,
    /// The code that allocated it.
    pub code: String,
    /// Whether it is a global object, which is never released to zero.
    pub is_global: bool,
}

/// What the sanitizer knows of an object, as plain values.
pub struct ObjectView {
    pub addr: usize,
    pub refcnt: i64,
    pub code: Seq<char>,
    pub is_global: bool,
}

/// The objects a program has allocated and not yet released, each under its id.
pub struct ObjectTable {
    last_id: i64,
    objects: Vec<(i64, ObjectInfo)>,
}

/// The view of an object's record.
pub open spec fn info_view(info: ObjectInfo) -> ObjectView {
    ObjectView { addr: info.addr, refcnt: info.refcnt, code: info.code@, is_global: info.is_global }
}

/// Whether one of the records `v` is filed under `id`.
pub open spec fn has_id(v: Seq<(i64, ObjectInfo)>, id: i64) -> bool {
    exists|i: int| 0 <= i < v.len() && v[i].0 == id
}

/// The records `v` as a map from ids.
pub open spec fn table_map(v: Seq<(i64, ObjectInfo)>) -> Map<i64, ObjectView> {
    Map::new(
        |id: i64| has_id(v, id),
        |id: i64| info_view(v[choose|i: int| 0 <= i < v.len() && v[i].0 == id].1),
    )
}

/// Whether no two of the records `v` are filed under one id.
pub open spec fn ids_unique(v: Seq<(i64, ObjectInfo)>) -> bool {
    forall|i: int, j: int| 0 <= i < j < v.len() ==> #[trigger] v[i].0 != #[trigger] v[j].0
}

/// Where ids are unique, the record at `i` is what the map holds under its id.
proof fn lemma_table_map_at(v: Seq<(i64, ObjectInfo)>, i: int)
    requires
        ids_unique(v),
        0 <= i < v.len(),
    ensures
        table_map(v).contains_key(v[i].0),
        table_map(v)[v[i].0] == info_view(v[i].1),
{
    assert(has_id(v, v[i].0));
    let j = choose|j: int| 0 <= j < v.len() && v[j].0 == v[i].0;
    if j != i {
        if j < i {
            assert(v[j].0 != v[i].0);
        } else {
            assert(v[i].0 != v[j].0);
        }
    }
}

/// The object `id` once a retain of it is counted.
pub open spec fn after_retain(m: Map<i64, ObjectView>, id: i64) -> Map<i64, ObjectView> {
    m.insert(id, ObjectView { refcnt: (m[id].refcnt + 1) as i64, ..m[id] })
}

/// The objects once a release of `id` is counted: a global object keeps its count; another one
/// loses one, and leaves the table when none is left.
pub open spec fn after_release(m: Map<i64, ObjectView>, id: i64) -> Map<i64, ObjectView> {
    if m[id].is_global {
        m
    } else if m[id].refcnt == 1 {
        m.remove(id)
    } else {
        m.insert(id, ObjectView { refcnt: (m[id].refcnt - 1) as i64, ..m[id] })
    }
}

impl ObjectTable {
    /// The objects registered, by id.
    pub closed spec fn objects(&self) -> Map<i64, ObjectView> {
        table_map(self.objects@)
    }

    /// The id last handed out; 0 before the first.
    pub closed spec fn last_id(&self) -> i64 {
        self.last_id
    }

    /// Each id is registered once, every id registered has been handed out, and every object
    /// registered has a positive count.
    pub closed spec fn wf(&self) -> bool {
        &&& self.last_id >= 0
        &&& ids_unique(self.objects@)
        &&& forall|i: int|
            0 <= i < self.objects@.len() ==> 1 <= #[trigger] self.objects@[i].0 <= self.last_id
                && self.objects@[i].1.refcnt >= 1
    }
}

/// Filing a record under an id not yet used adds it to the map.
proof fn lemma_table_push(v: Seq<(i64, ObjectInfo)>, x: (i64, ObjectInfo))
    requires
        ids_unique(v),
        !has_id(v, x.0),
    ensures
        ids_unique(v.push(x)),
        table_map(v.push(x)) == table_map(v).insert(x.0, info_view(x.1)),
{
    let w = v.push(x);
    assert forall|i: int, j: int| 0 <= i < j < w.len() implies #[trigger] w[i].0 != #[trigger] w[j].0 by {
        if j == v.len() {
            assert(!(0 <= i < v.len() && v[i].0 == x.0));
        } else {
            assert(v[i].0 != v[j].0);
        }
    }
    assert forall|k: i64| #[trigger] table_map(w).contains_key(k) == table_map(v).insert(x.0, info_view(x.1)).contains_key(k) by {
        if has_id(w, k) && k != x.0 {
            let j = choose|j: int| 0 <= j < w.len() && w[j].0 == k;
            assert(j < v.len());
            assert(has_id(v, k));
        }
        if has_id(v, k) {
            let j = choose|j: int| 0 <= j < v.len() && v[j].0 == k;
            assert(w[j].0 == k);
        }
        assert(w[v.len() as int].0 == x.0);
    }
    assert forall|k: i64| #[trigger] table_map(w).contains_key(k) implies table_map(w)[k] == table_map(v).insert(x.0, info_view(x.1))[k] by {
        let j = choose|j: int| 0 <= j < w.len() && w[j].0 == k;
        lemma_table_map_at(w, j);
        if j < v.len() {
            lemma_table_map_at(v, j);
        }
    }
    assert(table_map(w) =~= table_map(v).insert(x.0, info_view(x.1)));
}

/// Replacing the record at `i` by `info`, under the same id, replaces what the map holds there.
proof fn lemma_table_update(v: Seq<(i64, ObjectInfo)>, i: int, info: ObjectInfo)
    requires
        ids_unique(v),
        0 <= i < v.len(),
    ensures
        ids_unique(v.update(i, (v[i].0, info))),
        table_map(v.update(i, (v[i].0, info))) == table_map(v).insert(v[i].0, info_view(info)),
{
    let w = v.update(i, (v[i].0, info));
    assert forall|a: int, b: int| 0 <= a < b < w.len() implies #[trigger] w[a].0 != #[trigger] w[b].0 by {
        assert(v[a].0 != v[b].0);
    }
    lemma_table_map_at(v, i);
    assert forall|k: i64| #[trigger] table_map(w).contains_key(k) == table_map(v).insert(v[i].0, info_view(info)).contains_key(k) by {
        if has_id(w, k) {
            let j = choose|j: int| 0 <= j < w.len() && w[j].0 == k;
            assert(v[j].0 == k);
        }
        if has_id(v, k) {
            let j = choose|j: int| 0 <= j < v.len() && v[j].0 == k;
            assert(w[j].0 == k);
        }
    }
    assert forall|k: i64| #[trigger] table_map(w).contains_key(k) implies table_map(w)[k] == table_map(v).insert(v[i].0, info_view(info))[k] by {
        let j = choose|j: int| 0 <= j < w.len() && w[j].0 == k;
        lemma_table_map_at(w, j);
        lemma_table_map_at(v, j);
    }
    assert(table_map(w) =~= table_map(v).insert(v[i].0, info_view(info)));
}

/// Taking out the record at `i` takes its id out of the map.
proof fn lemma_table_remove(v: Seq<(i64, ObjectInfo)>, i: int)
    requires
        ids_unique(v),
        0 <= i < v.len(),
    ensures
        ids_unique(v.remove(i)),
        table_map(v.remove(i)) == table_map(v).remove(v[i].0),
{
    let w = v.remove(i);
    assert forall|a: int, b: int| 0 <= a < b < w.len() implies #[trigger] w[a].0 != #[trigger] w[b].0 by {
        let a2 = if a < i { a } else { a + 1 };
        let b2 = if b < i { b } else { b + 1 };
        assert(v[a2].0 != v[b2].0);
    }
    assert forall|k: i64| #[trigger] table_map(w).contains_key(k) == table_map(v).remove(v[i].0).contains_key(k) by {
        if has_id(w, k) {
            let j = choose|j: int| 0 <= j < w.len() && w[j].0 == k;
            let j2 = if j < i { j } else { j + 1 };
            assert(v[j2].0 == k);
            assert(j2 != i);
            if k == v[i].0 {
                if j2 < i {
                    assert(v[j2].0 != v[i].0);
                } else {
                    assert(v[i].0 != v[j2].0);
                }
            }
        }
        if has_id(v, k) && k != v[i].0 {
            let j = choose|j: int| 0 <= j < v.len() && v[j].0 == k;
            assert(j != i);
            let j2 = if j < i { j } else { j - 1 };
            assert(w[j2].0 == k);
        }
    }
    assert forall|k: i64| #[trigger] table_map(w).contains_key(k) implies table_map(w)[k] == table_map(v).remove(v[i].0)[k] by {
        let j = choose|j: int| 0 <= j < w.len() && w[j].0 == k;
        let j2 = if j < i { j } else { j + 1 };
        lemma_table_map_at(w, j);
        lemma_table_map_at(v, j2);
    }
    assert(table_map(w) =~= table_map(v).remove(v[i].0));
}

impl ObjectTable {
    /// In a well-formed table every object registered has a positive count and an id among
    /// those handed out, from 1 to the last.
    pub proof fn lemma_registered(&self)
        requires
            self.wf(),
        ensures
            forall|id: i64| #[trigger] self.objects().contains_key(id) ==> 1 <= id <= self.last_id()
                && self.objects()[id].refcnt >= 1,
    {
        assert forall|id: i64| #[trigger] self.objects().contains_key(id) implies 1 <= id <= self.last_id()
            && self.objects()[id].refcnt >= 1 by {
            let j = choose|j: int| 0 <= j < self.objects@.len() && self.objects@[j].0 == id;
            lemma_table_map_at(self.objects@, j);
        }
    }

    /// The table before anything is allocated.
    pub fn new() -> (r: Self)
        ensures
            r.wf(),
            r.objects() == Map::<i64, ObjectView>::empty(),
            r.last_id() == 0,
    {
        let r = ObjectTable { last_id: 0, objects: Vec::new() };
        assert(r.objects() =~= Map::<i64, ObjectView>::empty());
        r
    }

    /// The place of the record of `obj_id`, if it is registered.
    fn find(&self, obj_id: i64) -> (r: Option<usize>)
        requires
            self.wf(),
        ensures
            match r {
                Some(i) => i < self.objects@.len() && self.objects@[i as int].0 == obj_id,
                None => !has_id(self.objects@, obj_id),
            },
    {
        for i in 0..self.objects.len()
            invariant
                forall|j: int| 0 <= j < i ==> self.objects@[j].0 != obj_id,
        {
            if self.objects[i].0 == obj_id {
                return Some(i);
            }
        }
        None
    }

    /// What the sanitizer keeps of the object `obj_id`, if it is registered.
    pub fn get(&self, obj_id: i64) -> (r: Option<&ObjectInfo>)
        requires
            self.wf(),
        ensures
            r is None <==> !self.objects().contains_key(obj_id),
            r matches Some(info) ==> info_view(*info) == self.objects()[obj_id],
    {
        match self.find(obj_id) {
            Some(i) => {
                proof {
                    lemma_table_map_at(self.objects@, i as int);
                }
                Some(&self.objects[i].1)
            },
            None => None,
        }
    }

    /// Registers the object allocated at `address` by the code `code` with a count of one, under
    /// the next id, which is returned.
    pub fn report_malloc(&mut self, address: usize, code: String) -> (r: i64)
        requires
            old(self).wf(),
            old(self).last_id() < i64::MAX,
        ensures
            final(self).wf(),
            r == old(self).last_id() + 1,
            final(self).last_id() == r,
            !old(self).objects().contains_key(r),
            final(self).objects() == old(self).objects().insert(
                r,
                ObjectView { addr: address, refcnt: 1, code: code@, is_global: false },
            ),
    {
        let ghost before = self.objects@;
        self.last_id = self.last_id + 1;
        let obj_id = self.last_id;
        let info = ObjectInfo { addr: address, refcnt: 1, code, is_global: false };
        proof {
            assert(!has_id(before, obj_id)) by {
                if has_id(before, obj_id) {
                    let j = choose|j: int| 0 <= j < before.len() && before[j].0 == obj_id;
                    assert(before[j].0 <= obj_id - 1);
                }
            }
            lemma_table_push(before, (obj_id, info));
        }
        self.objects.push((obj_id, info));
        obj_id
    }

    /// Marks the registered object `obj_id` as global.
    pub fn mark_as_global(&mut self, obj_id: i64)
        requires
            old(self).wf(),
            old(self).objects().contains_key(obj_id),
        ensures
            final(self).wf(),
            final(self).last_id() == old(self).last_id(),
            final(self).objects() == old(self).objects().insert(
                obj_id,
                ObjectView { is_global: true, ..old(self).objects()[obj_id] },
            ),
    {
        match self.find(obj_id) {
            Some(i) => {
                let ghost before = self.objects@;
                let (id, info) = self.objects.remove(i);
                let info = ObjectInfo { is_global: true, ..info };
                self.objects.insert(i, (id, info));
                proof {
                    assert(self.objects@ =~= before.update(i as int, (id, info)));
                    lemma_table_map_at(before, i as int);
                    lemma_table_update(before, i as int, info);
                }
            },
            None => unreached(),
        }
    }

    /// Counts a retain of the registered object `obj_id`, which the program reports holding
    /// `refcnt` references; a global object's count may have drifted from the program's.
    pub fn report_retain(&mut self, obj_id: i64, refcnt: i64)
        requires
            old(self).wf(),
            refcnt != 0,
            old(self).objects().contains_key(obj_id),
            !old(self).objects()[obj_id].is_global ==> old(self).objects()[obj_id].refcnt == refcnt,
            old(self).objects()[obj_id].refcnt < i64::MAX,
        ensures
            final(self).wf(),
            final(self).last_id() == old(self).last_id(),
            final(self).objects() == after_retain(old(self).objects(), obj_id),
    {
        match self.find(obj_id) {
            Some(i) => {
                let ghost before = self.objects@;
                proof {
                    lemma_table_map_at(before, i as int);
                }
                let (id, info) = self.objects.remove(i);
                let info = ObjectInfo { refcnt: info.refcnt + 1, ..info };
                self.objects.insert(i, (id, info));
                proof {
                    assert(self.objects@ =~= before.update(i as int, (id, info)));
                    lemma_table_update(before, i as int, info);
                }
            },
            None => unreached(),
        }
    }

    /// Counts a release of the registered object `obj_id`, which the program reports holding
    /// `refcnt` references: an object that is not global loses one, and leaves the table when
    /// none is left; a global object keeps its count.
    pub fn report_release(&mut self, obj_id: i64, refcnt: i64)
        requires
            old(self).wf(),
            refcnt != 0,
            old(self).objects().contains_key(obj_id),
            !old(self).objects()[obj_id].is_global ==> old(self).objects()[obj_id].refcnt == refcnt,
        ensures
            final(self).wf(),
            final(self).last_id() == old(self).last_id(),
            final(self).objects() == after_release(old(self).objects(), obj_id),
            old(self).objects()[obj_id].refcnt >= 1,
            !old(self).objects()[obj_id].is_global && old(self).objects()[obj_id].refcnt > 1
                ==> final(self).objects()[obj_id].refcnt == old(self).objects()[obj_id].refcnt - 1,
            !old(self).objects()[obj_id].is_global && old(self).objects()[obj_id].refcnt == 1
                ==> !final(self).objects().contains_key(obj_id),
    {
        proof {
            old(self).lemma_registered();
        }
        match self.find(obj_id) {
            Some(i) => {
                let ghost before = self.objects@;
                proof {
                    lemma_table_map_at(before, i as int);
                }
                if self.objects[i].1.is_global {
                    return;
                }
                let (id, info) = self.objects.remove(i);
                if info.refcnt == 1 {
                    proof {
                        lemma_table_remove(before, i as int);
                    }
                } else {
                    let info = ObjectInfo { refcnt: info.refcnt - 1, ..info };
                    self.objects.insert(i, (id, info));
                    proof {
                        assert(self.objects@ =~= before.update(i as int, (id, info)));
                        lemma_table_update(before, i as int, info);
                    }
                }
            },
            None => unreached(),
        }
    }

    /// The ids of the objects still registered that are not global: those that leaked, once the
    /// program is done. Each is listed once.
    pub fn leaked_objects(&self) -> (r: Vec<i64>)
        requires
            self.wf(),
        ensures
            r@.no_duplicates(),
            r@.to_set() == self.objects().dom().filter(|id: i64| !self.objects()[id].is_global),
    {
        let mut r: Vec<i64> = Vec::new();
        let ghost v = self.objects@;
        let n = self.objects.len();
        let mut i: usize = 0;
        while i < n
            invariant
                n == v.len(),
                i <= n,
                v == self.objects@,
                ids_unique(v),
                forall|j: int| 0 <= j < r@.len() ==> exists|k: int| 0 <= k < i && #[trigger] r@[j] == v[k].0,
                r@.no_duplicates(),
                forall|k: int| 0 <= k < i ==> (!v[k].1.is_global <==> r@.contains(#[trigger] v[k].0)),
            decreases n - i,
        {
            let ghost before = r@;
            if !self.objects[i].1.is_global {
                proof {
                    assert(!r@.contains(v[i as int].0)) by {
                        if r@.contains(v[i as int].0) {
                            let j = choose|j: int| 0 <= j < r@.len() && r@[j] == v[i as int].0;
                            let k = choose|k: int| 0 <= k < i && r@[j] == v[k].0;
                            assert(v[k].0 != v[i as int].0);
                        }
                    }
                }
                r.push(self.objects[i].0);
            }
            proof {
                assert forall|k: int| 0 <= k < i + 1 implies (!v[k].1.is_global <==> r@.contains(#[trigger] v[k].0)) by {
                    if k < i {
                        assert(v[k].0 != v[i as int].0);
                        if before.contains(v[k].0) {
                            let j = choose|j: int| 0 <= j < before.len() && before[j] == v[k].0;
                            assert(r@[j] == v[k].0);
                        }
                        if r@.contains(v[k].0) {
                            let j = choose|j: int| 0 <= j < r@.len() && r@[j] == v[k].0;
                            if j < before.len() {
                                assert(before[j] == v[k].0);
                            }
                        }
                    }
                    if k == i && !v[k].1.is_global {
                        assert(r@[r@.len() - 1] == v[k].0);
                    }
                    if k == i && v[k].1.is_global {
                        assert(r@ == before);
                        if before.contains(v[k].0) {
                            let j = choose|j: int| 0 <= j < before.len() && before[j] == v[k].0;
                            let m = choose|m: int| 0 <= m < i && before[j] == v[m].0;
                            assert(v[m].0 != v[k].0);
                        }
                    }
                }
                assert forall|j: int| 0 <= j < r@.len() implies exists|k: int| 0 <= k < i + 1 && #[trigger] r@[j] == v[k].0 by {
                    if j < before.len() {
                        assert(r@[j] == before[j]);
                        let k = choose|k: int| 0 <= k < i && before[j] == v[k].0;
                        assert(0 <= k < i + 1 && r@[j] == v[k].0);
                    } else {
                        assert(r@[j] == v[i as int].0);
                    }
                }
            }
            i = i + 1;
        }
        proof {
            let s = self.objects().dom().filter(|id: i64| !self.objects()[id].is_global);
            assert forall|id: i64| #[trigger] r@.to_set().contains(id) == s.contains(id) by {
                if r@.contains(id) {
                    let j = choose|j: int| 0 <= j < r@.len() && r@[j] == id;
                    let k = choose|k: int| 0 <= k < v.len() && r@[j] == v[k].0;
                    lemma_table_map_at(v, k);
                }
                if s.contains(id) {
                    let k = choose|k: int| 0 <= k < v.len() && v[k].0 == id;
                    lemma_table_map_at(v, k);
                }
            }
            assert(r@.to_set() =~= s);
        }
        r
    }
}

/// A release of an object that is not global undoes a retain of it.
pub proof fn lemma_release_undoes_retain(m: Map<i64, ObjectView>, id: i64)
    requires
        m.contains_key(id),
        !m[id].is_global,
        1 <= m[id].refcnt < i64::MAX,
    ensures
        after_release(after_retain(m, id), id) == m,
{
    let r = after_retain(m, id);
    assert(r[id].refcnt == m[id].refcnt + 1);
    assert(after_release(r, id) =~= m);
}

/// Releasing an object just allocated, with its one reference, leaves the table as it was
/// before the allocation.
pub proof fn lemma_release_undoes_malloc(m: Map<i64, ObjectView>, id: i64, addr: usize, code: Seq<char>)
    requires
        !m.contains_key(id),
    ensures
        after_release(
            m.insert(id, ObjectView { addr, refcnt: 1, code, is_global: false }),
            id,
        ) == m,
{
    let r = m.insert(id, ObjectView { addr, refcnt: 1, code, is_global: false });
    assert(after_release(r, id) =~= m);
}

/// A release never takes a global object out of the table, nor changes its count.
pub proof fn lemma_global_kept(m: Map<i64, ObjectView>, id: i64)
    requires
        m.contains_key(id),
        m[id].is_global,
    ensures
        after_release(m, id) == m,
{
}

} // verus!
