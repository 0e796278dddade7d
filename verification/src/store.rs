use vstd::prelude::*;

verus! {

/// Sparse storage of one component type, keyed by entity id.
///
/// The view is the map from the ids that carry the component to its value.
pub struct Storage<T> {
    slots: Vec<Option<T>>,
}

impl<T> View for Storage<T> {
    type V = Map<usize, T>;

    closed spec fn view(&self) -> Map<usize, T> {
        Map::new(
            |e: usize| e < self.slots@.len() && self.slots@[e as int] is Some,
            |e: usize| self.slots@[e as int]->0,
        )
    }
}

impl<T> Storage<T> {
    /// A storage in which no entity carries the component.
    pub fn new() -> (s: Self)
        ensures
            s@ == Map::<usize, T>::empty(),
    {
        let s = Storage { slots: Vec::new() };
        assert(s@ =~= Map::<usize, T>::empty());
        s
    }

    /// Whether `entity` carries the component.
    pub fn contains(&self, entity: usize) -> (b: bool)
        ensures
            b == self@.contains_key(entity),
    {
        entity < self.slots.len() && self.slots[entity].is_some()
    }

    /// The component of `entity`, if it carries one.
    pub fn get(&self, entity: usize) -> (r: Option<&T>)
        ensures
            r is Some <==> self@.contains_key(entity),
            r is Some ==> *r->0 == self@[entity],
    {
        if entity < self.slots.len() {
            self.slots[entity].as_ref()
        } else {
            None
        }
    }

    /// Attaches `value` to `entity`, replacing and handing back what it carried before.
    pub fn insert(&mut self, entity: usize, value: T) -> (prev: Option<T>)
        ensures
            final(self)@ == old(self)@.insert(entity, value),
            prev is Some <==> old(self)@.contains_key(entity),
            prev is Some ==> prev->0 == old(self)@[entity],
    {
        while self.slots.len() <= entity
            invariant
                self@ == old(self)@,
            decreases entity + 1 - self.slots.len(),
        {
            let ghost before = self@;
            self.slots.push(None);
            assert(self@ =~= before);
        }
        let ghost before = self@;
        let mut slot = Some(value);
        std::mem::swap(&mut self.slots[entity], &mut slot);
        assert(self@ =~= before.insert(entity, value));
        slot
    }

    /// Detaches the component from `entity` and hands it back; nothing changes if it carried none.
    pub fn remove(&mut self, entity: usize) -> (prev: Option<T>)
        ensures
            final(self)@ == old(self)@.remove(entity),
            prev is Some <==> old(self)@.contains_key(entity),
            prev is Some ==> prev->0 == old(self)@[entity],
    {
        if entity < self.slots.len() {
            let ghost before = self@;
            let mut slot = None;
            std::mem::swap(&mut self.slots[entity], &mut slot);
            assert(self@ =~= before.remove(entity));
            slot
        } else {
            assert(self@ =~= self@.remove(entity));
            None
        }
    }

    /// Detaches the component from every entity.
    pub fn clear(&mut self)
        ensures
            final(self)@ == Map::<usize, T>::empty(),
    {
        self.slots.clear();
        assert(self@ =~= Map::<usize, T>::empty());
    }

    /// The least number above every id that carries the component: a join walks the ids
    /// below it.
    pub fn bound(&self) -> (n: usize)
        ensures
            forall|e: usize| self@.contains_key(e) ==> e < n,
            n > 0 ==> self@.contains_key((n - 1) as usize),
    {
        let mut n = self.slots.len();
        while n > 0 && self.slots[n - 1].is_none()
            invariant
                n <= self.slots@.len(),
                forall|e: usize| self@.contains_key(e) ==> e < n,
            decreases n,
        {
            n = n - 1;
        }
        n
    }

    /// The ids that carry the component, in ascending order.
    pub fn ids(&self) -> (ids: Vec<usize>)
        ensures
            is_ascending(ids@),
            forall|e: usize| ids@.contains(e) <==> self@.contains_key(e),
    {
        let mut ids: Vec<usize> = Vec::new();
        let n = self.bound();
        let mut e: usize = 0;
        while e < n
            invariant
                e <= n,
                forall|f: usize| self@.contains_key(f) ==> f < n,
                is_ascending(ids@),
                forall|f: usize| #[trigger] ids@.contains(f) <==> f < e && self@.contains_key(f),
            decreases n - e,
        {
            if self.contains(e) {
                let ghost before = ids@;
                ids.push(e);
                proof {
                    lemma_ascending_push(before, e);
                    assert(ids@ == before.push(e));
                }
            }
            e = e + 1;
        }
        ids
    }

    /// The inner join with `other`: the ids that carry a component in both storages, in
    /// ascending order.
    pub fn join<U>(&self, other: &Storage<U>) -> (ids: Vec<usize>)
        ensures
            is_ascending(ids@),
            forall|e: usize| ids@.contains(e) <==> self@.contains_key(e) && other@.contains_key(e),
    {
        let mut ids: Vec<usize> = Vec::new();
        let n = self.bound();
        let mut e: usize = 0;
        while e < n
            invariant
                e <= n,
                forall|f: usize| self@.contains_key(f) ==> f < n,
                is_ascending(ids@),
                forall|f: usize| #[trigger]
                    ids@.contains(f) <==> f < e && self@.contains_key(f) && other@.contains_key(f),
            decreases n - e,
        {
            if self.contains(e) && other.contains(e) {
                let ghost before = ids@;
                ids.push(e);
                proof {
                    lemma_ascending_push(before, e);
                    assert(ids@ == before.push(e));
                }
            }
            e = e + 1;
        }
        ids
    }

    /// The join that leaves `other` out: the ids that carry a component in this storage
    /// and none in `other`, in ascending order.
    pub fn join_without<U>(&self, other: &Storage<U>) -> (ids: Vec<usize>)
        ensures
            is_ascending(ids@),
            forall|e: usize| ids@.contains(e) <==> self@.contains_key(e) && !other@.contains_key(e),
    {
        let mut ids: Vec<usize> = Vec::new();
        let n = self.bound();
        let mut e: usize = 0;
        while e < n
            invariant
                e <= n,
                forall|f: usize| self@.contains_key(f) ==> f < n,
                is_ascending(ids@),
                forall|f: usize| #[trigger]
                    ids@.contains(f) <==> f < e && self@.contains_key(f) && !other@.contains_key(f),
            decreases n - e,
        {
            if self.contains(e) && !other.contains(e) {
                let ghost before = ids@;
                ids.push(e);
                proof {
                    lemma_ascending_push(before, e);
                    assert(ids@ == before.push(e));
                }
            }
            e = e + 1;
        }
        ids
    }
}

/// Whether the ids of a list ascend strictly, so that none occurs twice.
pub open spec fn is_ascending(ids: Seq<usize>) -> bool {
    forall|i: int, j: int| 0 <= i < j < ids.len() ==> ids[i] < ids[j]
}

/// A list that ascends below `e` still ascends with `e` at its end, and holds `e` and
/// what it held.
pub proof fn lemma_ascending_push(ids: Seq<usize>, e: usize)
    requires
        is_ascending(ids),
        forall|f: usize| #[trigger] ids.contains(f) ==> f < e,
    ensures
        is_ascending(ids.push(e)),
        forall|f: usize| #[trigger] ids.push(e).contains(f) <==> ids.contains(f) || f == e,
{
    let all = ids.push(e);
    assert forall|i: int, j: int| 0 <= i < j < all.len() implies all[i] < all[j] by {
        if j == ids.len() {
            assert(ids.contains(ids[i]));
        }
    }
    assert forall|f: usize| all.contains(f) <==> ids.contains(f) || f == e by {
        if all.contains(f) {
            let k = choose|k: int| 0 <= k < all.len() && all[k] == f;
            if k < ids.len() {
                assert(ids[k] == f);
            }
        }
        if ids.contains(f) {
            let k = choose|k: int| 0 <= k < ids.len() && ids[k] == f;
            assert(all[k] == f);
        }
        if f == e {
            assert(all[ids.len() as int] == f);
        }
    }
}

/// Two ascending lists with the same ids are the same list.
pub proof fn lemma_ascending_is_unique(a: Seq<usize>, b: Seq<usize>)
    requires
        is_ascending(a),
        is_ascending(b),
        forall|e: usize| a.contains(e) <==> b.contains(e),
    ensures
        a == b,
    decreases a.len(),
{
    if a.len() == 0 {
        if b.len() > 0 {
            assert(b.contains(b[0]));
        }
        assert(a =~= b);
    } else {
        assert(a.contains(a.last()));
        assert(b.len() > 0);
        assert(b.contains(b.last()));
        let i = choose|i: int| 0 <= i < b.len() && b[i] == a.last();
        let j = choose|j: int| 0 <= j < a.len() && a[j] == b.last();
        assert(a.last() == b.last());
        let top = a.last();
        assert forall|e: usize| a.drop_last().contains(e) <==> b.drop_last().contains(e) by {
            if a.drop_last().contains(e) {
                let k = choose|k: int| 0 <= k < a.drop_last().len() && a.drop_last()[k] == e;
                assert(a[k] == e);
                assert(a.contains(e));
                assert(e < top);
                let m = choose|m: int| 0 <= m < b.len() && b[m] == e;
                assert(b.drop_last()[m] == e);
            }
            if b.drop_last().contains(e) {
                let k = choose|k: int| 0 <= k < b.drop_last().len() && b.drop_last()[k] == e;
                assert(b[k] == e);
                assert(b.contains(e));
                assert(e < top);
                let m = choose|m: int| 0 <= m < a.len() && a[m] == e;
                assert(a.drop_last()[m] == e);
            }
        }
        lemma_ascending_is_unique(a.drop_last(), b.drop_last());
        assert(a =~= a.drop_last().push(top));
        assert(b =~= b.drop_last().push(top));
    }
}

impl<T: View> Storage<T> {
    /// The map from the ids that carry the component to the view of its value.
    pub open spec fn views(&self) -> Map<usize, T::V> {
        Map::new(|e: usize| self@.contains_key(e), |e: usize| self@[e]@)
    }
}

/// The views of a storage follow an insertion.
pub proof fn lemma_views_insert<T: View>(before: Storage<T>, after: Storage<T>, e: usize, v: T)
    requires
        after@ == before@.insert(e, v),
    ensures
        after.views() == before.views().insert(e, v@),
{
    assert(after.views() =~= before.views().insert(e, v@));
}

/// The views of a storage follow a removal.
pub proof fn lemma_views_remove<T: View>(before: Storage<T>, after: Storage<T>, e: usize)
    requires
        after@ == before@.remove(e),
    ensures
        after.views() == before.views().remove(e),
{
    assert(after.views() =~= before.views().remove(e));
}

/// The views of a storage follow the replacement of a component that was taken out.
pub proof fn lemma_views_replace<T: View>(
    before: Storage<T>,
    taken: Storage<T>,
    after: Storage<T>,
    e: usize,
    v: T,
)
    requires
        taken@ == before@.remove(e),
        after@ == taken@.insert(e, v),
    ensures
        after.views() == before.views().insert(e, v@),
{
    assert(after.views() =~= before.views().insert(e, v@));
}

/// Whether `e` is the least id of which `p` holds.
pub open spec fn is_first(p: spec_fn(usize) -> bool, e: usize) -> bool {
    p(e) && forall|f: usize| f < e ==> !#[trigger] p(f)
}

/// The least id of which `p` holds, if there is one: the entity that a join meets first.
pub open spec fn first_entity(p: spec_fn(usize) -> bool) -> Option<usize> {
    if exists|e: usize| is_first(p, e) {
        Some(choose|e: usize| is_first(p, e))
    } else {
        None
    }
}

/// The least id of which `p` holds is the first entity.
pub proof fn lemma_first_entity(p: spec_fn(usize) -> bool, e: usize)
    requires
        is_first(p, e),
    ensures
        first_entity(p) == Some(e),
{
    let c = choose|c: usize| is_first(p, c);
    assert(is_first(p, c));
    if c < e {
        assert(!p(c));
    }
    if e < c {
        assert(!p(e));
    }
}

/// The first entity, where there is one, is the least id of which `p` holds.
pub proof fn lemma_first_found(p: spec_fn(usize) -> bool, e: usize)
    requires
        first_entity(p) == Some(e),
    ensures
        is_first(p, e),
{
}

/// Where `p` holds of no id, there is no first entity.
pub proof fn lemma_no_first_entity(p: spec_fn(usize) -> bool)
    requires
        forall|e: usize| !#[trigger] p(e),
    ensures
        first_entity(p) is None,
{
}

/// Where `p` holds of some id, there is a first entity.
pub proof fn lemma_some_first_entity(p: spec_fn(usize) -> bool, e: usize)
    requires
        p(e),
    ensures
        first_entity(p) is Some,
        first_entity(p)->0 <= e,
        is_first(p, first_entity(p)->0),
    decreases e,
{
    if forall|f: usize| f < e ==> !#[trigger] p(f) {
        lemma_first_entity(p, e);
    } else {
        let f = choose|f: usize| f < e && #[trigger] p(f);
        lemma_some_first_entity(p, f);
    }
}

/// Whether `e` is the greatest id of which `p` holds.
pub open spec fn is_last(p: spec_fn(usize) -> bool, e: usize) -> bool {
    p(e) && forall|f: usize| f > e ==> !#[trigger] p(f)
}

/// The greatest id of which `p` holds, if there is one: the entity that a join meets last.
pub open spec fn last_entity(p: spec_fn(usize) -> bool) -> Option<usize> {
    if exists|e: usize| is_last(p, e) {
        Some(choose|e: usize| is_last(p, e))
    } else {
        None
    }
}

/// The greatest id of which `p` holds is the last entity.
pub proof fn lemma_last_entity(p: spec_fn(usize) -> bool, e: usize)
    requires
        is_last(p, e),
    ensures
        last_entity(p) == Some(e),
{
    let c = choose|c: usize| is_last(p, c);
    assert(is_last(p, c));
    if c < e {
        assert(!p(e));
    }
    if e < c {
        assert(!p(c));
    }
}

/// The last entity, where there is one, is the greatest id of which `p` holds.
pub proof fn lemma_last_found(p: spec_fn(usize) -> bool, e: usize)
    requires
        last_entity(p) == Some(e),
    ensures
        is_last(p, e),
{
}

/// Where `p` holds of no id, there is no last entity.
pub proof fn lemma_no_last_entity(p: spec_fn(usize) -> bool)
    requires
        forall|e: usize| !#[trigger] p(e),
    ensures
        last_entity(p) is None,
{
}

} // verus!
