use vstd::prelude::*;
use crate::world::{World, WorldView};

verus! {

/// Whether `e` is painted: it stands on the map of the current place and has a look.
pub open spec fn is_painted(w: WorldView, e: usize) -> bool {
    &&& w.positions.contains_key(e)
    &&& w.renderables.contains_key(e)
    &&& w.belongs.contains_key(e)
    &&& w.belongs[e].domain == w.current_place
}

/// Whether `a` is painted before `b`: the higher render order comes first, so that the
/// lower one is painted over it; of two with the same order the lower id comes first.
pub open spec fn paints_before(w: WorldView, a: usize, b: usize) -> bool {
    let x = w.renderables[a].render_order;
    let y = w.renderables[b].render_order;
    x > y || (x == y && a < b)
}

/// Whether `list` holds the painted entities, each once, in the order of painting.
pub open spec fn is_paint_order(w: WorldView, list: Seq<usize>) -> bool {
    &&& forall|i: int, j: int| 0 <= i < j < list.len() ==> paints_before(w, list[i], list[j])
    &&& forall|e: usize| list.contains(e) <==> is_painted(w, e)
}

/// There is one order of painting: two lists in that order are the same list.
pub proof fn lemma_paint_order_is_unique(w: WorldView, a: Seq<usize>, b: Seq<usize>)
    requires
        is_paint_order(w, a),
        is_paint_order(w, b),
    ensures
        a == b,
    decreases a.len(),
{
    if a.len() == 0 {
        if b.len() > 0 {
            assert(b.contains(b[0]));
            assert(a.contains(b[0]));
        }
        assert(a =~= b);
    } else {
        assert(a.contains(a[0]));
        assert(b.contains(a[0]));
        assert(b.len() > 0);
        assert(b.contains(b[0]));
        assert(a.contains(b[0]));
        let i = choose|i: int| 0 <= i < b.len() && b[i] == a[0];
        let j = choose|j: int| 0 <= j < a.len() && a[j] == b[0];
        // the first of each list is painted before every other entity
        if i > 0 && j > 0 {
            assert(paints_before(w, b[0], b[i]));
            assert(paints_before(w, a[0], a[j]));
        }
        assert(a[0] == b[0]);
        let first = a[0];
        let rest_a = a.drop_first();
        let rest_b = b.drop_first();
        let without = WorldView { positions: w.positions.remove(first), ..w };
        assert forall|e: usize| rest_a.contains(e) <==> is_painted(without, e) by {
            if rest_a.contains(e) {
                let k = choose|k: int| 0 <= k < rest_a.len() && rest_a[k] == e;
                assert(a[k + 1] == e);
                assert(a.contains(e));
                assert(paints_before(w, a[0], a[k + 1]));
            }
            if is_painted(without, e) {
                assert(a.contains(e));
                let k = choose|k: int| 0 <= k < a.len() && a[k] == e;
                assert(rest_a[k - 1] == e);
            }
        }
        assert forall|e: usize| rest_b.contains(e) <==> is_painted(without, e) by {
            if rest_b.contains(e) {
                let k = choose|k: int| 0 <= k < rest_b.len() && rest_b[k] == e;
                assert(b[k + 1] == e);
                assert(b.contains(e));
                assert(paints_before(w, b[0], b[k + 1]));
            }
            if is_painted(without, e) {
                assert(b.contains(e));
                let k = choose|k: int| 0 <= k < b.len() && b[k] == e;
                assert(rest_b[k - 1] == e);
            }
        }
        assert forall|i: int, j: int| 0 <= i < j < rest_a.len() implies paints_before(
            without,
            rest_a[i],
            rest_a[j],
        ) by {
            assert(paints_before(w, a[i + 1], a[j + 1]));
        }
        assert forall|i: int, j: int| 0 <= i < j < rest_b.len() implies paints_before(
            without,
            rest_b[i],
            rest_b[j],
        ) by {
            assert(paints_before(w, b[i + 1], b[j + 1]));
        }
        lemma_paint_order_is_unique(without, rest_a, rest_b);
        assert(a =~= seq![first] + rest_a);
        assert(b =~= seq![first] + rest_b);
    }
}

/// Where an entity of render order `order` goes into `list`: behind those that are
/// painted no later, before the first one of a lower order.
fn insertion_index(ecs: &World, list: &Vec<usize>, order: i32) -> (i: usize)
    requires
        forall|k: int| 0 <= k < list@.len() ==> ecs@.renderables.contains_key(list@[k]),
    ensures
        i <= list@.len(),
        forall|k: int| 0 <= k < i ==> ecs@.renderables[list@[k]].render_order >= order,
        i < list@.len() ==> ecs@.renderables[list@[i as int]].render_order < order,
{
    let mut i: usize = 0;
    while i < list.len()
        invariant
            i <= list@.len(),
            forall|k: int| 0 <= k < list@.len() ==> ecs@.renderables.contains_key(list@[k]),
            forall|k: int| 0 <= k < i ==> ecs@.renderables[list@[k]].render_order >= order,
        decreases list@.len() - i,
    {
        let behind = match ecs.renderables.get(list[i]) {
            Some(look) => look.render_order >= order,
            None => false,
        };
        if !behind {
            return i;
        }
        i = i + 1;
    }
    i
}

/// The entities to paint, in the order of painting.
pub fn paint_order(ecs: &World) -> (list: Vec<usize>)
    ensures
        is_paint_order(ecs@, list@),
{
    let ghost w = ecs@;
    let mut list: Vec<usize> = Vec::new();
    let n = ecs.renderables.bound();
    let mut e: usize = 0;
    while e < n
        invariant
            w == ecs@,
            forall|f: usize| w.renderables.contains_key(f) ==> f < n,
            forall|i: int, j: int| 0 <= i < j < list@.len() ==> paints_before(w, list@[i], list@[j]),
            forall|f: usize| #[trigger] list@.contains(f) <==> f < e && is_painted(w, f),
        decreases n - e,
    {
        let painted = match (ecs.renderables.get(e), ecs.belongs.get(e)) {
            (Some(look), Some(bel)) => if ecs.positions.contains(e) && bel.domain
                == ecs.current_place {
                Some(look.render_order)
            } else {
                None
            },
            _ => None,
        };
        proof {
            assert forall|k: int| 0 <= k < list@.len() implies w.renderables.contains_key(
                list@[k],
            ) && list@[k] < e by {
                assert(list@.contains(list@[k]));
            }
        }
        if let Some(order) = painted {
            assert(is_painted(w, e));
            let i = insertion_index(ecs, &list, order);
            let ghost old_list = list@;
            list.insert(i, e);
            proof {
                assert forall|a: int, b: int| 0 <= a < b < list@.len() implies paints_before(
                    w,
                    list@[a],
                    list@[b],
                ) by {
                    if b == i {
                        assert(list@[a] == old_list[a]);
                    } else if a == i {
                        assert(list@[b] == old_list[b - 1]);
                        if b - 1 > i {
                            assert(paints_before(w, old_list[i as int], old_list[b - 1]));
                        }
                    } else {
                        let x = if a < i { a } else { a - 1 };
                        let y = if b < i { b } else { b - 1 };
                        assert(paints_before(w, old_list[x], old_list[y]));
                    }
                }
                assert forall|f: usize| list@.contains(f) <==> f < e + 1 && is_painted(w, f) by {
                    if list@.contains(f) {
                        let k = choose|k: int| 0 <= k < list@.len() && list@[k] == f;
                        if k < i {
                            assert(old_list[k] == f);
                            assert(old_list.contains(f));
                        } else if k > i {
                            assert(old_list[k - 1] == f);
                            assert(old_list.contains(f));
                        }
                    }
                    if f < e && is_painted(w, f) {
                        assert(old_list.contains(f));
                        let k = choose|k: int| 0 <= k < old_list.len() && old_list[k] == f;
                        if k < i {
                            assert(list@[k] == f);
                        } else {
                            assert(list@[k + 1] == f);
                        }
                    }
                    if f == e {
                        assert(list@[i as int] == f);
                    }
                }
            }
        } else {
            assert(!is_painted(w, e));
        }
        e = e + 1;
    }
    proof {
        assert forall|f: usize| list@.contains(f) <==> is_painted(w, f) by {
            if is_painted(w, f) {
                assert(f < n);
            }
        }
    }
    list
}

} // verus!
