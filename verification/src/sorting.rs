//! Stable ordering by a key, as `Itertools::sorted_by_key` orders: by the
//! key, and among equal keys in the order given.
use vstd::prelude::*;

verus! {

/// Position `a` goes before position `b`: a smaller key, or an equal key
/// and an earlier position.
pub open spec fn before(keys: Seq<i64>, a: int, b: int) -> bool {
    keys[a] < keys[b] || (keys[a] == keys[b] && a < b)
}

/// `order` lists every position of `keys` once, stably ordered by key.
pub open spec fn is_stable_order(keys: Seq<i64>, order: Seq<usize>) -> bool {
    &&& order.len() == keys.len()
    &&& forall|i: int| 0 <= i < order.len() ==> (#[trigger] order[i]) < keys.len()
    &&& order.no_duplicates()
    &&& forall|i: int, j: int| 0 <= i < j < order.len() ==> before(keys, #[trigger] order[i] as int, #[trigger] order[j] as int)
}

/// The positions of the keys in stable key order.
pub fn stable_order(keys: &Vec<i64>) -> (order: Vec<usize>)
    ensures
        is_stable_order(keys@, order@),
{
    let mut order: Vec<usize> = Vec::new();
    let mut k: usize = 0;
    while k < keys.len()
        invariant
            k <= keys@.len(),
            order@.len() == k,
            forall|i: int| 0 <= i < order@.len() ==> (#[trigger] order@[i]) < k,
            order@.no_duplicates(),
            forall|i: int, j: int| 0 <= i < j < order@.len() ==> before(keys@, #[trigger] order@[i] as int, #[trigger] order@[j] as int),
        decreases keys.len() - k,
    {
        let kk = keys[k];
        let mut p: usize = 0;
        while p < order.len() && keys[order[p]] <= kk
            invariant
                p <= order@.len(),
                order@.len() == k,
                k < keys@.len(),
                kk == keys@[k as int],
                forall|i: int| 0 <= i < order@.len() ==> (#[trigger] order@[i]) < k,
                forall|i: int| 0 <= i < p ==> keys@[#[trigger] order@[i] as int] <= kk,
            decreases order.len() - p,
        {
            p += 1;
        }
        let ghost old_order = order@;
        proof {
            // positions after p have greater keys, because the order is sorted
            assert forall|i: int| p <= i < old_order.len() implies keys@[#[trigger] old_order[i] as int] > kk by {
                if p < old_order.len() {
                    assert(keys@[old_order[p as int] as int] > kk);
                    if i > p {
                        assert(before(keys@, old_order[p as int] as int, old_order[i] as int));
                    }
                }
            }
        }
        order.insert(p, k);
        proof {
            let o = order@;
            assert(o =~= old_order.subrange(0, p as int).push(k).add(old_order.subrange(p as int, old_order.len() as int)));
            assert forall|i: int| 0 <= i < o.len() implies (#[trigger] o[i]) < k + 1 by {
                if i < p {
                    assert(o[i] == old_order[i]);
                } else if i > p {
                    assert(o[i] == old_order[i - 1]);
                }
            }
            assert forall|i: int, j: int| 0 <= i < o.len() && 0 <= j < o.len() && i != j implies o[i] != o[j] by {
                if i != p && j != p {
                    let oi = if i < p { i } else { i - 1 };
                    let oj = if j < p { j } else { j - 1 };
                    assert(o[i] == old_order[oi]);
                    assert(o[j] == old_order[oj]);
                } else if i == p {
                    let oj = if j < p { j } else { j - 1 };
                    assert(o[j] == old_order[oj]);
                } else {
                    let oi = if i < p { i } else { i - 1 };
                    assert(o[i] == old_order[oi]);
                }
            }
            assert forall|i: int, j: int| 0 <= i < j < o.len() implies before(keys@, #[trigger] o[i] as int, #[trigger] o[j] as int) by {
                if j < p {
                    assert(o[i] == old_order[i] && o[j] == old_order[j]);
                } else if j == p {
                    assert(o[i] == old_order[i]);
                } else if i < p {
                    assert(o[i] == old_order[i] && o[j] == old_order[j - 1]);
                } else if i == p {
                    assert(o[j] == old_order[j - 1]);
                } else {
                    assert(o[i] == old_order[i - 1] && o[j] == old_order[j - 1]);
                }
            }
        }
        k += 1;
    }
    order
}

/// The items in the given order of positions.
pub fn apply_order<T>(v: Vec<T>, order: &Vec<usize>) -> (r: Vec<T>)
    requires
        forall|i: int| 0 <= i < order@.len() ==> (#[trigger] order@[i]) < v@.len(),
        order@.no_duplicates(),
    ensures
        r@.len() == order@.len(),
        forall|i: int| 0 <= i < order@.len() ==> #[trigger] r@[i] == v@[order@[i] as int],
{
    let ghost vs = v@;
    let mut slots: Vec<Option<T>> = Vec::new();
    for x in it: v.into_iter()
        invariant
            it.seq() == vs,
            slots@.len() == it.index(),
            forall|i: int| 0 <= i < it.index() ==> #[trigger] slots@[i] == Some(vs[i]),
    {
        proof {
            assert(x == vs[it.index() as int]);
        }
        slots.push(Some(x));
    }
    let mut r: Vec<T> = Vec::new();
    let mut k: usize = 0;
    while k < order.len()
        invariant
            k <= order@.len(),
            slots@.len() == vs.len(),
            forall|i: int| 0 <= i < order@.len() ==> (#[trigger] order@[i]) < vs.len(),
            order@.no_duplicates(),
            r@.len() == k,
            forall|i: int| 0 <= i < k ==> #[trigger] r@[i] == vs[order@[i] as int],
            forall|i: int| k <= i < order@.len() ==> slots@[#[trigger] order@[i] as int] == Some(vs[order@[i] as int]),
        decreases order.len() - k,
    {
        let idx = order[k];
        let mut tmp: Option<T> = None;
        let ghost before_slots = slots@;
        std::mem::swap(&mut slots[idx], &mut tmp);
        proof {
            assert(slots@ == before_slots.update(idx as int, None));
            assert forall|i: int| k + 1 <= i < order@.len() implies slots@[#[trigger] order@[i] as int] == Some(vs[order@[i] as int]) by {
                assert(order@[i] != order@[k as int]);
            }
        }
        match tmp {
            Some(x) => r.push(x),
            None => {
                proof {
                    assert(false);
                }
            },
        }
        k += 1;
    }
    r
}

} // verus!
