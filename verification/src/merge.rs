//! Saving a price information request ("/update_price_info/"): which stored
//! records the user's positions and organizations update, which are new,
//! which positions are deleted, and how all of them are numbered.
use vstd::prelude::*;

use crate::check_request::{RequestItemForm, RequestPartnerForm};
use crate::create_request::is_v4;
use crate::outside::{index_map_contents, index_map_entries, index_map_insert, index_map_new, index_map_remove, new_uuid};
use crate::detail::{
    answered_of, dedupe_questions, find_proposal, first_questions, last_proposal, question_counts, questions_of,
    OrganizationQuestion,
};
use crate::messages::{plain, Message, MessageKind, MessageView};
use crate::model::{ProposalHeader, ProposalStatus, RequestPartner};
use crate::sorting::{is_stable_order, stable_order};
use crate::text::{concat3, decimal, i64_to_string};

verus! {

/// A record of the saved request: where it comes from, its uuid and its number.
#[derive(Clone, Copy, Debug, PartialEq, Eq, Structural)]
pub struct MergedEntry {
    /// The position of the user's entry it comes from, if any.
    pub form_index: Option<usize>,
    /// The position of the stored record that it updates, if any.
    pub old_index: Option<usize>,
    pub uuid: u128,
    pub number: i16,
}

/// Some entry before position `p` names the uuid.
pub open spec fn named_before(w: Seq<Option<u128>>, p: int, u: u128) -> bool {
    exists|q: int| 0 <= q < p && #[trigger] w[q] == Some(u)
}

/// `j` is the last position of `u` in `s` (where a map built from `s` keeps it).
pub open spec fn is_last_index(s: Seq<u128>, u: u128, j: int) -> bool {
    &&& 0 <= j < s.len()
    &&& s[j] == u
    &&& forall|k: int| j < k < s.len() ==> s[k] != u
}

/// The entry at `p` takes over a stored record: it names a stored uuid that
/// no earlier entry named.
pub open spec fn takes_over(w: Seq<Option<u128>>, olds: Seq<u128>, p: int) -> bool {
    &&& w[p] is Some
    &&& olds.contains(w[p]->0)
    &&& !named_before(w, p, w[p]->0)
}

/// The record made of the entry at `p`: the stored record it takes over
/// keeps its uuid, any other gets a new one; numbers run from 1.
pub open spec fn merged_at(e: MergedEntry, w: Seq<Option<u128>>, olds: Seq<u128>, p: int) -> bool {
    &&& e.number == p + 1
    &&& if takes_over(w, olds, p) {
        &&& e.uuid == w[p]->0
        &&& e.old_index matches Some(j) && is_last_index(olds, e.uuid, j as int)
    } else {
        e.old_index is None && is_v4(e.uuid)
    }
}

/// A stored uuid that no entry names.
pub open spec fn left_over(w: Seq<Option<u128>>, olds: Seq<u128>, u: u128) -> bool {
    olds.contains(u) && !named_before(w, w.len() as int, u)
}

/// The map of stored uuids to their last position.
fn index_of_uuids(olds: &Vec<u128>) -> (m: ahash::AHashMap<u128, usize>)
    ensures
        forall|u: u128| #[trigger] index_map_contents(m).contains_key(u) <==> olds@.contains(u),
        forall|u: u128|
            #[trigger] index_map_contents(m).contains_key(u) ==> is_last_index(olds@, u, index_map_contents(m)[u] as int),
{
    let mut m = index_map_new();
    let mut j: usize = 0;
    while j < olds.len()
        invariant
            j <= olds@.len(),
            forall|u: u128| #[trigger] index_map_contents(m).contains_key(u) <==> olds@.take(j as int).contains(u),
            forall|u: u128|
                #[trigger] index_map_contents(m).contains_key(u) ==> is_last_index(
                    olds@.take(j as int),
                    u,
                    index_map_contents(m)[u] as int,
                ),
        decreases olds.len() - j,
    {
        let ghost before = index_map_contents(m);
        index_map_insert(&mut m, olds[j], j);
        proof {
            let t = olds@.take(j + 1);
            assert(t =~= olds@.take(j as int).push(olds@[j as int]));
            assert forall|u: u128| #[trigger] index_map_contents(m).contains_key(u) <==> t.contains(u) by {
                if t.contains(u) && u != olds@[j as int] {
                    let k = choose|k: int| 0 <= k < t.len() && t[k] == u;
                    assert(olds@.take(j as int)[k] == u);
                }
                if u != olds@[j as int] && olds@.take(j as int).contains(u) {
                    let k = choose|k: int| 0 <= k < j && olds@.take(j as int)[k] == u;
                    assert(t[k] == u);
                }
                if u == olds@[j as int] {
                    assert(t[j as int] == u);
                }
            }
            assert forall|u: u128| #[trigger] index_map_contents(m).contains_key(u) implies is_last_index(
                t,
                u,
                index_map_contents(m)[u] as int,
            ) by {
                if u != olds@[j as int] {
                    assert(before.contains_key(u));
                    assert(is_last_index(olds@.take(j as int), u, before[u] as int));
                }
            }
        }
        j += 1;
    }
    proof {
        assert(olds@.take(olds@.len() as int) =~= olds@);
    }
    m
}

/// A new uuid, as `is_v4` states it.
fn fresh_uuid() -> (u: u128)
    ensures
        is_v4(u),
{
    new_uuid()
}

/// The stored record that the entry at `p` takes over, if any: the last
/// stored position of the uuid it names.
pub open spec fn claimed_at(c: Option<usize>, w: Seq<Option<u128>>, olds: Seq<u128>, p: int) -> bool {
    if takes_over(w, olds, p) {
        c matches Some(j) && is_last_index(olds, w[p]->0, j as int)
    } else {
        c is None
    }
}

/// For each entry in order, the stored record it takes over (the first
/// entry naming a stored uuid takes it); the map keeps the stored uuids
/// that no entry named.
pub fn claim_records(w: &Vec<Option<u128>>, olds: &Vec<u128>) -> (r: (Vec<Option<usize>>, ahash::AHashMap<u128, usize>))
    ensures
        r.0@.len() == w@.len(),
        forall|p: int| 0 <= p < w@.len() ==> claimed_at(#[trigger] r.0@[p], w@, olds@, p),
        forall|u: u128| #[trigger] index_map_contents(r.1).contains_key(u) <==> left_over(w@, olds@, u),
        forall|u: u128|
            #[trigger] index_map_contents(r.1).contains_key(u) ==> is_last_index(
                olds@,
                u,
                index_map_contents(r.1)[u] as int,
            ),
{
    let mut m = index_of_uuids(olds);
    let mut claims: Vec<Option<usize>> = Vec::new();
    let mut p: usize = 0;
    while p < w.len()
        invariant
            p <= w@.len(),
            claims@.len() == p,
            forall|q: int| 0 <= q < p ==> claimed_at(#[trigger] claims@[q], w@, olds@, q),
            forall|u: u128|
                #[trigger] index_map_contents(m).contains_key(u) <==> (olds@.contains(u) && !named_before(
                    w@,
                    p as int,
                    u,
                )),
            forall|u: u128|
                #[trigger] index_map_contents(m).contains_key(u) ==> is_last_index(
                    olds@,
                    u,
                    index_map_contents(m)[u] as int,
                ),
        decreases w.len() - p,
    {
        let ghost before = index_map_contents(m);
        let c = match w[p] {
            Some(u) => index_map_remove(&mut m, u),
            None => None,
        };
        proof {
            assert(claimed_at(c, w@, olds@, p as int));
            assert forall|u: u128| #[trigger] index_map_contents(m).contains_key(u) <==> (olds@.contains(u)
                && !named_before(w@, p + 1, u)) by {
                if named_before(w@, p + 1, u) && !named_before(w@, p as int, u) {
                    let q = choose|q: int| 0 <= q < p + 1 && #[trigger] w@[q] == Some(u);
                    assert(q == p);
                }
                if named_before(w@, p as int, u) {
                    let q = choose|q: int| 0 <= q < p && #[trigger] w@[q] == Some(u);
                    assert(0 <= q < p + 1 && w@[q] == Some(u));
                }
                if w@[p as int] == Some(u) {
                    assert(named_before(w@, p + 1, u));
                }
            }
        }
        claims.push(c);
        p += 1;
    }
    (claims, m)
}

/// The records made of the entries, in the order given (`w[p]` is the uuid
/// named by the entry at `form_indices[p]`), numbered from 1; the map keeps
/// the stored uuids that no entry named.
fn take_over(w: &Vec<Option<u128>>, form_indices: &Vec<usize>, olds: &Vec<u128>) -> (r: (
    Vec<MergedEntry>,
    ahash::AHashMap<u128, usize>,
))
    requires
        form_indices@.len() == w@.len(),
        w@.len() <= 32767,
    ensures
        r.0@.len() == w@.len(),
        forall|p: int|
            0 <= p < w@.len() ==> (#[trigger] r.0@[p]).form_index == Some(form_indices@[p]) && merged_at(
                r.0@[p],
                w@,
                olds@,
                p,
            ),
        forall|u: u128| #[trigger] index_map_contents(r.1).contains_key(u) <==> left_over(w@, olds@, u),
        forall|u: u128|
            #[trigger] index_map_contents(r.1).contains_key(u) ==> is_last_index(
                olds@,
                u,
                index_map_contents(r.1)[u] as int,
            ),
{
    let (claims, m) = claim_records(w, olds);
    let mut entries: Vec<MergedEntry> = Vec::new();
    let mut p: usize = 0;
    while p < w.len()
        invariant
            p <= w@.len() <= 32767,
            form_indices@.len() == w@.len(),
            claims@.len() == w@.len(),
            forall|q: int| 0 <= q < w@.len() ==> claimed_at(#[trigger] claims@[q], w@, olds@, q),
            entries@.len() == p,
            forall|q: int|
                0 <= q < p ==> (#[trigger] entries@[q]).form_index == Some(form_indices@[q]) && merged_at(
                    entries@[q],
                    w@,
                    olds@,
                    q,
                ),
        decreases w.len() - p,
    {
        let number = (p + 1) as i16;
        proof {
            assert(claimed_at(claims@[p as int], w@, olds@, p as int));
        }
        let entry = match (claims[p], w[p]) {
            (Some(j), Some(u)) => MergedEntry { form_index: Some(form_indices[p]), old_index: Some(j), uuid: u, number },
            _ => MergedEntry { form_index: Some(form_indices[p]), old_index: None, uuid: fresh_uuid(), number },
        };
        entries.push(entry);
        p += 1;
    }
    (entries, m)
}

/// The key that positions are ordered by: those without a number first,
/// then by number (the order of `Option<i16>`).
pub open spec fn number_key(n: Option<i16>) -> i64 {
    match n {
        Some(v) => v as i64,
        None => -32769i64,
    }
}

/// The sort keys of position numbers.
pub open spec fn number_keys(numbers: Seq<Option<i16>>) -> Seq<i64> {
    numbers.map_values(|n: Option<i16>| number_key(n))
}

/// The uuids named by entries, in the given order of entries.
pub open spec fn in_order(uuids: Seq<Option<u128>>, order: Seq<usize>) -> Seq<Option<u128>> {
    order.map_values(|i: usize| uuids[i as int])
}

/// The numbers of the user's positions.
pub open spec fn form_numbers(forms: Seq<RequestItemForm>) -> Seq<Option<i16>> {
    forms.map_values(|f: RequestItemForm| f.number)
}

/// The uuids that the user's positions name.
pub open spec fn form_uuids(forms: Seq<RequestItemForm>) -> Seq<Option<u128>> {
    forms.map_values(|f: RequestItemForm| f.uuid)
}

/// The sort keys of the user's positions.
pub open spec fn item_keys(forms: Seq<RequestItemForm>) -> Seq<i64> {
    number_keys(form_numbers(forms))
}

/// The uuids that the user's positions name, in the given order of positions.
pub open spec fn ordered_uuids(forms: Seq<RequestItemForm>, order: Seq<usize>) -> Seq<Option<u128>> {
    in_order(form_uuids(forms), order)
}

/// The positions of the user's entries that the records come from.
pub open spec fn form_order(es: Seq<MergedEntry>) -> Seq<usize> {
    es.map_values(|e: MergedEntry| e.form_index->0)
}

/// The positions of a saved request, and the stored positions to delete.
pub struct ItemMerge {
    pub items: Vec<MergedEntry>,
    pub delete_items: Vec<u128>,
}

/// Entries stably ordered by number (those without one first), each taking
/// over the stored record it names unless an earlier one took it, numbered
/// from 1; the stored records that none takes over are to be deleted.
pub fn merge_sorted(numbers: &Vec<Option<i16>>, uuids: &Vec<Option<u128>>, old_uuids: &Vec<u128>) -> (r: ItemMerge)
    requires
        numbers@.len() == uuids@.len(),
        numbers@.len() <= 32767,
    ensures
        r.items@.len() == numbers@.len(),
        forall|p: int| 0 <= p < r.items@.len() ==> (#[trigger] r.items@[p]).form_index is Some,
        is_stable_order(number_keys(numbers@), form_order(r.items@)),
        forall|p: int|
            0 <= p < r.items@.len() ==> merged_at(
                #[trigger] r.items@[p],
                in_order(uuids@, form_order(r.items@)),
                old_uuids@,
                p,
            ),
        r.delete_items@.no_duplicates(),
        forall|u: u128|
            #[trigger] r.delete_items@.contains(u) <==> left_over(in_order(uuids@, form_order(r.items@)), old_uuids@, u),
{
    let mut keys: Vec<i64> = Vec::new();
    let mut i: usize = 0;
    while i < numbers.len()
        invariant
            i <= numbers@.len(),
            keys@.len() == i,
            forall|k: int| 0 <= k < i ==> keys@[k] == #[trigger] number_key(numbers@[k]),
        decreases numbers.len() - i,
    {
        let key: i64 = match numbers[i] {
            Some(v) => v as i64,
            None => -32769,
        };
        keys.push(key);
        i += 1;
    }
    proof {
        assert(keys@ =~= number_keys(numbers@));
    }
    let order = stable_order(&keys);
    let mut w: Vec<Option<u128>> = Vec::new();
    let mut p: usize = 0;
    while p < order.len()
        invariant
            p <= order@.len(),
            is_stable_order(number_keys(numbers@), order@),
            numbers@.len() == uuids@.len(),
            w@.len() == p,
            forall|q: int| 0 <= q < p ==> #[trigger] w@[q] == uuids@[order@[q] as int],
        decreases order.len() - p,
    {
        w.push(uuids[order[p]]);
        p += 1;
    }
    proof {
        assert(w@ =~= in_order(uuids@, order@));
    }
    let (items, m) = take_over(&w, &order, old_uuids);
    proof {
        assert(form_order(items@) =~= order@);
    }
    let entries = index_map_entries(&m);
    let mut delete_items: Vec<u128> = Vec::new();
    let mut k: usize = 0;
    while k < entries.len()
        invariant
            k <= entries@.len(),
            delete_items@.len() == k,
            forall|q: int| 0 <= q < k ==> #[trigger] delete_items@[q] == entries@[q].0,
        decreases entries.len() - k,
    {
        delete_items.push(entries[k].0);
        k += 1;
    }
    proof {
        assert forall|a: int, b: int| 0 <= a < delete_items@.len() && 0 <= b < delete_items@.len() && a != b implies delete_items@[a]
            != delete_items@[b] by {
            if a < b {
                assert(entries@[a].0 != entries@[b].0);
            } else {
                assert(entries@[b].0 != entries@[a].0);
            }
        }
        assert forall|u: u128| #[trigger] delete_items@.contains(u) <==> left_over(w@, old_uuids@, u) by {
            if delete_items@.contains(u) {
                let q = choose|q: int| 0 <= q < delete_items@.len() && delete_items@[q] == u;
                assert(entries@[q].0 == u);
                assert(index_map_contents(m).contains_key(u));
            }
            if left_over(w@, old_uuids@, u) {
                assert(index_map_contents(m).contains_key(u));
                let q = choose|q: int| 0 <= q < entries@.len() && (#[trigger] entries@[q]).0 == u;
                assert(delete_items@[q] == u);
            }
        }
    }
    ItemMerge { items, delete_items }
}

/// The positions of a saved request: the user's positions stably ordered by
/// number (those without one first), each taking over the stored position
/// it names unless an earlier one took it, numbered from 1; the stored
/// positions that none takes over are deleted.
pub fn merge_items(forms: &Vec<RequestItemForm>, old_uuids: &Vec<u128>) -> (r: ItemMerge)
    requires
        forms@.len() <= 32767,
    ensures
        r.items@.len() == forms@.len(),
        forall|p: int| 0 <= p < r.items@.len() ==> (#[trigger] r.items@[p]).form_index is Some,
        is_stable_order(item_keys(forms@), form_order(r.items@)),
        forall|p: int|
            0 <= p < r.items@.len() ==> merged_at(
                #[trigger] r.items@[p],
                ordered_uuids(forms@, form_order(r.items@)),
                old_uuids@,
                p,
            ),
        r.delete_items@.no_duplicates(),
        forall|u: u128|
            #[trigger] r.delete_items@.contains(u) <==> left_over(
                ordered_uuids(forms@, form_order(r.items@)),
                old_uuids@,
                u,
            ),
{
    let mut numbers: Vec<Option<i16>> = Vec::new();
    let mut uuids: Vec<Option<u128>> = Vec::new();
    let mut i: usize = 0;
    while i < forms.len()
        invariant
            i <= forms@.len(),
            numbers@.len() == i,
            uuids@.len() == i,
            forall|k: int| 0 <= k < i ==> #[trigger] numbers@[k] == forms@[k].number,
            forall|k: int| 0 <= k < i ==> #[trigger] uuids@[k] == forms@[k].uuid,
        decreases forms.len() - i,
    {
        numbers.push(forms[i].number);
        uuids.push(forms[i].uuid);
        i += 1;
    }
    proof {
        assert(numbers@ =~= form_numbers(forms@));
        assert(uuids@ =~= form_uuids(forms@));
    }
    merge_sorted(&numbers, &uuids, old_uuids)
}

/// The uuids that the user's organizations name, in their order.
pub open spec fn partner_uuids(forms: Seq<RequestPartnerForm>) -> Seq<Option<u128>> {
    forms.map_values(|f: RequestPartnerForm| f.uuid)
}

/// The stored uuids that no entry names.
pub open spec fn left_over_set(w: Seq<Option<u128>>, olds: Seq<u128>) -> Set<u128> {
    olds.to_set().filter(|u: u128| !named_before(w, w.len() as int, u))
}

/// Entries in their order, each taking over the stored record it names
/// unless an earlier one took it, then the stored records that none takes
/// over (in the order of the map that holds them), all numbered from 1.
#[verifier::loop_isolation(false)]
pub fn merge_in_order(uuids: &Vec<Option<u128>>, old_uuids: &Vec<u128>) -> (r: Vec<MergedEntry>)
    requires
        uuids@.len() + left_over_set(uuids@, old_uuids@).len() <= 32767,
    ensures
        uuids@.len() <= r@.len(),
        forall|p: int|
            0 <= p < uuids@.len() ==> (#[trigger] r@[p]).form_index == Some(p as usize) && merged_at(
                r@[p],
                uuids@,
                old_uuids@,
                p,
            ),
        forall|p: int|
            uuids@.len() <= p < r@.len() ==> {
                &&& (#[trigger] r@[p]).form_index is None
                &&& r@[p].number == p + 1
                &&& left_over(uuids@, old_uuids@, r@[p].uuid)
                &&& r@[p].old_index matches Some(j) && is_last_index(old_uuids@, r@[p].uuid, j as int)
            },
        forall|p: int, q: int| uuids@.len() <= p < q < r@.len() ==> (#[trigger] r@[p]).uuid != (#[trigger] r@[q]).uuid,
        forall|u: u128|
            left_over(uuids@, old_uuids@, u) ==> exists|p: int|
                uuids@.len() <= p < r@.len() && (#[trigger] r@[p]).uuid == u,
{
    let mut w: Vec<Option<u128>> = Vec::new();
    let mut idx: Vec<usize> = Vec::new();
    let mut i: usize = 0;
    while i < uuids.len()
        invariant
            i <= uuids@.len(),
            w@.len() == i,
            idx@.len() == i,
            forall|q: int| 0 <= q < i ==> #[trigger] w@[q] == uuids@[q] && idx@[q] == q,
        decreases uuids.len() - i,
    {
        w.push(uuids[i]);
        idx.push(i);
        i += 1;
    }
    let ghost ws = uuids@;
    proof {
        assert(w@ =~= ws);
    }
    let (mut r, m) = take_over(&w, &idx, old_uuids);
    let entries = index_map_entries(&m);
    let ghost n = uuids@.len();
    proof {
        // the stored uuids left are distinct members of the finite set of leftovers
        let ks = entries@.map_values(|e: (u128, usize)| e.0);
        let lo = left_over_set(ws, old_uuids@);
        assert(ks.no_duplicates()) by {
            assert forall|a: int, b: int| 0 <= a < ks.len() && 0 <= b < ks.len() && a != b implies ks[a] != ks[b] by {
                if a < b {
                    assert(entries@[a].0 != entries@[b].0);
                } else {
                    assert(entries@[b].0 != entries@[a].0);
                }
            }
        }
        assert(ks.to_set().subset_of(lo)) by {
            assert forall|u: u128| ks.to_set().contains(u) implies lo.contains(u) by {
                let q = choose|q: int| 0 <= q < ks.len() && ks[q] == u;
                assert(entries@[q].0 == u);
                assert(index_map_contents(m).contains_key(u));
                assert(old_uuids@.to_set().contains(u));
            }
        }
        vstd::set_lib::lemma_set_subset_finite(old_uuids@.to_set(), lo);
        ks.unique_seq_to_set();
        vstd::set_lib::lemma_len_subset(ks.to_set(), lo);
        assert(entries@.len() == ks.len());
    }
    let mut k: usize = 0;
    while k < entries.len()
        invariant
            k <= entries@.len(),
            r@.len() == n + k,
            n + entries@.len() <= 32767,
            forall|p: int|
                0 <= p < n ==> (#[trigger] r@[p]).form_index == Some(p as usize) && merged_at(r@[p], ws, old_uuids@, p),
            forall|q: int| 0 <= q < k ==> #[trigger] r@[n + q] == (MergedEntry {
                form_index: None,
                old_index: Some(entries@[q].1),
                uuid: entries@[q].0,
                number: (n + q + 1) as i16,
            }),
        decreases entries.len() - k,
    {
        let number = (n_of(uuids) + k + 1) as i16;
        r.push(MergedEntry { form_index: None, old_index: Some(entries[k].1), uuid: entries[k].0, number });
        proof {
            assert(r@[n + k as int] == (MergedEntry {
                form_index: None,
                old_index: Some(entries@[k as int].1),
                uuid: entries@[k as int].0,
                number: (n + k + 1) as i16,
            }));
        }
        k += 1;
    }
    proof {
        assert forall|p: int| n <= p < r@.len() implies {
            &&& (#[trigger] r@[p]).form_index is None
            &&& r@[p].number == p + 1
            &&& left_over(ws, old_uuids@, r@[p].uuid)
            &&& r@[p].old_index matches Some(j) && is_last_index(old_uuids@, r@[p].uuid, j as int)
        } by {
            let q = p - n;
            assert(r@[n + q] == r@[p]);
            assert(index_map_contents(m).contains_key(entries@[q].0));
        }
        assert forall|p: int, q: int| n <= p < q < r@.len() implies (#[trigger] r@[p]).uuid != (#[trigger] r@[q]).uuid by {
            assert(r@[n + (p - n)] == r@[p]);
            assert(r@[n + (q - n)] == r@[q]);
            assert(entries@[p - n].0 != entries@[q - n].0);
        }
        assert forall|u: u128| left_over(ws, old_uuids@, u) implies exists|p: int|
            n <= p < r@.len() && (#[trigger] r@[p]).uuid == u by {
            assert(index_map_contents(m).contains_key(u));
            let q = choose|q: int| 0 <= q < entries@.len() && (#[trigger] entries@[q]).0 == u;
            assert(r@[n + q].uuid == u);
        }
    }
    r
}

/// The organizations of a saved request: the user's organizations in their
/// order, each taking over the stored organization it names unless an
/// earlier one took it, then the stored organizations that none takes over
/// (in the order of the map that holds them), all numbered from 1.
pub fn merge_partners(forms: &Vec<RequestPartnerForm>, old_uuids: &Vec<u128>) -> (r: Vec<MergedEntry>)
    requires
        forms@.len() + left_over_set(partner_uuids(forms@), old_uuids@).len() <= 32767,
    ensures
        forms@.len() <= r@.len(),
        forall|p: int|
            0 <= p < forms@.len() ==> (#[trigger] r@[p]).form_index == Some(p as usize) && merged_at(
                r@[p],
                partner_uuids(forms@),
                old_uuids@,
                p,
            ),
        forall|p: int|
            forms@.len() <= p < r@.len() ==> {
                &&& (#[trigger] r@[p]).form_index is None
                &&& r@[p].number == p + 1
                &&& left_over(partner_uuids(forms@), old_uuids@, r@[p].uuid)
                &&& r@[p].old_index matches Some(j) && is_last_index(old_uuids@, r@[p].uuid, j as int)
            },
        forall|p: int, q: int| forms@.len() <= p < q < r@.len() ==> (#[trigger] r@[p]).uuid != (#[trigger] r@[q]).uuid,
        forall|u: u128|
            left_over(partner_uuids(forms@), old_uuids@, u) ==> exists|p: int|
                forms@.len() <= p < r@.len() && (#[trigger] r@[p]).uuid == u,
{
    let mut uuids: Vec<Option<u128>> = Vec::new();
    let mut i: usize = 0;
    while i < forms.len()
        invariant
            i <= forms@.len(),
            uuids@.len() == i,
            forall|q: int| 0 <= q < i ==> #[trigger] uuids@[q] == forms@[q].uuid,
        decreases forms.len() - i,
    {
        uuids.push(forms[i].uuid);
        i += 1;
    }
    proof {
        assert(uuids@ =~= partner_uuids(forms@));
    }
    merge_in_order(&uuids, old_uuids)
}

/// The number of entries.
fn n_of(uuids: &Vec<Option<u128>>) -> (n: usize)
    ensures
        n == uuids@.len(),
{
    uuids.len()
}

/// The records of a new request's entries: each a new uuid, numbered from 1.
pub fn new_entries(count: usize) -> (r: Vec<MergedEntry>)
    requires
        count <= 32767,
    ensures
        r@.len() == count,
        forall|p: int|
            0 <= p < count ==> {
                &&& (#[trigger] r@[p]).form_index == Some(p as usize)
                &&& r@[p].old_index is None
                &&& is_v4(r@[p].uuid)
                &&& r@[p].number == p + 1
            },
{
    let mut r: Vec<MergedEntry> = Vec::new();
    let mut p: usize = 0;
    while p < count
        invariant
            p <= count <= 32767,
            r@.len() == p,
            forall|q: int|
                0 <= q < p ==> {
                    &&& (#[trigger] r@[q]).form_index == Some(q as usize)
                    &&& r@[q].old_index is None
                    &&& is_v4(r@[q].uuid)
                    &&& r@[q].number == q + 1
                },
        decreases count - p,
    {
        r.push(MergedEntry { form_index: Some(p), old_index: None, uuid: fresh_uuid(), number: (p + 1) as i16 });
        p += 1;
    }
    r
}

/// "Updated"/"Created" price information request `id`, a success.
pub open spec fn saved_message(created: bool, id: i64) -> MessageView {
    plain(
        MessageKind::Success,
        (if created {
            "Создан"@
        } else {
            "Обновлен"@
        }) + " ЗЦИ "@ + decimal(id as int),
    )
}

/// The message that a request was saved.
pub fn saved_request_message(created: bool, id: i64) -> (m: Message)
    ensures
        m@ == saved_message(created, id),
{
    let action = if created {
        "Создан"
    } else {
        "Обновлен"
    };
    let n = i64_to_string(id);
    Message::success(concat3(action, " ЗЦИ ", n.as_str()))
}

/// An organization of a saved request, with the status of its proposal and,
/// where it asked questions, their count and the count of those answered.
pub struct SavedPartnerRow {
    pub partner: RequestPartner,
    pub proposal_status: Option<ProposalStatus>,
    pub question_answer: Option<(usize, usize)>,
}

/// The row of an organization.
pub open spec fn saved_partner_row(
    p: RequestPartner,
    proposals: Seq<ProposalHeader>,
    questions: Seq<OrganizationQuestion>,
    row: SavedPartnerRow,
) -> bool {
    &&& row.partner == p
    &&& row.proposal_status == (match last_proposal(proposals, p.uuid) {
        Some(h) => Some(h.status_id),
        None => None,
    })
    &&& if questions_of(first_questions(questions), p.uuid).len() == 0 {
        row.question_answer is None
    } else {
        row.question_answer matches Some(qa) && qa.0 as int == questions_of(first_questions(questions), p.uuid).len()
            && qa.1 as int == answered_of(first_questions(questions), p.uuid).len()
    }
}

/// The organizations of the saved request for the answer: each with the
/// status of its proposal (the last one found for it) and the counts of its
/// questions (each uuid once) and answers, where it has questions.
pub fn saved_partner_rows(
    partners: Vec<RequestPartner>,
    proposals: &Vec<ProposalHeader>,
    questions: &Vec<OrganizationQuestion>,
) -> (r: Vec<SavedPartnerRow>)
    ensures
        r@.len() == partners@.len(),
        forall|i: int| 0 <= i < r@.len() ==> saved_partner_row(partners@[i], proposals@, questions@, #[trigger] r@[i]),
{
    let qs = dedupe_questions(questions);
    let mut r: Vec<SavedPartnerRow> = Vec::new();
    let mut i: usize = 0;
    while i < partners.len()
        invariant
            i <= partners@.len(),
            qs@ == first_questions(questions@),
            r@.len() == i,
            forall|k: int| 0 <= k < i ==> saved_partner_row(partners@[k], proposals@, questions@, #[trigger] r@[k]),
        decreases partners.len() - i,
    {
        let p = partners[i];
        let proposal_status = match find_proposal(proposals, p.uuid) {
            Some(h) => Some(h.status_id),
            None => None,
        };
        let qa = question_counts(&qs, p.uuid);
        let question_answer = if qa.0 == 0 {
            None
        } else {
            Some(qa)
        };
        r.push(SavedPartnerRow { partner: p, proposal_status, question_answer });
        i += 1;
    }
    r
}

} // verus!

verus! {

/// The records of a request saved for the first time.
pub struct NewRequestPlan {
    pub header_uuid: u128,
    /// The status the request is created with: a draft ("Проект ТКП").
    pub status_id: crate::model::RequestStatus,
    pub items: Vec<MergedEntry>,
    pub partners: Vec<MergedEntry>,
}

/// A request saved for the first time: a new uuid, the status of a draft,
/// and its positions and organizations all new, numbered from 1 in the
/// order sent.
pub fn decompose_new(item_count: usize, partner_count: usize) -> (r: NewRequestPlan)
    requires
        item_count <= 32767,
        partner_count <= 32767,
    ensures
        is_v4(r.header_uuid),
        r.status_id == crate::model::RequestStatus::TcpProject,
        r.items@.len() == item_count,
        r.partners@.len() == partner_count,
        forall|p: int|
            0 <= p < item_count ==> {
                &&& (#[trigger] r.items@[p]).form_index == Some(p as usize)
                &&& r.items@[p].old_index is None
                &&& is_v4(r.items@[p].uuid)
                &&& r.items@[p].number == p + 1
            },
        forall|p: int|
            0 <= p < partner_count ==> {
                &&& (#[trigger] r.partners@[p]).form_index == Some(p as usize)
                &&& r.partners@[p].old_index is None
                &&& is_v4(r.partners@[p].uuid)
                &&& r.partners@[p].number == p + 1
            },
{
    NewRequestPlan {
        header_uuid: fresh_uuid(),
        status_id: crate::model::RequestStatus::TcpProject,
        items: new_entries(item_count),
        partners: new_entries(partner_count),
    }
}

} // verus!
