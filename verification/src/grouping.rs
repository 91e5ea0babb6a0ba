//! Putting records read apart back together: requests with their
//! positions and organizations, proposals with their positions, and both
//! grouped by plan or by request. Records are named by their place in the
//! lists read.
use vstd::prelude::*;

verus! {

/// The places of the key in the list, in order.
pub open spec fn positions_of(keys: Seq<u128>, k: u128) -> Seq<usize>
    decreases keys.len(),
{
    if keys.len() == 0 {
        Seq::empty()
    } else if keys.last() == k {
        positions_of(keys.drop_last(), k).push((keys.len() - 1) as usize)
    } else {
        positions_of(keys.drop_last(), k)
    }
}

/// The places of the key in a list where some entries have no key.
pub open spec fn opt_positions_of(keys: Seq<Option<u128>>, k: u128) -> Seq<usize>
    decreases keys.len(),
{
    if keys.len() == 0 {
        Seq::empty()
    } else if keys.last() == Some(k) {
        opt_positions_of(keys.drop_last(), k).push((keys.len() - 1) as usize)
    } else {
        opt_positions_of(keys.drop_last(), k)
    }
}

/// The places of the key in the list, as `positions_of` states them.
pub fn indices_of(keys: &Vec<u128>, k: u128) -> (r: Vec<usize>)
    ensures
        r@ == positions_of(keys@, k),
{
    let mut r: Vec<usize> = Vec::new();
    let mut i: usize = 0;
    while i < keys.len()
        invariant
            i <= keys@.len(),
            r@ == positions_of(keys@.take(i as int), k),
        decreases keys.len() - i,
    {
        proof {
            assert(keys@.take(i + 1).drop_last() =~= keys@.take(i as int));
        }
        if keys[i] == k {
            r.push(i);
        }
        i += 1;
    }
    proof {
        assert(keys@.take(keys@.len() as int) =~= keys@);
    }
    r
}

/// The places of the key in the list, as `opt_positions_of` states them.
pub fn opt_indices_of(keys: &Vec<Option<u128>>, k: u128) -> (r: Vec<usize>)
    ensures
        r@ == opt_positions_of(keys@, k),
{
    let mut r: Vec<usize> = Vec::new();
    let mut i: usize = 0;
    while i < keys.len()
        invariant
            i <= keys@.len(),
            r@ == opt_positions_of(keys@.take(i as int), k),
        decreases keys.len() - i,
    {
        proof {
            assert(keys@.take(i + 1).drop_last() =~= keys@.take(i as int));
        }
        if keys[i] == Some(k) {
            r.push(i);
        }
        i += 1;
    }
    proof {
        assert(keys@.take(keys@.len() as int) =~= keys@);
    }
    r
}

/// No entry before `i` has the key of entry `i`.
pub open spec fn first_at(keys: Seq<u128>, i: int) -> bool {
    forall|j: int| 0 <= j < i ==> keys[j] != keys[i]
}

/// Whether the entry at `i` is the first with its key.
fn is_first_at(keys: &Vec<u128>, i: usize) -> (b: bool)
    requires
        i < keys@.len(),
    ensures
        b == first_at(keys@, i as int),
{
    let mut j: usize = 0;
    while j < i
        invariant
            j <= i < keys@.len(),
            forall|q: int| 0 <= q < j ==> keys@[q] != keys@[i as int],
        decreases i - j,
    {
        if keys[j] == keys[i] {
            return false;
        }
        j += 1;
    }
    true
}

/// The places of the records that come first with their key, in order: a
/// list read with duplicates (as a join gives it) keeps each record once.
pub fn first_positions(keys: &Vec<u128>) -> (r: Vec<usize>)
    ensures
        forall|k: int| 0 <= k < r@.len() ==> (#[trigger] r@[k]) < keys@.len() && first_at(keys@, r@[k] as int),
        forall|i: int| 0 <= i < keys@.len() && first_at(keys@, i) ==> r@.contains(i as usize),
        forall|a: int, b: int| 0 <= a < b < r@.len() ==> r@[a] < r@[b],
{
    let mut r: Vec<usize> = Vec::new();
    let mut i: usize = 0;
    while i < keys.len()
        invariant
            i <= keys@.len(),
            forall|k: int| 0 <= k < r@.len() ==> (#[trigger] r@[k]) < i && first_at(keys@, r@[k] as int),
            forall|q: int| 0 <= q < i && first_at(keys@, q) ==> r@.contains(q as usize),
            forall|a: int, b: int| 0 <= a < b < r@.len() ==> r@[a] < r@[b],
        decreases keys.len() - i,
    {
        if is_first_at(keys, i) {
            let ghost before = r@;
            r.push(i);
            proof {
                assert forall|q: int| 0 <= q < i && first_at(keys@, q) implies r@.contains(q as usize) by {
                    let k = choose|k: int| 0 <= k < before.len() && before[k] == q as usize;
                    assert(r@[k] == q as usize);
                }
                assert(r@[before.len() as int] == i);
            }
        }
        i += 1;
    }
    r
}

/// A request with its positions and organizations (places in the lists read).
pub struct RequestParts {
    pub header: usize,
    pub items: Vec<usize>,
    /// `None` where the request has no organization.
    pub partners: Option<Vec<usize>>,
}

/// The organizations of a request: their places, `None` for none.
pub open spec fn partners_part(p: Option<Vec<usize>>, places: Seq<usize>) -> bool {
    if places.len() == 0 {
        p is None
    } else {
        p matches Some(v) && v@ == places
    }
}

/// The places as a part of a request.
fn partners_of(places: Vec<usize>) -> (r: Option<Vec<usize>>)
    ensures
        partners_part(r, places@),
{
    if places.len() == 0 {
        None
    } else {
        Some(places)
    }
}

/// The requests of a plan, each with its positions and organizations; a
/// request whose uuid came earlier gets none (they went to the first).
pub fn get_price_information_requests_by_plan_uuid(
    header_uuids: &Vec<u128>,
    item_request_uuids: &Vec<u128>,
    partner_request_uuids: &Vec<u128>,
) -> (r: Vec<RequestParts>)
    ensures
        r@.len() == header_uuids@.len(),
        forall|h: int|
            0 <= h < r@.len() ==> {
                &&& (#[trigger] r@[h]).header == h
                &&& if first_at(header_uuids@, h) {
                    &&& r@[h].items@ == positions_of(item_request_uuids@, header_uuids@[h])
                    &&& partners_part(r@[h].partners, positions_of(partner_request_uuids@, header_uuids@[h]))
                } else {
                    r@[h].items@.len() == 0 && r@[h].partners is None
                }
            },
{
    let mut r: Vec<RequestParts> = Vec::new();
    let mut h: usize = 0;
    while h < header_uuids.len()
        invariant
            h <= header_uuids@.len(),
            r@.len() == h,
            forall|q: int|
                0 <= q < h ==> {
                    &&& (#[trigger] r@[q]).header == q
                    &&& if first_at(header_uuids@, q) {
                        &&& r@[q].items@ == positions_of(item_request_uuids@, header_uuids@[q])
                        &&& partners_part(r@[q].partners, positions_of(partner_request_uuids@, header_uuids@[q]))
                    } else {
                        r@[q].items@.len() == 0 && r@[q].partners is None
                    }
                },
        decreases header_uuids.len() - h,
    {
        let u = header_uuids[h];
        let parts = if is_first_at(header_uuids, h) {
            RequestParts {
                header: h,
                items: indices_of(item_request_uuids, u),
                partners: partners_of(indices_of(partner_request_uuids, u)),
            }
        } else {
            RequestParts { header: h, items: Vec::new(), partners: None }
        };
        r.push(parts);
        h += 1;
    }
    r
}

/// The requests of a plan (places of their headers, in order), each with
/// all its positions and organizations.
pub struct PlanRequests {
    pub plan_uuid: u128,
    pub requests: Vec<RequestParts>,
}

/// The requests of a plan as the grouping gives them.
pub open spec fn plan_group(
    g: PlanRequests,
    plans: Seq<Option<u128>>,
    header_uuids: Seq<u128>,
    item_keys: Seq<u128>,
    partner_keys: Seq<u128>,
) -> bool {
    &&& g.requests@.len() == opt_positions_of(plans, g.plan_uuid).len()
    &&& opt_positions_of(plans, g.plan_uuid).len() > 0
    &&& forall|k: int|
        0 <= k < g.requests@.len() ==> {
            let h = opt_positions_of(plans, g.plan_uuid)[k] as int;
            &&& (#[trigger] g.requests@[k]).header == h
            &&& g.requests@[k].items@ == positions_of(item_keys, header_uuids[h])
            &&& partners_part(g.requests@[k].partners, positions_of(partner_keys, header_uuids[h]))
        }
}

/// Whether no entry before `i` has the key of entry `i`, which has one.
fn is_first_key_at(keys: &Vec<Option<u128>>, i: usize) -> (b: bool)
    requires
        i < keys@.len(),
    ensures
        b == (keys@[i as int] is Some && forall|j: int| 0 <= j < i ==> keys@[j] != keys@[i as int]),
{
    if keys[i].is_none() {
        return false;
    }
    let mut j: usize = 0;
    while j < i
        invariant
            j <= i < keys@.len(),
            forall|q: int| 0 <= q < j ==> keys@[q] != keys@[i as int],
        decreases i - j,
    {
        if keys[j] == keys[i] {
            return false;
        }
        j += 1;
    }
    true
}

/// The place of an entry is among the places of its key.
pub proof fn lemma_opt_positions_contains(keys: Seq<Option<u128>>, i: int)
    requires
        0 <= i < keys.len(),
        keys[i] is Some,
    ensures
        opt_positions_of(keys, keys[i]->0).len() > 0,
    decreases keys.len(),
{
    if i < keys.len() - 1 {
        lemma_opt_positions_contains(keys.drop_last(), i);
    }
}

/// The requests of one plan, in order, each with all its positions and
/// organizations.
fn plan_requests(
    plans: &Vec<Option<u128>>,
    p: u128,
    header_uuids: &Vec<u128>,
    item_request_uuids: &Vec<u128>,
    partner_request_uuids: &Vec<u128>,
) -> (requests: Vec<RequestParts>)
    requires
        plans@.len() == header_uuids@.len(),
    ensures
        requests@.len() == opt_positions_of(plans@, p).len(),
        forall|q: int|
            0 <= q < requests@.len() ==> {
                let h = opt_positions_of(plans@, p)[q] as int;
                &&& (#[trigger] requests@[q]).header == h
                &&& requests@[q].items@ == positions_of(item_request_uuids@, header_uuids@[h])
                &&& partners_part(requests@[q].partners, positions_of(partner_request_uuids@, header_uuids@[h]))
            },
{
    let hs = opt_indices_of(plans, p);
    let n_plans = plans.len();
    let mut requests: Vec<RequestParts> = Vec::new();
    let mut k: usize = 0;
    while k < hs.len()
        invariant
            k <= hs@.len(),
            plans@.len() == n_plans,
            hs@ == opt_positions_of(plans@, p),
            plans@.len() == header_uuids@.len(),
            requests@.len() == k,
            forall|q: int|
                0 <= q < k ==> {
                    let h = hs@[q] as int;
                    &&& (#[trigger] requests@[q]).header == h
                    &&& requests@[q].items@ == positions_of(item_request_uuids@, header_uuids@[h])
                    &&& partners_part(requests@[q].partners, positions_of(partner_request_uuids@, header_uuids@[h]))
                },
        decreases hs.len() - k,
    {
        let h = hs[k];
        proof {
            lemma_opt_positions_below(plans@, p, k as int);
        }
        let u = header_uuids[h];
        requests.push(
            RequestParts {
                header: h,
                items: indices_of(item_request_uuids, u),
                partners: partners_of(indices_of(partner_request_uuids, u)),
            },
        );
        k += 1;
    }
    requests
}

/// The requests of several plans, grouped by plan (requests without a plan
/// are left out); in each group the requests in order, each with all its
/// positions and organizations. Each plan has one group.
pub fn get_price_information_requests_by_plan_uuid_vec(
    header_plan_uuids: &Vec<Option<u128>>,
    header_uuids: &Vec<u128>,
    item_request_uuids: &Vec<u128>,
    partner_request_uuids: &Vec<u128>,
) -> (r: Vec<PlanRequests>)
    requires
        header_plan_uuids@.len() == header_uuids@.len(),
    ensures
        forall|a: int|
            0 <= a < r@.len() ==> plan_group(
                #[trigger] r@[a],
                header_plan_uuids@,
                header_uuids@,
                item_request_uuids@,
                partner_request_uuids@,
            ),
        forall|a: int, b: int| 0 <= a < b < r@.len() ==> (#[trigger] r@[a]).plan_uuid != (#[trigger] r@[b]).plan_uuid,
        forall|h: int|
            0 <= h < header_plan_uuids@.len() && (#[trigger] header_plan_uuids@[h]) is Some ==> exists|a: int|
                0 <= a < r@.len() && (#[trigger] r@[a]).plan_uuid == header_plan_uuids@[h]->0,
{
    let plans = header_plan_uuids;
    let mut r: Vec<PlanRequests> = Vec::new();
    let mut i: usize = 0;
    while i < plans.len()
        invariant
            i <= plans@.len(),
            plans@.len() == header_uuids@.len(),
            forall|a: int|
                0 <= a < r@.len() ==> plan_group(
                    #[trigger] r@[a],
                    plans@,
                    header_uuids@,
                    item_request_uuids@,
                    partner_request_uuids@,
                ),
            forall|a: int, b: int| 0 <= a < b < r@.len() ==> (#[trigger] r@[a]).plan_uuid != (#[trigger] r@[b]).plan_uuid,
            forall|a: int| 0 <= a < r@.len() ==> exists|h: int| 0 <= h < i && plans@[h] == Some((#[trigger] r@[a]).plan_uuid),
            forall|h: int|
                0 <= h < i && (#[trigger] plans@[h]) is Some ==> exists|a: int|
                    0 <= a < r@.len() && (#[trigger] r@[a]).plan_uuid == plans@[h]->0,
        decreases plans.len() - i,
    {
        if is_first_key_at(plans, i) {
            let p = match plans[i] {
                Some(p) => p,
                None => 0,
            };
            let requests = plan_requests(plans, p, header_uuids, item_request_uuids, partner_request_uuids);
            proof {
                lemma_opt_positions_contains(plans@, i as int);
                assert forall|a: int| 0 <= a < r@.len() implies (#[trigger] r@[a]).plan_uuid != p by {
                    let h = choose|h: int| 0 <= h < i && plans@[h] == Some(r@[a].plan_uuid);
                    assert(plans@[h] != plans@[i as int]);
                }
            }
            let ghost before = r@;
            r.push(PlanRequests { plan_uuid: p, requests });
            proof {
                assert forall|h: int| 0 <= h < i + 1 && (#[trigger] plans@[h]) is Some implies exists|a: int|
                    0 <= a < r@.len() && (#[trigger] r@[a]).plan_uuid == plans@[h]->0 by {
                    if h == i {
                        assert(r@[before.len() as int].plan_uuid == p);
                    } else {
                        let a = choose|a: int| 0 <= a < before.len() && (#[trigger] before[a]).plan_uuid == plans@[h]->0;
                        assert(r@[a] == before[a]);
                    }
                }
                assert forall|a: int| 0 <= a < r@.len() implies exists|h: int| 0 <= h < i + 1 && plans@[h] == Some((#[trigger] r@[a]).plan_uuid) by {
                    if a < before.len() {
                        assert(r@[a] == before[a]);
                        let h = choose|h: int| 0 <= h < i && plans@[h] == Some(before[a].plan_uuid);
                    } else {
                        assert(plans@[i as int] == Some(r@[a].plan_uuid));
                    }
                }
            }
        } else {
            proof {
                assert forall|h: int| 0 <= h < i + 1 && (#[trigger] plans@[h]) is Some implies exists|a: int|
                    0 <= a < r@.len() && (#[trigger] r@[a]).plan_uuid == plans@[h]->0 by {
                    if h == i {
                        let j = choose|j: int| 0 <= j < i && !(plans@[j] != plans@[i as int]);
                        assert(plans@[j] is Some);
                    }
                }
            }
        }
        i += 1;
    }
    r
}

/// Every place of a key lies within the list.
pub proof fn lemma_opt_positions_below(keys: Seq<Option<u128>>, k: u128, q: int)
    requires
        0 <= q < opt_positions_of(keys, k).len(),
        keys.len() <= usize::MAX,
    ensures
        opt_positions_of(keys, k)[q] < keys.len(),
        keys[opt_positions_of(keys, k)[q] as int] == Some(k),
    decreases keys.len(),
{
    let r = opt_positions_of(keys.drop_last(), k);
    if keys.last() == Some(k) && q == r.len() {
        assert(opt_positions_of(keys, k)[q] == (keys.len() - 1) as usize);
    } else {
        lemma_opt_positions_below(keys.drop_last(), k, q);
        assert(opt_positions_of(keys, k)[q] == r[q]);
        assert(keys.drop_last()[r[q] as int] == keys[r[q] as int]);
    }
}

/// Every place of a key lies within the list.
pub proof fn lemma_positions_below(keys: Seq<u128>, k: u128, q: int)
    requires
        0 <= q < positions_of(keys, k).len(),
        keys.len() <= usize::MAX,
    ensures
        positions_of(keys, k)[q] < keys.len(),
        keys[positions_of(keys, k)[q] as int] == k,
    decreases keys.len(),
{
    let r = positions_of(keys.drop_last(), k);
    if keys.last() == k && q == r.len() {
        assert(positions_of(keys, k)[q] == (keys.len() - 1) as usize);
    } else {
        lemma_positions_below(keys.drop_last(), k, q);
        assert(positions_of(keys, k)[q] == r[q]);
        assert(keys.drop_last()[r[q] as int] == keys[r[q] as int]);
    }
}

/// The proposals of a request, each with its positions; a proposal whose
/// uuid came earlier gets none (they went to the first).
pub fn get_tkp_by_uuid_request(header_uuids: &Vec<u128>, item_proposal_uuids: &Vec<u128>) -> (r: Vec<Vec<usize>>)
    ensures
        r@.len() == header_uuids@.len(),
        forall|h: int|
            0 <= h < r@.len() ==> (#[trigger] r@[h])@ == if first_at(header_uuids@, h) {
                positions_of(item_proposal_uuids@, header_uuids@[h])
            } else {
                Seq::empty()
            },
{
    let mut r: Vec<Vec<usize>> = Vec::new();
    let mut h: usize = 0;
    while h < header_uuids.len()
        invariant
            h <= header_uuids@.len(),
            r@.len() == h,
            forall|q: int|
                0 <= q < h ==> (#[trigger] r@[q])@ == if first_at(header_uuids@, q) {
                    positions_of(item_proposal_uuids@, header_uuids@[q])
                } else {
                    Seq::empty()
                },
        decreases header_uuids.len() - h,
    {
        let items = if is_first_at(header_uuids, h) {
            indices_of(item_proposal_uuids, header_uuids[h])
        } else {
            Vec::new()
        };
        r.push(items);
        h += 1;
    }
    r
}

/// The proposals of a request (places of their headers, in order), each
/// with all its positions.
pub struct RequestProposals {
    pub request_uuid: u128,
    pub proposals: Vec<(usize, Vec<usize>)>,
}

/// The proposals of a request as the grouping gives them.
pub open spec fn request_group(g: RequestProposals, requests: Seq<u128>, header_uuids: Seq<u128>, item_keys: Seq<u128>) -> bool {
    &&& g.proposals@.len() == positions_of(requests, g.request_uuid).len()
    &&& positions_of(requests, g.request_uuid).len() > 0
    &&& forall|k: int|
        0 <= k < g.proposals@.len() ==> {
            let h = positions_of(requests, g.request_uuid)[k] as int;
            &&& (#[trigger] g.proposals@[k]).0 == h
            &&& g.proposals@[k].1@ == positions_of(item_keys, header_uuids[h])
        }
}

/// The place of an entry is among the places of its key.
pub proof fn lemma_positions_contains(keys: Seq<u128>, i: int)
    requires
        0 <= i < keys.len(),
    ensures
        positions_of(keys, keys[i]).len() > 0,
    decreases keys.len(),
{
    if i < keys.len() - 1 {
        lemma_positions_contains(keys.drop_last(), i);
    }
}

/// The requests that have a group.
pub open spec fn group_keys(groups: Seq<RequestProposals>) -> Seq<u128> {
    groups.map_values(|g: RequestProposals| g.request_uuid)
}

/// The proposals of one request, in order, each with all its positions.
fn request_proposals(reqs: &Vec<u128>, u: u128, header_uuids: &Vec<u128>, item_proposal_uuids: &Vec<u128>) -> (proposals: Vec<
    (usize, Vec<usize>),
>)
    requires
        reqs@.len() == header_uuids@.len(),
    ensures
        proposals@.len() == positions_of(reqs@, u).len(),
        forall|q: int|
            0 <= q < proposals@.len() ==> {
                let h = positions_of(reqs@, u)[q] as int;
                &&& (#[trigger] proposals@[q]).0 == h
                &&& proposals@[q].1@ == positions_of(item_proposal_uuids@, header_uuids@[h])
            },
{
    let hs = indices_of(reqs, u);
    let n_reqs = reqs.len();
    let mut proposals: Vec<(usize, Vec<usize>)> = Vec::new();
    let mut k: usize = 0;
    while k < hs.len()
        invariant
            k <= hs@.len(),
            reqs@.len() == n_reqs,
            hs@ == positions_of(reqs@, u),
            reqs@.len() == header_uuids@.len(),
            proposals@.len() == k,
            forall|q: int|
                0 <= q < k ==> {
                    let h = hs@[q] as int;
                    &&& (#[trigger] proposals@[q]).0 == h
                    &&& proposals@[q].1@ == positions_of(item_proposal_uuids@, header_uuids@[h])
                },
        decreases hs.len() - k,
    {
        let h = hs[k];
        proof {
            lemma_positions_below(reqs@, u, k as int);
        }
        proposals.push((h, indices_of(item_proposal_uuids, header_uuids[h])));
        k += 1;
    }
    proposals
}

/// The proposals of several requests, grouped by request; in each group the
/// proposals in order, each with all its positions. Each request has one group.
#[verifier::rlimit(40)]
pub fn get_tkp_by_uuid_request_vec(
    header_request_uuids: &Vec<u128>,
    header_uuids: &Vec<u128>,
    item_proposal_uuids: &Vec<u128>,
) -> (r: Vec<RequestProposals>)
    requires
        header_request_uuids@.len() == header_uuids@.len(),
    ensures
        forall|a: int|
            0 <= a < r@.len() ==> request_group(#[trigger] r@[a], header_request_uuids@, header_uuids@, item_proposal_uuids@),
        forall|a: int, b: int| 0 <= a < b < r@.len() ==> (#[trigger] r@[a]).request_uuid != (#[trigger] r@[b]).request_uuid,
        forall|h: int| 0 <= h < header_request_uuids@.len() ==> group_keys(r@).contains(#[trigger] header_request_uuids@[h]),
{
    let reqs = header_request_uuids;
    let mut r: Vec<RequestProposals> = Vec::new();
    // the place of a request's first proposal, for each group; the group of each proposal
    let ghost mut firsts: Seq<int> = Seq::empty();
    let ghost mut group_of: Seq<int> = Seq::empty();
    let mut i: usize = 0;
    while i < reqs.len()
        invariant
            i <= reqs@.len(),
            reqs@.len() == header_uuids@.len(),
            forall|a: int| 0 <= a < r@.len() ==> request_group(#[trigger] r@[a], reqs@, header_uuids@, item_proposal_uuids@),
            forall|a: int, b: int| 0 <= a < b < r@.len() ==> (#[trigger] r@[a]).request_uuid != (#[trigger] r@[b]).request_uuid,
            firsts.len() == r@.len(),
            forall|a: int| 0 <= a < r@.len() ==> 0 <= #[trigger] firsts[a] < i && reqs@[firsts[a]] == r@[a].request_uuid,
            group_of.len() == i,
            forall|h: int| 0 <= h < i ==> 0 <= #[trigger] group_of[h] < r@.len() && r@[group_of[h]].request_uuid == reqs@[h],
        decreases reqs.len() - i,
    {
        if is_first_at(reqs, i) {
            let u = reqs[i];
            let proposals = request_proposals(reqs, u, header_uuids, item_proposal_uuids);
            proof {
                lemma_positions_contains(reqs@, i as int);
                assert forall|a: int| 0 <= a < r@.len() implies (#[trigger] r@[a]).request_uuid != u by {
                    assert(reqs@[firsts[a]] != reqs@[i as int]);
                }
            }
            let ghost before = r@;
            r.push(RequestProposals { request_uuid: u, proposals });
            proof {
                firsts = firsts.push(i as int);
                group_of = group_of.push(before.len() as int);
                assert forall|a: int| 0 <= a < before.len() implies #[trigger] r@[a] == before[a] by {}
            }
        } else {
            proof {
                let j = choose|j: int| 0 <= j < i && !(reqs@[j] != reqs@[i as int]);
                group_of = group_of.push(group_of[j]);
            }
        }
        i += 1;
    }
    proof {
        assert forall|h: int| 0 <= h < reqs@.len() implies group_keys(r@).contains(#[trigger] reqs@[h]) by {
            let a = group_of[h];
            assert(group_keys(r@)[a] == reqs@[h]);
        }
    }
    r
}

} // verus!
