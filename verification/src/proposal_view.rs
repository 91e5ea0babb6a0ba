//! What the service shows of proposals: the detail of one proposal
//! ("/get/proposal_detail"), the received proposals of requests
//! ("/get/technical_commercial_proposal/"), the proposals that count in a
//! plan's price analysis ("/get/proposal_list_by_object_id/") and the prices
//! of a proposal's positions ("/get/proposal_items_for_pricing/").
use vstd::prelude::*;

use crate::merge::{claim_records, claimed_at};
use crate::messages::{plain, Message, MessageKind, MessageView, Messages, ParamItem, ParamItemView, items_view};
use crate::model::{ProposalHeader, ProposalItem, ProposalStatus, RequestHeader, RequestPartner, ReviewResult, TcpError, VatId};
use crate::outside::{uuid_text, uuid_to_string};
use crate::seqs::lemma_take_all;
use crate::sorting::{apply_order, before, is_stable_order, stable_order};
use crate::text::{concat, concat3, decimal, decimals, i64_to_string, join, owned};

verus! {

/// A proposal with its positions, its organization and its request, as read.
pub struct ProposalDetailData {
    pub proposal_header: ProposalHeader,
    pub items: Vec<ProposalItem>,
    pub partner: RequestPartner,
    pub request_header: RequestHeader,
}

/// The price and VAT rate of a request position.
#[derive(Clone, Copy, Debug, PartialEq, Eq, Structural)]
pub struct RequestItemPrice {
    pub uuid: u128,
    pub price: Option<i64>,
    pub vat_id: Option<VatId>,
}

/// A position of the proposal detail, with the price and VAT rate of its
/// request position; `disabled` when the user may not edit it.
pub struct ProposalDetailItem {
    pub item: ProposalItem,
    pub price: Option<i64>,
    pub vat_id: Option<VatId>,
    pub disabled: bool,
}

/// The detail of a proposal.
pub struct ProposalDetail {
    pub header: ProposalHeader,
    /// Author of the request.
    pub created_by: i32,
    /// Number of the request.
    pub request_id: i64,
    pub supplier_id: i32,
    pub item_list: Vec<ProposalDetailItem>,
}

/// The proposal read for the detail: the last one found; there is none for
/// an unknown id.
pub fn single_detail(mut found: Vec<ProposalDetailData>, id: i64) -> (r: Result<ProposalDetailData, TcpError>)
    ensures
        found@.len() > 0 <==> r is Ok,
        r matches Ok(d) ==> d == found@.last(),
        r matches Err(e) ==> e matches TcpError::RecordNotFound(i, table) && i@ == decimal(id as int) && table@
            == "proposal_head"@,
{
    match found.pop() {
        Some(d) => Ok(d),
        None => Err(TcpError::RecordNotFound(i64_to_string(id), owned("proposal_head"))),
    }
}

/// The price of a request position: the last one read with its uuid.
pub open spec fn price_of(ris: Seq<RequestItemPrice>, uuid: u128) -> Option<RequestItemPrice>
    decreases ris.len(),
{
    if ris.len() == 0 {
        None
    } else if ris.last().uuid == uuid {
        Some(ris.last())
    } else {
        price_of(ris.drop_last(), uuid)
    }
}

/// The price of a request position, as `price_of` states it.
fn find_price(ris: &Vec<RequestItemPrice>, uuid: u128) -> (r: Option<RequestItemPrice>)
    ensures
        r == price_of(ris@, uuid),
{
    let mut i = ris.len();
    proof {
        lemma_take_all(ris@);
    }
    while i > 0
        invariant
            i <= ris@.len(),
            price_of(ris@, uuid) == price_of(ris@.take(i as int), uuid),
        decreases i,
    {
        proof {
            assert(ris@.take(i as int).drop_last() =~= ris@.take(i - 1));
        }
        if ris[i - 1].uuid == uuid {
            return Some(ris[i - 1]);
        }
        i = i - 1;
    }
    None
}

/// The positions' numbers, as sort keys.
pub open spec fn proposal_item_numbers(items: Seq<ProposalItem>) -> Seq<i64> {
    items.map_values(|i: ProposalItem| i.number as i64)
}

/// The user may not edit the proposal: another user made it, or it is deleted.
pub open spec fn proposal_locked(h: ProposalHeader, user_id: i32) -> bool {
    h.created_by != user_id || h.status_id == ProposalStatus::Deleted
}

/// Every position's request position has a price.
pub open spec fn all_priced(items: Seq<ProposalItem>, ris: Seq<RequestItemPrice>) -> bool {
    forall|k: int| 0 <= k < items.len() ==> price_of(ris, (#[trigger] items[k]).request_item_uuid) is Some
}

/// Position `k` is the first, in the order of the positions' numbers
/// (then of their places), whose request position has no price.
pub open spec fn first_unpriced(items: Seq<ProposalItem>, ris: Seq<RequestItemPrice>, k: int) -> bool {
    &&& 0 <= k < items.len()
    &&& price_of(ris, items[k].request_item_uuid) is None
    &&& forall|q: int|
        0 <= q < items.len() && q != k && price_of(ris, (#[trigger] items[q]).request_item_uuid) is None ==> before(
            proposal_item_numbers(items),
            k,
            q,
        )
}

/// Where a place of the positions sits in an order that lists each place once.
proof fn lemma_place_in_order(order: Seq<usize>, n: int, q: int) -> (a: int)
    requires
        order.len() == n,
        order.no_duplicates(),
        forall|i: int| 0 <= i < order.len() ==> (#[trigger] order[i]) < n,
        0 <= q < n,
    ensures
        0 <= a < order.len(),
        order[a] == q,
{
    let v = order.map_values(|x: usize| x as int);
    assert forall|a: int| 0 <= a < v.len() implies 0 <= #[trigger] v[a] < n by {}
    assert(v.no_duplicates()) by {
        assert forall|a: int, b: int| 0 <= a < v.len() && 0 <= b < v.len() && a != b implies v[a] != v[b] by {
            assert(order[a] != order[b]);
        }
    }
    lemma_perm_covers(v, n, q);
    choose|a: int| 0 <= a < v.len() && v[a] == q
}

/// The row of the detail made of a position.
pub open spec fn detail_item_of(it: ProposalItem, ris: Seq<RequestItemPrice>, locked: bool, d: ProposalDetailItem) -> bool {
    &&& d.item == it
    &&& d.price == price_of(ris, it.request_item_uuid)->0.price
    &&& d.vat_id == price_of(ris, it.request_item_uuid)->0.vat_id
    &&& d.disabled == locked
}

/// The detail of a proposal for the user: its positions stably ordered by
/// number, each with its request position's price and VAT rate and locked
/// unless the user made the proposal and it is not deleted; fails when a
/// request position is missing.
#[verifier::loop_isolation(false)]
pub fn proposal_detail(details: ProposalDetailData, request_items: &Vec<RequestItemPrice>, user_id: i32) -> (r: Result<
    ProposalDetail,
    TcpError,
>)
    ensures
        all_priced(details.items@, request_items@) <==> r is Ok,
        r matches Ok(d) ==> {
            &&& d.header == details.proposal_header
            &&& d.created_by == details.request_header.created_by
            &&& d.request_id == details.request_header.id
            &&& d.supplier_id == details.partner.supplier_id
            &&& exists|order: Seq<usize>|
                #[trigger] is_stable_order(proposal_item_numbers(details.items@), order) && d.item_list@.len()
                    == order.len() && forall|i: int|
                    0 <= i < order.len() ==> detail_item_of(
                        details.items@[order[i] as int],
                        request_items@,
                        proposal_locked(details.proposal_header, user_id),
                        #[trigger] d.item_list@[i],
                    )
        },
        r matches Err(e) ==> e matches TcpError::RecordNotFound(t, table) && table@ == "request_item"@ && exists|k: int|
            #[trigger] first_unpriced(details.items@, request_items@, k) && t@ == uuid_text(
                details.items@[k].request_item_uuid,
            ),
{
    let ProposalDetailData { proposal_header, items, partner, request_header } = details;
    let ghost its = items@;
    let mut keys: Vec<i64> = Vec::new();
    let mut i: usize = 0;
    while i < items.len()
        invariant
            i <= items@.len(),
            keys@.len() == i,
            forall|k: int| 0 <= k < i ==> keys@[k] == (#[trigger] items@[k]).number as i64,
        decreases items.len() - i,
    {
        keys.push(items[i].number as i64);
        i += 1;
    }
    proof {
        assert(keys@ =~= proposal_item_numbers(items@));
    }
    let order = stable_order(&keys);
    let sorted = apply_order(items, &order);
    let locked = proposal_header.created_by != user_id || proposal_header.status_id == ProposalStatus::Deleted;
    let mut item_list: Vec<ProposalDetailItem> = Vec::new();
    let mut rest = sorted;
    let ghost sorted_s = rest@;
    let mut k: usize = 0;
    while rest.len() > 0
        invariant
            k + rest@.len() == sorted_s.len(),
            sorted_s.len() == order@.len(),
            rest@ == sorted_s.subrange(k as int, sorted_s.len() as int),
            forall|q: int| 0 <= q < order@.len() ==> #[trigger] sorted_s[q] == its[order@[q] as int],
            is_stable_order(proposal_item_numbers(its), order@),
            item_list@.len() == k,
            forall|q: int|
                0 <= q < k ==> detail_item_of(sorted_s[q], request_items@, locked, #[trigger] item_list@[q]),
            forall|q: int| 0 <= q < k ==> price_of(request_items@, (#[trigger] sorted_s[q]).request_item_uuid) is Some,
        decreases rest.len(),
    {
        let it = rest.remove(0);
        proof {
            assert(it == sorted_s[k as int]);
            assert(rest@ =~= sorted_s.subrange(k + 1, sorted_s.len() as int));
        }
        let p = match find_price(request_items, it.request_item_uuid) {
            Some(p) => p,
            None => {
                proof {
                    let o = order@[k as int] as int;
                    assert(its[o] == sorted_s[k as int]);
                    assert(0 <= o < its.len());
                    assert(price_of(request_items@, details.items@[o].request_item_uuid) is None);
                    assert(!all_priced(details.items@, request_items@));
                    let ks = proposal_item_numbers(its);
                    assert forall|q: int|
                        0 <= q < its.len() && q != o && price_of(request_items@, (#[trigger] its[q]).request_item_uuid)
                            is None implies before(ks, o, q) by {
                        let a = lemma_place_in_order(order@, its.len() as int, q);
                        assert(sorted_s[a] == its[q]);
                        if a < k {
                            assert(price_of(request_items@, sorted_s[a].request_item_uuid) is Some);
                        }
                        assert(a != k);
                        assert(before(ks, order@[k as int] as int, order@[a] as int));
                    }
                    assert(first_unpriced(details.items@, request_items@, o));
                }
                return Err(TcpError::RecordNotFound(uuid_to_string(it.request_item_uuid), owned("request_item")));
            },
        };
        item_list.push(ProposalDetailItem { item: it, price: p.price, vat_id: p.vat_id, disabled: locked });
        k += 1;
    }
    proof {
        assert forall|q: int| 0 <= q < its.len() implies price_of(request_items@, (#[trigger] its[q]).request_item_uuid) is Some by {
            // every position is somewhere in the order
            let ks = proposal_item_numbers(its);
            assert(order@.len() == its.len());
            let v = order@.map_values(|x: usize| x as int);
            assert forall|a: int| 0 <= a < v.len() implies 0 <= #[trigger] v[a] < its.len() by {}
            assert(v.no_duplicates()) by {
                assert forall|a: int, b: int| 0 <= a < v.len() && 0 <= b < v.len() && a != b implies v[a] != v[b] by {
                    assert(order@[a] != order@[b]);
                }
            }
            lemma_perm_covers(v, its.len() as int, q);
            let a = choose|a: int| 0 <= a < v.len() && v[a] == q;
            assert(sorted_s[a] == its[q]);
        }
    }
    let d = ProposalDetail {
        header: proposal_header,
        created_by: request_header.created_by,
        request_id: request_header.id,
        supplier_id: partner.supplier_id,
        item_list,
    };
    proof {
        assert(is_stable_order(proposal_item_numbers(its), order@));
        assert(forall|i: int|
            0 <= i < order@.len() ==> detail_item_of(
                its[order@[i] as int],
                request_items@,
                locked,
                #[trigger] d.item_list@[i],
            ));
    }
    Ok(d)
}

/// A list of `n` distinct positions below `n` holds every position below `n`.
pub proof fn lemma_perm_covers(v: Seq<int>, n: int, q: int)
    requires
        v.len() == n,
        v.no_duplicates(),
        forall|a: int| 0 <= a < v.len() ==> 0 <= #[trigger] v[a] < n,
        0 <= q < n,
    ensures
        exists|a: int| 0 <= a < v.len() && v[a] == q,
{
    let full = Set::new(|x: int| 0 <= x < n);
    assert(v.to_set().subset_of(full));
    v.unique_seq_to_set();
    vstd::set_lib::lemma_int_range(0, n);
    assert(full =~= vstd::set_lib::set_int_range(0, n));
    if !v.to_set().contains(q) {
        vstd::set_lib::lemma_len_subset(v.to_set(), full.remove(q));
        assert(false);
    }
}

/// The names of the fields of a position that a locked detail disables.
pub open spec fn disabled_fields() -> Seq<Seq<char>> {
    seq![
        "supplier_price"@,
        "supplier_vat_id"@,
        "manufacturer"@,
        "mark"@,
        "pay_condition_id"@,
        "prepayment_percent"@,
        "delivery_condition"@,
        "execution_percent"@,
        "is_possibility"@,
        "possibility_note"@,
        "analog_description"@,
        "delivery_period"@,
    ]
}

/// The names of the fields that a locked detail disables.
pub fn disabled_field_list() -> (r: Vec<String>)
    ensures
        r@.map_values(|s: String| s@) == disabled_fields(),
{
    let mut r: Vec<String> = Vec::new();
    r.push(owned("supplier_price"));
    r.push(owned("supplier_vat_id"));
    r.push(owned("manufacturer"));
    r.push(owned("mark"));
    r.push(owned("pay_condition_id"));
    r.push(owned("prepayment_percent"));
    r.push(owned("delivery_condition"));
    r.push(owned("execution_percent"));
    r.push(owned("is_possibility"));
    r.push(owned("possibility_note"));
    r.push(owned("analog_description"));
    r.push(owned("delivery_period"));
    proof {
        assert(r@.map_values(|s: String| s@) =~= disabled_fields());
    }
    r
}

/// The info that no proposal was found for the requests (their numbers).
pub open spec fn tcp_not_found_message(request_ids: Seq<i64>) -> MessageView {
    MessageView {
        item_list: request_ids.map_values(|id: i64| ParamItemView { id: decimal(id as int), uuid: None }),
        ..plain(MessageKind::Information, "Для ЗЦИ "@ + join(decimals(request_ids), ", "@) + " ТКП не найдено"@)
    }
}

/// The messages about proposals of requests.
pub struct GetTechnicalCommercialProposalMessage;

impl GetTechnicalCommercialProposalMessage {
    /// No proposal was found for the requests.
    pub fn is_tcp_not_found(request_ids: &Vec<i64>) -> (m: Message)
        ensures
            m@ == tcp_not_found_message(request_ids@),
    {
        let mut s = String::new();
        let mut items: Vec<ParamItem> = Vec::new();
        let mut i: usize = 0;
        while i < request_ids.len()
            invariant
                i <= request_ids@.len(),
                s@ == join(decimals(request_ids@.take(i as int)), ", "@),
                items_view(items@) == request_ids@.take(i as int).map_values(
                    |id: i64| ParamItemView { id: decimal(id as int), uuid: None },
                ),
            decreases request_ids.len() - i,
        {
            let n = i64_to_string(request_ids[i]);
            proof {
                let d = decimals(request_ids@.take(i + 1));
                assert(d =~= decimals(request_ids@.take(i as int)).push(decimal(request_ids@[i as int] as int)));
                assert(d.drop_last() =~= decimals(request_ids@.take(i as int)));
            }
            if i > 0 {
                s.append(", ");
            }
            s.append(n.as_str());
            let ghost before = items@;
            items.push(ParamItem::from_id(request_ids[i]));
            proof {
                assert(items_view(items@) =~= items_view(before).push(
                    ParamItemView { id: decimal(request_ids@[i as int] as int), uuid: None },
                ));
                assert(request_ids@.take(i + 1).map_values(|id: i64| ParamItemView { id: decimal(id as int), uuid: None })
                    =~= request_ids@.take(i as int).map_values(
                    |id: i64| ParamItemView { id: decimal(id as int), uuid: None },
                ).push(ParamItemView { id: decimal(request_ids@[i as int] as int), uuid: None }));
            }
            i += 1;
        }
        proof {
            lemma_take_all(request_ids@);
        }
        Message::info(concat3("Для ЗЦИ ", s.as_str(), " ТКП не найдено")).with_param_items(items)
    }
}

/// The uuids of the request positions of all positions of the proposals, in order.
pub open spec fn flat_uuids(ds: Seq<ProposalDetailData>) -> Seq<Option<u128>>
    decreases ds.len(),
{
    if ds.len() == 0 {
        Seq::empty()
    } else {
        flat_uuids(ds.drop_last()) + ds.last().items@.map_values(|it: ProposalItem| Some(it.request_item_uuid))
    }
}

/// The place of the first position of proposal `i` among all positions.
pub open spec fn offset_of(ds: Seq<ProposalDetailData>, i: int) -> int {
    flat_uuids(ds.take(i)).len() as int
}

/// The positions of the first `j` proposals come first among all positions.
pub proof fn lemma_flat_prefix(ds: Seq<ProposalDetailData>, j: int)
    requires
        0 <= j <= ds.len(),
    ensures
        flat_uuids(ds.take(j)).len() <= flat_uuids(ds).len(),
        forall|x: int| 0 <= x < flat_uuids(ds.take(j)).len() ==> #[trigger] flat_uuids(ds)[x] == flat_uuids(ds.take(j))[x],
    decreases ds.len(),
{
    if j == ds.len() {
        assert(ds.take(j) =~= ds);
    } else {
        lemma_flat_prefix(ds.drop_last(), j);
        assert(ds.drop_last().take(j) =~= ds.take(j));
    }
}

/// A position of a received proposal with the request position it shows,
/// if any (by its place among the positions read).
pub struct TcpPosition {
    pub item: ProposalItem,
    pub request_item: Option<usize>,
}

/// A received proposal with its organization, its request and its positions.
pub struct TcpRow {
    pub proposal_header: ProposalHeader,
    pub partner: RequestPartner,
    pub request_header: RequestHeader,
    pub position_list: Vec<TcpPosition>,
}

/// The received proposals with their positions; each request position
/// read is shown with the first position (over all proposals, in order)
/// that refers to it, the others show none.
#[verifier::loop_isolation(false)]
pub fn tcp_rows(details: Vec<ProposalDetailData>, request_item_uuids: &Vec<u128>) -> (r: Vec<TcpRow>)
    ensures
        r@.len() == details@.len(),
        forall|i: int|
            0 <= i < r@.len() ==> {
                &&& (#[trigger] r@[i]).proposal_header == details@[i].proposal_header
                &&& r@[i].partner == details@[i].partner
                &&& r@[i].request_header == details@[i].request_header
                &&& r@[i].position_list@.len() == details@[i].items@.len()
                &&& forall|k: int|
                    0 <= k < details@[i].items@.len() ==> (#[trigger] r@[i].position_list@[k]).item == details@[i].items@[k]
                        && claimed_at(
                        r@[i].position_list@[k].request_item,
                        flat_uuids(details@),
                        request_item_uuids@,
                        offset_of(details@, i) + k,
                    )
            },
{
    let ghost ds = details@;
    let mut w: Vec<Option<u128>> = Vec::new();
    let mut i: usize = 0;
    while i < details.len()
        invariant
            i <= ds.len(),
            ds == details@,
            w@ == flat_uuids(ds.take(i as int)),
        decreases details.len() - i,
    {
        let d = &details[i];
        let ghost w0 = w@;
        let mut k: usize = 0;
        while k < d.items.len()
            invariant
                k <= d.items@.len(),
                w@ == w0 + d.items@.take(k as int).map_values(|it: ProposalItem| Some(it.request_item_uuid)),
            decreases d.items.len() - k,
        {
            w.push(Some(d.items[k].request_item_uuid));
            proof {
                assert(d.items@.take(k + 1).map_values(|it: ProposalItem| Some(it.request_item_uuid)) =~= d.items@.take(
                    k as int,
                ).map_values(|it: ProposalItem| Some(it.request_item_uuid)).push(Some(d.items@[k as int].request_item_uuid)));
            }
            k += 1;
        }
        proof {
            assert(ds.take(i + 1).drop_last() =~= ds.take(i as int));
            assert(d.items@.take(d.items@.len() as int) =~= d.items@);
        }
        i += 1;
    }
    proof {
        assert(ds.take(ds.len() as int) =~= ds);
    }
    let (claims, _) = claim_records(&w, request_item_uuids);
    let n_claims = claims.len();
    let mut rows: Vec<TcpRow> = Vec::new();
    let mut f: usize = 0;
    for d in it: details.into_iter()
        invariant
            it.seq() == ds,
            rows@.len() == it.index(),
            f as int == offset_of(ds, it.index() as int),
            claims@.len() == flat_uuids(ds).len(),
            claims@.len() == n_claims,
            forall|i: int|
                0 <= i < it.index() ==> {
                    &&& (#[trigger] rows@[i]).proposal_header == ds[i].proposal_header
                    &&& rows@[i].partner == ds[i].partner
                    &&& rows@[i].request_header == ds[i].request_header
                    &&& rows@[i].position_list@.len() == ds[i].items@.len()
                    &&& forall|k: int|
                        0 <= k < ds[i].items@.len() ==> (#[trigger] rows@[i].position_list@[k]).item == ds[i].items@[k]
                            && claimed_at(
                            rows@[i].position_list@[k].request_item,
                            flat_uuids(ds),
                            request_item_uuids@,
                            offset_of(ds, i) + k,
                        )
                },
    {
        let ghost idx = it.index() as int;
        proof {
            assert(d == ds[idx]);
            lemma_flat_prefix(ds, idx + 1);
            assert(ds.take(idx + 1).drop_last() =~= ds.take(idx));
            assert(ds.take(idx + 1).last() == ds[idx]);
        }
        let ProposalDetailData { proposal_header, items, partner, request_header } = d;
        let ghost its = items@;
        let n_items = items.len();
        let mut positions: Vec<TcpPosition> = Vec::new();
        let mut k: usize = 0;
        for item in it2: items.into_iter()
            invariant
                it2.seq() == its,
                its.len() == n_items,
                its == ds[idx].items@,
                f as int == offset_of(ds, idx),
                f + its.len() <= flat_uuids(ds).len(),
                positions@.len() == it2.index(),
                k == it2.index(),
                forall|q: int|
                    0 <= q < it2.index() ==> (#[trigger] positions@[q]).item == its[q] && claimed_at(
                        positions@[q].request_item,
                        flat_uuids(ds),
                        request_item_uuids@,
                        offset_of(ds, idx) + q,
                    ),
        {
            proof {
                assert(flat_uuids(ds.take(idx + 1)) == flat_uuids(ds.take(idx)) + its.map_values(
                    |it: ProposalItem| Some(it.request_item_uuid),
                ));
            }
            proof {
                assert(k < its.len());
                assert(f + k < n_claims);
                assert(flat_uuids(ds.take(idx + 1))[f + k] == Some(its[k as int].request_item_uuid));
            }
            let c = claims[f + k];
            positions.push(TcpPosition { item, request_item: c });
            k += 1;
        }
        proof {
            assert(flat_uuids(ds.take(idx + 1)).len() == f + its.len());
        }
        f = f + k;
        rows.push(TcpRow { proposal_header, partner, request_header, position_list: positions });
    }
    rows
}

/// A VAT rate of a position; an absent one counts as compound.
pub open spec fn vat_or_compound(v: Option<VatId>) -> VatId {
    match v {
        Some(x) => x,
        None => VatId::Compound,
    }
}

/// The VAT rate of a proposal: the rate of its positions where all have the
/// same, compound otherwise (and for no positions).
pub open spec fn proposal_vat(items: Seq<ProposalItem>) -> VatId {
    if items.len() > 0 && forall|i: int| 0 <= i < items.len() ==> vat_or_compound((#[trigger] items[i]).vat_id)
        == vat_or_compound(items[0].vat_id) {
        vat_or_compound(items[0].vat_id)
    } else {
        VatId::Compound
    }
}

/// The sum including VAT of the positions (an absent sum counts as 0).
pub open spec fn total_included_vat(items: Seq<ProposalItem>) -> int
    decreases items.len(),
{
    if items.len() == 0 {
        0
    } else {
        total_included_vat(items.drop_last()) + match items.last().sum_included_vat {
            Some(x) => x as int,
            None => 0,
        }
    }
}

/// A proposal that counts in the price analysis, with its sums.
#[derive(Clone, Copy, Debug, PartialEq, Eq, Structural)]
pub struct ProposalPricingItem {
    pub uuid: u128,
    pub id: i64,
    pub supplier_id: i32,
    pub supplier_vat_id: VatId,
    pub result_id: Option<ReviewResult>,
    /// From the proposal's header (0 when absent).
    pub sum_excluded_vat: i64,
    /// Over the proposal's positions.
    pub sum_included_vat: i128,
}

/// The row of a proposal for the price analysis.
pub open spec fn pricing_item_of(d: ProposalDetailData, r: ProposalPricingItem) -> bool {
    &&& r.uuid == d.proposal_header.uuid
    &&& r.id == d.proposal_header.id
    &&& r.supplier_id == d.partner.supplier_id
    &&& r.supplier_vat_id == proposal_vat(d.items@)
    &&& r.result_id == d.proposal_header.result_id
    &&& r.sum_excluded_vat == match d.proposal_header.sum_excluded_vat_total {
        Some(x) => x,
        None => 0,
    }
    &&& r.sum_included_vat == total_included_vat(d.items@)
}

/// The VAT rate of a proposal, as `proposal_vat` states it.
fn vat_of_items(items: &Vec<ProposalItem>) -> (v: VatId)
    ensures
        v == proposal_vat(items@),
{
    if items.len() == 0 {
        return VatId::Compound;
    }
    let first = match items[0].vat_id {
        Some(x) => x,
        None => VatId::Compound,
    };
    let mut i: usize = 1;
    while i < items.len()
        invariant
            1 <= i <= items@.len(),
            first == vat_or_compound(items@[0].vat_id),
            forall|k: int| 0 <= k < i ==> vat_or_compound((#[trigger] items@[k]).vat_id) == first,
        decreases items.len() - i,
    {
        let v = match items[i].vat_id {
            Some(x) => x,
            None => VatId::Compound,
        };
        if v != first {
            proof {
                assert(vat_or_compound(items@[i as int].vat_id) != vat_or_compound(items@[0].vat_id));
            }
            return VatId::Compound;
        }
        i += 1;
    }
    first
}

/// The sum including VAT of the positions.
fn included_vat_of_items(items: &Vec<ProposalItem>) -> (s: i128)
    ensures
        s == total_included_vat(items@),
{
    let mut s: i128 = 0;
    let mut i: usize = 0;
    while i < items.len()
        invariant
            i <= items@.len(),
            s == total_included_vat(items@.take(i as int)),
            -(i as int) * 0x8000_0000_0000_0000 <= s <= (i as int) * 0x8000_0000_0000_0000,
        decreases items.len() - i,
    {
        proof {
            assert(items@.take(i + 1).drop_last() =~= items@.take(i as int));
            assert((i + 1) * 0x8000_0000_0000_0000 <= 0x1_0000_0000_0000_0000 * 0x8000_0000_0000_0000) by (nonlinear_arith)
                requires
                    i < 0x1_0000_0000_0000_0000,
            ;
        }
        let v: i128 = match items[i].sum_included_vat {
            Some(x) => x as i128,
            None => 0,
        };
        s = s + v;
        i += 1;
    }
    proof {
        lemma_take_all(items@);
    }
    s
}

/// The proposals that count in the price analysis of a plan, each with its
/// VAT rate and sums.
pub fn pricing_items(proposals: &Vec<ProposalDetailData>) -> (r: Vec<ProposalPricingItem>)
    ensures
        r@.len() == proposals@.len(),
        forall|i: int| 0 <= i < r@.len() ==> pricing_item_of(proposals@[i], #[trigger] r@[i]),
{
    let mut r: Vec<ProposalPricingItem> = Vec::new();
    let mut i: usize = 0;
    while i < proposals.len()
        invariant
            i <= proposals@.len(),
            r@.len() == i,
            forall|k: int| 0 <= k < i ==> pricing_item_of(proposals@[k], #[trigger] r@[k]),
        decreases proposals.len() - i,
    {
        let d = &proposals[i];
        let h = d.proposal_header;
        let sum_excluded_vat = match h.sum_excluded_vat_total {
            Some(x) => x,
            None => 0,
        };
        r.push(
            ProposalPricingItem {
                uuid: h.uuid,
                id: h.id,
                supplier_id: d.partner.supplier_id,
                supplier_vat_id: vat_of_items(&d.items),
                result_id: h.result_id,
                sum_excluded_vat,
                sum_included_vat: included_vat_of_items(&d.items),
            },
        );
        i += 1;
    }
    r
}

/// A position of a proposal with its plan position, as read.
#[derive(Clone, Copy, Debug, PartialEq, Eq, Structural)]
pub struct PricingPositionData {
    pub proposal_item_uuid: u128,
    pub price: Option<i64>,
    pub plan_item_uuid: u128,
}

/// The price of a proposal position for a plan position.
#[derive(Clone, Copy, Debug, PartialEq, Eq, Structural)]
pub struct ProposalItemForPricing {
    pub plan_item_uuid: u128,
    pub proposal_price: i64,
}

/// The positions with a price, for their plan positions.
pub open spec fn priced_positions(ps: Seq<PricingPositionData>) -> Seq<ProposalItemForPricing>
    decreases ps.len(),
{
    if ps.len() == 0 {
        Seq::empty()
    } else {
        let rest = priced_positions(ps.drop_last());
        match ps.last().price {
            Some(p) => rest.push(ProposalItemForPricing { plan_item_uuid: ps.last().plan_item_uuid, proposal_price: p }),
            None => rest,
        }
    }
}

/// The warning that a position of the proposal has no price.
pub open spec fn no_price_message(proposal_item_uuid: u128) -> MessageView {
    plain(MessageKind::Warning, "В выбранном ТКП ("@ + uuid_text(proposal_item_uuid) + ") не указана Цена Организации"@)
}

/// The warnings for the positions without a price.
pub open spec fn no_price_messages(ps: Seq<PricingPositionData>) -> Seq<MessageView>
    decreases ps.len(),
{
    if ps.len() == 0 {
        Seq::empty()
    } else {
        let rest = no_price_messages(ps.drop_last());
        match ps.last().price {
            Some(_) => rest,
            None => rest.push(no_price_message(ps.last().proposal_item_uuid)),
        }
    }
}

/// The prices of a proposal's positions for their plan positions, in
/// order, and a warning for each position without a price.
pub fn items_for_pricing(ps: &Vec<PricingPositionData>) -> (r: (Vec<ProposalItemForPricing>, Messages))
    ensures
        r.0@ == priced_positions(ps@),
        r.1.wf(),
        r.1@.messages == no_price_messages(ps@),
{
    let mut items: Vec<ProposalItemForPricing> = Vec::new();
    let mut messages = Messages::new();
    let mut i: usize = 0;
    while i < ps.len()
        invariant
            i <= ps@.len(),
            items@ == priced_positions(ps@.take(i as int)),
            messages.wf(),
            messages@.messages == no_price_messages(ps@.take(i as int)),
        decreases ps.len() - i,
    {
        proof {
            assert(ps@.take(i + 1).drop_last() =~= ps@.take(i as int));
        }
        let p = ps[i];
        match p.price {
            Some(price) => items.push(ProposalItemForPricing { plan_item_uuid: p.plan_item_uuid, proposal_price: price }),
            None => {
                let u = uuid_to_string(p.proposal_item_uuid);
                messages.add(Message::warn(concat3("В выбранном ТКП (", u.as_str(), ") не указана Цена Организации")));
            },
        }
        i += 1;
    }
    proof {
        lemma_take_all(ps@);
    }
    (items, messages)
}

} // verus!
