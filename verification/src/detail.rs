//! The detail of a price information request ("/get/request_price_info_detail/"):
//! its positions in order, and its organizations with their proposal and
//! the count of their questions and answers.
use vstd::prelude::*;

use crate::model::{ProposalHeader, RequestHeader, RequestItem, RequestPartner};
use crate::publication::{dedupe_partners, first_partners};
use crate::seqs::{lemma_filter_take_step, lemma_take_all};
use crate::sorting::{apply_order, is_stable_order, stable_order};

verus! {

/// A question of an organization about a request.
#[derive(Clone, Copy, Debug, PartialEq, Eq, Structural)]
pub struct OrganizationQuestion {
    pub uuid: u128,
    pub supplier_uuid: u128,
    pub answer_created_at: Option<i64>,
}

/// The questions, each uuid kept once at its first place.
pub open spec fn first_questions(s: Seq<OrganizationQuestion>) -> Seq<OrganizationQuestion>
    decreases s.len(),
{
    if s.len() == 0 {
        s
    } else {
        let r = first_questions(s.drop_last());
        if exists|j: int| 0 <= j < s.len() - 1 && (#[trigger] s[j]).uuid == s.last().uuid {
            r
        } else {
            r.push(s.last())
        }
    }
}

/// Keeps the first question of each uuid, in order.
pub fn dedupe_questions(v: &Vec<OrganizationQuestion>) -> (r: Vec<OrganizationQuestion>)
    ensures
        r@ == first_questions(v@),
{
    let mut r: Vec<OrganizationQuestion> = Vec::new();
    let mut i: usize = 0;
    while i < v.len()
        invariant
            i <= v@.len(),
            r@ == first_questions(v@.take(i as int)),
        decreases v.len() - i,
    {
        let u = v[i].uuid;
        let mut j: usize = 0;
        let mut seen = false;
        while j < i
            invariant
                j <= i < v@.len(),
                seen == exists|k: int| 0 <= k < j && (#[trigger] v@[k]).uuid == u,
                u == v@[i as int].uuid,
            decreases i - j,
        {
            if v[j].uuid == u {
                seen = true;
            }
            j += 1;
        }
        proof {
            let t = v@.take(i + 1);
            assert(t.drop_last() =~= v@.take(i as int));
            assert(t.last() == v@[i as int]);
            assert((exists|k: int| 0 <= k < t.len() - 1 && (#[trigger] t[k]).uuid == t.last().uuid) == seen) by {
                if seen {
                    let k = choose|k: int| 0 <= k < i && (#[trigger] v@[k]).uuid == u;
                    assert(t[k] == v@[k]);
                }
                if exists|k: int| 0 <= k < t.len() - 1 && (#[trigger] t[k]).uuid == t.last().uuid {
                    let k = choose|k: int| 0 <= k < t.len() - 1 && (#[trigger] t[k]).uuid == t.last().uuid;
                    assert(v@[k] == t[k]);
                }
            }
        }
        if !seen {
            r.push(v[i]);
        }
        i += 1;
    }
    proof {
        lemma_take_all(v@);
    }
    r
}

/// The questions of an organization.
pub open spec fn questions_of(qs: Seq<OrganizationQuestion>, supplier_uuid: u128) -> Seq<OrganizationQuestion> {
    qs.filter(|q: OrganizationQuestion| q.supplier_uuid == supplier_uuid)
}

/// The answered questions of an organization.
pub open spec fn answered_of(qs: Seq<OrganizationQuestion>, supplier_uuid: u128) -> Seq<OrganizationQuestion> {
    qs.filter(|q: OrganizationQuestion| q.supplier_uuid == supplier_uuid && q.answer_created_at is Some)
}

/// The number of questions of an organization and of those answered.
#[verifier::loop_isolation(false)]
pub fn question_counts(qs: &Vec<OrganizationQuestion>, supplier_uuid: u128) -> (r: (usize, usize))
    ensures
        r.0 as int == questions_of(qs@, supplier_uuid).len(),
        r.1 as int == answered_of(qs@, supplier_uuid).len(),
{
    let ghost p1 = |q: OrganizationQuestion| q.supplier_uuid == supplier_uuid;
    let ghost p2 = |q: OrganizationQuestion| q.supplier_uuid == supplier_uuid && q.answer_created_at is Some;
    let mut q: usize = 0;
    let mut a: usize = 0;
    let mut i: usize = 0;
    while i < qs.len()
        invariant
            i <= qs@.len(),
            q as int == qs@.take(i as int).filter(p1).len(),
            a as int == qs@.take(i as int).filter(p2).len(),
            0 <= a <= i,
            0 <= q <= i,
        decreases qs.len() - i,
    {
        proof {
            lemma_filter_take_step(qs@, i as int, p1);
            lemma_filter_take_step(qs@, i as int, p2);
            qs@.take(i as int).lemma_filter_len(p1);
            qs@.take(i as int).lemma_filter_len(p2);
        }
        if qs[i].supplier_uuid == supplier_uuid {
            q = q + 1;
            if qs[i].answer_created_at.is_some() {
                a = a + 1;
            }
        }
        i += 1;
    }
    proof {
        lemma_take_all(qs@);
    }
    (q, a)
}

/// The proposal of an organization that the lookup finds: the last one.
pub open spec fn last_proposal(ps: Seq<ProposalHeader>, supplier_uuid: u128) -> Option<ProposalHeader>
    decreases ps.len(),
{
    if ps.len() == 0 {
        None
    } else if ps.last().supplier_uuid == supplier_uuid {
        Some(ps.last())
    } else {
        last_proposal(ps.drop_last(), supplier_uuid)
    }
}

/// The proposal of an organization, as `last_proposal` states it.
pub fn find_proposal(ps: &Vec<ProposalHeader>, supplier_uuid: u128) -> (r: Option<ProposalHeader>)
    ensures
        r == last_proposal(ps@, supplier_uuid),
{
    let mut i = ps.len();
    proof {
        lemma_take_all(ps@);
    }
    while i > 0
        invariant
            i <= ps@.len(),
            last_proposal(ps@, supplier_uuid) == last_proposal(ps@.take(i as int), supplier_uuid),
        decreases i,
    {
        proof {
            assert(ps@.take(i as int).drop_last() =~= ps@.take(i - 1));
        }
        if ps[i - 1].supplier_uuid == supplier_uuid {
            return Some(ps[i - 1]);
        }
        i = i - 1;
    }
    None
}

/// An organization of the detail with its proposal and its questions.
pub struct PartnerDetail {
    pub partner: RequestPartner,
    pub proposal: Option<ProposalHeader>,
    /// Number of questions and of answered questions.
    pub question_answer: (usize, usize),
}

/// The request with everything the detail shows, as read.
pub struct JoinedPriceInformationInfoDetail {
    pub header: RequestHeader,
    pub items: Vec<RequestItem>,
    pub suppliers: Vec<RequestPartner>,
    pub proposal_headers: Vec<ProposalHeader>,
    pub organization_questions: Vec<OrganizationQuestion>,
}

/// The detail of a request.
pub struct PriceInformationDetail {
    pub request_header: RequestHeader,
    pub item_list: Vec<RequestItem>,
    pub partner_list: Vec<PartnerDetail>,
}

/// The numbers of the positions, as sort keys.
pub open spec fn item_numbers(items: Seq<RequestItem>) -> Seq<i64> {
    items.map_values(|i: RequestItem| i.number as i64)
}

/// The numbers of the positions, as sort keys.
fn item_number_keys(items: &Vec<RequestItem>) -> (r: Vec<i64>)
    ensures
        r@ == item_numbers(items@),
{
    let mut r: Vec<i64> = Vec::new();
    let mut i: usize = 0;
    while i < items.len()
        invariant
            i <= items@.len(),
            r@ == items@.take(i as int).map_values(|x: RequestItem| x.number as i64),
        decreases items.len() - i,
    {
        proof {
            crate::seqs::lemma_map_take_step(items@, i as int, |x: RequestItem| x.number as i64);
        }
        r.push(items[i].number as i64);
        i += 1;
    }
    proof {
        lemma_take_all(items@);
    }
    r
}

/// The organization row of the detail.
pub open spec fn partner_detail_of(
    p: RequestPartner,
    proposals: Seq<ProposalHeader>,
    questions: Seq<OrganizationQuestion>,
    d: PartnerDetail,
) -> bool {
    &&& d.partner == p
    &&& d.proposal == last_proposal(proposals, p.uuid)
    &&& d.question_answer.0 as int == questions_of(first_questions(questions), p.uuid).len()
    &&& d.question_answer.1 as int == answered_of(first_questions(questions), p.uuid).len()
}

/// The detail of a request: its header; its positions stably ordered by
/// number; each organization (first record of each uuid) with its proposal
/// and the counts of its questions (each uuid once) and answers.
pub fn price_information_detail(joined: JoinedPriceInformationInfoDetail) -> (d: PriceInformationDetail)
    ensures
        d.request_header == joined.header,
        exists|order: Seq<usize>| #[trigger] is_stable_order(item_numbers(joined.items@), order)
            && d.item_list@.len() == order.len()
            && forall|i: int| 0 <= i < order.len() ==> #[trigger] d.item_list@[i] == joined.items@[order[i] as int],
        d.partner_list@.len() == first_partners(joined.suppliers@).len(),
        forall|i: int| 0 <= i < d.partner_list@.len() ==> partner_detail_of(
            first_partners(joined.suppliers@)[i],
            joined.proposal_headers@,
            joined.organization_questions@,
            #[trigger] d.partner_list@[i],
        ),
{
    let JoinedPriceInformationInfoDetail { header, items, suppliers, proposal_headers, organization_questions } = joined;
    let keys = item_number_keys(&items);
    let order = stable_order(&keys);
    let ghost its = items@;
    let item_list = apply_order(items, &order);
    proof {
        assert(is_stable_order(item_numbers(its), order@));
    }
    let questions = dedupe_questions(&organization_questions);
    let partners = dedupe_partners(&suppliers);
    let mut partner_list: Vec<PartnerDetail> = Vec::new();
    let mut i: usize = 0;
    while i < partners.len()
        invariant
            i <= partners@.len(),
            partners@ == first_partners(suppliers@),
            questions@ == first_questions(organization_questions@),
            partner_list@.len() == i,
            forall|k: int| 0 <= k < i ==> partner_detail_of(
                partners@[k],
                proposal_headers@,
                organization_questions@,
                #[trigger] partner_list@[k],
            ),
        decreases partners.len() - i,
    {
        let p = partners[i];
        let proposal = find_proposal(&proposal_headers, p.uuid);
        let qa = question_counts(&questions, p.uuid);
        partner_list.push(PartnerDetail { partner: p, proposal, question_answer: qa });
        i += 1;
    }
    PriceInformationDetail { request_header: header, item_list, partner_list }
}

} // verus!

verus! {

/// The request read for a detail by its number: the last one read; there
/// is none for an unknown number.
pub fn details_by_id(mut found: Vec<JoinedPriceInformationInfoDetail>, id: i64) -> (r: Result<
    JoinedPriceInformationInfoDetail,
    crate::model::TcpError,
>)
    ensures
        found@.len() > 0 <==> r is Ok,
        r matches Ok(d) ==> d == found@.last(),
        r matches Err(e) ==> e matches crate::model::TcpError::RecordNotFound(i, table) && i@ == crate::text::decimal(
            id as int,
        ) && table@ == "request_head"@,
{
    match found.pop() {
        Some(d) => Ok(d),
        None => Err(
            crate::model::TcpError::RecordNotFound(crate::text::i64_to_string(id), crate::text::owned("request_head")),
        ),
    }
}

/// The request read for a detail by its uuid: the last one read; there is
/// none for an unknown uuid.
pub fn details_by_uuid(mut found: Vec<JoinedPriceInformationInfoDetail>, uuid: u128) -> (r: Result<
    JoinedPriceInformationInfoDetail,
    crate::model::TcpError,
>)
    ensures
        found@.len() > 0 <==> r is Ok,
        r matches Ok(d) ==> d == found@.last(),
        r matches Err(e) ==> e matches crate::model::TcpError::RecordNotFound(i, table) && i@ == crate::outside::uuid_text(
            uuid,
        ) && table@ == "request_head"@,
{
    match found.pop() {
        Some(d) => Ok(d),
        None => Err(
            crate::model::TcpError::RecordNotFound(crate::outside::uuid_to_string(uuid), crate::text::owned("request_head")),
        ),
    }
}

/// The request read for an export: the last one read; an export of
/// nothing is an error.
pub fn details_for_export(mut found: Vec<JoinedPriceInformationInfoDetail>) -> (r: Result<
    JoinedPriceInformationInfoDetail,
    crate::model::TcpError,
>)
    ensures
        found@.len() > 0 <==> r is Ok,
        r matches Ok(d) ==> d == found@.last(),
        r matches Err(e) ==> e matches crate::model::TcpError::Export(t) && t@
            == "Записи для детальной информации ЗЦИ не найдены"@,
{
    match found.pop() {
        Some(d) => Ok(d),
        None => Err(crate::model::TcpError::Export(crate::text::owned("Записи для детальной информации ЗЦИ не найдены"))),
    }
}

} // verus!

verus! {

/// The request whose detail is asked for, by its number.
#[derive(Clone, Copy, Debug, PartialEq, Eq, Structural)]
pub struct GetRequestPriceInfoDetail {
    pub id: i64,
}

} // verus!
