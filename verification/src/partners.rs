//! The checks before adding or removing organizations of a request
//! ("/check/add_partner/", "/check/delete_partner/").
use vstd::prelude::*;

use crate::messages::{items_view, plain, Message, MessageKind, MessageView, Messages, ParamItem, ParamItemView};
use crate::model::{ProposalHeader, ProposalStatus, RequestPartner, RequestStatus, RequestWithPartners};
use crate::outside::{
    id_set_contains, id_set_contents, id_set_from, proposal_map_contents, proposal_map_get, proposal_map_insert,
    proposal_map_new,
};
use crate::seqs::{lemma_filter_take_step, lemma_map_take_step, lemma_take_all};
use crate::text::{decimal, i32_to_string, owned};

verus! {

/// An organization named in a check, by its supplier id.
#[derive(Clone, Copy, Debug, PartialEq, Eq, Structural)]
pub struct SupplierId {
    pub supplier_id: i32,
}

/// A check of organizations for a request.
pub struct CheckPartnerReq {
    pub id: i64,
    pub uuid: u128,
    pub item_list: Vec<SupplierId>,
}

/// The answer for one organization: whether the action is allowed.
#[derive(Clone, Copy, Debug, PartialEq, Eq, Structural)]
pub struct CheckPartnerItem {
    pub supplier_id: i32,
    pub is_allowed: bool,
}

/// The parameter of an answer item: its supplier id.
pub open spec fn check_item_param(c: CheckPartnerItem) -> ParamItemView {
    ParamItemView { id: decimal(c.supplier_id as int), uuid: None }
}

/// The parameters of answer items.
pub open spec fn check_item_params(v: Seq<CheckPartnerItem>) -> Seq<ParamItemView> {
    v.map_values(|c: CheckPartnerItem| check_item_param(c))
}

/// The parameter that names an organization of an answer.
pub fn param_of_check_item(c: &CheckPartnerItem) -> (p: ParamItem)
    ensures
        p@ == check_item_param(*c),
{
    ParamItem { id: i32_to_string(c.supplier_id), uuid: None }
}

/// The parameters of answer items.
pub fn params_of_check_items(v: &Vec<CheckPartnerItem>) -> (r: Vec<ParamItem>)
    ensures
        items_view(r@) == check_item_params(v@),
{
    let mut r: Vec<ParamItem> = Vec::new();
    let mut i: usize = 0;
    while i < v.len()
        invariant
            i <= v@.len(),
            items_view(r@) == check_item_params(v@.take(i as int)),
        decreases v.len() - i,
    {
        let ghost before = r@;
        r.push(param_of_check_item(&v[i]));
        proof {
            lemma_map_take_step(v@, i as int, |c: CheckPartnerItem| check_item_param(c));
            assert(items_view(r@) =~= items_view(before).push(check_item_param(v@[i as int])));
        }
        i += 1;
    }
    proof {
        lemma_take_all(v@);
    }
    r
}

/// A message with a text and the organizations it refers to.
pub open spec fn partners_message(kind: MessageKind, text: Seq<char>, partners: Seq<CheckPartnerItem>) -> MessageView {
    MessageView { item_list: check_item_params(partners), ..plain(kind, text) }
}

pub open spec fn published_etp_text() -> Seq<char> {
    "Информация опубликована на ЭТП ГПБ. Удаление невозможно"@
}

pub open spec fn tcp_exist_text() -> Seq<char> {
    "Удаление организации невозможно. Имеется подтвержденное ТКП"@
}

pub open spec fn deleted_success_text() -> Seq<char> {
    "Выбранные записи удалены"@
}

pub open spec fn deletion_prohibited_text() -> Seq<char> {
    "Удаление организации невозможно. Статус ЗЦИ не равен одному из статусов: 70, 90, 100, 150"@
}

/// The messages of the check before removing organizations.
pub struct DeletePartnerMessage;

impl DeletePartnerMessage {
    /// The organizations were published on the trading platform.
    pub fn is_published_etp_error(partners: &Vec<CheckPartnerItem>) -> (m: Message)
        ensures
            m@ == partners_message(MessageKind::Error, published_etp_text(), partners@),
    {
        Message::error(owned("Информация опубликована на ЭТП ГПБ. Удаление невозможно")).with_param_items(
            params_of_check_items(partners),
        )
    }

    /// The organizations have a received proposal.
    pub fn is_tcp_exist_error(partners: &Vec<CheckPartnerItem>) -> (m: Message)
        ensures
            m@ == partners_message(MessageKind::Error, tcp_exist_text(), partners@),
    {
        Message::error(owned("Удаление организации невозможно. Имеется подтвержденное ТКП")).with_param_items(
            params_of_check_items(partners),
        )
    }

    /// The organizations were removed.
    pub fn is_deleted_success(partners: &Vec<CheckPartnerItem>) -> (m: Message)
        ensures
            m@ == partners_message(MessageKind::Success, deleted_success_text(), partners@),
    {
        Message::success(owned("Выбранные записи удалены")).with_param_items(params_of_check_items(partners))
    }

    /// The status of the request does not allow removing organizations.
    pub fn is_deletion_prohibited(partners: &Vec<CheckPartnerItem>) -> (m: Message)
        ensures
            m@ == partners_message(MessageKind::Error, deletion_prohibited_text(), partners@),
    {
        Message::error(owned(
            "Удаление организации невозможно. Статус ЗЦИ не равен одному из статусов: 70, 90, 100, 150",
        )).with_param_items(params_of_check_items(partners))
    }
}

/// Answer items for supplier ids, all allowed or all refused.
pub open spec fn supplier_items(s: Seq<SupplierId>, is_allowed: bool) -> Seq<CheckPartnerItem> {
    s.map_values(|x: SupplierId| CheckPartnerItem { supplier_id: x.supplier_id, is_allowed })
}

/// Answer items for organizations, all allowed or all refused.
pub open spec fn partner_items(p: Seq<RequestPartner>, is_allowed: bool) -> Seq<CheckPartnerItem> {
    p.map_values(|x: RequestPartner| CheckPartnerItem { supplier_id: x.supplier_id, is_allowed })
}

/// The answer items for the supplier ids of the check.
pub fn convert_suppliers_to_response_items(suppliers: &Vec<SupplierId>, is_allowed: bool) -> (r: Vec<CheckPartnerItem>)
    ensures
        r@ == supplier_items(suppliers@, is_allowed),
{
    let mut r: Vec<CheckPartnerItem> = Vec::new();
    let mut i: usize = 0;
    while i < suppliers.len()
        invariant
            i <= suppliers@.len(),
            r@ == supplier_items(suppliers@.take(i as int), is_allowed),
        decreases suppliers.len() - i,
    {
        proof {
            lemma_map_take_step(suppliers@, i as int, |x: SupplierId| CheckPartnerItem { supplier_id: x.supplier_id, is_allowed });
        }
        r.push(CheckPartnerItem { supplier_id: suppliers[i].supplier_id, is_allowed });
        i += 1;
    }
    proof {
        lemma_take_all(suppliers@);
    }
    r
}

/// The answer items for organizations of the request.
pub fn convert_request_partners_to_response_items(
    partners: &Vec<RequestPartner>,
    is_allowed: bool,
) -> (r: Vec<CheckPartnerItem>)
    ensures
        r@ == partner_items(partners@, is_allowed),
{
    let mut r: Vec<CheckPartnerItem> = Vec::new();
    let mut i: usize = 0;
    while i < partners.len()
        invariant
            i <= partners@.len(),
            r@ == partner_items(partners@.take(i as int), is_allowed),
        decreases partners.len() - i,
    {
        proof {
            lemma_map_take_step(partners@, i as int, |x: RequestPartner| CheckPartnerItem { supplier_id: x.supplier_id, is_allowed });
        }
        r.push(CheckPartnerItem { supplier_id: partners[i].supplier_id, is_allowed });
        i += 1;
    }
    proof {
        lemma_take_all(partners@);
    }
    r
}

} // verus!

verus! {

/// Organizations of a request in status 90 or 150 are checked one by one
/// before removing; in status 70 or 100 they are removed at once.
pub open spec fn accepting_tcps(r: RequestWithPartners) -> bool {
    r.header.status_id == RequestStatus::AcceptingIncomingTCPs || r.header.status_id
        == RequestStatus::ErrorPublishingChanges
}

/// The supplier ids of the check.
pub open spec fn requested_ids(s: Seq<SupplierId>) -> Seq<i32> {
    s.map_values(|x: SupplierId| x.supplier_id)
}

/// The supplier ids of organizations.
pub open spec fn partner_ids(p: Seq<RequestPartner>) -> Seq<i32> {
    p.map_values(|x: RequestPartner| x.supplier_id)
}

/// The organization marked as removed.
pub open spec fn removed(p: RequestPartner) -> RequestPartner {
    RequestPartner { is_removed: true, ..p }
}

/// What the check before removing organizations decided before looking at
/// proposals.
pub enum DeletePartnerPlan {
    /// The request is a draft or its transfer failed (status 70 or 100):
    /// its named organizations are removed at once, all are allowed.
    RemoveAll { removed: Vec<RequestPartner>, items: Vec<CheckPartnerItem>, messages: Messages },
    /// No request in status 70, 90, 100 or 150: nothing may be removed.
    Prohibited { items: Vec<CheckPartnerItem>, messages: Messages },
    /// The request accepts proposals (status 90 or 150): organizations added
    /// only on the page are allowed, published ones refused; the rest are
    /// decided by their proposals.
    Review { items: Vec<CheckPartnerItem>, messages: Messages, not_public: Vec<RequestPartner> },
}

/// The plan of the check before removing organizations, as a statement.
pub open spec fn delete_partner_plan_spec(
    req: Seq<SupplierId>,
    requests: Seq<RequestWithPartners>,
    plan: DeletePartnerPlan,
) -> bool {
    let drafts = requests.filter(|r: RequestWithPartners| !accepting_tcps(r));
    let accepting = requests.filter(|r: RequestWithPartners| accepting_tcps(r));
    if drafts.len() > 0 {
        let r = drafts.last();
        plan matches DeletePartnerPlan::RemoveAll { removed: rm, items, messages } && {
            &&& rm@ == r.suppliers@.filter(|p: RequestPartner| requested_ids(req).contains(p.supplier_id)).map_values(
                |p: RequestPartner| removed(p),
            )
            &&& items@ == supplier_items(req, true)
            &&& messages.wf()
            &&& messages@.messages == seq![partners_message(MessageKind::Success, deleted_success_text(), items@)]
        }
    } else if accepting.len() > 0 {
        let r = accepting.last();
        let public = r.suppliers@.filter(|p: RequestPartner| p.is_public);
        let front = req.filter(|s: SupplierId| !partner_ids(r.suppliers@).contains(s.supplier_id));
        plan matches DeletePartnerPlan::Review { items, messages, not_public } && {
            &&& not_public@ == r.suppliers@.filter(|p: RequestPartner| !p.is_public)
            &&& items@ == supplier_items(front, true) + partner_items(public, false)
            &&& messages.wf()
            &&& messages@.messages == (if front.len() > 0 {
                seq![partners_message(MessageKind::Success, deleted_success_text(), supplier_items(front, true))]
            } else {
                Seq::empty()
            }) + (if public.len() > 0 {
                seq![partners_message(MessageKind::Error, published_etp_text(), partner_items(public, false))]
            } else {
                Seq::empty()
            })
        }
    } else {
        plan matches DeletePartnerPlan::Prohibited { items, messages } && {
            &&& items@ == supplier_items(req, false)
            &&& messages.wf()
            &&& messages@.messages == seq![partners_message(MessageKind::Error, deletion_prohibited_text(), items@)]
        }
    }
}

/// The supplier ids of the check.
fn requested_id_vec(req: &Vec<SupplierId>) -> (r: Vec<i32>)
    ensures
        r@ == requested_ids(req@),
{
    let mut r: Vec<i32> = Vec::new();
    let mut i: usize = 0;
    while i < req.len()
        invariant
            i <= req@.len(),
            r@ == requested_ids(req@.take(i as int)),
        decreases req.len() - i,
    {
        proof {
            lemma_map_take_step(req@, i as int, |x: SupplierId| x.supplier_id);
        }
        r.push(req[i].supplier_id);
        i += 1;
    }
    proof {
        lemma_take_all(req@);
    }
    r
}

/// The supplier ids of organizations.
fn partner_id_vec(p: &Vec<RequestPartner>) -> (r: Vec<i32>)
    ensures
        r@ == partner_ids(p@),
{
    let mut r: Vec<i32> = Vec::new();
    let mut i: usize = 0;
    while i < p.len()
        invariant
            i <= p@.len(),
            r@ == partner_ids(p@.take(i as int)),
        decreases p.len() - i,
    {
        proof {
            lemma_map_take_step(p@, i as int, |x: RequestPartner| x.supplier_id);
        }
        r.push(p[i].supplier_id);
        i += 1;
    }
    proof {
        lemma_take_all(p@);
    }
    r
}

/// Splits requests into drafts (70, 100) and requests accepting proposals (90, 150).
#[verifier::loop_isolation(false)]
fn split_by_status(requests: Vec<RequestWithPartners>) -> (res: (Vec<RequestWithPartners>, Vec<RequestWithPartners>))
    ensures
        res.0@ == requests@.filter(|r: RequestWithPartners| !accepting_tcps(r)),
        res.1@ == requests@.filter(|r: RequestWithPartners| accepting_tcps(r)),
{
    let ghost rs = requests@;
    let ghost no = |r: RequestWithPartners| !accepting_tcps(r);
    let ghost yes = |r: RequestWithPartners| accepting_tcps(r);
    let mut drafts: Vec<RequestWithPartners> = Vec::new();
    let mut accepting: Vec<RequestWithPartners> = Vec::new();
    for r in it: requests.into_iter()
        invariant
            it.seq() == rs,
            drafts@ == rs.take(it.index() as int).filter(no),
            accepting@ == rs.take(it.index() as int).filter(yes),
    {
        proof {
            assert(r == rs[it.index() as int]);
            lemma_filter_take_step(rs, it.index() as int, no);
            lemma_filter_take_step(rs, it.index() as int, yes);
        }
        if r.header.status_id == RequestStatus::AcceptingIncomingTCPs || r.header.status_id
            == RequestStatus::ErrorPublishingChanges {
            accepting.push(r);
        } else {
            drafts.push(r);
        }
    }
    proof {
        lemma_take_all(rs);
    }
    (drafts, accepting)
}

/// The named organizations of a request in status 70 or 100, marked removed.
#[verifier::loop_isolation(false)]
fn remove_named(suppliers: &Vec<RequestPartner>, req: &Vec<SupplierId>) -> (r: Vec<RequestPartner>)
    ensures
        r@ == suppliers@.filter(|p: RequestPartner| requested_ids(req@).contains(p.supplier_id)).map_values(
            |p: RequestPartner| removed(p),
        ),
{
    let ids = requested_id_vec(req);
    let set = id_set_from(&ids);
    let ghost pred = |p: RequestPartner| requested_ids(req@).contains(p.supplier_id);
    let ghost f = |p: RequestPartner| removed(p);
    let mut r: Vec<RequestPartner> = Vec::new();
    let mut i: usize = 0;
    while i < suppliers.len()
        invariant
            i <= suppliers@.len(),
            r@ == suppliers@.take(i as int).filter(pred).map_values(f),
        decreases suppliers.len() - i,
    {
        proof {
            lemma_filter_take_step(suppliers@, i as int, pred);
            let fs = suppliers@.take(i as int).filter(pred);
            assert(fs.push(suppliers@[i as int]).map_values(f) =~= fs.map_values(f).push(f(suppliers@[i as int])));
            assert(ids@.to_set().contains(suppliers@[i as int].supplier_id) == ids@.contains(suppliers@[i as int].supplier_id));
        }
        let p = suppliers[i];
        if id_set_contains(&set, p.supplier_id) {
            r.push(RequestPartner { is_removed: true, ..p });
        }
        i += 1;
    }
    proof {
        lemma_take_all(suppliers@);
    }
    r
}

/// The named organizations that the request does not hold (added on the page).
#[verifier::loop_isolation(false)]
fn front_only(req: &Vec<SupplierId>, request_suppliers: &Vec<i32>) -> (r: Vec<SupplierId>)
    ensures
        r@ == req@.filter(|s: SupplierId| !request_suppliers@.contains(s.supplier_id)),
{
    let ghost pred = |s: SupplierId| !request_suppliers@.contains(s.supplier_id);
    let mut r: Vec<SupplierId> = Vec::new();
    let mut i: usize = 0;
    while i < req.len()
        invariant
            i <= req@.len(),
            r@ == req@.take(i as int).filter(pred),
        decreases req.len() - i,
    {
        proof {
            lemma_filter_take_step(req@, i as int, pred);
        }
        if !crate::seqs::contains_i32(request_suppliers, req[i].supplier_id) {
            r.push(req[i]);
        }
        i += 1;
    }
    proof {
        lemma_take_all(req@);
    }
    r
}

/// Splits organizations into published and not published ones.
#[verifier::loop_isolation(false)]
fn split_public(suppliers: &Vec<RequestPartner>) -> (res: (Vec<RequestPartner>, Vec<RequestPartner>))
    ensures
        res.0@ == suppliers@.filter(|p: RequestPartner| p.is_public),
        res.1@ == suppliers@.filter(|p: RequestPartner| !p.is_public),
{
    let ghost yes = |p: RequestPartner| p.is_public;
    let ghost no = |p: RequestPartner| !p.is_public;
    let mut public: Vec<RequestPartner> = Vec::new();
    let mut not_public: Vec<RequestPartner> = Vec::new();
    let mut i: usize = 0;
    while i < suppliers.len()
        invariant
            i <= suppliers@.len(),
            public@ == suppliers@.take(i as int).filter(yes),
            not_public@ == suppliers@.take(i as int).filter(no),
        decreases suppliers.len() - i,
    {
        proof {
            lemma_filter_take_step(suppliers@, i as int, yes);
            lemma_filter_take_step(suppliers@, i as int, no);
        }
        if suppliers[i].is_public {
            public.push(suppliers[i]);
        } else {
            not_public.push(suppliers[i]);
        }
        i += 1;
    }
    proof {
        lemma_take_all(suppliers@);
    }
    (public, not_public)
}

/// The check before removing organizations of a request, up to the look at
/// their proposals. `requests` are the request (selected by uuid among the
/// statuses 70, 90, 100, 150) with its not removed organizations among the
/// named ones.
pub fn plan_delete_partner(req: &CheckPartnerReq, requests: Vec<RequestWithPartners>) -> (plan: DeletePartnerPlan)
    ensures
        delete_partner_plan_spec(req.item_list@, requests@, plan),
{
    let (mut drafts, mut accepting) = split_by_status(requests);
    if drafts.len() > 0 {
        let ghost d = drafts@;
        let r = drafts.pop().unwrap();
        proof {
            assert(r == d.last());
        }
        let removed_list = remove_named(&r.suppliers, &req.item_list);
        let items = convert_suppliers_to_response_items(&req.item_list, true);
        let messages = Messages::from_message(DeletePartnerMessage::is_deleted_success(&items));
        return DeletePartnerPlan::RemoveAll { removed: removed_list, items, messages };
    }
    if accepting.len() == 0 {
        let items = convert_suppliers_to_response_items(&req.item_list, false);
        let messages = Messages::from_message(DeletePartnerMessage::is_deletion_prohibited(&items));
        return DeletePartnerPlan::Prohibited { items, messages };
    }
    let ghost a = accepting@;
    let r = accepting.pop().unwrap();
    proof {
        assert(r == a.last());
    }
    let (public, not_public) = split_public(&r.suppliers);
    let request_suppliers = partner_id_vec(&r.suppliers);
    let front = front_only(&req.item_list, &request_suppliers);
    let mut messages = Messages::new();
    let mut items = convert_suppliers_to_response_items(&front, true);
    if front.len() > 0 {
        messages.add(DeletePartnerMessage::is_deleted_success(&items));
    }
    let ghost mid = messages@.messages;
    let mut public_items = convert_request_partners_to_response_items(&public, false);
    if public.len() > 0 {
        messages.add(DeletePartnerMessage::is_published_etp_error(&public_items));
    }
    items.append(&mut public_items);
    proof {
        let f = if front@.len() > 0 {
            seq![partners_message(MessageKind::Success, deleted_success_text(), supplier_items(front@, true))]
        } else {
            Seq::<MessageView>::empty()
        };
        assert(mid =~= f);
        let pm = if public@.len() > 0 {
            seq![partners_message(MessageKind::Error, published_etp_text(), partner_items(public@, false))]
        } else {
            Seq::<MessageView>::empty()
        };
        assert(messages@.messages =~= f + pm);
        assert(request_suppliers@ == partner_ids(r.suppliers@));
        assert(front@ == req.item_list@.filter(|s: SupplierId| !partner_ids(r.suppliers@).contains(s.supplier_id)));
        assert(items@ == supplier_items(front@, true) + partner_items(public@, false));
    }
    DeletePartnerPlan::Review { items, messages, not_public }
}

} // verus!

verus! {

/// A not published organization with its proposals.
pub struct PartnerWithProposals {
    pub partner: RequestPartner,
    pub proposals: Vec<ProposalHeader>,
}

/// The organization has a received proposal.
pub open spec fn has_received(p: PartnerWithProposals) -> bool {
    exists|i: int| 0 <= i < p.proposals@.len() && (#[trigger] p.proposals@[i]).status_id == ProposalStatus::Received
}

/// The proposal marked as deleted.
pub open spec fn proposal_deleted(h: ProposalHeader) -> ProposalHeader {
    ProposalHeader { status_id: ProposalStatus::Deleted, ..h }
}

/// The proposals of an organization, marked as deleted.
pub open spec fn deleted_proposals_of(p: PartnerWithProposals) -> Seq<ProposalHeader> {
    p.proposals@.map_values(|h: ProposalHeader| proposal_deleted(h))
}

/// The end of the check before removing organizations, once the proposals
/// of the not published ones are known.
pub struct DeletePartnerFinish {
    /// Organizations to mark removed.
    pub remove_partners: Vec<RequestPartner>,
    /// Proposals to mark deleted.
    pub delete_proposals: Vec<ProposalHeader>,
    pub items: Vec<CheckPartnerItem>,
    pub messages: Messages,
}

/// Whether an organization has a received proposal.
fn find_received(p: &PartnerWithProposals) -> (b: bool)
    ensures
        b == has_received(*p),
{
    let mut i: usize = 0;
    while i < p.proposals.len()
        invariant
            i <= p.proposals@.len(),
            forall|j: int| 0 <= j < i ==> (#[trigger] p.proposals@[j]).status_id != ProposalStatus::Received,
        decreases p.proposals.len() - i,
    {
        if p.proposals[i].status_id == ProposalStatus::Received {
            return true;
        }
        i += 1;
    }
    false
}

/// Decides about the not published organizations of a request in status 90
/// or 150: when none has a received proposal, all are removed with their
/// proposals deleted and they are allowed; otherwise nothing changes and
/// those with a received proposal are refused.
#[verifier::loop_isolation(false)]
pub fn finish_delete_partner(
    items: Vec<CheckPartnerItem>,
    messages: Messages,
    partners: Vec<PartnerWithProposals>,
) -> (r: DeletePartnerFinish)
    requires
        messages.wf(),
    ensures
        r.messages.wf(),
        ({
            let received = partners@.filter(|p: PartnerWithProposals| has_received(p));
            if received.len() == 0 {
                let rm = partners@.map_values(|p: PartnerWithProposals| removed(p.partner));
                &&& r.remove_partners@ == rm
                &&& r.delete_proposals@ == crate::seqs::concat_all(
                    partners@.map_values(|p: PartnerWithProposals| deleted_proposals_of(p)),
                )
                &&& r.items@ == items@ + partner_items(rm, true)
                &&& r.messages@.messages == messages@.messages.push(
                    partners_message(MessageKind::Success, deleted_success_text(), partner_items(rm, true)),
                )
            } else {
                let refused = received.map_values(
                    |p: PartnerWithProposals| CheckPartnerItem { supplier_id: p.partner.supplier_id, is_allowed: false },
                );
                &&& r.remove_partners@.len() == 0
                &&& r.delete_proposals@.len() == 0
                &&& r.items@ == items@ + refused
                &&& r.messages@.messages == messages@.messages.push(
                    partners_message(MessageKind::Error, tcp_exist_text(), refused),
                )
            }
        }),
{
    let ghost ps = partners@;
    let ghost hr = |p: PartnerWithProposals| has_received(p);
    let ghost refuse = |p: PartnerWithProposals| CheckPartnerItem { supplier_id: p.partner.supplier_id, is_allowed: false };
    let ghost rmf = |p: PartnerWithProposals| removed(p.partner);
    let ghost delf = |p: PartnerWithProposals| deleted_proposals_of(p);
    // refused items of the organizations with a received proposal
    let mut refused: Vec<CheckPartnerItem> = Vec::new();
    let mut i: usize = 0;
    while i < partners.len()
        invariant
            i <= ps.len(),
            ps == partners@,
            refused@ == ps.take(i as int).filter(hr).map_values(refuse),
        decreases partners.len() - i,
    {
        proof {
            lemma_filter_take_step(ps, i as int, hr);
            let f = ps.take(i as int).filter(hr);
            assert(f.push(ps[i as int]).map_values(refuse) =~= f.map_values(refuse).push(refuse(ps[i as int])));
        }
        if find_received(&partners[i]) {
            refused.push(CheckPartnerItem { supplier_id: partners[i].partner.supplier_id, is_allowed: false });
        }
        i += 1;
    }
    proof {
        lemma_take_all(ps);
        assert(ps.filter(hr).len() == refused@.len());
    }
    let mut items = items;
    let mut messages = messages;
    if refused.len() > 0 {
        let m = DeletePartnerMessage::is_tcp_exist_error(&refused);
        messages.add(m);
        items.append(&mut refused);
        return DeletePartnerFinish { remove_partners: Vec::new(), delete_proposals: Vec::new(), items, messages };
    }
    let mut remove_partners: Vec<RequestPartner> = Vec::new();
    let mut delete_proposals: Vec<ProposalHeader> = Vec::new();
    for p in it: partners.into_iter()
        invariant
            it.seq() == ps,
            remove_partners@ == ps.take(it.index() as int).map_values(rmf),
            delete_proposals@ == crate::seqs::concat_all(ps.take(it.index() as int).map_values(delf)),
    {
        let ghost k = it.index();
        proof {
            assert(p == ps[k as int]);
            lemma_map_take_step(ps, k as int, rmf);
            lemma_map_take_step(ps, k as int, delf);
            assert(ps.take(k + 1).map_values(delf).drop_last() =~= ps.take(k as int).map_values(delf));
        }
        let PartnerWithProposals { partner, proposals } = p;
        remove_partners.push(RequestPartner { is_removed: true, ..partner });
        let ghost before = delete_proposals@;
        let mut j: usize = 0;
        while j < proposals.len()
            invariant
                j <= proposals@.len(),
                delete_proposals@ == before + proposals@.take(j as int).map_values(|h: ProposalHeader| proposal_deleted(h)),
            decreases proposals.len() - j,
        {
            proof {
                lemma_map_take_step(proposals@, j as int, |h: ProposalHeader| proposal_deleted(h));
            }
            delete_proposals.push(ProposalHeader { status_id: ProposalStatus::Deleted, ..proposals[j] });
            proof {
                assert(delete_proposals@ =~= before + proposals@.take(j + 1).map_values(|h: ProposalHeader| proposal_deleted(h)));
            }
            j += 1;
        }
        proof {
            lemma_take_all(proposals@);
        }
    }
    proof {
        lemma_take_all(ps);
    }
    let mut new_items = convert_request_partners_to_response_items(&remove_partners, true);
    messages.add(DeletePartnerMessage::is_deleted_success(&new_items));
    items.append(&mut new_items);
    DeletePartnerFinish { remove_partners, delete_proposals, items, messages }
}

} // verus!

verus! {

/// The uuids of the proposals of an organization.
pub open spec fn proposal_uuids(p: PartnerWithProposals) -> Seq<u128> {
    p.proposals@.map_values(|h: ProposalHeader| h.uuid)
}

/// Some organization record of the supplier is among the first `n`.
pub open spec fn supplier_seen(ps: Seq<PartnerWithProposals>, n: int, s: i32) -> bool {
    exists|i: int| 0 <= i < n && (#[trigger] ps[i]).partner.supplier_id == s
}

/// Every organization record of the supplier among the first `n` has no proposal.
pub open spec fn supplier_without_proposals(ps: Seq<PartnerWithProposals>, n: int, s: i32) -> bool {
    forall|i: int| 0 <= i < n && (#[trigger] ps[i]).partner.supplier_id == s ==> ps[i].proposals@.len() == 0
}

/// The uuids of an organization's proposals.
fn uuids_of(p: &PartnerWithProposals) -> (r: Vec<u128>)
    ensures
        r@ == proposal_uuids(*p),
{
    let mut r: Vec<u128> = Vec::new();
    let mut i: usize = 0;
    while i < p.proposals.len()
        invariant
            i <= p.proposals@.len(),
            r@ == p.proposals@.take(i as int).map_values(|h: ProposalHeader| h.uuid),
        decreases p.proposals.len() - i,
    {
        proof {
            lemma_map_take_step(p.proposals@, i as int, |h: ProposalHeader| h.uuid);
        }
        r.push(p.proposals[i].uuid);
        i += 1;
    }
    proof {
        lemma_take_all(p.proposals@);
    }
    r
}

/// Groups the (not deleted) proposals of the organizations by supplier id.
pub fn group_partner_proposals(partners: &Vec<PartnerWithProposals>) -> (m: ahash::AHashMap<i32, Vec<u128>>)
    ensures
        forall|s: i32| #[trigger] proposal_map_contents(m).contains_key(s) == supplier_seen(partners@, partners@.len() as int, s),
        forall|s: i32| proposal_map_contents(m).contains_key(s) ==> ((#[trigger] proposal_map_contents(m)[s]).len() == 0
            <==> supplier_without_proposals(partners@, partners@.len() as int, s)),
{
    let mut m = proposal_map_new();
    let mut k: usize = 0;
    while k < partners.len()
        invariant
            k <= partners@.len(),
            forall|s: i32| #[trigger] proposal_map_contents(m).contains_key(s) == supplier_seen(partners@, k as int, s),
            forall|s: i32| proposal_map_contents(m).contains_key(s) ==> ((#[trigger] proposal_map_contents(m)[s]).len() == 0
                <==> supplier_without_proposals(partners@, k as int, s)),
        decreases partners.len() - k,
    {
        let ghost old_m = proposal_map_contents(m);
        let id = partners[k].partner.supplier_id;
        let mut uuids = uuids_of(&partners[k]);
        // An organization seen before has these proposals added to its
        // list; one seen first gets a list of its own.
        let grouped = match proposal_map_get(&m, id) {
            Some(mut v) => {
                v.append(&mut uuids);
                v
            },
            None => uuids,
        };
        proposal_map_insert(&mut m, id, grouped);
        assert(proposal_map_contents(m) == old_m.insert(
            id,
            if old_m.contains_key(id) { old_m[id] + proposal_uuids(partners@[k as int]) } else { proposal_uuids(partners@[k as int]) },
        ));
        proof {
            let ps = partners@;
            assert forall|s: i32| #[trigger] proposal_map_contents(m).contains_key(s) == supplier_seen(ps, k + 1, s) by {
                if s == id {
                    assert(ps[k as int].partner.supplier_id == s);
                } else {
                    if supplier_seen(ps, k + 1, s) {
                        let i = choose|i: int| 0 <= i < k + 1 && (#[trigger] ps[i]).partner.supplier_id == s;
                        assert(i < k);
                    }
                }
            }
            assert forall|s: i32| proposal_map_contents(m).contains_key(s) implies ((#[trigger] proposal_map_contents(m)[s]).len() == 0
                <==> supplier_without_proposals(ps, k + 1, s)) by {
                if s == id {
                    if old_m.contains_key(s) {
                        assert(proposal_map_contents(m)[s] == old_m[s] + proposal_uuids(ps[k as int]));
                    }
                    if supplier_without_proposals(ps, k + 1, s) {
                        assert(ps[k as int].proposals@.len() == 0);
                        assert(supplier_without_proposals(ps, k as int, s));
                    } else {
                        let i = choose|i: int| 0 <= i < k + 1 && (#[trigger] ps[i]).partner.supplier_id == s && ps[i].proposals@.len() != 0;
                        if i < k {
                            assert(!supplier_without_proposals(ps, k as int, s));
                        }
                    }
                } else {
                    assert(supplier_without_proposals(ps, k + 1, s) == supplier_without_proposals(ps, k as int, s));
                }
            }
        }
        k += 1;
    }
    m
}

/// The refusal to add an organization that already made a proposal.
pub open spec fn tcp_exists_message() -> MessageView {
    plain(MessageKind::Error, "Для выбранной организации уже существует ТКП"@)
}

/// An organization may be added when none of its records for the request
/// has a proposal (the proposals read are those not deleted).
pub open spec fn add_allowed(partners: Seq<PartnerWithProposals>, s: i32) -> bool {
    supplier_without_proposals(partners, partners.len() as int, s)
}

/// The check before adding organizations: each named organization is
/// allowed unless it already has a (not deleted) proposal for the request,
/// in which case one refusal is given for it.
#[verifier::loop_isolation(false)]
pub fn check_partners(req: &CheckPartnerReq, partners: &Vec<PartnerWithProposals>) -> (res: (Vec<CheckPartnerItem>, Messages))
    ensures
        res.0@ == req.item_list@.map_values(
            |x: SupplierId| CheckPartnerItem { supplier_id: x.supplier_id, is_allowed: add_allowed(partners@, x.supplier_id) },
        ),
        res.1.wf(),
        res.1@.messages == req.item_list@.filter(|x: SupplierId| !add_allowed(partners@, x.supplier_id)).map_values(
            |x: SupplierId| tcp_exists_message(),
        ),
{
    let grouped = group_partner_proposals(partners);
    let ghost items = req.item_list@;
    let ghost f = |x: SupplierId| CheckPartnerItem { supplier_id: x.supplier_id, is_allowed: add_allowed(partners@, x.supplier_id) };
    let ghost refused = |x: SupplierId| !add_allowed(partners@, x.supplier_id);
    let ghost g = |x: SupplierId| tcp_exists_message();
    let mut messages = Messages::new();
    let mut res: Vec<CheckPartnerItem> = Vec::new();
    let mut i: usize = 0;
    while i < req.item_list.len()
        invariant
            i <= items.len(),
            items == req.item_list@,
            forall|s: i32| #[trigger] proposal_map_contents(grouped).contains_key(s) == supplier_seen(partners@, partners@.len() as int, s),
            forall|s: i32| proposal_map_contents(grouped).contains_key(s) ==> ((#[trigger] proposal_map_contents(grouped)[s]).len() == 0
                <==> supplier_without_proposals(partners@, partners@.len() as int, s)),
            res@ == items.take(i as int).map_values(f),
            messages.wf(),
            messages@.messages == items.take(i as int).filter(refused).map_values(g),
        decreases req.item_list.len() - i,
    {
        let supplier_id = req.item_list[i].supplier_id;
        let is_without_partners = match proposal_map_get(&grouped, supplier_id) {
            Some(proposals) => proposals.len() == 0,
            None => true,
        };
        proof {
            let ps = partners@;
            if !proposal_map_contents(grouped).contains_key(supplier_id) {
                assert forall|j: int| 0 <= j < ps.len() && (#[trigger] ps[j]).partner.supplier_id == supplier_id implies ps[j].proposals@.len() == 0 by {
                    assert(supplier_seen(ps, ps.len() as int, supplier_id));
                }
            }
            assert(is_without_partners == add_allowed(ps, supplier_id));
            lemma_map_take_step(items, i as int, f);
            lemma_filter_take_step(items, i as int, refused);
            let fl = items.take(i as int).filter(refused);
            assert(fl.push(items[i as int]).map_values(g) =~= fl.map_values(g).push(g(items[i as int])));
        }
        if !is_without_partners {
            messages.add(Message::error(owned("Для выбранной организации уже существует ТКП")));
        }
        res.push(CheckPartnerItem { supplier_id, is_allowed: is_without_partners });
        i += 1;
    }
    proof {
        lemma_take_all(items);
    }
    (res, messages)
}

} // verus!
