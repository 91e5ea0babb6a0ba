//! Early closing of price information requests ("Досрочное закрытие").
use vstd::prelude::*;

use crate::messages::{
    items_view, plain, Message, MessageKind, MessageView, Messages, ParamItem, ParamItemView,
};
use crate::model::{with_status, RequestHeader, RequestStatus, RequestWithPartners};
use crate::seqs::{lemma_filter_take_step, lemma_map_take_step, lemma_take_all};
use crate::text::{decimal, owned};

verus! {

/// A request can be closed early while proposals are accepted ("Приём ТКП")
/// or after publishing its changes failed.
pub open spec fn closable(s: RequestStatus) -> bool {
    s == RequestStatus::AcceptingIncomingTCPs || s == RequestStatus::ErrorPublishingChanges
}

/// The parameter that names a record by its number.
pub open spec fn id_param(id: i64) -> ParamItemView {
    ParamItemView { id: decimal(id as int), uuid: None }
}

/// The parameter of a request.
pub open spec fn request_param(r: RequestWithPartners) -> ParamItemView {
    id_param(r.header.id)
}

/// Records the request as not closable when its status does not allow it;
/// returns whether it was recorded.
pub fn check_and_fill_params_status(header: &RequestHeader, ids: &mut Vec<ParamItem>) -> (bad: bool)
    ensures
        bad == !closable(header.status_id),
        items_view(final(ids)@) == items_view(old(ids)@) + if bad {
            seq![id_param(header.id)]
        } else {
            Seq::empty()
        },
{
    if header.status_id == RequestStatus::AcceptingIncomingTCPs || header.status_id
        == RequestStatus::ErrorPublishingChanges {
        proof {
            assert(items_view(ids@) =~= items_view(ids@) + Seq::<ParamItemView>::empty());
        }
        return false;
    }
    let ghost before = ids@;
    ids.push(ParamItem::from_id(header.id));
    proof {
        assert(items_view(ids@) =~= items_view(before) + seq![id_param(header.id)]);
    }
    true
}

/// Whether the user created the request; records it otherwise.
pub fn check_and_fill_params_creator(
    header: &RequestHeader,
    user_id: i32,
    ids: &mut Vec<ParamItem>,
) -> (ok: bool)
    ensures
        ok == (header.created_by == user_id),
        items_view(final(ids)@) == items_view(old(ids)@) + if ok {
            Seq::empty()
        } else {
            seq![id_param(header.id)]
        },
{
    if header.created_by == user_id {
        proof {
            assert(items_view(ids@) =~= items_view(ids@) + Seq::<ParamItemView>::empty());
        }
        return true;
    }
    let ghost before = ids@;
    ids.push(ParamItem::from_id(header.id));
    proof {
        assert(items_view(ids@) =~= items_view(before) + seq![id_param(header.id)]);
    }
    false
}

/// The request can be closed by the user.
pub open spec fn close_allowed(r: RequestWithPartners, user_id: i32) -> bool {
    closable(r.header.status_id) && r.header.created_by == user_id
}

/// The request has a status that forbids closing.
pub open spec fn status_refused(r: RequestWithPartners) -> bool {
    !closable(r.header.status_id)
}

/// The request has the right status but another user created it.
pub open spec fn creator_refused(r: RequestWithPartners, user_id: i32) -> bool {
    closable(r.header.status_id) && r.header.created_by != user_id
}

/// Explanation of the refusal for a status.
pub open spec fn status_description() -> Seq<char> {
    "Досрочное закрытие возможно только для ЗЦИ со статусом \"Приём ТКП\" или \"Ошибка публикации изменений\". Скорректируйте выбор"@
}

/// The refusal for the requests of the wrong status.
pub open spec fn status_refusal(items: Seq<ParamItemView>) -> MessageView {
    MessageView {
        item_list: items,
        description: status_description(),
        ..plain(MessageKind::Error, "Досрочное закрытие выбранных ЗЦИ невозможно"@)
    }
}

/// The refusal for the requests of other users.
pub open spec fn creator_refusal(items: Seq<ParamItemView>) -> MessageView {
    MessageView {
        item_list: items,
        description: "Невозможно закрыть ЗЦИ, созданное другим пользователем"@,
        ..plain(MessageKind::Error, "Нет полномочий"@)
    }
}

/// The refusals, each one given only when it refers to some request.
pub open spec fn refusal_messages(
    status_items: Seq<ParamItemView>,
    creator_items: Seq<ParamItemView>,
) -> Seq<MessageView> {
    (if status_items.len() > 0 { seq![status_refusal(status_items)] } else { Seq::empty() })
        + (if creator_items.len() > 0 { seq![creator_refusal(creator_items)] } else { Seq::empty() })
}

/// Builds the refusals for the requests of the wrong status and of other users.
pub fn fill_messages(item_list_status: Vec<ParamItem>, item_list_creator: Vec<ParamItem>) -> (m: Messages)
    ensures
        m.wf(),
        m@.messages == refusal_messages(items_view(item_list_status@), items_view(item_list_creator@)),
{
    let ghost s = items_view(item_list_status@);
    let ghost c = items_view(item_list_creator@);
    let mut messages = Messages::new();
    if item_list_status.len() > 0 {
        let msg = Message::error(owned("Досрочное закрытие выбранных ЗЦИ невозможно"))
            .with_parameters(item_list_status)
            .with_param_description(owned(
                "Досрочное закрытие возможно только для ЗЦИ со статусом \"Приём ТКП\" или \"Ошибка публикации изменений\". Скорректируйте выбор",
            ));
        messages.add(msg);
    }
    let ghost mid = messages@.messages;
    if item_list_creator.len() > 0 {
        let msg = Message::error(owned("Нет полномочий"))
            .with_parameters(item_list_creator)
            .with_param_description(owned("Невозможно закрыть ЗЦИ, созданное другим пользователем"));
        messages.add(msg);
    }
    proof {
        assert(mid =~= if s.len() > 0 { seq![status_refusal(s)] } else { Seq::<MessageView>::empty() });
        assert(messages@.messages =~= refusal_messages(s, c));
    }
    messages
}

/// Splits the requests into those the user may close and the refusals:
/// requests of a status other than "Приём ТКП" or "Ошибка публикации
/// изменений" are refused for their status, the rest that another user
/// created are refused for their creator. The refusals are `None` when
/// every request may be closed.
#[verifier::loop_isolation(false)]
pub fn check_requests(r: Vec<RequestWithPartners>, user_id: i32) -> (res: (
    Vec<RequestWithPartners>,
    Option<Messages>,
))
    ensures
        res.0@ == r@.filter(|x: RequestWithPartners| close_allowed(x, user_id)),
        ({
            let status_items = r@.filter(|x: RequestWithPartners| status_refused(x)).map_values(
                |x: RequestWithPartners| request_param(x),
            );
            let creator_items = r@.filter(|x: RequestWithPartners| creator_refused(x, user_id)).map_values(
                |x: RequestWithPartners| request_param(x),
            );
            match res.1 {
                None => status_items.len() == 0 && creator_items.len() == 0,
                Some(m) => (status_items.len() > 0 || creator_items.len() > 0) && m.wf()
                    && m@.messages == refusal_messages(status_items, creator_items),
            }
        }),
{
    let ghost rs = r@;
    let ghost allowed = |x: RequestWithPartners| close_allowed(x, user_id);
    let ghost sref = |x: RequestWithPartners| status_refused(x);
    let ghost cref = |x: RequestWithPartners| creator_refused(x, user_id);
    let ghost param = |x: RequestWithPartners| request_param(x);
    let mut error_item_list_status: Vec<ParamItem> = Vec::new();
    let mut error_item_list_creator: Vec<ParamItem> = Vec::new();
    let mut valid_requests: Vec<RequestWithPartners> = Vec::new();
    for x in it: r.into_iter()
        invariant
            it.seq() == rs,
            valid_requests@ == rs.take(it.index() as int).filter(allowed),
            items_view(error_item_list_status@) == rs.take(it.index() as int).filter(sref).map_values(param),
            items_view(error_item_list_creator@) == rs.take(it.index() as int).filter(cref).map_values(param),
    {
        let ghost i = it.index();
        proof {
            assert(x == rs[i as int]);
            lemma_filter_take_step(rs, i as int, allowed);
            lemma_filter_take_step(rs, i as int, sref);
            lemma_filter_take_step(rs, i as int, cref);
            let fs = rs.take(i as int).filter(sref);
            let fc = rs.take(i as int).filter(cref);
            assert(fs.push(x).map_values(param) =~= fs.map_values(param).push(param(x)));
            assert(fc.push(x).map_values(param) =~= fc.map_values(param).push(param(x)));
        }
        let bad_status = check_and_fill_params_status(&x.header, &mut error_item_list_status);
        if !bad_status {
            let ok = check_and_fill_params_creator(&x.header, user_id, &mut error_item_list_creator);
            if ok {
                valid_requests.push(x);
            }
        }
    }
    proof {
        lemma_take_all(rs);
    }
    let messages = if error_item_list_status.len() == 0 && error_item_list_creator.len() == 0 {
        None
    } else {
        Some(fill_messages(error_item_list_status, error_item_list_creator))
    };
    (valid_requests, messages)
}

} // verus!

verus! {

/// A request of the answer before closing, with its organizations.
pub struct PrePriceInfoCloseItem {
    pub id: i64,
    pub uuid: u128,
    pub request_subject: Option<String>,
    pub supplier_list: Vec<i32>,
}

/// The supplier ids of the organizations of a request.
pub open spec fn supplier_ids(p: Seq<crate::model::RequestPartner>) -> Seq<i32> {
    p.map_values(|x: crate::model::RequestPartner| x.supplier_id)
}

/// The item of the answer before closing that shows the request.
pub open spec fn pre_close_item_of(r: RequestWithPartners, item: PrePriceInfoCloseItem) -> bool {
    &&& item.id == r.header.id
    &&& item.uuid == r.header.uuid
    &&& item.request_subject == r.header.request_subject
    &&& item.supplier_list@ == supplier_ids(r.suppliers@)
}

/// The answer before closing: each request that may be closed, with its
/// number, uuid, subject and the supplier ids of its organizations.
pub fn pre_close_items(valid: Vec<RequestWithPartners>) -> (items: Vec<PrePriceInfoCloseItem>)
    ensures
        items@.len() == valid@.len(),
        forall|i: int| 0 <= i < valid@.len() ==> pre_close_item_of(valid@[i], #[trigger] items@[i]),
{
    let ghost vs = valid@;
    let mut items: Vec<PrePriceInfoCloseItem> = Vec::new();
    for x in it: valid.into_iter()
        invariant
            it.seq() == vs,
            items@.len() == it.index(),
            forall|i: int| 0 <= i < it.index() ==> pre_close_item_of(vs[i], #[trigger] items@[i]),
    {
        let ghost i = it.index();
        proof {
            assert(x == vs[i as int]);
        }
        let RequestWithPartners { header, suppliers } = x;
        let mut supplier_list: Vec<i32> = Vec::new();
        for p in pit: suppliers.iter()
            invariant
                pit.seq() == suppliers@.map_values(|q: crate::model::RequestPartner| &q),
                supplier_list@ == supplier_ids(suppliers@.take(pit.index() as int)),
        {
            let ghost k = pit.index();
            proof {
                assert(supplier_ids(suppliers@.take(k + 1)) =~= supplier_ids(suppliers@.take(k as int)).push(suppliers@[k as int].supplier_id));
            }
            supplier_list.push(p.supplier_id);
        }
        proof {
            assert(suppliers@.take(suppliers@.len() as int) =~= suppliers@);
        }
        items.push(PrePriceInfoCloseItem {
            id: header.id,
            uuid: header.uuid,
            request_subject: header.request_subject,
            supplier_list,
        });
    }
    items
}

/// A request to close with its reason.
pub struct RequestCloseItem {
    pub id: i64,
    pub uuid: u128,
    pub reason_closing: String,
}

/// The reason given for the request: the last one sent for its uuid.
pub open spec fn reason_for(req: Seq<RequestCloseItem>, uuid: u128) -> Option<Seq<char>>
    decreases req.len(),
{
    if req.len() == 0 {
        None
    } else if req.last().uuid == uuid {
        Some(req.last().reason_closing@)
    } else {
        reason_for(req.drop_last(), uuid)
    }
}

/// The reason given for the request, found as `reason_for` states it.
pub fn find_reason(req: &Vec<RequestCloseItem>, uuid: u128) -> (r: Option<String>)
    ensures
        match r {
            Some(s) => reason_for(req@, uuid) == Some(s@),
            None => reason_for(req@, uuid) is None,
        },
{
    let mut i = req.len();
    proof {
        lemma_take_all(req@);
    }
    while i > 0
        invariant
            i <= req@.len(),
            reason_for(req@, uuid) == reason_for(req@.take(i as int), uuid),
        decreases i,
    {
        let ghost t = req@.take(i as int);
        proof {
            assert(t.drop_last() =~= req@.take(i - 1));
        }
        if req[i - 1].uuid == uuid {
            return Some(req[i - 1].reason_closing.clone());
        }
        i = i - 1;
    }
    None
}

/// A closed request as the answer shows it.
#[derive(Clone, Copy, Debug, PartialEq, Eq, Structural)]
pub struct ClosedRequest {
    pub id: i64,
    pub uuid: u128,
    pub status_id: RequestStatus,
}

/// The header after closing it early with the reason.
pub open spec fn closed_early(h: RequestHeader, closed: RequestHeader, reason: Seq<char>, user_id: i32, now: i64) -> bool {
    &&& closed == RequestHeader { reason_closing: closed.reason_closing, ..with_status(h, RequestStatus::EntryClosedEarly, user_id, now) }
    &&& closed.reason_closing matches Some(s) && s@ == reason
}

/// The success message of closing.
pub open spec fn close_success(items: Seq<ParamItemView>) -> MessageView {
    MessageView { item_list: items, ..plain(MessageKind::Success, "Статус ЗЦИ изменен на \"Прием закрыт досрочно\""@) }
}

/// The result of closing requests early.
pub struct CloseOutcome {
    /// The headers to save.
    pub updated: Vec<RequestHeader>,
    /// The answer for each closed request.
    pub ret_list: Vec<ClosedRequest>,
    pub messages: Messages,
}

/// Closes early the requests that passed the checks: each gets the status
/// "Приём закрыт досрочно" and the reason sent for its uuid, changed by the
/// user at the moment. Fails when no reason was sent for one of them.
#[verifier::loop_isolation(false)]
pub fn close_requests(
    valid: Vec<RequestWithPartners>,
    req: &Vec<RequestCloseItem>,
    user_id: i32,
    now: i64,
) -> (res: Result<CloseOutcome, crate::model::TcpError>)
    ensures
        (forall|i: int| 0 <= i < valid@.len() ==> reason_for(req@, #[trigger] valid@[i].header.uuid) is Some)
            <==> res is Ok,
        res matches Ok(o) ==> {
            &&& o.updated@.len() == valid@.len()
            &&& o.ret_list@.len() == valid@.len()
            &&& forall|i: int| 0 <= i < valid@.len() ==> closed_early(
                valid@[i].header,
                #[trigger] o.updated@[i],
                reason_for(req@, valid@[i].header.uuid)->0,
                user_id,
                now,
            )
            &&& forall|i: int| 0 <= i < valid@.len() ==> #[trigger] o.ret_list@[i] == (ClosedRequest {
                id: valid@[i].header.id,
                uuid: valid@[i].header.uuid,
                status_id: RequestStatus::EntryClosedEarly,
            })
            &&& o.messages.wf()
            &&& o.messages@.messages == seq![close_success(valid@.map_values(|x: RequestWithPartners| request_param(x)))]
        },
        res matches Err(e) ==> e matches crate::model::TcpError::RecordNotFound(_, table) && table@ == "request_head"@,
{
    let ghost vs = valid@;
    let ghost param = |x: RequestWithPartners| request_param(x);
    let mut updated: Vec<RequestHeader> = Vec::new();
    let mut ret_list: Vec<ClosedRequest> = Vec::new();
    let mut param_list: Vec<ParamItem> = Vec::new();
    for x in it: valid.into_iter()
        invariant
            it.seq() == vs,
            updated@.len() == it.index(),
            ret_list@.len() == it.index(),
            items_view(param_list@) == vs.take(it.index() as int).map_values(param),
            forall|i: int| 0 <= i < it.index() ==> reason_for(req@, #[trigger] vs[i].header.uuid) is Some,
            forall|i: int| 0 <= i < it.index() ==> closed_early(
                vs[i].header,
                #[trigger] updated@[i],
                reason_for(req@, vs[i].header.uuid)->0,
                user_id,
                now,
            ),
            forall|i: int| 0 <= i < it.index() ==> #[trigger] ret_list@[i] == (ClosedRequest {
                id: vs[i].header.id,
                uuid: vs[i].header.uuid,
                status_id: RequestStatus::EntryClosedEarly,
            }),
    {
        let ghost i = it.index();
        proof {
            assert(x == vs[i as int]);
        }
        let mut header = x.header;
        let reason = find_reason(req, header.uuid);
        match reason {
            None => {
                proof {
                    assert(reason_for(req@, vs[i as int].header.uuid) is None);
                }
                return Err(crate::model::TcpError::RecordNotFound(
                    crate::text::i64_to_string(header.id),
                    owned("request_head"),
                ));
            },
            Some(reason) => {
                header.changed_at = now;
                header.changed_by = user_id;
                header.status_id = RequestStatus::EntryClosedEarly;
                header.reason_closing = Some(reason);
                ret_list.push(ClosedRequest { id: header.id, uuid: header.uuid, status_id: header.status_id });
                let ghost before = param_list@;
                param_list.push(ParamItem::from_id(header.id));
                proof {
                    crate::seqs::lemma_map_take_step(vs, i as int, param);
                    assert(items_view(param_list@) =~= items_view(before).push(id_param(header.id)));
                }
                updated.push(header);
            },
        }
    }
    proof {
        lemma_take_all(vs);
    }
    let m = Message::success(owned("Статус ЗЦИ изменен на \"Прием закрыт досрочно\"")).with_parameters(param_list);
    let messages = Messages::from_message(m);
    Ok(CloseOutcome { updated, ret_list, messages })
}

} // verus!
