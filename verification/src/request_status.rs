//! Actions that move price information requests between statuses: completing
//! the review, deleting, closing acceptance when the term is over, and
//! taking the trading platform's confirmation.
use vstd::prelude::*;

use crate::messages::{
    items_view, plain, Message, MessageKind, MessageView, Messages, ParamItem, ParamItemView,
};
use crate::model::{with_status, RequestHeader, RequestStatus, TcpError};
use crate::outside::{lowercase, to_lowercase};
use crate::seqs::{lemma_filter_take_step, lemma_map_take_step, lemma_take_all};
use crate::text::{concat3, decimal, i64_to_string, owned};

verus! {

/// The success message for the records done, if any, then the error message
/// with its description for the records refused, if any.
pub open spec fn success_and_error_messages(
    success_text: Seq<char>,
    error_text: Seq<char>,
    description: Seq<char>,
    ok: Seq<ParamItemView>,
    err: Seq<ParamItemView>,
) -> Seq<MessageView> {
    (if ok.len() > 0 {
        seq![MessageView { item_list: ok, ..plain(MessageKind::Success, success_text) }]
    } else {
        Seq::empty()
    }) + (if err.len() > 0 {
        seq![MessageView { item_list: err, description, ..plain(MessageKind::Error, error_text) }]
    } else {
        Seq::empty()
    })
}

/// Messages for a batch: success for the records done, error for the refused.
pub fn messages_from_success_and_errors(
    success_msg_text: &str,
    error_msg_text: &str,
    err_param_description: &str,
    ok_param_list: Vec<ParamItem>,
    err_param_list: Vec<ParamItem>,
) -> (m: Messages)
    ensures
        m.wf(),
        m@.messages == success_and_error_messages(
            success_msg_text@,
            error_msg_text@,
            err_param_description@,
            items_view(ok_param_list@),
            items_view(err_param_list@),
        ),
{
    let ghost ok = items_view(ok_param_list@);
    let ghost err = items_view(err_param_list@);
    let mut messages = Messages::new();
    if ok_param_list.len() > 0 {
        messages.add(Message::success(owned(success_msg_text)).with_parameters(ok_param_list));
    }
    let ghost mid = messages@.messages;
    if err_param_list.len() > 0 {
        messages.add(
            Message::error(owned(error_msg_text)).with_parameters(err_param_list).with_param_description(
                owned(err_param_description),
            ),
        );
    }
    proof {
        assert(messages@.messages =~= success_and_error_messages(
            success_msg_text@,
            error_msg_text@,
            err_param_description@,
            ok,
            err,
        ));
    }
    messages
}

/// The parameter that names a request header by number and uuid.
pub open spec fn header_param(h: RequestHeader) -> ParamItemView {
    ParamItemView { id: decimal(h.id as int), uuid: Some(h.uuid) }
}

/// The parameter that names a request header by number.
pub open spec fn header_id_param(h: RequestHeader) -> ParamItemView {
    ParamItemView { id: decimal(h.id as int), uuid: None }
}

/// The parameter of a request header.
pub fn param_of_header(h: &RequestHeader) -> (p: ParamItem)
    ensures
        p@ == header_param(*h),
{
    ParamItem { id: i64_to_string(h.id), uuid: Some(h.uuid) }
}

/// The headers that another user created, as parameters.
#[verifier::loop_isolation(false)]
pub fn foreign_headers(headers: &Vec<RequestHeader>, user_id: i32) -> (r: Vec<ParamItem>)
    ensures
        items_view(r@) == headers@.filter(|h: RequestHeader| h.created_by != user_id).map_values(
            |h: RequestHeader| header_param(h),
        ),
{
    let ghost pred = |h: RequestHeader| h.created_by != user_id;
    let ghost f = |h: RequestHeader| header_param(h);
    let mut r: Vec<ParamItem> = Vec::new();
    let mut i: usize = 0;
    while i < headers.len()
        invariant
            i <= headers@.len(),
            items_view(r@) == headers@.take(i as int).filter(pred).map_values(f),
        decreases headers.len() - i,
    {
        proof {
            lemma_filter_take_step(headers@, i as int, pred);
            let fs = headers@.take(i as int).filter(pred);
            assert(fs.push(headers@[i as int]).map_values(f) =~= fs.map_values(f).push(f(headers@[i as int])));
        }
        if headers[i].created_by != user_id {
            let ghost before = r@;
            r.push(param_of_header(&headers[i]));
            proof {
                assert(items_view(r@) =~= items_view(before).push(f(headers@[i as int])));
            }
        }
        i += 1;
    }
    proof {
        lemma_take_all(headers@);
    }
    r
}

/// A request as the answers of completing and deleting show it.
#[derive(Clone, Copy, Debug, PartialEq, Eq, Structural)]
pub struct PriceInfoCompleteItem {
    pub id: i64,
    pub uuid: u128,
    pub status_id: RequestStatus,
}

/// The review of a request can be completed once acceptance is closed.
pub open spec fn completable(s: RequestStatus) -> bool {
    s == RequestStatus::EntryClosed || s == RequestStatus::EntryClosedEarly
}

/// The refusal for requests that another user created, when completing.
pub open spec fn complete_authority_refusal(items: Seq<ParamItemView>) -> MessageView {
    MessageView {
        item_list: items,
        description: "Невозможно закрыть ЗЦИ, созданный другим пользователем"@,
        ..plain(MessageKind::Error, "Нет полномочий"@)
    }
}

/// The outcome of completing or deleting requests.
pub struct StatusOutcome {
    /// The headers to save with their new status.
    pub updated: Vec<RequestHeader>,
    /// The answer for each changed request.
    pub item_list: Vec<PriceInfoCompleteItem>,
    pub messages: Messages,
}

/// The answer item of a changed header.
pub open spec fn complete_item_of(h: RequestHeader) -> PriceInfoCompleteItem {
    PriceInfoCompleteItem { id: h.id, uuid: h.uuid, status_id: h.status_id }
}

/// Headers whose status is one of the two.
pub open spec fn status_in(a: RequestStatus, b: RequestStatus) -> spec_fn(RequestHeader) -> bool {
    |h: RequestHeader| h.status_id == a || h.status_id == b
}

/// Headers whose status is neither of the two.
pub open spec fn status_not_in(a: RequestStatus, b: RequestStatus) -> spec_fn(RequestHeader) -> bool {
    |h: RequestHeader| !(h.status_id == a || h.status_id == b)
}

/// Splits headers by a status condition: those that meet it get the new
/// status, changed by the user at the moment; both groups as parameters.
#[verifier::loop_isolation(false)]
fn apply_status(
    headers: Vec<RequestHeader>,
    allowed_a: RequestStatus,
    allowed_b: RequestStatus,
    new_status: RequestStatus,
    user_id: i32,
    now: i64,
) -> (res: (Vec<RequestHeader>, Vec<ParamItem>, Vec<ParamItem>))
    ensures
        res.0@ == headers@.filter(status_in(allowed_a, allowed_b)).map_values(
            |h: RequestHeader| with_status(h, new_status, user_id, now),
        ),
        items_view(res.1@) == headers@.filter(status_in(allowed_a, allowed_b)).map_values(
            |h: RequestHeader| header_id_param(h),
        ),
        items_view(res.2@) == headers@.filter(status_not_in(allowed_a, allowed_b)).map_values(
            |h: RequestHeader| header_id_param(h),
        ),
{
    let ghost hs = headers@;
    let ghost yes = status_in(allowed_a, allowed_b);
    let ghost no = status_not_in(allowed_a, allowed_b);
    let ghost upd = |h: RequestHeader| with_status(h, new_status, user_id, now);
    let ghost par = |h: RequestHeader| header_id_param(h);
    let mut updated: Vec<RequestHeader> = Vec::new();
    let mut ok: Vec<ParamItem> = Vec::new();
    let mut err: Vec<ParamItem> = Vec::new();
    for h in it: headers.into_iter()
        invariant
            it.seq() == hs,
            updated@ == hs.take(it.index() as int).filter(yes).map_values(upd),
            items_view(ok@) == hs.take(it.index() as int).filter(yes).map_values(par),
            items_view(err@) == hs.take(it.index() as int).filter(no).map_values(par),
    {
        let ghost i = it.index();
        proof {
            assert(h == hs[i as int]);
            lemma_filter_take_step(hs, i as int, yes);
            lemma_filter_take_step(hs, i as int, no);
            let fy = hs.take(i as int).filter(yes);
            let fn_ = hs.take(i as int).filter(no);
            assert(fy.push(h).map_values(upd) =~= fy.map_values(upd).push(upd(h)));
            assert(fy.push(h).map_values(par) =~= fy.map_values(par).push(par(h)));
            assert(fn_.push(h).map_values(par) =~= fn_.map_values(par).push(par(h)));
        }
        let mut h = h;
        let id = h.id;
        if h.status_id == allowed_a || h.status_id == allowed_b {
            let ghost before = ok@;
            ok.push(ParamItem::from_id(id));
            proof {
                assert(items_view(ok@) =~= items_view(before).push(par(hs[i as int])));
            }
            h.status_id = new_status;
            h.changed_by = user_id;
            h.changed_at = now;
            updated.push(h);
        } else {
            let ghost before = err@;
            err.push(ParamItem::from_id(id));
            proof {
                assert(items_view(err@) =~= items_view(before).push(par(hs[i as int])));
            }
        }
    }
    proof {
        lemma_take_all(hs);
    }
    (updated, ok, err)
}

/// The answer items of the changed headers.
fn items_of(updated: &Vec<RequestHeader>) -> (r: Vec<PriceInfoCompleteItem>)
    ensures
        r@ == updated@.map_values(|h: RequestHeader| complete_item_of(h)),
{
    let mut r: Vec<PriceInfoCompleteItem> = Vec::new();
    let mut i: usize = 0;
    while i < updated.len()
        invariant
            i <= updated@.len(),
            r@ == updated@.take(i as int).map_values(|h: RequestHeader| complete_item_of(h)),
        decreases updated.len() - i,
    {
        proof {
            lemma_map_take_step(updated@, i as int, |h: RequestHeader| complete_item_of(h));
        }
        r.push(PriceInfoCompleteItem { id: updated[i].id, uuid: updated[i].uuid, status_id: updated[i].status_id });
        i += 1;
    }
    proof {
        lemma_take_all(updated@);
    }
    r
}

/// The success text of completing the review.
pub open spec fn complete_success_text() -> Seq<char> {
    "Статус выбранных ЗЦИ изменен на \"Рассмотрение завершено\""@
}

/// The error text of completing the review.
pub open spec fn complete_fail_text() -> Seq<char> {
    "Завершение рассмотрения выбранных ЗЦИ невозможно"@
}

/// The description of the refusal to complete the review.
pub open spec fn complete_fail_description() -> Seq<char> {
    "Завершение рассмотрения возможно только для ЗЦИ со статусом \"Приём закрыт\" или \"Приём закрыт досрочно\". Скорректируйте выбор"@
}

/// Completes the review of requests ("Рассмотрение завершено"). When some
/// request was created by another user nothing changes and the answer is
/// the refusal. Otherwise the requests whose acceptance is closed (early or
/// not) become reviewed, changed by the user at the moment, and the others
/// are refused.
pub fn complete_requests(headers: Vec<RequestHeader>, user_id: i32, now: i64) -> (o: StatusOutcome)
    ensures
        o.messages.wf(),
        ({
            let foreign = headers@.filter(|h: RequestHeader| h.created_by != user_id).map_values(
                |h: RequestHeader| header_param(h),
            );
            let yes = headers@.filter(status_in(RequestStatus::EntryClosed, RequestStatus::EntryClosedEarly));
            let no = headers@.filter(status_not_in(RequestStatus::EntryClosed, RequestStatus::EntryClosedEarly));
            if foreign.len() > 0 {
                &&& o.updated@.len() == 0
                &&& o.item_list@.len() == 0
                &&& o.messages@.messages == seq![complete_authority_refusal(foreign)]
            } else {
                &&& o.updated@ == yes.map_values(
                    |h: RequestHeader| with_status(h, RequestStatus::Reviewed, user_id, now),
                )
                &&& o.item_list@ == o.updated@.map_values(|h: RequestHeader| complete_item_of(h))
                &&& o.messages@.messages == success_and_error_messages(
                    complete_success_text(),
                    complete_fail_text(),
                    complete_fail_description(),
                    yes.map_values(|h: RequestHeader| header_id_param(h)),
                    no.map_values(|h: RequestHeader| header_id_param(h)),
                )
            }
        }),
{
    let foreign = foreign_headers(&headers, user_id);
    if foreign.len() > 0 {
        let m = Message::error(owned("Нет полномочий")).with_param_description(owned(
            "Невозможно закрыть ЗЦИ, созданный другим пользователем",
        )).with_param_items(foreign);
        return StatusOutcome { updated: Vec::new(), item_list: Vec::new(), messages: Messages::from_message(m) };
    }
    let (updated, ok, err) = apply_status(
        headers,
        RequestStatus::EntryClosed,
        RequestStatus::EntryClosedEarly,
        RequestStatus::Reviewed,
        user_id,
        now,
    );
    let messages = messages_from_success_and_errors(
        "Статус выбранных ЗЦИ изменен на \"Рассмотрение завершено\"",
        "Завершение рассмотрения выбранных ЗЦИ невозможно",
        "Завершение рассмотрения возможно только для ЗЦИ со статусом \"Приём закрыт\" или \"Приём закрыт досрочно\". Скорректируйте выбор",
        ok,
        err,
    );
    let item_list = items_of(&updated);
    StatusOutcome { updated, item_list, messages }
}

/// A request can be deleted while it is a draft or its transfer failed.
pub open spec fn deletable(s: RequestStatus) -> bool {
    s == RequestStatus::TcpProject || s == RequestStatus::TransferToEtpError
}

/// The refusal for requests that another user created, when deleting.
pub open spec fn delete_authority_refusal(items: Seq<ParamItemView>) -> MessageView {
    MessageView {
        item_list: items,
        description: "Невозможно удалить ЗЦИ, созданный другим пользователем"@,
        ..plain(MessageKind::Error, "Нет полномочий"@)
    }
}

/// Deletes requests. When some request was created by another user the
/// operation fails with the refusal. Otherwise drafts and requests whose
/// transfer failed become deleted, changed by the user at the moment, and
/// the others are refused as published.
pub fn delete_requests(headers: Vec<RequestHeader>, user_id: i32, now: i64) -> (res: Result<StatusOutcome, TcpError>)
    ensures
        ({
            let foreign = headers@.filter(|h: RequestHeader| h.created_by != user_id).map_values(
                |h: RequestHeader| header_param(h),
            );
            let yes = headers@.filter(status_in(RequestStatus::TcpProject, RequestStatus::TransferToEtpError));
            let no = headers@.filter(status_not_in(RequestStatus::TcpProject, RequestStatus::TransferToEtpError));
            &&& (foreign.len() > 0 <==> res is Err)
            &&& res matches Err(e) ==> e matches TcpError::Business(m) && m.wf()
                && m@.messages == seq![delete_authority_refusal(foreign)]
            &&& res matches Ok(o) ==> {
                &&& o.updated@ == yes.map_values(
                    |h: RequestHeader| with_status(h, RequestStatus::Deleted, user_id, now),
                )
                &&& o.item_list@ == o.updated@.map_values(|h: RequestHeader| complete_item_of(h))
                &&& o.messages.wf()
                &&& o.messages@.messages == success_and_error_messages(
                    "Выбранные ЗЦИ удалены"@,
                    "Выбранные ЗЦИ опубликованы на ЭТП ГПБ. Удаление невозможно"@,
                    ""@,
                    yes.map_values(|h: RequestHeader| header_id_param(h)),
                    no.map_values(|h: RequestHeader| header_id_param(h)),
                )
            }
        }),
{
    let foreign = foreign_headers(&headers, user_id);
    if foreign.len() > 0 {
        let m = Message::error(owned("Нет полномочий")).with_param_items(foreign).with_param_description(owned(
            "Невозможно удалить ЗЦИ, созданный другим пользователем",
        ));
        return Err(TcpError::Business(Messages::from_message(m)));
    }
    let (updated, ok, err) = apply_status(
        headers,
        RequestStatus::TcpProject,
        RequestStatus::TransferToEtpError,
        RequestStatus::Deleted,
        user_id,
        now,
    );
    let messages = messages_from_success_and_errors(
        "Выбранные ЗЦИ удалены",
        "Выбранные ЗЦИ опубликованы на ЭТП ГПБ. Удаление невозможно",
        "",
        ok,
        err,
    );
    let item_list = items_of(&updated);
    Ok(StatusOutcome { updated, item_list, messages })
}

} // verus!

verus! {

/// Acceptance of proposals ends for a request whose term is over.
pub open spec fn acceptance_expired(h: RequestHeader, now: i64) -> bool {
    h.status_id == RequestStatus::AcceptingIncomingTCPs && (h.end_date matches Some(d) && d <= now)
}

/// The background closing of acceptance: of the given headers, those that
/// accept proposals and whose end date is not after now get the status
/// "Приём закрыт", changed by the technical user at the moment.
#[verifier::loop_isolation(false)]
pub fn request_header_closing(headers: Vec<RequestHeader>, tech_user_id: i32, now: i64) -> (r: Vec<RequestHeader>)
    ensures
        r@ == headers@.filter(|h: RequestHeader| acceptance_expired(h, now)).map_values(
            |h: RequestHeader| with_status(h, RequestStatus::EntryClosed, tech_user_id, now),
        ),
{
    let ghost hs = headers@;
    let ghost pred = |h: RequestHeader| acceptance_expired(h, now);
    let ghost upd = |h: RequestHeader| with_status(h, RequestStatus::EntryClosed, tech_user_id, now);
    let mut r: Vec<RequestHeader> = Vec::new();
    for h in it: headers.into_iter()
        invariant
            it.seq() == hs,
            r@ == hs.take(it.index() as int).filter(pred).map_values(upd),
    {
        let ghost i = it.index();
        proof {
            assert(h == hs[i as int]);
            lemma_filter_take_step(hs, i as int, pred);
            let f = hs.take(i as int).filter(pred);
            assert(f.push(h).map_values(upd) =~= f.map_values(upd).push(upd(h)));
        }
        let expired = h.status_id == RequestStatus::AcceptingIncomingTCPs && match h.end_date {
            Some(d) => d <= now,
            None => false,
        };
        if expired {
            let mut h = h;
            h.changed_at = now;
            h.changed_by = tech_user_id;
            h.status_id = RequestStatus::EntryClosed;
            r.push(h);
        }
    }
    proof {
        lemma_take_all(hs);
    }
    r
}

/// What the trading platform's confirmation changes in a request header.
pub struct ConfirmationUpdate {
    pub header: RequestHeader,
    /// Whether the start date is saved too (only on success).
    pub with_start_date: bool,
}

/// The error for a status that the confirmation may not carry.
pub open spec fn unknown_status_text(status: Seq<char>) -> Seq<char> {
    "CommercialOfferRequestConfirmation: неизвестный статус '"@ + status + "'"@
}

/// Takes the trading platform's confirmation of a published request. A
/// request whose transfer already failed stays as it is (`None`). On
/// "success" (in any letter case) it accepts proposals from now; on "error"
/// its transfer failed; any other status is an error.
pub fn request_confirmation(
    header: RequestHeader,
    status: &str,
    user_id: i32,
    now: i64,
) -> (res: Result<Option<ConfirmationUpdate>, TcpError>)
    ensures
        header.status_id == RequestStatus::TransferToEtpError ==> res matches Ok(None),
        header.status_id != RequestStatus::TransferToEtpError ==> {
            if lowercase(status@) == "success"@ {
                res matches Ok(Some(u)) && u.with_start_date && u.header == RequestHeader {
                    start_date: Some(now),
                    ..with_status(header, RequestStatus::AcceptingIncomingTCPs, user_id, now)
                }
            } else if lowercase(status@) == "error"@ {
                res matches Ok(Some(u)) && !u.with_start_date && u.header == RequestHeader {
                    start_date: None,
                    ..with_status(header, RequestStatus::TransferToEtpError, user_id, now)
                }
            } else {
                res matches Err(TcpError::InternalError(t)) && t@ == unknown_status_text(status@)
            }
        },
{
    if header.status_id == RequestStatus::TransferToEtpError {
        return Ok(None);
    }
    let lower = to_lowercase(status);
    let (new_status, start_date, with_start_date) = if lower == owned("success") {
        (RequestStatus::AcceptingIncomingTCPs, Some(now), true)
    } else if lower == owned("error") {
        (RequestStatus::TransferToEtpError, None, false)
    } else {
        return Err(TcpError::InternalError(concat3(
            "CommercialOfferRequestConfirmation: неизвестный статус '",
            status,
            "'",
        )));
    };
    let mut header = header;
    header.status_id = new_status;
    header.start_date = start_date;
    header.changed_at = now;
    header.changed_by = user_id;
    Ok(Some(ConfirmationUpdate { header, with_start_date }))
}

} // verus!
