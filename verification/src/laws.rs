//! Properties that hold across the service's operations.
use vstd::prelude::*;

use crate::approve::approved;
use crate::check_request::{
    attach_message, check_messages, close_reason_message, document_messages, fill_field_message, fill_message,
    has_document, header_field_messages, is_private, msg_if, private_messages, text_missing, type_missing,
    UpdatePriceInformationRequest,
};
use crate::model::FolderCategory;
use crate::grouping::{opt_positions_of, positions_of};
use crate::merge::{left_over, named_before, takes_over};
use crate::messages::{has_error, kind_of, severity, MessageKind, MessageView};
use crate::model::{ProposalHeader, RequestHeader, RequestStatus, ReviewResult};
use crate::pricing::reviewed;
use crate::request_status::acceptance_expired;
use crate::sorting::{before, is_stable_order};
use crate::model::with_status;
use crate::approve::{all_header_errors, approve_check_messages, header_errors, HierarchyItem, JoinedProposal};
use crate::commercial_offer::{offer_item, PriceInfo};
use crate::messages::ParamItemView;
use crate::model::ProposalItem;
use crate::publication::publish_check_messages;
use crate::request_list::{row_passes, FilterValue, RequestListRow, RowFilter};
use crate::seqs::concat_all;
use crate::text::decimal;
use crate::update_proposal::{form_item_errors, update_check_messages, ProposalItemForm, UpdateProposalReq};

verus! {

/// Ordering positions stably by a key is deterministic: two stable orders
/// of the same keys are the same order.
pub proof fn law_stable_order_unique(keys: Seq<i64>, o1: Seq<usize>, o2: Seq<usize>)
    requires
        is_stable_order(keys, o1),
        is_stable_order(keys, o2),
    ensures
        o1 == o2,
    decreases o1.len(),
{
    // both list the same positions; the first of each is the least position
    // in the order `before`, so they agree position by position
    assert forall|i: int| 0 <= i < o1.len() implies o1[i] == o2[i] by {
        lemma_rank(keys, o1, o2, i);
    }
    assert(o1 =~= o2);
}

/// Two stable orders of the same keys put each position at the same place.
proof fn lemma_rank(keys: Seq<i64>, o1: Seq<usize>, o2: Seq<usize>, i: int)
    requires
        is_stable_order(keys, o1),
        is_stable_order(keys, o2),
        0 <= i < o1.len(),
    ensures
        o1[i] == o2[i],
{
    let x = o1[i] as int;
    lemma_order_covers(keys, o2, x);
    let j = choose|j: int| 0 <= j < o2.len() && (#[trigger] o2[j]) as int == x;
    lemma_count_before(keys, o1, o2, i, j);
    lemma_count_before(keys, o2, o1, j, i);
}

/// `before` never holds both ways.
proof fn lemma_before_asym(keys: Seq<i64>, a: int, b: int)
    ensures
        !(before(keys, a, b) && before(keys, b, a)),
{
}

/// A stable order lists every position of the keys.
proof fn lemma_order_covers(keys: Seq<i64>, o: Seq<usize>, x: int)
    requires
        is_stable_order(keys, o),
        0 <= x < keys.len(),
    ensures
        exists|j: int| 0 <= j < o.len() && (#[trigger] o[j]) as int == x,
{
    let v = o.map_values(|p: usize| p as int);
    assert forall|a: int| 0 <= a < v.len() implies 0 <= #[trigger] v[a] < keys.len() by {}
    assert(v.no_duplicates()) by {
        assert forall|a: int, b: int| 0 <= a < v.len() && 0 <= b < v.len() && a != b implies v[a] != v[b] by {
            assert(o[a] != o[b]);
        }
    }
    crate::proposal_view::lemma_perm_covers(v, keys.len() as int, x);
    let a = choose|a: int| 0 <= a < v.len() && v[a] == x;
    assert(o[a] as int == x);
}

/// A position sits no later in one stable order than in another: the
/// positions before it in the first all go before it, so they all precede
/// it in the second too.
proof fn lemma_count_before(keys: Seq<i64>, o1: Seq<usize>, o2: Seq<usize>, i: int, j: int)
    requires
        is_stable_order(keys, o1),
        is_stable_order(keys, o2),
        0 <= i < o1.len(),
        0 <= j < o2.len(),
        o1[i] == o2[j],
    ensures
        i <= j,
{
    let x = o1[i] as int;
    let s1 = o1.take(i).map_values(|p: usize| p as int);
    let s2 = o2.take(j).map_values(|p: usize| p as int);
    assert forall|a: int| 0 <= a < s1.len() implies s2.contains(#[trigger] s1[a]) by {
        let y = o1[a] as int;
        assert(s1[a] == y);
        assert(before(keys, y, x));
        lemma_order_covers(keys, o2, y);
        let b = choose|b: int| 0 <= b < o2.len() && (#[trigger] o2[b]) as int == y;
        if b == j {
            assert(o1[a] != o1[i]);
        } else if b > j {
            assert(before(keys, o2[j] as int, o2[b] as int));
            lemma_before_asym(keys, x, y);
        }
        assert(b < j);
        assert(s2[b] == y);
    }
    assert(s1.no_duplicates()) by {
        assert forall|a: int, b: int| 0 <= a < s1.len() && 0 <= b < s1.len() && a != b implies s1[a] != s1[b] by {
            assert(o1[a] != o1[b]);
        }
    }
    s1.unique_seq_to_set();
    s2.lemma_cardinality_of_set();
    vstd::seq_lib::seq_to_set_is_finite(s2);
    assert(s1.to_set().subset_of(s2.to_set())) by {
        assert forall|y: int| s1.to_set().contains(y) implies s2.to_set().contains(y) by {
            let a = choose|a: int| 0 <= a < s1.len() && s1[a] == y;
        }
    }
    vstd::set_lib::lemma_len_subset(s1.to_set(), s2.to_set());
}

/// When a request is saved, each stored record is taken over by one entry
/// at most.
pub proof fn law_take_over_unique(w: Seq<Option<u128>>, olds: Seq<u128>, p: int, q: int)
    requires
        0 <= p < w.len(),
        0 <= q < w.len(),
        takes_over(w, olds, p),
        takes_over(w, olds, q),
        w[p] == w[q],
    ensures
        p == q,
{
    if p < q {
        assert(named_before(w, q, w[q]->0));
    } else if q < p {
        assert(named_before(w, p, w[p]->0));
    }
}

/// When a request is saved, a stored record is deleted exactly when no
/// entry takes it over.
pub proof fn law_left_over_iff_not_taken(w: Seq<Option<u128>>, olds: Seq<u128>, u: u128)
    requires
        olds.contains(u),
    ensures
        left_over(w, olds, u) <==> !exists|p: int| 0 <= p < w.len() && #[trigger] takes_over(w, olds, p) && w[p] == Some(u),
{
    if !left_over(w, olds, u) {
        // the first entry that names it takes it over
        let q = choose|q: int| 0 <= q < w.len() && #[trigger] w[q] == Some(u);
        lemma_first_naming(w, u, q);
        let f = choose|f: int| 0 <= f <= q && w[f] == Some(u) && !named_before(w, f, u);
        assert(takes_over(w, olds, f));
    }
    if exists|p: int| 0 <= p < w.len() && #[trigger] takes_over(w, olds, p) && w[p] == Some(u) {
        let p = choose|p: int| 0 <= p < w.len() && #[trigger] takes_over(w, olds, p) && w[p] == Some(u);
        assert(named_before(w, w.len() as int, u));
    }
}

/// Among the entries up to `q` that name `u` there is a first one.
proof fn lemma_first_naming(w: Seq<Option<u128>>, u: u128, q: int)
    requires
        0 <= q < w.len(),
        w[q] == Some(u),
    ensures
        exists|f: int| 0 <= f <= q && w[f] == Some(u) && !named_before(w, f, u),
    decreases q,
{
    if named_before(w, q, u) {
        let r = choose|r: int| 0 <= r < q && #[trigger] w[r] == Some(u);
        lemma_first_naming(w, u, r);
    } else {
        assert(0 <= q <= q && w[q] == Some(u) && !named_before(w, q, u));
    }
}

/// Saving a request that has no stored records creates every record anew
/// and deletes nothing.
pub proof fn law_new_request_takes_nothing(w: Seq<Option<u128>>, p: int, u: u128)
    ensures
        !takes_over(w, Seq::empty(), p),
        !left_over(w, Seq::empty(), u),
{
}

/// The background closing of acceptance is idempotent: the headers it
/// closed are not closed again by a second run at the same moment.
pub proof fn law_closing_idempotent(headers: Seq<RequestHeader>, tech_user_id: i32, now: i64)
    ensures
        headers.filter(|h: RequestHeader| acceptance_expired(h, now)).map_values(
            |h: RequestHeader| with_status(h, RequestStatus::EntryClosed, tech_user_id, now),
        ).filter(|h: RequestHeader| acceptance_expired(h, now)).len() == 0,
{
    let closed = headers.filter(|h: RequestHeader| acceptance_expired(h, now)).map_values(
        |h: RequestHeader| with_status(h, RequestStatus::EntryClosed, tech_user_id, now),
    );
    let pred = |h: RequestHeader| acceptance_expired(h, now);
    assert forall|i: int| 0 <= i < closed.len() implies !pred(#[trigger] closed[i]) by {}
    lemma_filter_none(closed, pred);
}

/// Filtering by a predicate that no element meets leaves nothing.
proof fn lemma_filter_none<A>(s: Seq<A>, pred: spec_fn(A) -> bool)
    requires
        forall|i: int| 0 <= i < s.len() ==> !pred(#[trigger] s[i]),
    ensures
        s.filter(pred).len() == 0,
    decreases s.len(),
{
    reveal(Seq::filter);
    if s.len() > 0 {
        lemma_filter_none(s.drop_last(), pred);
    }
}

/// The statuses that the operations leave behind lead on through the life
/// of a request: a request whose acceptance was closed (by the background
/// task or early) can be completed, and a deleted or reviewed request is
/// touched by no operation.
pub proof fn law_request_lifecycle(h: RequestHeader, user_id: i32, now: i64)
    ensures
        crate::request_status::completable(with_status(h, RequestStatus::EntryClosed, user_id, now).status_id),
        crate::request_status::completable(with_status(h, RequestStatus::EntryClosedEarly, user_id, now).status_id),
        (h.status_id == RequestStatus::Deleted || h.status_id == RequestStatus::Reviewed) ==> {
            &&& !crate::close::closable(h.status_id)
            &&& !crate::request_status::completable(h.status_id)
            &&& !crate::request_status::deletable(h.status_id)
            &&& !acceptance_expired(h, now)
        },
{
}

/// Marking a proposal for the price analysis twice with the same choice
/// gives what marking it once gives.
pub proof fn law_review_idempotent(h: ProposalHeader, result: ReviewResult, user_id: i32, now: i64)
    ensures
        reviewed(reviewed(h, result, user_id, now), result, user_id, now) == reviewed(h, result, user_id, now),
{
}

/// Approving a proposal twice at the same moment gives what approving it
/// once gives; in particular its receive date stays the first one.
pub proof fn law_approve_idempotent(h: ProposalHeader, user_id: i32, now: i64)
    ensures
        approved(approved(h, user_id, now), user_id, now) == approved(h, user_id, now),
        h.receive_date is Some ==> approved(h, user_id, now).receive_date == h.receive_date,
{
}

/// The check of a request blocks saving (it has an error) exactly when the
/// request is a closed one without its justification; every other message
/// of the check is information.
pub proof fn law_check_blocks_only_unjustified_private(r: UpdatePriceInformationRequest)
    ensures
        has_error(check_messages(r)) <==> (is_private(r.header.type_request_id) && text_missing(r.header.request_type_text)),
{
    let h = r.header;
    let hm = header_field_messages(h);
    let pm = private_messages(h, r.partner_list@.len());
    let dm = document_messages(r.attachment_list@);
    let lm = msg_if(r.item_list@.len() == 0, fill_message("данные спецификации"@));
    assert(!has_error(hm)) by {
        let m1 = msg_if(type_missing(h.type_request_id), fill_field_message("Тип ЗЦИ"@, "type_request_id"@));
        let m2 = msg_if(text_missing(h.request_subject), fill_field_message("Предмет ЗЦИ"@, "request_subject"@));
        let m3 = msg_if(text_missing(h.organizer_name), fill_field_message("Контактное лицо"@, "organizer_name"@));
        let m4 = msg_if(text_missing(h.organizer_mail), fill_field_message("Электронный адрес"@, "organizer_mail"@));
        let m5 = msg_if(text_missing(h.organizer_phone), fill_field_message("Телефон"@, "organizer_phone"@));
        let m6 = msg_if(text_missing(h.organizer_location), fill_field_message("Местонахождение"@, "organizer_location"@));
        lemma_no_error_msg_if(type_missing(h.type_request_id), fill_field_message("Тип ЗЦИ"@, "type_request_id"@));
        lemma_no_error_msg_if(text_missing(h.request_subject), fill_field_message("Предмет ЗЦИ"@, "request_subject"@));
        lemma_no_error_msg_if(text_missing(h.organizer_name), fill_field_message("Контактное лицо"@, "organizer_name"@));
        lemma_no_error_msg_if(text_missing(h.organizer_mail), fill_field_message("Электронный адрес"@, "organizer_mail"@));
        lemma_no_error_msg_if(text_missing(h.organizer_phone), fill_field_message("Телефон"@, "organizer_phone"@));
        lemma_no_error_msg_if(text_missing(h.organizer_location), fill_field_message("Местонахождение"@, "organizer_location"@));
        lemma_has_error_concat(m1, m2);
        lemma_has_error_concat(m1 + m2, m3);
        lemma_has_error_concat(m1 + m2 + m3, m4);
        lemma_has_error_concat(m1 + m2 + m3 + m4, m5);
        lemma_has_error_concat(m1 + m2 + m3 + m4 + m5, m6);
    }
    assert(!has_error(dm)) by {
        lemma_no_error_msg_if(
            !has_document(r.attachment_list@, FolderCategory::TechnicalSpecification),
            attach_message(FolderCategory::TechnicalSpecification),
        );
        lemma_no_error_msg_if(
            !has_document(r.attachment_list@, FolderCategory::ContractDocuments),
            attach_message(FolderCategory::ContractDocuments),
        );
        lemma_has_error_concat(
            msg_if(!has_document(r.attachment_list@, FolderCategory::TechnicalSpecification), attach_message(FolderCategory::TechnicalSpecification)),
            msg_if(!has_document(r.attachment_list@, FolderCategory::ContractDocuments), attach_message(FolderCategory::ContractDocuments)),
        );
    }
    assert(!has_error(lm)) by {
        lemma_no_error_msg_if(r.item_list@.len() == 0, fill_message("данные спецификации"@));
    }
    assert(has_error(pm) <==> (is_private(h.type_request_id) && text_missing(h.request_type_text))) by {
        if is_private(h.type_request_id) {
            let a = msg_if(text_missing(h.request_type_text), close_reason_message());
            let b = msg_if(r.partner_list@.len() == 0, fill_message("данные организаций"@));
            lemma_no_error_msg_if(r.partner_list@.len() == 0, fill_message("данные организаций"@));
            lemma_has_error_concat(a, b);
            if text_missing(h.request_type_text) {
                assert(a[0].kind == MessageKind::Error);
            } else {
                assert(a.len() == 0);
            }
        } else {
            assert(pm.len() == 0);
        }
    }
    lemma_has_error_concat(hm, pm);
    lemma_has_error_concat(hm + pm, dm);
    lemma_has_error_concat(hm + pm + dm, lm);
}

/// A message given under a condition is no error when the message is information.
proof fn lemma_no_error_msg_if(c: bool, m: MessageView)
    requires
        m.kind == MessageKind::Information,
    ensures
        !has_error(msg_if(c, m)),
{
}

/// Two lists together hold an error exactly when one of them does.
proof fn lemma_has_error_concat(a: Seq<MessageView>, b: Seq<MessageView>)
    ensures
        has_error(a + b) <==> (has_error(a) || has_error(b)),
{
    if has_error(a + b) {
        let i = choose|i: int| 0 <= i < (a + b).len() && (#[trigger] (a + b)[i]).kind == MessageKind::Error;
        if i < a.len() {
            assert(a[i] == (a + b)[i]);
        } else {
            assert(b[i - a.len()] == (a + b)[i]);
        }
    }
    if has_error(a) {
        let i = choose|i: int| 0 <= i < a.len() && (#[trigger] a[i]).kind == MessageKind::Error;
        assert((a + b)[i] == a[i]);
    }
    if has_error(b) {
        let i = choose|i: int| 0 <= i < b.len() && (#[trigger] b[i]).kind == MessageKind::Error;
        assert((a + b)[a.len() + i] == b[i]);
    }
}

/// A list of messages is at least as severe as any message added to it,
/// and a list that holds an error is of the kind error or worse.
pub proof fn law_kind_monotone(v: Seq<MessageView>, m: MessageView)
    ensures
        severity(kind_of(v.push(m))) >= severity(kind_of(v)),
        severity(kind_of(v.push(m))) >= severity(m.kind),
        has_error(v) ==> severity(kind_of(v)) >= severity(MessageKind::Error),
    decreases v.len(),
{
    assert(v.push(m).drop_last() =~= v);
    if has_error(v) {
        let i = choose|i: int| 0 <= i < v.len() && (#[trigger] v[i]).kind == MessageKind::Error;
        if i == v.len() - 1 {
            assert(v.drop_last().push(v.last()) =~= v);
            law_kind_monotone(v.drop_last(), v.last());
        } else {
            assert(v.drop_last()[i] == v[i]);
            assert(has_error(v.drop_last()));
            assert(v.drop_last().push(v.last()) =~= v);
            law_kind_monotone(v.drop_last(), v.last());
        }
    }
}

/// A place is among the places of a key exactly when the entry there has
/// that key: each request is in the group of its own plan and in no other.
pub proof fn law_plan_groups_partition(plans: Seq<Option<u128>>, k: u128, h: int)
    requires
        0 <= h < plans.len(),
        plans.len() <= usize::MAX,
    ensures
        opt_positions_of(plans, k).contains(h as usize) <==> plans[h] == Some(k),
    decreases plans.len(),
{
    let r = opt_positions_of(plans.drop_last(), k);
    if h < plans.len() - 1 {
        law_plan_groups_partition(plans.drop_last(), k, h);
        assert(plans.drop_last()[h] == plans[h]);
        if r.contains(h as usize) {
            let q = choose|q: int| 0 <= q < r.len() && r[q] == h as usize;
            if plans.last() == Some(k) {
                assert(opt_positions_of(plans, k)[q] == h as usize);
            } else {
                assert(opt_positions_of(plans, k)[q] == h as usize);
            }
        }
        if opt_positions_of(plans, k).contains(h as usize) {
            let q = choose|q: int| 0 <= q < opt_positions_of(plans, k).len() && opt_positions_of(plans, k)[q] == h as usize;
            if plans.last() == Some(k) && q == r.len() {
                assert(h as usize == (plans.len() - 1) as usize);
            } else {
                assert(r[q] == h as usize);
            }
        }
    } else {
        if plans.last() == Some(k) {
            assert(opt_positions_of(plans, k)[r.len() as int] == h as usize);
        } else {
            if opt_positions_of(plans, k).contains(h as usize) {
                let q = choose|q: int| 0 <= q < r.len() && r[q] == h as usize;
                crate::grouping::lemma_opt_positions_below(plans.drop_last(), k, q);
            }
        }
    }
}

} // verus!

verus! {

/// A list of messages is at least as severe as each of its messages.
proof fn lemma_kind_at_least(v: Seq<MessageView>, i: int)
    requires
        0 <= i < v.len(),
    ensures
        severity(kind_of(v)) >= severity(v[i].kind),
    decreases v.len(),
{
    if i < v.len() - 1 {
        lemma_kind_at_least(v.drop_last(), i);
        assert(v.drop_last()[i] == v[i]);
    }
}

/// A list of the kind error holds an error.
proof fn lemma_error_kind_has_error(v: Seq<MessageView>)
    requires
        kind_of(v) == MessageKind::Error,
    ensures
        has_error(v),
    decreases v.len(),
{
    if v.last().kind != MessageKind::Error {
        lemma_error_kind_has_error(v.drop_last());
        let i = choose|i: int| 0 <= i < v.drop_last().len() && (#[trigger] v.drop_last()[i]).kind == MessageKind::Error;
        assert(v[i] == v.drop_last()[i]);
    } else {
        assert(v[v.len() - 1].kind == MessageKind::Error);
    }
}

/// A request is published only when its check is clean: whenever the check
/// of the request gives a message that is neither a success nor neutral
/// (information, a warning, an error or a stop), the check before publishing
/// holds an error, whatever the end date, so publishing is refused.
pub proof fn law_publish_refuses_unclean_check(checked: Seq<MessageView>, end_date: Option<Option<i64>>, i: int)
    requires
        0 <= i < checked.len(),
        checked[i].kind != MessageKind::Success,
        checked[i].kind != MessageKind::Neutral,
    ensures
        has_error(publish_check_messages(checked, end_date)),
{
    let k = kind_of(checked);
    lemma_kind_at_least(checked, i);
    let conv = if k == MessageKind::Success || k == MessageKind::Error {
        checked
    } else {
        checked.map_values(|m: MessageView| MessageView { kind: MessageKind::Error, ..m })
    };
    if k == MessageKind::Error {
        lemma_error_kind_has_error(checked);
    } else {
        assert(k != MessageKind::Success);
        assert(conv[i].kind == MessageKind::Error);
    }
    assert(has_error(conv));
    lemma_has_error_concat(
        conv,
        msg_if(
            !(end_date matches Some(Some(_))),
            MessageView { fields: seq!["end_date"@], ..crate::messages::plain(MessageKind::Error, "Заполните поле \"Дата окончания\""@) },
        ),
    );
}

/// Before publishing, a check that holds no error is turned whole into
/// errors unless it gave only successes: each of its messages comes out as
/// an error.
pub proof fn law_publish_turns_information_into_errors(checked: Seq<MessageView>, end_date: Option<Option<i64>>, i: int)
    requires
        0 <= i < checked.len(),
        !has_error(checked),
        checked[i].kind != MessageKind::Success,
        checked[i].kind != MessageKind::Neutral,
    ensures
        forall|j: int| 0 <= j < checked.len() ==> (#[trigger] publish_check_messages(checked, end_date)[j]).kind == MessageKind::Error,
{
    let k = kind_of(checked);
    lemma_kind_at_least(checked, i);
    if k == MessageKind::Error {
        lemma_error_kind_has_error(checked);
    }
}

/// A row passes a filter of the organizations with a proposal ("tkp_in")
/// exactly when some value of the filter is one of those organizations,
/// whatever organizations the request names otherwise.
pub proof fn law_tkp_in_filter(row: RequestListRow, f: RowFilter)
    requires
        f.field@ == "tkp_in"@,
    ensures
        row_passes(row, f) <==> exists|i: int, j: int|
            0 <= i < f.values@.len() && 0 <= j < row.extra.tkp_in@.len() && #[trigger] f.values@[i] == FilterValue::Int(
                #[trigger] row.extra.tkp_in@[j],
            ),
{
    reveal_strlit("tkp_in");
    reveal_strlit("supplier_list");
    assert("tkp_in"@.len() != "supplier_list"@.len());
}

/// A row passes a filter of the request's organizations ("supplier_list")
/// exactly when some value of the filter is one of them.
pub proof fn law_supplier_list_filter(row: RequestListRow, f: RowFilter)
    requires
        f.field@ == "supplier_list"@,
    ensures
        row_passes(row, f) <==> exists|i: int, j: int|
            0 <= i < f.values@.len() && 0 <= j < row.extra.supplier_list@.len() && #[trigger] f.values@[i]
                == FilterValue::Int(#[trigger] row.extra.supplier_list@[j]),
{
}

/// A row passes a filter of the reviewed and received counts ("tkp_done")
/// exactly when the filter's values are those counts, in order.
pub proof fn law_tkp_done_filter(row: RequestListRow, f: RowFilter)
    requires
        f.field@ == "tkp_done"@,
    ensures
        row_passes(row, f) <==> (f.values@.len() == row.extra.tkp_done@.len() && forall|i: int|
            0 <= i < f.values@.len() ==> #[trigger] f.values@[i] == FilterValue::Int(row.extra.tkp_done@[i])),
{
    reveal_strlit("tkp_done");
    reveal_strlit("tkp_in");
    reveal_strlit("supplier_list");
    assert("tkp_done"@.len() != "supplier_list"@.len());
    assert("tkp_done"@ != "tkp_in"@) by {
        assert("tkp_done"@[4] != "tkp_in"@[4]);
    }
}

/// Every message of one of the lists joined is among the joined messages.
proof fn lemma_concat_all_contains<A>(s: Seq<Seq<A>>, k: int, j: int)
    requires
        0 <= k < s.len(),
        0 <= j < s[k].len(),
    ensures
        concat_all(s).contains(s[k][j]),
    decreases s.len(),
{
    if k < s.len() - 1 {
        lemma_concat_all_contains(s.drop_last(), k, j);
        assert(s.drop_last()[k] == s[k]);
        let q = choose|q: int| 0 <= q < concat_all(s.drop_last()).len() && concat_all(s.drop_last())[q] == s[k][j];
        assert((concat_all(s.drop_last()) + s.last())[q] == s[k][j]);
    } else {
        let a = concat_all(s.drop_last());
        assert((a + s.last())[a.len() + j] == s[k][j]);
    }
}

/// A message of either list is a message of the two joined.
proof fn lemma_contains_concat<A>(a: Seq<A>, b: Seq<A>, x: A)
    ensures
        a.contains(x) ==> (a + b).contains(x),
        b.contains(x) ==> (a + b).contains(x),
{
    if a.contains(x) {
        let q = choose|q: int| 0 <= q < a.len() && a[q] == x;
        assert((a + b)[q] == x);
    }
    if b.contains(x) {
        let q = choose|q: int| 0 <= q < b.len() && b[q] == x;
        assert((a + b)[a.len() + q] == x);
    }
}

/// The message that asks for the price of a position being saved.
pub open spec fn price_missing_message(uuid: Option<u128>) -> MessageView {
    MessageView {
        kind: MessageKind::Information,
        text: "Заполните поле Цена Организации (без НДС)"@,
        fields: Seq::empty(),
        item_list: seq![ParamItemView { id: Seq::empty(), uuid }],
        description: Seq::empty(),
    }
}

/// A proposal cannot be saved with a position without the organization's
/// price: for every such position, whatever its VAT rate or other fields,
/// the check asks for the price of that position, so the check is not
/// empty and saving is refused.
pub proof fn law_update_proposal_requires_price(req: UpdateProposalReq, k: int)
    requires
        0 <= k < req.item_list@.len(),
        req.item_list@[k].supplier_price is None,
    ensures
        update_check_messages(req).contains(price_missing_message(req.item_list@[k].uuid)),
        update_check_messages(req).len() > 0,
{
    let it = req.item_list@[k];
    let m = price_missing_message(it.uuid);
    let e = form_item_errors(it);
    let p0 = msg_if(it.request_item_uuid is None, crate::update_proposal::form_item_message("UUID позиции ЗЦИ"@, it.uuid));
    reveal_strlit("Заполните поле ");
    reveal_strlit("Цена Организации (без НДС)");
    reveal_strlit("Заполните поле Цена Организации (без НДС)");
    assert("Заполните поле "@ + "Цена Организации (без НДС)"@ =~= "Заполните поле Цена Организации (без НДС)"@);
    let p1 = msg_if(it.supplier_price is None, crate::update_proposal::form_item_message("Цена Организации (без НДС)"@, it.uuid));
    assert(p1[0] == m);
    assert((p0 + p1)[p0.len() as int] == m);
    assert(e[p0.len() as int] == m);
    let all = req.item_list@.map_values(|i: ProposalItemForm| form_item_errors(i));
    assert(all[k] == e);
    lemma_concat_all_contains(all, k, p0.len() as int);
    let head = msg_if(req.supplier_id is None, crate::messages::plain(MessageKind::Error, "Выберите организацию"@))
        + crate::update_proposal::form_header_errors(req.header);
    let tail = msg_if(
        !crate::update_proposal::has_tender_attachment(req.attachment_list@),
        crate::messages::plain(MessageKind::Information, "Прикрепите Документ ТКП"@),
    );
    lemma_contains_concat(head, concat_all(all), m);
    lemma_contains_concat(head + concat_all(all), tail, m);
}

/// The error that names a proposal whose validity end date is missing.
pub open spec fn end_date_missing_message(h: ProposalHeader) -> MessageView {
    MessageView {
        kind: MessageKind::Error,
        text: "Заполните поле Окончание срока действия"@,
        fields: Seq::empty(),
        item_list: seq![ParamItemView { id: decimal(h.id as int), uuid: Some(h.uuid) }],
        description: Seq::empty(),
    }
}

/// No proposal is approved without the end of its validity: whenever one of
/// the proposals has no end date, whatever its start date and the other
/// fields, the checks name it with an error, so approving fails.
pub proof fn law_approve_requires_end_date(data: Seq<JoinedProposal>, hierarchy: Seq<HierarchyItem>, k: int)
    requires
        0 <= k < data.len(),
        data[k].header.end_date is None,
    ensures
        approve_check_messages(data, hierarchy).contains(end_date_missing_message(data[k].header)),
        has_error(approve_check_messages(data, hierarchy)),
{
    let h = data[k].header;
    let m = end_date_missing_message(h);
    let e = header_errors(h);
    let p0 = msg_if(h.supplier_uuid == 0, crate::approve::missing_header_message("Организация"@, h));
    let p1 = msg_if(h.start_date is None, crate::approve::missing_header_message("Начало срока действия"@, h));
    reveal_strlit("Заполните поле ");
    reveal_strlit("Окончание срока действия");
    reveal_strlit("Заполните поле Окончание срока действия");
    assert("Заполните поле "@ + "Окончание срока действия"@ =~= "Заполните поле Окончание срока действия"@);
    let p2 = msg_if(h.end_date is None, crate::approve::missing_header_message("Окончание срока действия"@, h));
    assert(p2[0] == m);
    assert((p0 + p1 + p2)[(p0.len() + p1.len()) as int] == m);
    assert(e[(p0.len() + p1.len()) as int] == m);
    let all = data.map_values(|p: JoinedProposal| header_errors(p.header));
    assert(all[k] == e);
    lemma_concat_all_contains(all, k, (p0.len() + p1.len()) as int);
    assert(all_header_errors(data) == concat_all(all));
    let rest = crate::approve::all_item_errors(data) + msg_if(
        !crate::approve::has_tcp_document(crate::approve::hierarchy_entries(hierarchy)),
        crate::messages::plain(MessageKind::Error, "Прикрепите Документ ТКП"@),
    );
    lemma_contains_concat(all_header_errors(data), crate::approve::all_item_errors(data), m);
    lemma_contains_concat(
        all_header_errors(data) + crate::approve::all_item_errors(data),
        msg_if(
            !crate::approve::has_tcp_document(crate::approve::hierarchy_entries(hierarchy)),
            crate::messages::plain(MessageKind::Error, "Прикрепите Документ ТКП"@),
        ),
        m,
    );
    let c = approve_check_messages(data, hierarchy);
    let q = choose|q: int| 0 <= q < c.len() && c[q] == m;
    assert(c[q].kind == MessageKind::Error);
}

/// A position stored from an arriving proposal carries the proposal's
/// amounts each in its own place: when the position can be delivered its
/// price is the offered price, its sum without VAT the cost and its sum
/// with VAT the cost with VAT; otherwise it holds none of them.
pub proof fn law_offer_position_amounts(it: ProposalItem, p: PriceInfo, proposal_uuid: u128, request_item_uuid: u128)
    requires
        offer_item(it, p, proposal_uuid, request_item_uuid),
    ensures
        p.impossible_to_do == Some(true) ==> {
            &&& it.price == Some(p.price)
            &&& it.sum_excluded_vat == Some(p.cost)
            &&& it.sum_included_vat == Some(p.cost_nds)
        },
        p.impossible_to_do != Some(true) ==> {
            &&& it.price is None
            &&& it.sum_excluded_vat is None
            &&& it.sum_included_vat is None
        },
{
}

/// A message of one position's checks is among the checks of the proposal.
proof fn lemma_item_message_reaches(req: UpdateProposalReq, k: int, m: MessageView)
    requires
        0 <= k < req.item_list@.len(),
        form_item_errors(req.item_list@[k]).contains(m),
    ensures
        update_check_messages(req).contains(m),
{
    let all = req.item_list@.map_values(|i: ProposalItemForm| form_item_errors(i));
    let e = form_item_errors(req.item_list@[k]);
    assert(all[k] == e);
    let j = choose|j: int| 0 <= j < e.len() && e[j] == m;
    lemma_concat_all_contains(all, k, j);
    let head = msg_if(req.supplier_id is None, crate::messages::plain(MessageKind::Error, "Выберите организацию"@))
        + crate::update_proposal::form_header_errors(req.header);
    let tail = msg_if(
        !crate::update_proposal::has_tender_attachment(req.attachment_list@),
        crate::messages::plain(MessageKind::Information, "Прикрепите Документ ТКП"@),
    );
    lemma_contains_concat(head, concat_all(all), m);
    lemma_contains_concat(head + concat_all(all), tail, m);
}

/// A request for a field of a position, naming the position by its uuid.
pub open spec fn position_field_request(text: Seq<char>, uuid: Option<u128>) -> MessageView {
    MessageView {
        kind: MessageKind::Information,
        text,
        fields: Seq::empty(),
        item_list: seq![ParamItemView { id: Seq::empty(), uuid }],
        description: Seq::empty(),
    }
}

/// A proposal is saved only with every required field of its positions:
/// a position without its request position, its price, its VAT rate, the
/// reason why it cannot be delivered (when it cannot) or the advance (when
/// the payment is in advance) is asked for by name, each independently of
/// the others, so the check is not empty and saving is refused.
pub proof fn law_update_proposal_position_fields(req: UpdateProposalReq, k: int)
    requires
        0 <= k < req.item_list@.len(),
    ensures
        req.item_list@[k].request_item_uuid is None ==> update_check_messages(req).contains(
            position_field_request("Заполните поле UUID позиции ЗЦИ"@, req.item_list@[k].uuid),
        ),
        req.item_list@[k].supplier_price is None ==> update_check_messages(req).contains(
            position_field_request("Заполните поле Цена Организации (без НДС)"@, req.item_list@[k].uuid),
        ),
        req.item_list@[k].supplier_vat_id is None ==> update_check_messages(req).contains(
            position_field_request("Заполните поле Ставка НДС Организации"@, req.item_list@[k].uuid),
        ),
        req.item_list@[k].is_possibility == Some(true) && req.item_list@[k].possibility_note is None
            ==> update_check_messages(req).contains(
            position_field_request("Заполните поле Причина невозможности поставки"@, req.item_list@[k].uuid),
        ),
        req.item_list@[k].pay_condition_id == Some(Some(10i16)) && req.item_list@[k].prepayment_percent is None
            ==> update_check_messages(req).contains(
            position_field_request("Заполните поле Размер аванса, %"@, req.item_list@[k].uuid),
        ),
{
    let it = req.item_list@[k];
    let fm = |name: Seq<char>| crate::update_proposal::form_item_message(name, it.uuid);
    let p0 = msg_if(it.request_item_uuid is None, fm("UUID позиции ЗЦИ"@));
    let p1 = msg_if(it.supplier_price is None, fm("Цена Организации (без НДС)"@));
    let p2 = msg_if(it.supplier_vat_id is None, fm("Ставка НДС Организации"@));
    let p3 = msg_if(it.is_possibility == Some(true) && it.possibility_note is None, fm("Причина невозможности поставки"@));
    let p4 = msg_if(it.pay_condition_id == Some(Some(10i16)) && it.prepayment_percent is None, fm("Размер аванса, %"@));
    let e = form_item_errors(it);
    assert(e == p0 + p1 + p2 + p3 + p4);
    reveal_strlit("Заполните поле ");
    reveal_strlit("UUID позиции ЗЦИ");
    reveal_strlit("Заполните поле UUID позиции ЗЦИ");
    reveal_strlit("Цена Организации (без НДС)");
    reveal_strlit("Заполните поле Цена Организации (без НДС)");
    reveal_strlit("Ставка НДС Организации");
    reveal_strlit("Заполните поле Ставка НДС Организации");
    reveal_strlit("Причина невозможности поставки");
    reveal_strlit("Заполните поле Причина невозможности поставки");
    reveal_strlit("Размер аванса, %");
    reveal_strlit("Заполните поле Размер аванса, %");
    let m0 = position_field_request("Заполните поле UUID позиции ЗЦИ"@, it.uuid);
    let m1 = position_field_request("Заполните поле Цена Организации (без НДС)"@, it.uuid);
    let m2 = position_field_request("Заполните поле Ставка НДС Организации"@, it.uuid);
    let m3 = position_field_request("Заполните поле Причина невозможности поставки"@, it.uuid);
    let m4 = position_field_request("Заполните поле Размер аванса, %"@, it.uuid);
    assert("Заполните поле "@ + "UUID позиции ЗЦИ"@ =~= "Заполните поле UUID позиции ЗЦИ"@);
    assert("Заполните поле "@ + "Цена Организации (без НДС)"@ =~= "Заполните поле Цена Организации (без НДС)"@);
    assert("Заполните поле "@ + "Ставка НДС Организации"@ =~= "Заполните поле Ставка НДС Организации"@);
    assert("Заполните поле "@ + "Причина невозможности поставки"@ =~= "Заполните поле Причина невозможности поставки"@);
    assert("Заполните поле "@ + "Размер аванса, %"@ =~= "Заполните поле Размер аванса, %"@);
    if it.request_item_uuid is None {
        assert(p0[0] == m0);
        assert(e[0] == m0);
        lemma_item_message_reaches(req, k, m0);
    }
    if it.supplier_price is None {
        assert(p1[0] == m1);
        assert(e[p0.len() as int] == m1);
        lemma_item_message_reaches(req, k, m1);
    }
    if it.supplier_vat_id is None {
        assert(p2[0] == m2);
        assert(e[(p0.len() + p1.len()) as int] == m2);
        lemma_item_message_reaches(req, k, m2);
    }
    if it.is_possibility == Some(true) && it.possibility_note is None {
        assert(p3[0] == m3);
        assert(e[(p0.len() + p1.len() + p2.len()) as int] == m3);
        lemma_item_message_reaches(req, k, m3);
    }
    if it.pay_condition_id == Some(Some(10i16)) && it.prepayment_percent is None {
        assert(p4[0] == m4);
        assert(e[(p0.len() + p1.len() + p2.len() + p3.len()) as int] == m4);
        lemma_item_message_reaches(req, k, m4);
    }
}

/// A message about a proposal header is among the checks of approving.
proof fn lemma_header_message_reaches(data: Seq<JoinedProposal>, hierarchy: Seq<HierarchyItem>, k: int, m: MessageView)
    requires
        0 <= k < data.len(),
        header_errors(data[k].header).contains(m),
    ensures
        approve_check_messages(data, hierarchy).contains(m),
{
    let all = data.map_values(|p: JoinedProposal| header_errors(p.header));
    let e = header_errors(data[k].header);
    assert(all[k] == e);
    let j = choose|j: int| 0 <= j < e.len() && e[j] == m;
    lemma_concat_all_contains(all, k, j);
    assert(all_header_errors(data) == concat_all(all));
    lemma_contains_concat(all_header_errors(data), crate::approve::all_item_errors(data), m);
    lemma_contains_concat(
        all_header_errors(data) + crate::approve::all_item_errors(data),
        msg_if(
            !crate::approve::has_tcp_document(crate::approve::hierarchy_entries(hierarchy)),
            crate::messages::plain(MessageKind::Error, "Прикрепите Документ ТКП"@),
        ),
        m,
    );
}

/// A message about a proposal position is among the checks of approving.
proof fn lemma_item_error_reaches(data: Seq<JoinedProposal>, hierarchy: Seq<HierarchyItem>, k: int, j: int, m: MessageView)
    requires
        0 <= k < data.len(),
        0 <= j < data[k].items@.len(),
        crate::approve::item_errors(data[k].items@[j]).contains(m),
    ensures
        approve_check_messages(data, hierarchy).contains(m),
{
    let inner = data[k].items@.map_values(|i: ProposalItem| crate::approve::item_errors(i));
    let e = crate::approve::item_errors(data[k].items@[j]);
    assert(inner[j] == e);
    let q = choose|q: int| 0 <= q < e.len() && e[q] == m;
    lemma_concat_all_contains(inner, j, q);
    let outer = data.map_values(|p: JoinedProposal| concat_all(p.items@.map_values(|i: ProposalItem| crate::approve::item_errors(i))));
    assert(outer[k] == concat_all(inner));
    let r = choose|r: int| 0 <= r < concat_all(inner).len() && concat_all(inner)[r] == m;
    lemma_concat_all_contains(outer, k, r);
    assert(crate::approve::all_item_errors(data) == concat_all(outer));
    lemma_contains_concat(all_header_errors(data), crate::approve::all_item_errors(data), m);
    lemma_contains_concat(
        all_header_errors(data) + crate::approve::all_item_errors(data),
        msg_if(
            !crate::approve::has_tcp_document(crate::approve::hierarchy_entries(hierarchy)),
            crate::messages::plain(MessageKind::Error, "Прикрепите Документ ТКП"@),
        ),
        m,
    );
}

/// An error that names a proposal header by its number and uuid.
pub open spec fn header_field_error(text: Seq<char>, h: ProposalHeader) -> MessageView {
    MessageView {
        kind: MessageKind::Error,
        text,
        fields: Seq::empty(),
        item_list: seq![ParamItemView { id: decimal(h.id as int), uuid: Some(h.uuid) }],
        description: Seq::empty(),
    }
}

/// An error that names a proposal position by its uuid.
pub open spec fn position_field_error(text: Seq<char>, uuid: u128) -> MessageView {
    MessageView {
        kind: MessageKind::Error,
        text,
        fields: Seq::empty(),
        item_list: seq![ParamItemView { id: Seq::empty(), uuid: Some(uuid) }],
        description: Seq::empty(),
    }
}

/// A list that holds a message of the kind error holds an error.
proof fn lemma_contains_error(v: Seq<MessageView>, m: MessageView)
    requires
        v.contains(m),
        m.kind == MessageKind::Error,
    ensures
        has_error(v),
{
    let q = choose|q: int| 0 <= q < v.len() && v[q] == m;
    assert(v[q].kind == MessageKind::Error);
}

/// Proposals are approved only when each header names its organization,
/// both dates of validity and its file hierarchy: each missing field of any
/// one of them is an error that names that proposal, independently of its
/// other fields, so approving fails.
pub proof fn law_approve_header_fields(data: Seq<JoinedProposal>, hierarchy: Seq<HierarchyItem>, k: int)
    requires
        0 <= k < data.len(),
    ensures
        data[k].header.supplier_uuid == 0 ==> approve_check_messages(data, hierarchy).contains(
            header_field_error("Заполните поле Организация"@, data[k].header),
        ),
        data[k].header.start_date is None ==> approve_check_messages(data, hierarchy).contains(
            header_field_error("Заполните поле Начало срока действия"@, data[k].header),
        ),
        data[k].header.end_date is None ==> approve_check_messages(data, hierarchy).contains(
            header_field_error("Заполните поле Окончание срока действия"@, data[k].header),
        ),
        data[k].header.hierarchy_uuid is None ==> approve_check_messages(data, hierarchy).contains(
            header_field_error("Заполните поле UUID иерархии"@, data[k].header),
        ),
        (data[k].header.supplier_uuid == 0 || data[k].header.start_date is None || data[k].header.end_date is None
            || data[k].header.hierarchy_uuid is None) ==> has_error(approve_check_messages(data, hierarchy)),
{
    let h = data[k].header;
    let hm = |name: Seq<char>| crate::approve::missing_header_message(name, h);
    let p0 = msg_if(h.supplier_uuid == 0, hm("Организация"@));
    let p1 = msg_if(h.start_date is None, hm("Начало срока действия"@));
    let p2 = msg_if(h.end_date is None, hm("Окончание срока действия"@));
    let p3 = msg_if(h.hierarchy_uuid is None, hm("UUID иерархии"@));
    let e = header_errors(h);
    assert(e == p0 + p1 + p2 + p3);
    reveal_strlit("Заполните поле ");
    reveal_strlit("Организация");
    reveal_strlit("Заполните поле Организация");
    reveal_strlit("Начало срока действия");
    reveal_strlit("Заполните поле Начало срока действия");
    reveal_strlit("Окончание срока действия");
    reveal_strlit("Заполните поле Окончание срока действия");
    reveal_strlit("UUID иерархии");
    reveal_strlit("Заполните поле UUID иерархии");
    assert("Заполните поле "@ + "Организация"@ =~= "Заполните поле Организация"@);
    assert("Заполните поле "@ + "Начало срока действия"@ =~= "Заполните поле Начало срока действия"@);
    assert("Заполните поле "@ + "Окончание срока действия"@ =~= "Заполните поле Окончание срока действия"@);
    assert("Заполните поле "@ + "UUID иерархии"@ =~= "Заполните поле UUID иерархии"@);
    let m0 = header_field_error("Заполните поле Организация"@, h);
    let m1 = header_field_error("Заполните поле Начало срока действия"@, h);
    let m2 = header_field_error("Заполните поле Окончание срока действия"@, h);
    let m3 = header_field_error("Заполните поле UUID иерархии"@, h);
    let c = approve_check_messages(data, hierarchy);
    if h.supplier_uuid == 0 {
        assert(e[0] == m0);
        lemma_header_message_reaches(data, hierarchy, k, m0);
        lemma_contains_error(c, m0);
    }
    if h.start_date is None {
        assert(e[p0.len() as int] == m1);
        lemma_header_message_reaches(data, hierarchy, k, m1);
        lemma_contains_error(c, m1);
    }
    if h.end_date is None {
        assert(e[(p0.len() + p1.len()) as int] == m2);
        lemma_header_message_reaches(data, hierarchy, k, m2);
        lemma_contains_error(c, m2);
    }
    if h.hierarchy_uuid is None {
        assert(e[(p0.len() + p1.len() + p2.len()) as int] == m3);
        lemma_header_message_reaches(data, hierarchy, k, m3);
        lemma_contains_error(c, m3);
    }
}

/// Proposals are approved only when each position that can be delivered
/// has its price and VAT rate, each position that cannot has the reason,
/// and each position paid in advance has the advance: each missing field is
/// an error that names the position, so approving fails.
pub proof fn law_approve_position_fields(data: Seq<JoinedProposal>, hierarchy: Seq<HierarchyItem>, k: int, j: int)
    requires
        0 <= k < data.len(),
        0 <= j < data[k].items@.len(),
    ensures
        data[k].items@[j].is_possibility && data[k].items@[j].price is None ==> approve_check_messages(data, hierarchy).contains(
            position_field_error("Заполните поле Цена Организации (без НДС)"@, data[k].items@[j].uuid),
        ),
        data[k].items@[j].is_possibility && data[k].items@[j].vat_id is None ==> approve_check_messages(data, hierarchy).contains(
            position_field_error("Заполните поле Ставка НДС Организации"@, data[k].items@[j].uuid),
        ),
        !data[k].items@[j].is_possibility && crate::approve::note_missing(data[k].items@[j].possibility_note)
            ==> approve_check_messages(data, hierarchy).contains(
            position_field_error("Заполните поле Причина невозможности поставки"@, data[k].items@[j].uuid),
        ),
        data[k].items@[j].pay_condition_id == Some(10i16) && data[k].items@[j].prepayment_percent is None
            ==> approve_check_messages(data, hierarchy).contains(
            position_field_error("Заполните поле Размер аванса, %"@, data[k].items@[j].uuid),
        ),
{
    let it = data[k].items@[j];
    let im = |name: Seq<char>| crate::approve::missing_item_message(name, it.uuid);
    let p0 = msg_if(it.is_possibility && it.price is None, im("Цена Организации (без НДС)"@));
    let p1 = msg_if(it.is_possibility && it.vat_id is None, im("Ставка НДС Организации"@));
    let p2 = msg_if(!it.is_possibility && crate::approve::note_missing(it.possibility_note), im("Причина невозможности поставки"@));
    let p3 = msg_if(it.pay_condition_id == Some(10i16) && it.prepayment_percent is None, im("Размер аванса, %"@));
    let e = crate::approve::item_errors(it);
    assert(e == p0 + p1 + p2 + p3);
    reveal_strlit("Заполните поле ");
    reveal_strlit("Цена Организации (без НДС)");
    reveal_strlit("Заполните поле Цена Организации (без НДС)");
    reveal_strlit("Ставка НДС Организации");
    reveal_strlit("Заполните поле Ставка НДС Организации");
    reveal_strlit("Причина невозможности поставки");
    reveal_strlit("Заполните поле Причина невозможности поставки");
    reveal_strlit("Размер аванса, %");
    reveal_strlit("Заполните поле Размер аванса, %");
    assert("Заполните поле "@ + "Цена Организации (без НДС)"@ =~= "Заполните поле Цена Организации (без НДС)"@);
    assert("Заполните поле "@ + "Ставка НДС Организации"@ =~= "Заполните поле Ставка НДС Организации"@);
    assert("Заполните поле "@ + "Причина невозможности поставки"@ =~= "Заполните поле Причина невозможности поставки"@);
    assert("Заполните поле "@ + "Размер аванса, %"@ =~= "Заполните поле Размер аванса, %"@);
    let m0 = position_field_error("Заполните поле Цена Организации (без НДС)"@, it.uuid);
    let m1 = position_field_error("Заполните поле Ставка НДС Организации"@, it.uuid);
    let m2 = position_field_error("Заполните поле Причина невозможности поставки"@, it.uuid);
    let m3 = position_field_error("Заполните поле Размер аванса, %"@, it.uuid);
    if it.is_possibility && it.price is None {
        assert(e[0] == m0);
        lemma_item_error_reaches(data, hierarchy, k, j, m0);
    }
    if it.is_possibility && it.vat_id is None {
        assert(e[p0.len() as int] == m1);
        lemma_item_error_reaches(data, hierarchy, k, j, m1);
    }
    if !it.is_possibility && crate::approve::note_missing(it.possibility_note) {
        assert(e[(p0.len() + p1.len()) as int] == m2);
        lemma_item_error_reaches(data, hierarchy, k, j, m2);
    }
    if it.pay_condition_id == Some(10i16) && it.prepayment_percent is None {
        assert(e[(p0.len() + p1.len() + p2.len()) as int] == m3);
        lemma_item_error_reaches(data, hierarchy, k, j, m3);
    }
}

/// Proposals are approved only with their document: when no folder of
/// tender documentation in the hierarchies holds a live file, approving
/// fails with the error asking for it.
pub proof fn law_approve_requires_document(data: Seq<JoinedProposal>, hierarchy: Seq<HierarchyItem>)
    requires
        !crate::approve::has_tcp_document(crate::approve::hierarchy_entries(hierarchy)),
    ensures
        approve_check_messages(data, hierarchy).contains(crate::messages::plain(MessageKind::Error, "Прикрепите Документ ТКП"@)),
        has_error(approve_check_messages(data, hierarchy)),
{
    let m = crate::messages::plain(MessageKind::Error, "Прикрепите Документ ТКП"@);
    let a = all_header_errors(data) + crate::approve::all_item_errors(data);
    assert((a + seq![m])[a.len() as int] == m);
    lemma_contains_error(approve_check_messages(data, hierarchy), m);
}

/// A proposal is saved only with its organization chosen, both dates of
/// validity and a tender document among its files: each missing one is
/// asked for, so the check is not empty and saving is refused.
pub proof fn law_update_proposal_header_fields(req: UpdateProposalReq)
    ensures
        req.supplier_id is None ==> update_check_messages(req).contains(
            crate::messages::plain(MessageKind::Error, "Выберите организацию"@),
        ),
        req.header.start_date is None ==> update_check_messages(req).contains(
            crate::update_proposal::form_header_message("Начало срока действия"@, req.header),
        ),
        req.header.end_date is None ==> update_check_messages(req).contains(
            crate::update_proposal::form_header_message("Окончание срока действия"@, req.header),
        ),
        !(exists|i: int| 0 <= i < req.attachment_list@.len() && (#[trigger] req.attachment_list@[i]).category_id
            == Some(FolderCategory::TenderDocumentation)) ==> update_check_messages(req).contains(
            crate::messages::plain(MessageKind::Information, "Прикрепите Документ ТКП"@),
        ),
{
    let s0 = msg_if(req.supplier_id is None, crate::messages::plain(MessageKind::Error, "Выберите организацию"@));
    let h = req.header;
    let q0 = msg_if(h.start_date is None, crate::update_proposal::form_header_message("Начало срока действия"@, h));
    let q1 = msg_if(h.end_date is None, crate::update_proposal::form_header_message("Окончание срока действия"@, h));
    let all = concat_all(req.item_list@.map_values(|i: ProposalItemForm| form_item_errors(i)));
    let tail = msg_if(
        !crate::update_proposal::has_tender_attachment(req.attachment_list@),
        crate::messages::plain(MessageKind::Information, "Прикрепите Документ ТКП"@),
    );
    let c = update_check_messages(req);
    assert(c == s0 + (q0 + q1) + all + tail);
    if req.supplier_id is None {
        assert(c[0] == s0[0]);
    }
    if h.start_date is None {
        assert(c[s0.len() as int] == q0[0]);
    }
    if h.end_date is None {
        assert(c[(s0.len() + q0.len()) as int] == q1[0]);
    }
    if !crate::update_proposal::has_tender_attachment(req.attachment_list@) {
        assert(c[(s0.len() + q0.len() + q1.len() + all.len()) as int] == tail[0]);
    }
}

/// The computed fields of a row of the list say which organizations there
/// are and which of them sent a proposal: a supplier id is among those with
/// a proposal exactly when an organization of the request with that id has
/// a proposal, and among the organizations exactly when the request names
/// one with that id.
pub proof fn law_list_fields_name_organizations(
    ps: Seq<crate::model::RequestPartner>,
    proposals: Seq<ProposalHeader>,
    e: crate::request_list::RequestListExtra,
    x: i64,
)
    requires
        crate::request_list::extra_of(ps, proposals, e),
    ensures
        e.tkp_in@.contains(x) <==> exists|i: int|
            0 <= i < ps.len() && (#[trigger] ps[i]).supplier_id as i64 == x && crate::request_list::proposals_of(
                proposals,
                ps[i],
            ).len() > 0,
        e.supplier_list@.contains(x) <==> exists|i: int| 0 <= i < ps.len() && (#[trigger] ps[i]).supplier_id as i64 == x,
{
    let pred = |p: crate::model::RequestPartner| crate::request_list::proposals_of(proposals, p).len() > 0;
    let f = |p: crate::model::RequestPartner| p.supplier_id as i64;
    let fs = ps.filter(pred);
    broadcast use vstd::seq_lib::group_filter_ensures;
    assert(e.tkp_in@ == fs.map_values(f));
    if e.tkp_in@.contains(x) {
        let q = choose|q: int| 0 <= q < e.tkp_in@.len() && e.tkp_in@[q] == x;
        assert(pred(fs[q]));
        assert(fs.contains(fs[q]));
        ps.lemma_filter_contains_rev(pred, fs[q]);
        let i = choose|i: int| 0 <= i < ps.len() && ps[i] == fs[q];
        assert(ps[i].supplier_id as i64 == x && pred(ps[i]));
    }
    if exists|i: int| 0 <= i < ps.len() && (#[trigger] ps[i]).supplier_id as i64 == x && crate::request_list::proposals_of(
        proposals,
        ps[i],
    ).len() > 0 {
        let i = choose|i: int| 0 <= i < ps.len() && (#[trigger] ps[i]).supplier_id as i64 == x && crate::request_list::proposals_of(
            proposals,
            ps[i],
        ).len() > 0;
        assert(pred(ps[i]));
        assert(fs.contains(ps[i]));
        let q = choose|q: int| 0 <= q < fs.len() && fs[q] == ps[i];
        assert(e.tkp_in@[q] == x);
    }
    assert(e.supplier_list@ == ps.map_values(f));
    if e.supplier_list@.contains(x) {
        let q = choose|q: int| 0 <= q < e.supplier_list@.len() && e.supplier_list@[q] == x;
        assert(ps[q].supplier_id as i64 == x);
    }
    if exists|i: int| 0 <= i < ps.len() && (#[trigger] ps[i]).supplier_id as i64 == x {
        let i = choose|i: int| 0 <= i < ps.len() && (#[trigger] ps[i]).supplier_id as i64 == x;
        assert(e.supplier_list@[i] == x);
    }
}

/// A position stored from an arriving proposal keeps the proposal's own
/// terms: its number, VAT rate, payment condition and advance, whether it
/// can be delivered, and it belongs to the stored proposal and to the
/// request position it was matched with.
pub proof fn law_offer_position_terms(it: ProposalItem, p: PriceInfo, proposal_uuid: u128, request_item_uuid: u128)
    requires
        offer_item(it, p, proposal_uuid, request_item_uuid),
    ensures
        it.number == p.price_info_pos_nr,
        it.vat_id == p.vat_id,
        it.pay_condition_id == p.pay_condition_id,
        it.prepayment_percent == p.prepayment_percent,
        it.is_possibility == (p.impossible_to_do == Some(true)),
        it.proposal_uuid == proposal_uuid,
        it.request_item_uuid == request_item_uuid,
{
}

/// The request position that an arriving position is matched with carries
/// that position's number and is one of the request's positions; there is
/// none exactly when no position of the request has the number.
pub proof fn law_offer_matches_by_number(items: Seq<crate::model::RequestItem>, n: i16)
    ensures
        crate::commercial_offer::item_numbered(items, n) matches Some(r) ==> r.number == n && items.contains(r),
        crate::commercial_offer::item_numbered(items, n) is None <==> forall|i: int| 0 <= i < items.len() ==> (#[trigger] items[i]).number != n,
    decreases items.len(),
{
    if items.len() > 0 {
        law_offer_matches_by_number(items.drop_last(), n);
        if items.last().number == n {
            assert(items[items.len() - 1] == items.last());
        } else {
            if let Some(r) = crate::commercial_offer::item_numbered(items.drop_last(), n) {
                let q = choose|q: int| 0 <= q < items.drop_last().len() && items.drop_last()[q] == r;
                assert(items[q] == r);
            }
            assert forall|i: int| 0 <= i < items.len() - 1 implies #[trigger] items[i] == items.drop_last()[i] by {}
        }
    }
}

/// A request is published only with its end date: without one, the check
/// before publishing holds the error asking for it, whatever the check of
/// the request gave.
pub proof fn law_publish_requires_end_date(checked: Seq<MessageView>, end_date: Option<Option<i64>>)
    requires
        !(end_date matches Some(Some(_))),
    ensures
        has_error(publish_check_messages(checked, end_date)),
        publish_check_messages(checked, end_date).last().text == "Заполните поле \"Дата окончания\""@,
{
    let c = publish_check_messages(checked, end_date);
    assert(c[c.len() - 1].kind == MessageKind::Error);
}

/// A message about the header's fields is among the messages of the check.
proof fn lemma_header_message_in_check(r: UpdatePriceInformationRequest, m: MessageView)
    requires
        header_field_messages(r.header).contains(m),
    ensures
        check_messages(r).contains(m),
{
    let hh = header_field_messages(r.header);
    let pm = private_messages(r.header, r.partner_list@.len());
    let dm = document_messages(r.attachment_list@);
    let lm = msg_if(r.item_list@.len() == 0, fill_message("данные спецификации"@));
    lemma_contains_concat(hh, pm, m);
    lemma_contains_concat(hh + pm, dm, m);
    lemma_contains_concat(hh + pm + dm, lm, m);
}

/// A message about the documents is among the messages of the check.
proof fn lemma_document_message_in_check(r: UpdatePriceInformationRequest, m: MessageView)
    requires
        document_messages(r.attachment_list@).contains(m),
    ensures
        check_messages(r).contains(m),
{
    let hh = header_field_messages(r.header);
    let pm = private_messages(r.header, r.partner_list@.len());
    let dm = document_messages(r.attachment_list@);
    let lm = msg_if(r.item_list@.len() == 0, fill_message("данные спецификации"@));
    lemma_contains_concat(hh + pm, dm, m);
    lemma_contains_concat(hh + pm + dm, lm, m);
}

/// Each required header field that is empty is asked for by its caption
/// and field name, independently of the others.
pub proof fn law_request_check_asks_for_header_fields(r: UpdatePriceInformationRequest)
    ensures
        !(r.header.type_request_id matches Some(Some(t)) && t != crate::model::RequestType::Unspecified)
            ==> check_messages(r).contains(fill_field_message("Тип ЗЦИ"@, "type_request_id"@)),
        !(r.header.request_subject matches Some(Some(s)) && s@.len() > 0)
            ==> check_messages(r).contains(fill_field_message("Предмет ЗЦИ"@, "request_subject"@)),
        !(r.header.organizer_name matches Some(Some(s)) && s@.len() > 0)
            ==> check_messages(r).contains(fill_field_message("Контактное лицо"@, "organizer_name"@)),
        !(r.header.organizer_mail matches Some(Some(s)) && s@.len() > 0)
            ==> check_messages(r).contains(fill_field_message("Электронный адрес"@, "organizer_mail"@)),
        !(r.header.organizer_phone matches Some(Some(s)) && s@.len() > 0)
            ==> check_messages(r).contains(fill_field_message("Телефон"@, "organizer_phone"@)),
        !(r.header.organizer_location matches Some(Some(s)) && s@.len() > 0)
            ==> check_messages(r).contains(fill_field_message("Местонахождение"@, "organizer_location"@)),
{
    let h = r.header;
    let h0 = msg_if(type_missing(h.type_request_id), fill_field_message("Тип ЗЦИ"@, "type_request_id"@));
    let h1 = msg_if(text_missing(h.request_subject), fill_field_message("Предмет ЗЦИ"@, "request_subject"@));
    let h2 = msg_if(text_missing(h.organizer_name), fill_field_message("Контактное лицо"@, "organizer_name"@));
    let h3 = msg_if(text_missing(h.organizer_mail), fill_field_message("Электронный адрес"@, "organizer_mail"@));
    let h4 = msg_if(text_missing(h.organizer_phone), fill_field_message("Телефон"@, "organizer_phone"@));
    let h5 = msg_if(text_missing(h.organizer_location), fill_field_message("Местонахождение"@, "organizer_location"@));
    assert(header_field_messages(h) == h0 + h1 + h2 + h3 + h4 + h5);
    assert forall|m: MessageView|
        h0.contains(m) || h1.contains(m) || h2.contains(m) || h3.contains(m) || h4.contains(m) || h5.contains(m)
        implies #[trigger] check_messages(r).contains(m) by {
        lemma_contains_concat(h0, h1, m);
        lemma_contains_concat(h0 + h1, h2, m);
        lemma_contains_concat(h0 + h1 + h2, h3, m);
        lemma_contains_concat(h0 + h1 + h2 + h3, h4, m);
        lemma_contains_concat(h0 + h1 + h2 + h3 + h4, h5, m);
        lemma_header_message_in_check(r, m);
    }
    if type_missing(h.type_request_id) { assert(h0[0] == fill_field_message("Тип ЗЦИ"@, "type_request_id"@)); }
    if text_missing(h.request_subject) { assert(h1[0] == fill_field_message("Предмет ЗЦИ"@, "request_subject"@)); }
    if text_missing(h.organizer_name) { assert(h2[0] == fill_field_message("Контактное лицо"@, "organizer_name"@)); }
    if text_missing(h.organizer_mail) { assert(h3[0] == fill_field_message("Электронный адрес"@, "organizer_mail"@)); }
    if text_missing(h.organizer_phone) { assert(h4[0] == fill_field_message("Телефон"@, "organizer_phone"@)); }
    if text_missing(h.organizer_location) {
        assert(h5[0] == fill_field_message("Местонахождение"@, "organizer_location"@));
    }
}

/// Each document without a live file is asked for, the positions are asked
/// for when there are none, and the organizations of a closed request when
/// it names none; each independently of the others.
pub proof fn law_request_check_asks_for_documents_and_lists(r: UpdatePriceInformationRequest)
    ensures
        !has_document(r.attachment_list@, FolderCategory::TechnicalSpecification) ==> check_messages(r).contains(
            attach_message(FolderCategory::TechnicalSpecification),
        ),
        !has_document(r.attachment_list@, FolderCategory::ContractDocuments) ==> check_messages(r).contains(
            attach_message(FolderCategory::ContractDocuments),
        ),
        r.item_list@.len() == 0 ==> check_messages(r).contains(fill_message("данные спецификации"@)),
        r.header.type_request_id == Some(Some(crate::model::RequestType::Private)) && r.partner_list@.len() == 0
            ==> check_messages(r).contains(fill_message("данные организаций"@)),
        attach_message(FolderCategory::TechnicalSpecification).kind == MessageKind::Information,
        attach_message(FolderCategory::ContractDocuments).kind == MessageKind::Information,
{
    let d0 = msg_if(!has_document(r.attachment_list@, FolderCategory::TechnicalSpecification), attach_message(FolderCategory::TechnicalSpecification));
    let d1 = msg_if(!has_document(r.attachment_list@, FolderCategory::ContractDocuments), attach_message(FolderCategory::ContractDocuments));
    assert(document_messages(r.attachment_list@) == d0 + d1);
    if !has_document(r.attachment_list@, FolderCategory::TechnicalSpecification) {
        let m = attach_message(FolderCategory::TechnicalSpecification);
        assert(d0[0] == m);
        lemma_contains_concat(d0, d1, m);
        lemma_document_message_in_check(r, m);
    }
    if !has_document(r.attachment_list@, FolderCategory::ContractDocuments) {
        let m = attach_message(FolderCategory::ContractDocuments);
        assert(d1[0] == m);
        lemma_contains_concat(d0, d1, m);
        lemma_document_message_in_check(r, m);
    }
    let hh = header_field_messages(r.header);
    let pm = private_messages(r.header, r.partner_list@.len());
    let dm = document_messages(r.attachment_list@);
    let lm = msg_if(r.item_list@.len() == 0, fill_message("данные спецификации"@));
    if r.item_list@.len() == 0 {
        assert(lm[0] == fill_message("данные спецификации"@));
        lemma_contains_concat(hh + pm + dm, lm, fill_message("данные спецификации"@));
    }
    if r.header.type_request_id == Some(Some(crate::model::RequestType::Private)) && r.partner_list@.len() == 0 {
        let o = fill_message("данные организаций"@);
        let c0 = msg_if(text_missing(r.header.request_type_text), close_reason_message());
        let c1 = msg_if(true, o);
        assert(pm == c0 + c1);
        assert(c1[0] == o);
        lemma_contains_concat(c0, c1, o);
        lemma_contains_concat(hh, pm, o);
        lemma_contains_concat(hh + pm, dm, o);
        lemma_contains_concat(hh + pm + dm, lm, o);
    }
}

/// A request that lacks a document, its positions or a required header
/// field is not published: its check gives information, which the check
/// before publishing turns into errors.
pub proof fn law_publish_refuses_incomplete_request(r: UpdatePriceInformationRequest)
    ensures
        (!has_document(r.attachment_list@, FolderCategory::TechnicalSpecification)
            || !has_document(r.attachment_list@, FolderCategory::ContractDocuments)
            || r.item_list@.len() == 0
            || text_missing(r.header.request_subject)
            || text_missing(r.header.organizer_name)
            || text_missing(r.header.organizer_mail)
            || text_missing(r.header.organizer_phone)
            || text_missing(r.header.organizer_location)
            || type_missing(r.header.type_request_id))
            ==> has_error(publish_check_messages(check_messages(r), r.header.end_date)),
{
    law_request_check_asks_for_header_fields(r);
    law_request_check_asks_for_documents_and_lists(r);
    let c = check_messages(r);
    assert forall|m: MessageView| #[trigger] c.contains(m) && m.kind == MessageKind::Information implies has_error(
        publish_check_messages(c, r.header.end_date),
    ) by {
        let q = choose|q: int| 0 <= q < c.len() && c[q] == m;
        law_publish_refuses_unclean_check(c, r.header.end_date, q);
    }
    if !has_document(r.attachment_list@, FolderCategory::TechnicalSpecification) {
        assert(c.contains(attach_message(FolderCategory::TechnicalSpecification)));
    }
    if !has_document(r.attachment_list@, FolderCategory::ContractDocuments) {
        assert(c.contains(attach_message(FolderCategory::ContractDocuments)));
    }
    if r.item_list@.len() == 0 {
        assert(c.contains(fill_message("данные спецификации"@)));
    }
    if text_missing(r.header.request_subject) {
        assert(c.contains(fill_field_message("Предмет ЗЦИ"@, "request_subject"@)));
    }
    if text_missing(r.header.organizer_name) {
        assert(c.contains(fill_field_message("Контактное лицо"@, "organizer_name"@)));
    }
    if text_missing(r.header.organizer_mail) {
        assert(c.contains(fill_field_message("Электронный адрес"@, "organizer_mail"@)));
    }
    if text_missing(r.header.organizer_phone) {
        assert(c.contains(fill_field_message("Телефон"@, "organizer_phone"@)));
    }
    if text_missing(r.header.organizer_location) {
        assert(c.contains(fill_field_message("Местонахождение"@, "organizer_location"@)));
    }
    if type_missing(r.header.type_request_id) {
        assert(c.contains(fill_field_message("Тип ЗЦИ"@, "type_request_id"@)));
    }
}

} // verus!
