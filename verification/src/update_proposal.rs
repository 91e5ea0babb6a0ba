//! Saving a proposal ("/update/proposal/"): the required fields, the
//! organization that makes it, and the answer.
use vstd::prelude::*;

use crate::merge::{
    form_order, in_order, is_last_index, left_over, left_over_set, merge_in_order, merge_sorted, merged_at, number_keys,
    MergedEntry,
};
use crate::sorting::is_stable_order;

use crate::check_request::msg_if;
use crate::messages::{plain, Message, MessageKind, MessageView, Messages, ParamItem, ParamItemView};
use crate::model::{Attachment, FolderCategory, RequestItem, RequestPartner, TcpError, VatId};
use crate::outside::{uuid_text, uuid_to_string};
use crate::seqs::{concat_all, lemma_map_take_step, lemma_take_all};
use crate::text::{concat, decimal, i64_to_string, owned};
use vstd::seq_lib::lemma_concat_associative;

verus! {

/// Header of a proposal as the user sends it.
pub struct ProposalHeaderForm {
    pub uuid: Option<u128>,
    pub id: Option<i64>,
    pub supplier_uuid: Option<u128>,
    pub request_uuid: Option<u128>,
    pub start_date: Option<i64>,
    pub end_date: Option<i64>,
}

/// A position of a proposal as the user sends it.
pub struct ProposalItemForm {
    pub uuid: Option<u128>,
    pub request_item_uuid: Option<u128>,
    pub number: Option<i16>,
    pub supplier_price: Option<i64>,
    pub supplier_vat_id: Option<i32>,
    pub is_possibility: Option<bool>,
    pub possibility_note: Option<String>,
    pub pay_condition_id: Option<Option<i16>>,
    pub prepayment_percent: Option<i64>,
    pub sum_excluded_vat: Option<i64>,
}

/// A request to save a proposal.
pub struct UpdateProposalReq {
    pub supplier_id: Option<i32>,
    pub header: ProposalHeaderForm,
    pub item_list: Vec<ProposalItemForm>,
    pub attachment_list: Vec<Attachment>,
}

/// The parameter that names a proposal header being saved.
pub open spec fn form_header_param(h: ProposalHeaderForm) -> ParamItemView {
    ParamItemView {
        uuid: h.uuid,
        id: match h.id {
            Some(id) => decimal(id as int),
            None => Seq::empty(),
        },
    }
}

/// "Fill in the field <name>" about the header being saved.
pub open spec fn form_header_message(name: Seq<char>, h: ProposalHeaderForm) -> MessageView {
    MessageView { item_list: seq![form_header_param(h)], ..plain(MessageKind::Information, "Заполните поле "@ + name) }
}

/// "Fill in the field <name>" about a position being saved.
pub open spec fn form_item_message(name: Seq<char>, uuid: Option<u128>) -> MessageView {
    MessageView {
        item_list: seq![ParamItemView { id: Seq::empty(), uuid }],
        ..plain(MessageKind::Information, "Заполните поле "@ + name)
    }
}

pub open spec fn no_authority_message() -> MessageView {
    MessageView {
        description: "ТКП запрошено на ЭТП ГПБ. Ручное создание невозможно"@,
        ..plain(MessageKind::Error, "Нет полномочий"@)
    }
}

/// The messages of saving a proposal.
pub struct UpdateProposalMessage;

impl UpdateProposalMessage {
    pub fn success() -> (m: Message)
        ensures
            m@ == plain(MessageKind::Success, "Данные успешно сохранены"@),
    {
        Message::success(owned("Данные успешно сохранены"))
    }

    /// A required field of the header is empty.
    pub fn missing_header_field(field_name: &str, header: &ProposalHeaderForm) -> (m: Message)
        ensures
            m@ == form_header_message(field_name@, *header),
    {
        let id = match header.id {
            Some(i) => i64_to_string(i),
            None => String::new(),
        };
        Message::info(concat("Заполните поле ", field_name)).with_param_item(ParamItem { uuid: header.uuid, id })
    }

    /// A required field of a position is empty.
    pub fn missing_item_field(field_name: &str, item: &ProposalItemForm) -> (m: Message)
        ensures
            m@ == form_item_message(field_name@, item.uuid),
    {
        Message::info(concat("Заполните поле ", field_name)).with_param_item(ParamItem::from_uuid(item.uuid))
    }

    /// No organization is chosen.
    pub fn missing_supplier_id_field() -> (m: Message)
        ensures
            m@ == plain(MessageKind::Error, "Выберите организацию"@),
    {
        Message::error(owned("Выберите организацию"))
    }

    /// The proposal document is not attached.
    pub fn not_found_tcp_document() -> (m: Message)
        ensures
            m@ == plain(MessageKind::Information, "Прикрепите Документ ТКП"@),
    {
        Message::info(owned("Прикрепите Документ ТКП"))
    }

    /// The organization was invited through the trading platform.
    pub fn no_authority() -> (m: Message)
        ensures
            m@ == no_authority_message(),
    {
        Message::error(owned("Нет полномочий")).with_param_description(owned(
            "ТКП запрошено на ЭТП ГПБ. Ручное создание невозможно",
        ))
    }
}

/// The messages about the header being saved.
pub open spec fn form_header_errors(h: ProposalHeaderForm) -> Seq<MessageView> {
    msg_if(h.start_date is None, form_header_message("Начало срока действия"@, h))
        + msg_if(h.end_date is None, form_header_message("Окончание срока действия"@, h))
}

/// The messages about one position being saved.
pub open spec fn form_item_errors(i: ProposalItemForm) -> Seq<MessageView> {
    msg_if(i.request_item_uuid is None, form_item_message("UUID позиции ЗЦИ"@, i.uuid))
        + msg_if(i.supplier_price is None, form_item_message("Цена Организации (без НДС)"@, i.uuid))
        + msg_if(i.supplier_vat_id is None, form_item_message("Ставка НДС Организации"@, i.uuid))
        + msg_if(
        i.is_possibility == Some(true) && i.possibility_note is None,
        form_item_message("Причина невозможности поставки"@, i.uuid),
    ) + msg_if(
        i.pay_condition_id == Some(Some(10i16)) && i.prepayment_percent is None,
        form_item_message("Размер аванса, %"@, i.uuid),
    )
}

/// Some attachment is tender documentation.
pub open spec fn has_tender_attachment(atts: Seq<Attachment>) -> bool {
    exists|i: int| 0 <= i < atts.len() && (#[trigger] atts[i]).category_id == Some(FolderCategory::TenderDocumentation)
}

/// All messages of the checks of a proposal being saved, in order.
pub open spec fn update_check_messages(req: UpdateProposalReq) -> Seq<MessageView> {
    msg_if(req.supplier_id is None, plain(MessageKind::Error, "Выберите организацию"@))
        + form_header_errors(req.header)
        + concat_all(req.item_list@.map_values(|i: ProposalItemForm| form_item_errors(i)))
        + msg_if(!has_tender_attachment(req.attachment_list@), plain(MessageKind::Information, "Прикрепите Документ ТКП"@))
}

/// Appends a message when the condition holds.
fn add_when(messages: &mut Messages, cond: bool, m: Message)
    requires
        old(messages).wf(),
    ensures
        final(messages).wf(),
        final(messages)@.messages == old(messages)@.messages + msg_if(cond, m@),
{
    let ghost start = messages@.messages;
    if cond {
        messages.add(m);
    }
    proof {
        assert(messages@.messages =~= start + msg_if(cond, m@));
    }
}

/// Appends the messages about one position.
fn add_form_item_errors(messages: &mut Messages, i: &ProposalItemForm)
    requires
        old(messages).wf(),
    ensures
        final(messages).wf(),
        final(messages)@.messages == old(messages)@.messages + form_item_errors(*i),
{
    let ghost s = messages@.messages;
    add_when(messages, i.request_item_uuid.is_none(), UpdateProposalMessage::missing_item_field("UUID позиции ЗЦИ", i));
    add_when(messages, i.supplier_price.is_none(), UpdateProposalMessage::missing_item_field("Цена Организации (без НДС)", i));
    add_when(messages, i.supplier_vat_id.is_none(), UpdateProposalMessage::missing_item_field("Ставка НДС Организации", i));
    add_when(
        messages,
        i.is_possibility == Some(true) && i.possibility_note.is_none(),
        UpdateProposalMessage::missing_item_field("Причина невозможности поставки", i),
    );
    add_when(
        messages,
        i.pay_condition_id == Some(Some(10i16)) && i.prepayment_percent.is_none(),
        UpdateProposalMessage::missing_item_field("Размер аванса, %", i),
    );
    proof {
        let p0 = msg_if(i.request_item_uuid is None, form_item_message("UUID позиции ЗЦИ"@, i.uuid));
        let p1 = msg_if(i.supplier_price is None, form_item_message("Цена Организации (без НДС)"@, i.uuid));
        let p2 = msg_if(i.supplier_vat_id is None, form_item_message("Ставка НДС Организации"@, i.uuid));
        let p3 = msg_if(
            i.is_possibility == Some(true) && i.possibility_note is None,
            form_item_message("Причина невозможности поставки"@, i.uuid),
        );
        let p4 = msg_if(
            i.pay_condition_id == Some(Some(10i16)) && i.prepayment_percent is None,
            form_item_message("Размер аванса, %"@, i.uuid),
        );
        lemma_concat_associative(s, p0, p1);
        lemma_concat_associative(s, p0 + p1, p2);
        lemma_concat_associative(s, p0 + p1 + p2, p3);
        lemma_concat_associative(s, p0 + p1 + p2 + p3, p4);
    }
}

/// Whether some attachment is tender documentation.
fn find_tender_attachment(atts: &Vec<Attachment>) -> (b: bool)
    ensures
        b == has_tender_attachment(atts@),
{
    let mut i: usize = 0;
    while i < atts.len()
        invariant
            i <= atts@.len(),
            forall|j: int| 0 <= j < i ==> (#[trigger] atts@[j]).category_id != Some(FolderCategory::TenderDocumentation),
        decreases atts.len() - i,
    {
        if atts[i].category_id == Some(FolderCategory::TenderDocumentation) {
            return true;
        }
        i += 1;
    }
    false
}

/// The checks of a proposal being saved: the organization is chosen, the
/// dates of the header, the required fields of each position, and the
/// proposal document.
#[verifier::loop_isolation(false)]
pub fn check_update_proposal(req: &UpdateProposalReq) -> (messages: Messages)
    ensures
        messages.wf(),
        messages@.messages == update_check_messages(*req),
{
    let mut messages = Messages::new();
    add_when(&mut messages, req.supplier_id.is_none(), UpdateProposalMessage::missing_supplier_id_field());
    let ghost m0 = messages@.messages;
    add_when(&mut messages, req.header.start_date.is_none(), UpdateProposalMessage::missing_header_field("Начало срока действия", &req.header));
    add_when(&mut messages, req.header.end_date.is_none(), UpdateProposalMessage::missing_header_field("Окончание срока действия", &req.header));
    proof {
        lemma_concat_associative(
            m0,
            msg_if(req.header.start_date is None, form_header_message("Начало срока действия"@, req.header)),
            msg_if(req.header.end_date is None, form_header_message("Окончание срока действия"@, req.header)),
        );
    }
    let ghost m1 = messages@.messages;
    let ghost g = |i: ProposalItemForm| form_item_errors(i);
    let items = &req.item_list;
    let mut j: usize = 0;
    while j < items.len()
        invariant
            j <= items@.len(),
            messages.wf(),
            messages@.messages == m1 + concat_all(items@.take(j as int).map_values(g)),
        decreases items.len() - j,
    {
        add_form_item_errors(&mut messages, &items[j]);
        proof {
            lemma_map_take_step(items@, j as int, g);
            let t = items@.take(j as int).map_values(g);
            assert(items@.take(j + 1).map_values(g).drop_last() =~= t);
            lemma_concat_associative(m1, concat_all(t), g(items@[j as int]));
        }
        j += 1;
    }
    proof {
        lemma_take_all(items@);
    }
    let found = find_tender_attachment(&req.attachment_list);
    add_when(&mut messages, !found, UpdateProposalMessage::not_found_tcp_document());
    messages
}

/// What the check of the organization found.
pub enum PartnerCheck {
    /// No organization record: one is to be created for the supplier.
    Create(i32),
    /// The organization record of the supplier.
    Existing(RequestPartner),
}

/// The organization is looked up when the proposal names none yet but the
/// request and the supplier are given.
pub open spec fn needs_partner_lookup(req: UpdateProposalReq) -> bool {
    req.header.supplier_uuid is None && req.header.request_uuid is Some && req.supplier_id is Some
}

/// Whether to look up the organization: (request uuid, supplier id).
pub fn partner_lookup(req: &UpdateProposalReq) -> (r: Option<(u128, i32)>)
    ensures
        needs_partner_lookup(*req) <==> r is Some,
        r matches Some(p) ==> req.header.request_uuid == Some(p.0) && req.supplier_id == Some(p.1),
{
    match (req.header.supplier_uuid, req.header.request_uuid, req.supplier_id) {
        (None, Some(request_uuid), Some(supplier_id)) => Some((request_uuid, supplier_id)),
        _ => None,
    }
}

/// The check of the organization (not removed) found for the request and
/// supplier: none means one is to be created; one invited through the
/// trading platform is refused with "Нет полномочий".
pub fn check_request_partner(found: Option<RequestPartner>, supplier_id: i32, messages: &mut Messages) -> (r: PartnerCheck)
    requires
        old(messages).wf(),
    ensures
        final(messages).wf(),
        match found {
            None => r == PartnerCheck::Create(supplier_id) && final(messages)@ == old(messages)@,
            Some(p) => r == PartnerCheck::Existing(p) && final(messages)@.messages == old(messages)@.messages
                + msg_if(p.is_public, no_authority_message()),
        },
{
    match found {
        Some(partner) => {
            add_when(messages, partner.is_public, UpdateProposalMessage::no_authority());
            PartnerCheck::Existing(partner)
        },
        None => PartnerCheck::Create(supplier_id),
    }
}

} // verus!

verus! {

/// The amount of a position without VAT, zero when absent.
pub open spec fn amount_or_zero(v: Option<i64>) -> int {
    match v {
        Some(x) => x as int,
        None => 0,
    }
}

/// The total without VAT of the positions being saved.
pub open spec fn total_excluded_vat(items: Seq<ProposalItemForm>) -> int
    decreases items.len(),
{
    if items.len() == 0 {
        0
    } else {
        total_excluded_vat(items.drop_last()) + amount_or_zero(items.last().sum_excluded_vat)
    }
}

/// The total without VAT of the positions being saved.
pub fn sum_excluded_vat(items: &Vec<ProposalItemForm>) -> (s: i128)
    ensures
        s == total_excluded_vat(items@),
{
    let mut s: i128 = 0;
    let mut i: usize = 0;
    while i < items.len()
        invariant
            i <= items@.len(),
            s == total_excluded_vat(items@.take(i as int)),
            -(i as int) * 0x8000_0000_0000_0000 <= s <= (i as int) * 0x8000_0000_0000_0000,
        decreases items.len() - i,
    {
        proof {
            assert(items@.take(i + 1).drop_last() =~= items@.take(i as int));
            assert((i + 1) * 0x8000_0000_0000_0000 <= 0x1_0000_0000_0000_0000 * 0x8000_0000_0000_0000) by (nonlinear_arith)
                requires i < 0x1_0000_0000_0000_0000;
        }
        let v: i128 = match items[i].sum_excluded_vat {
            Some(x) => x as i128,
            None => 0,
        };
        s = s + v;
        i += 1;
    }
    proof {
        lemma_take_all(items@);
    }
    s
}

/// The first position (in order) whose request position is not among the
/// found ones.
pub open spec fn first_missing_at(items: Seq<ProposalItemForm>, found: Seq<RequestItem>, k: int) -> bool {
    &&& 0 <= k < items.len()
    &&& items[k].request_item_uuid matches Some(u) && !request_item_found(found, u)
    &&& forall|j: int| 0 <= j < k ==> (#[trigger] items[j].request_item_uuid matches Some(u) ==> request_item_found(found, u))
}

/// Some found request position has the uuid.
pub open spec fn request_item_found(found: Seq<RequestItem>, u: u128) -> bool {
    exists|i: int| 0 <= i < found.len() && (#[trigger] found[i]).uuid == u
}

/// Whether some found request position has the uuid.
fn find_request_item(found: &Vec<RequestItem>, u: u128) -> (b: bool)
    ensures
        b == request_item_found(found@, u),
{
    let mut i: usize = 0;
    while i < found.len()
        invariant
            i <= found@.len(),
            forall|j: int| 0 <= j < i ==> (#[trigger] found@[j]).uuid != u,
        decreases found.len() - i,
    {
        if found[i].uuid == u {
            return true;
        }
        i += 1;
    }
    false
}

/// Every position being saved must name a request position that exists;
/// the first that does not gives a not-found error with its uuid.
pub fn check_request_items(items: &Vec<ProposalItemForm>, found: &Vec<RequestItem>) -> (r: Result<(), TcpError>)
    ensures
        r is Ok <==> forall|k: int| 0 <= k < items@.len() ==> (#[trigger] items@[k].request_item_uuid matches Some(u)
            ==> request_item_found(found@, u)),
        r matches Err(e) ==> exists|k: int| #[trigger] first_missing_at(items@, found@, k)
            && (e matches TcpError::RecordNotFound(id, table) && id@ == uuid_text(items@[k].request_item_uuid->0)
            && table@ == "request_item"@),
{
    let mut k: usize = 0;
    while k < items.len()
        invariant
            k <= items@.len(),
            forall|j: int| 0 <= j < k ==> (#[trigger] items@[j].request_item_uuid matches Some(u) ==> request_item_found(found@, u)),
        decreases items.len() - k,
    {
        match items[k].request_item_uuid {
            Some(u) => {
                if !find_request_item(found, u) {
                    proof {
                        assert(first_missing_at(items@, found@, k as int));
                    }
                    return Err(TcpError::RecordNotFound(uuid_to_string(u), owned("request_item")));
                }
            },
            None => {},
        }
        k += 1;
    }
    Ok(())
}

/// The header of a saved proposal: its hierarchy and total, created (again)
/// and under review, changed by the user at the moment, and the
/// organization that the check of the organization gave.
pub open spec fn saved_header(
    h: crate::model::ProposalHeader,
    hierarchy_uuid: u128,
    total: i64,
    user_id: i32,
    now: i64,
    supplier_uuid: Option<u128>,
) -> crate::model::ProposalHeader {
    crate::model::ProposalHeader {
        hierarchy_uuid: Some(hierarchy_uuid),
        sum_excluded_vat_total: Some(total),
        status_id: crate::model::ProposalStatus::Created,
        status_check_id: crate::model::CheckStatus::Review,
        created_by: user_id,
        created_at: now,
        changed_by: user_id,
        changed_at: now,
        supplier_uuid: match supplier_uuid {
            Some(u) => u,
            None => h.supplier_uuid,
        },
        ..h
    }
}

/// Fills the header of a proposal being saved.
pub fn fill_saved_header(
    h: crate::model::ProposalHeader,
    hierarchy_uuid: u128,
    total: i64,
    user_id: i32,
    now: i64,
    supplier_uuid: Option<u128>,
) -> (r: crate::model::ProposalHeader)
    ensures
        r == saved_header(h, hierarchy_uuid, total, user_id, now, supplier_uuid),
{
    let mut h = h;
    h.hierarchy_uuid = Some(hierarchy_uuid);
    h.sum_excluded_vat_total = Some(total);
    h.status_id = crate::model::ProposalStatus::Created;
    h.status_check_id = crate::model::CheckStatus::Review;
    h.created_by = user_id;
    h.created_at = now;
    h.changed_by = user_id;
    h.changed_at = now;
    match supplier_uuid {
        Some(u) => h.supplier_uuid = u,
        None => {},
    }
    h
}

/// The organization record created for a proposal made by hand: not
/// published, numbered after the request's others.
pub fn new_request_partner(uuid: u128, request_uuid: u128, supplier_id: i32, number: i16) -> (p: RequestPartner)
    ensures
        p == (RequestPartner { uuid, request_uuid, supplier_id, is_public: false, is_removed: false, number }),
{
    RequestPartner { uuid, request_uuid, supplier_id, is_public: false, is_removed: false, number }
}

/// A position of the answer: the saved position with the price and VAT of
/// its request position.
pub struct UpdateProposalResponseItem {
    pub proposal_item: crate::model::ProposalItem,
    pub vat_id: Option<VatId>,
    pub price: Option<i64>,
}

/// The request position with the uuid that the lookup finds: the last one.
pub open spec fn last_request_item(found: Seq<RequestItem>, u: u128) -> Option<int>
    decreases found.len(),
{
    if found.len() == 0 {
        None
    } else if found.last().uuid == u {
        Some(found.len() - 1)
    } else {
        last_request_item(found.drop_last(), u)
    }
}

/// The index that the lookup finds is a valid one.
pub proof fn lemma_last_request_item_bound(found: Seq<RequestItem>, u: u128)
    ensures
        last_request_item(found, u) matches Some(j) ==> 0 <= j < found.len() && found[j].uuid == u,
    decreases found.len(),
{
    if found.len() > 0 && found.last().uuid != u {
        lemma_last_request_item_bound(found.drop_last(), u);
    }
}

/// The index of the request position with the uuid, as `last_request_item` states it.
pub fn find_last_request_item(found: &Vec<RequestItem>, u: u128) -> (r: Option<usize>)
    ensures
        match r {
            Some(i) => last_request_item(found@, u) == Some(i as int),
            None => last_request_item(found@, u) is None,
        },
{
    let mut i = found.len();
    proof {
        lemma_take_all(found@);
    }
    while i > 0
        invariant
            i <= found@.len(),
            last_request_item(found@, u) == last_request_item(found@.take(i as int), u),
        decreases i,
    {
        proof {
            assert(found@.take(i as int).drop_last() =~= found@.take(i - 1));
        }
        if found[i - 1].uuid == u {
            return Some(i - 1);
        }
        i = i - 1;
    }
    None
}

/// Position `k` is the first saved position whose request position is not
/// among the found ones.
pub open spec fn first_unfound_item(items: Seq<crate::model::ProposalItem>, found: Seq<RequestItem>, k: int) -> bool {
    &&& 0 <= k < items.len()
    &&& last_request_item(found, items[k].request_item_uuid) is None
    &&& forall|q: int| 0 <= q < k ==> last_request_item(found, (#[trigger] items[q]).request_item_uuid) is Some
}

/// The answer positions of the saved proposal: each saved position with
/// the price and VAT of its request position; fails with not-found for the
/// first position whose request position is not among the found ones.
pub fn finalise_response(
    items: Vec<crate::model::ProposalItem>,
    found: &Vec<RequestItem>,
) -> (r: Result<Vec<UpdateProposalResponseItem>, TcpError>)
    ensures
        r is Ok <==> forall|k: int| 0 <= k < items@.len() ==> last_request_item(found@, #[trigger] items@[k].request_item_uuid) is Some,
        r matches Ok(v) ==> v@.len() == items@.len() && forall|k: int| 0 <= k < items@.len() ==> {
            let j = last_request_item(found@, items@[k].request_item_uuid)->0;
            &&& #[trigger] v@[k].proposal_item == items@[k]
            &&& v@[k].price == found@[j].price
            &&& v@[k].vat_id == found@[j].vat_id
        },
        r matches Err(e) ==> e matches TcpError::RecordNotFound(t, table) && table@ == "request_item"@ && exists|k: int|
            #[trigger] first_unfound_item(items@, found@, k) && t@ == uuid_text(items@[k].request_item_uuid),
{
    let ghost its = items@;
    let mut out: Vec<UpdateProposalResponseItem> = Vec::new();
    for it_ in it: items.into_iter()
        invariant
            it.seq() == its,
            out@.len() == it.index(),
            forall|k: int| 0 <= k < it.index() ==> last_request_item(found@, #[trigger] its[k].request_item_uuid) is Some,
            forall|k: int| 0 <= k < it.index() ==> {
                let j = last_request_item(found@, its[k].request_item_uuid)->0;
                &&& #[trigger] out@[k].proposal_item == its[k]
                &&& out@[k].price == found@[j].price
                &&& out@[k].vat_id == found@[j].vat_id
            },
    {
        proof {
            assert(it_ == its[it.index() as int]);
        }
        match find_last_request_item(found, it_.request_item_uuid) {
            None => {
                proof {
                    assert(first_unfound_item(its, found@, it.index() as int));
                }
                return Err(TcpError::RecordNotFound(uuid_to_string(it_.request_item_uuid), owned("request_item")));
            },
            Some(j) => {
                proof {
                    lemma_last_request_item_bound(found@, it_.request_item_uuid);
                }
                let price = found[j].price;
                let vat_id = found[j].vat_id;
                out.push(UpdateProposalResponseItem { proposal_item: it_, vat_id, price });
            },
        }
    }
    Ok(out)
}

} // verus!

verus! {

/// The numbers of the positions being saved.
pub open spec fn proposal_form_numbers(forms: Seq<ProposalItemForm>) -> Seq<Option<i16>> {
    forms.map_values(|f: ProposalItemForm| f.number)
}

/// The uuids that the positions being saved name.
pub open spec fn proposal_form_uuids(forms: Seq<ProposalItemForm>) -> Seq<Option<u128>> {
    forms.map_values(|f: ProposalItemForm| f.uuid)
}

/// The positions of a saved proposal, with the total without VAT of the
/// positions sent. A new proposal's positions are stably ordered by number
/// (those without one first), all new and numbered from 1. Otherwise the
/// positions sent keep their order, each taking over the stored position
/// it names unless an earlier one took it, and the stored positions that
/// none takes over follow (in the order of the map that holds them); all
/// are numbered from 1.
pub fn update_items(new: bool, forms: &Vec<ProposalItemForm>, old_uuids: &Vec<u128>) -> (r: (Vec<MergedEntry>, i128))
    requires
        forms@.len() <= 32767,
        !new ==> forms@.len() + left_over_set(proposal_form_uuids(forms@), old_uuids@).len() <= 32767,
    ensures
        r.1 == total_excluded_vat(forms@),
        new ==> {
            &&& r.0@.len() == forms@.len()
            &&& forall|p: int| 0 <= p < r.0@.len() ==> (#[trigger] r.0@[p]).form_index is Some
            &&& is_stable_order(number_keys(proposal_form_numbers(forms@)), form_order(r.0@))
            &&& forall|p: int|
                0 <= p < r.0@.len() ==> merged_at(
                    #[trigger] r.0@[p],
                    in_order(proposal_form_uuids(forms@), form_order(r.0@)),
                    Seq::empty(),
                    p,
                )
        },
        !new ==> {
            let w = proposal_form_uuids(forms@);
            &&& forms@.len() <= r.0@.len()
            &&& forall|p: int|
                0 <= p < forms@.len() ==> (#[trigger] r.0@[p]).form_index == Some(p as usize) && merged_at(
                    r.0@[p],
                    w,
                    old_uuids@,
                    p,
                )
            &&& forall|p: int|
                forms@.len() <= p < r.0@.len() ==> {
                    &&& (#[trigger] r.0@[p]).form_index is None
                    &&& r.0@[p].number == p + 1
                    &&& left_over(w, old_uuids@, r.0@[p].uuid)
                    &&& r.0@[p].old_index matches Some(j) && is_last_index(old_uuids@, r.0@[p].uuid, j as int)
                }
            &&& forall|p: int, q: int|
                forms@.len() <= p < q < r.0@.len() ==> (#[trigger] r.0@[p]).uuid != (#[trigger] r.0@[q]).uuid
            &&& forall|u: u128|
                left_over(w, old_uuids@, u) ==> exists|p: int| forms@.len() <= p < r.0@.len() && (#[trigger] r.0@[p]).uuid == u
        },
{
    let mut numbers: Vec<Option<i16>> = Vec::new();
    let mut uuids: Vec<Option<u128>> = Vec::new();
    let mut i: usize = 0;
    while i < forms.len()
        invariant
            i <= forms@.len(),
            numbers@.len() == i,
            uuids@.len() == i,
            forall|k: int| 0 <= k < i ==> #[trigger] numbers@[k] == forms@[k].number,
            forall|k: int| 0 <= k < i ==> #[trigger] uuids@[k] == forms@[k].uuid,
        decreases forms.len() - i,
    {
        numbers.push(forms[i].number);
        uuids.push(forms[i].uuid);
        i += 1;
    }
    proof {
        assert(numbers@ =~= proposal_form_numbers(forms@));
        assert(uuids@ =~= proposal_form_uuids(forms@));
    }
    let sum = sum_excluded_vat(forms);
    if new {
        let none: Vec<u128> = Vec::new();
        let m = merge_sorted(&numbers, &uuids, &none);
        proof {
            assert(none@ =~= Seq::<u128>::empty());
        }
        (m.items, sum)
    } else {
        (merge_in_order(&uuids, old_uuids), sum)
    }
}

} // verus!

verus! {

/// The answer to saving a proposal: its header and its positions.
pub struct UpdateProposalResponseData {
    pub header: crate::model::ProposalHeader,
    pub item_list: Vec<UpdateProposalResponseItem>,
}

} // verus!
