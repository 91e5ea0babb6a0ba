//! Approving proposals ("/action/proposal_approve/"): the required fields of
//! the proposals, the proposal document, and the new status.
use vstd::prelude::*;

use crate::check_request::msg_if;
use crate::messages::{plain, Message, MessageKind, MessageView, Messages, ParamItem, ParamItemView};
use crate::model::{Attachment, FolderCategory, ProposalHeader, ProposalItem, ProposalStatus, TcpError, KIND_FILE, KIND_FOLDER};
use crate::seqs::{concat_all, lemma_concat_all_take_step, lemma_map_take_step, lemma_take_all};
use crate::text::{concat, concat3, decimal, i64_to_string, is_empty_str, owned};
use vstd::seq_lib::lemma_concat_associative;

verus! {

/// A proposal with its positions.
pub struct JoinedProposal {
    pub header: ProposalHeader,
    pub items: Vec<ProposalItem>,
}

/// "Fill in the field <name>", an error about a proposal header.
pub open spec fn missing_header_message(name: Seq<char>, h: ProposalHeader) -> MessageView {
    MessageView {
        item_list: seq![ParamItemView { id: decimal(h.id as int), uuid: Some(h.uuid) }],
        ..plain(MessageKind::Error, "Заполните поле "@ + name)
    }
}

/// "Fill in the field <name>", an error about a proposal position.
pub open spec fn missing_item_message(name: Seq<char>, uuid: u128) -> MessageView {
    MessageView {
        item_list: seq![ParamItemView { id: Seq::empty(), uuid: Some(uuid) }],
        ..plain(MessageKind::Error, "Заполните поле "@ + name)
    }
}

/// The messages of approving proposals.
pub struct ApproveProposalMessage;

impl ApproveProposalMessage {
    /// "ТКП <id> подтверждено".
    pub fn success(id: i64) -> (m: Message)
        ensures
            m@ == plain(MessageKind::Success, "ТКП "@ + decimal(id as int) + " подтверждено"@),
    {
        let n = i64_to_string(id);
        Message::success(concat3("ТКП ", n.as_str(), " подтверждено"))
    }

    /// A required field of the proposal header is empty.
    pub fn missing_header_field(field_name: &str, header: &ProposalHeader) -> (m: Message)
        ensures
            m@ == missing_header_message(field_name@, *header),
    {
        Message::error(concat("Заполните поле ", field_name)).with_param_item(ParamItem {
            uuid: Some(header.uuid),
            id: i64_to_string(header.id),
        })
    }

    /// A required field of a proposal position is empty.
    pub fn missing_item_field(field_name: &str, item: &ProposalItem) -> (m: Message)
        ensures
            m@ == missing_item_message(field_name@, item.uuid),
    {
        Message::error(concat("Заполните поле ", field_name)).with_param_item(ParamItem::from_uuid(Some(item.uuid)))
    }

    /// The proposal document is not attached.
    pub fn not_found_tcp_document() -> (m: Message)
        ensures
            m@ == plain(MessageKind::Error, "Прикрепите Документ ТКП"@),
    {
        Message::error(owned("Прикрепите Документ ТКП"))
    }
}

/// The errors about the empty required fields of one proposal header.
pub open spec fn header_errors(h: ProposalHeader) -> Seq<MessageView> {
    msg_if(h.supplier_uuid == 0, missing_header_message("Организация"@, h))
        + msg_if(h.start_date is None, missing_header_message("Начало срока действия"@, h))
        + msg_if(h.end_date is None, missing_header_message("Окончание срока действия"@, h))
        + msg_if(h.hierarchy_uuid is None, missing_header_message("UUID иерархии"@, h))
}

/// The reason why a position cannot be delivered is missing.
pub open spec fn note_missing(o: Option<String>) -> bool {
    match o {
        Some(s) => s@.len() == 0,
        None => true,
    }
}

/// The errors about the empty required fields of one proposal position.
pub open spec fn item_errors(i: ProposalItem) -> Seq<MessageView> {
    msg_if(i.is_possibility && i.price is None, missing_item_message("Цена Организации (без НДС)"@, i.uuid))
        + msg_if(i.is_possibility && i.vat_id is None, missing_item_message("Ставка НДС Организации"@, i.uuid))
        + msg_if(!i.is_possibility && note_missing(i.possibility_note), missing_item_message("Причина невозможности поставки"@, i.uuid))
        + msg_if(i.pay_condition_id == Some(10i16) && i.prepayment_percent is None, missing_item_message("Размер аванса, %"@, i.uuid))
}

/// Appends a message when the condition holds.
fn add_when(messages: &mut Messages, cond: bool, m: Message)
    requires
        old(messages).wf(),
    ensures
        final(messages).wf(),
        final(messages)@.messages == old(messages)@.messages + msg_if(cond, m@),
{
    let ghost start = messages@.messages;
    if cond {
        messages.add(m);
    }
    proof {
        assert(messages@.messages =~= start + msg_if(cond, m@));
    }
}

/// Appends the errors about one proposal header.
fn add_header_errors(messages: &mut Messages, h: &ProposalHeader)
    requires
        old(messages).wf(),
    ensures
        final(messages).wf(),
        final(messages)@.messages == old(messages)@.messages + header_errors(*h),
{
    let ghost s = messages@.messages;
    add_when(messages, h.supplier_uuid == 0, ApproveProposalMessage::missing_header_field("Организация", h));
    add_when(messages, h.start_date.is_none(), ApproveProposalMessage::missing_header_field("Начало срока действия", h));
    add_when(messages, h.end_date.is_none(), ApproveProposalMessage::missing_header_field("Окончание срока действия", h));
    add_when(messages, h.hierarchy_uuid.is_none(), ApproveProposalMessage::missing_header_field("UUID иерархии", h));
    proof {
        let p0 = msg_if(h.supplier_uuid == 0, missing_header_message("Организация"@, *h));
        let p1 = msg_if(h.start_date is None, missing_header_message("Начало срока действия"@, *h));
        let p2 = msg_if(h.end_date is None, missing_header_message("Окончание срока действия"@, *h));
        let p3 = msg_if(h.hierarchy_uuid is None, missing_header_message("UUID иерархии"@, *h));
        lemma_concat_associative(s, p0, p1);
        lemma_concat_associative(s, p0 + p1, p2);
        lemma_concat_associative(s, p0 + p1 + p2, p3);
    }
}

/// Appends the errors about one proposal position.
fn add_item_errors(messages: &mut Messages, i: &ProposalItem)
    requires
        old(messages).wf(),
    ensures
        final(messages).wf(),
        final(messages)@.messages == old(messages)@.messages + item_errors(*i),
{
    let ghost s = messages@.messages;
    let note_absent = match &i.possibility_note {
        Some(n) => is_empty_str(n),
        None => true,
    };
    add_when(messages, i.is_possibility && i.price.is_none(), ApproveProposalMessage::missing_item_field("Цена Организации (без НДС)", i));
    add_when(messages, i.is_possibility && i.vat_id.is_none(), ApproveProposalMessage::missing_item_field("Ставка НДС Организации", i));
    add_when(messages, !i.is_possibility && note_absent, ApproveProposalMessage::missing_item_field("Причина невозможности поставки", i));
    add_when(messages, i.pay_condition_id == Some(10i16) && i.prepayment_percent.is_none(), ApproveProposalMessage::missing_item_field("Размер аванса, %", i));
    proof {
        let p0 = msg_if(i.is_possibility && i.price is None, missing_item_message("Цена Организации (без НДС)"@, i.uuid));
        let p1 = msg_if(i.is_possibility && i.vat_id is None, missing_item_message("Ставка НДС Организации"@, i.uuid));
        let p2 = msg_if(!i.is_possibility && note_missing(i.possibility_note), missing_item_message("Причина невозможности поставки"@, i.uuid));
        let p3 = msg_if(i.pay_condition_id == Some(10i16) && i.prepayment_percent is None, missing_item_message("Размер аванса, %"@, i.uuid));
        lemma_concat_associative(s, p0, p1);
        lemma_concat_associative(s, p0 + p1, p2);
        lemma_concat_associative(s, p0 + p1 + p2, p3);
    }
}

/// The errors about the headers of all proposals, in order.
pub open spec fn all_header_errors(data: Seq<JoinedProposal>) -> Seq<MessageView> {
    concat_all(data.map_values(|p: JoinedProposal| header_errors(p.header)))
}

/// The errors about the positions of all proposals, in order.
pub open spec fn all_item_errors(data: Seq<JoinedProposal>) -> Seq<MessageView> {
    concat_all(data.map_values(|p: JoinedProposal| concat_all(p.items@.map_values(|i: ProposalItem| item_errors(i)))))
}

/// Appends the errors about the empty required fields of the proposal headers.
#[verifier::loop_isolation(false)]
pub fn check_header_fields(data: &Vec<JoinedProposal>, messages: &mut Messages)
    requires
        old(messages).wf(),
    ensures
        final(messages).wf(),
        final(messages)@.messages == old(messages)@.messages + all_header_errors(data@),
{
    let ghost s = messages@.messages;
    let ghost f = |p: JoinedProposal| header_errors(p.header);
    let mut k: usize = 0;
    while k < data.len()
        invariant
            k <= data@.len(),
            messages.wf(),
            messages@.messages == s + concat_all(data@.take(k as int).map_values(f)),
        decreases data.len() - k,
    {
        add_header_errors(messages, &data[k].header);
        proof {
            lemma_map_take_step(data@, k as int, f);
            let t = data@.take(k as int).map_values(f);
            assert(data@.take(k + 1).map_values(f).drop_last() =~= t);
            lemma_concat_associative(s, concat_all(t), f(data@[k as int]));
        }
        k += 1;
    }
    proof {
        lemma_take_all(data@);
    }
}

/// Appends the errors about the empty required fields of the positions.
#[verifier::loop_isolation(false)]
pub fn check_item_fields(data: &Vec<JoinedProposal>, messages: &mut Messages)
    requires
        old(messages).wf(),
    ensures
        final(messages).wf(),
        final(messages)@.messages == old(messages)@.messages + all_item_errors(data@),
{
    let ghost s = messages@.messages;
    let ghost g = |i: ProposalItem| item_errors(i);
    let ghost f = |p: JoinedProposal| concat_all(p.items@.map_values(g));
    let mut k: usize = 0;
    while k < data.len()
        invariant
            k <= data@.len(),
            messages.wf(),
            messages@.messages == s + concat_all(data@.take(k as int).map_values(f)),
        decreases data.len() - k,
    {
        let items = &data[k].items;
        let ghost s2 = messages@.messages;
        let mut j: usize = 0;
        while j < items.len()
            invariant
                j <= items@.len(),
                messages.wf(),
                messages@.messages == s2 + concat_all(items@.take(j as int).map_values(g)),
            decreases items.len() - j,
        {
            add_item_errors(messages, &items[j]);
            proof {
                lemma_map_take_step(items@, j as int, g);
                let t = items@.take(j as int).map_values(g);
                assert(items@.take(j + 1).map_values(g).drop_last() =~= t);
                lemma_concat_associative(s2, concat_all(t), g(items@[j as int]));
            }
            j += 1;
        }
        proof {
            lemma_take_all(items@);
            lemma_map_take_step(data@, k as int, f);
            let t = data@.take(k as int).map_values(f);
            assert(data@.take(k + 1).map_values(f).drop_last() =~= t);
            lemma_concat_associative(s, concat_all(t), f(data@[k as int]));
        }
        k += 1;
    }
    proof {
        lemma_take_all(data@);
    }
}

} // verus!

verus! {

/// A folder of the attachment hierarchy with its entries, as the monolith returns it.
pub struct HierarchyItem {
    pub uuid: u128,
    pub item_list: Vec<Attachment>,
}

/// All entries of the hierarchies, in order.
pub open spec fn hierarchy_entries(h: Seq<HierarchyItem>) -> Seq<Attachment> {
    concat_all(h.map_values(|x: HierarchyItem| x.item_list@))
}

/// Some folder of tender documentation holds a live file.
pub open spec fn has_tcp_document(entries: Seq<Attachment>) -> bool {
    exists|i: int, j: int|
        0 <= i < entries.len() && 0 <= j < entries.len() && #[trigger] crate::check_request::is_folder_of(
            entries[i],
            FolderCategory::TenderDocumentation,
        ) && #[trigger] crate::check_request::is_live_file_in(entries[j], entries[i].id)
}

/// All entries of the hierarchies in one list.
fn flatten_entries(h: &Vec<HierarchyItem>) -> (r: Vec<Attachment>)
    ensures
        r@ == hierarchy_entries(h@),
{
    let ghost f = |x: HierarchyItem| x.item_list@;
    let mut r: Vec<Attachment> = Vec::new();
    let mut k: usize = 0;
    while k < h.len()
        invariant
            k <= h@.len(),
            r@ == concat_all(h@.take(k as int).map_values(|x: HierarchyItem| x.item_list@)),
        decreases h.len() - k,
    {
        let ghost before = r@;
        let items = &h[k].item_list;
        let mut j: usize = 0;
        while j < items.len()
            invariant
                j <= items@.len(),
                r@ == before + items@.take(j as int),
            decreases items.len() - j,
        {
            r.push(items[j]);
            proof {
                assert(r@ =~= before + items@.take(j + 1));
            }
            j += 1;
        }
        proof {
            lemma_take_all(items@);
            lemma_map_take_step(h@, k as int, |x: HierarchyItem| x.item_list@);
            assert(h@.take(k + 1).map_values(|x: HierarchyItem| x.item_list@).drop_last()
                =~= h@.take(k as int).map_values(|x: HierarchyItem| x.item_list@));
        }
        k += 1;
    }
    proof {
        lemma_take_all(h@);
    }
    r
}

/// Whether some folder of tender documentation holds a live file.
#[verifier::loop_isolation(false)]
pub fn find_tcp_document(hierarchy: &Vec<HierarchyItem>) -> (b: bool)
    ensures
        b == has_tcp_document(hierarchy_entries(hierarchy@)),
{
    let entries = flatten_entries(hierarchy);
    let ghost e = entries@;
    let mut i: usize = 0;
    while i < entries.len()
        invariant
            i <= e.len(),
            e == entries@,
            forall|a: int, b: int|
                0 <= a < i && 0 <= b < e.len() ==> !(#[trigger] crate::check_request::is_folder_of(
                    e[a],
                    FolderCategory::TenderDocumentation,
                ) && #[trigger] crate::check_request::is_live_file_in(e[b], e[a].id)),
        decreases entries.len() - i,
    {
        let folder = entries[i];
        if folder.kind_id == KIND_FOLDER && folder.category_id == Some(FolderCategory::TenderDocumentation) {
            let mut j: usize = 0;
            while j < entries.len()
                invariant
                    j <= e.len(),
                    e == entries@,
                    i < e.len(),
                    folder == e[i as int],
                    crate::check_request::is_folder_of(folder, FolderCategory::TenderDocumentation),
                    forall|b: int| 0 <= b < j ==> !(#[trigger] crate::check_request::is_live_file_in(e[b], folder.id)),
                decreases entries.len() - j,
            {
                let f = entries[j];
                if f.kind_id == KIND_FILE && f.parent_id == Some(folder.id) && !f.is_removed && !f.is_classified {
                    proof {
                        assert(crate::check_request::is_folder_of(e[i as int], FolderCategory::TenderDocumentation));
                        assert(crate::check_request::is_live_file_in(e[j as int], e[i as int].id));
                        assert(has_tcp_document(e));
                    }
                    return true;
                }
                j += 1;
            }
        }
        proof {
            assert forall|a: int, b: int|
                0 <= a < i + 1 && 0 <= b < e.len() implies !(#[trigger] crate::check_request::is_folder_of(
                    e[a],
                    FolderCategory::TenderDocumentation,
                ) && #[trigger] crate::check_request::is_live_file_in(e[b], e[a].id)) by {
                if a == i {
                    if crate::check_request::is_folder_of(e[a], FolderCategory::TenderDocumentation) {
                        assert(!crate::check_request::is_live_file_in(e[b], folder.id));
                    }
                }
            }
        }
        i += 1;
    }
    false
}

/// Appends the error that the proposal document is missing, if it is.
pub fn check_attachment_fields(hierarchy: &Vec<HierarchyItem>, messages: &mut Messages)
    requires
        old(messages).wf(),
    ensures
        final(messages).wf(),
        final(messages)@.messages == old(messages)@.messages + msg_if(
            !has_tcp_document(hierarchy_entries(hierarchy@)),
            plain(MessageKind::Error, "Прикрепите Документ ТКП"@),
        ),
{
    let found = find_tcp_document(hierarchy);
    add_when(messages, !found, ApproveProposalMessage::not_found_tcp_document());
}

/// The hierarchies to ask the monolith for: those that the proposals name.
#[verifier::loop_isolation(false)]
pub fn hierarchy_request(data: &Vec<JoinedProposal>) -> (r: Vec<u128>)
    ensures
        r@ == data@.filter(|p: JoinedProposal| p.header.hierarchy_uuid is Some).map_values(
            |p: JoinedProposal| p.header.hierarchy_uuid->0,
        ),
{
    let ghost pred = |p: JoinedProposal| p.header.hierarchy_uuid is Some;
    let ghost f = |p: JoinedProposal| p.header.hierarchy_uuid->0;
    let mut r: Vec<u128> = Vec::new();
    let mut i: usize = 0;
    while i < data.len()
        invariant
            i <= data@.len(),
            r@ == data@.take(i as int).filter(|p: JoinedProposal| p.header.hierarchy_uuid is Some).map_values(
                |p: JoinedProposal| p.header.hierarchy_uuid->0,
            ),
        decreases data.len() - i,
    {
        proof {
            crate::seqs::lemma_filter_take_step(data@, i as int, pred);
            let fs = data@.take(i as int).filter(pred);
            assert(fs.push(data@[i as int]).map_values(f) =~= fs.map_values(f).push(f(data@[i as int])));
        }
        match data[i].header.hierarchy_uuid {
            Some(u) => r.push(u),
            None => {},
        }
        i += 1;
    }
    proof {
        lemma_take_all(data@);
    }
    r
}

/// The monolith must return some hierarchy.
pub fn check_hierarchy_response(hierarchy: &Vec<HierarchyItem>) -> (r: Result<(), TcpError>)
    ensures
        r is Ok <==> hierarchy@.len() > 0,
        r matches Err(e) ==> e matches TcpError::MonolithError(t) && t@ == "Монолит вернул пустой список иерархий"@,
{
    if hierarchy.len() == 0 {
        return Err(TcpError::MonolithError(owned("Монолит вернул пустой список иерархий")));
    }
    Ok(())
}

/// The proposal header once approved: received, changed by the user at the
/// moment, received now unless it was received before.
pub open spec fn approved(h: ProposalHeader, user_id: i32, now: i64) -> ProposalHeader {
    ProposalHeader {
        changed_at: now,
        changed_by: user_id,
        status_id: ProposalStatus::Received,
        receive_date: if h.receive_date is Some { h.receive_date } else { Some(now) },
        ..h
    }
}

/// All messages of the checks before approving, in order.
pub open spec fn approve_check_messages(data: Seq<JoinedProposal>, hierarchy: Seq<HierarchyItem>) -> Seq<MessageView> {
    all_header_errors(data) + all_item_errors(data) + msg_if(
        !has_tcp_document(hierarchy_entries(hierarchy)),
        plain(MessageKind::Error, "Прикрепите Документ ТКП"@),
    )
}

/// Approves proposals: when a required field or the proposal document is
/// missing, nothing changes and the errors are returned; otherwise every
/// proposal becomes received, with one success message for each.
pub fn approve_proposals(
    data: &Vec<JoinedProposal>,
    hierarchy: &Vec<HierarchyItem>,
    user_id: i32,
    now: i64,
) -> (res: Result<(Vec<ProposalHeader>, Messages), TcpError>)
    ensures
        ({
            let checks = approve_check_messages(data@, hierarchy@);
            &&& (res is Err <==> crate::messages::has_error(checks))
            &&& res matches Err(e) ==> e matches TcpError::Business(m) && m.wf() && m@.messages == checks
            &&& res matches Ok(r) ==> {
                &&& r.0@ == data@.map_values(|p: JoinedProposal| approved(p.header, user_id, now))
                &&& r.1.wf()
                &&& r.1@.messages == checks + data@.map_values(
                    |p: JoinedProposal| plain(MessageKind::Success, "ТКП "@ + decimal(p.header.id as int) + " подтверждено"@),
                )
            }
        }),
{
    let mut messages = Messages::new();
    check_header_fields(data, &mut messages);
    check_item_fields(data, &mut messages);
    check_attachment_fields(hierarchy, &mut messages);
    proof {
        assert(messages@.messages =~= approve_check_messages(data@, hierarchy@));
    }
    if messages.is_error() {
        return Err(TcpError::Business(messages));
    }
    let ghost checks = messages@.messages;
    let ghost upd = |p: JoinedProposal| approved(p.header, user_id, now);
    let ghost msg = |p: JoinedProposal| plain(MessageKind::Success, "ТКП "@ + decimal(p.header.id as int) + " подтверждено"@);
    let mut updated: Vec<ProposalHeader> = Vec::new();
    let mut i: usize = 0;
    while i < data.len()
        invariant
            i <= data@.len(),
            updated@ == data@.take(i as int).map_values(|p: JoinedProposal| approved(p.header, user_id, now)),
            messages.wf(),
            messages@.messages == checks + data@.take(i as int).map_values(
                |p: JoinedProposal| plain(MessageKind::Success, "ТКП "@ + decimal(p.header.id as int) + " подтверждено"@),
            ),
        decreases data.len() - i,
    {
        let h = data[i].header;
        let x = ProposalHeader {
            changed_at: now,
            changed_by: user_id,
            status_id: ProposalStatus::Received,
            receive_date: if h.receive_date.is_some() { h.receive_date } else { Some(now) },
            ..h
        };
        updated.push(x);
        messages.add(ApproveProposalMessage::success(h.id));
        proof {
            lemma_map_take_step(data@, i as int, upd);
            lemma_map_take_step(data@, i as int, msg);
        }
        i += 1;
    }
    proof {
        lemma_take_all(data@);
    }
    Ok((updated, messages))
}

} // verus!

verus! {

/// A record named by its number and uuid.
#[derive(Clone, Copy, Debug, PartialEq, Eq, Structural)]
pub struct ObjectIdentifier {
    pub id: i64,
    pub uuid: u128,
}

/// The proposals to approve.
pub struct ApproveProposalReq {
    pub item_list: Vec<ObjectIdentifier>,
}

/// The approved proposals.
pub struct ApproveProposalResponseData {
    pub item_list: Vec<ProposalHeader>,
}

} // verus!
