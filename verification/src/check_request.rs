//! The check of a price information request before it is saved or published.
use vstd::prelude::*;

use crate::messages::{plain, strings_view, Message, MessageKind, MessageView, Messages};
use crate::model::{Attachment, FolderCategory, RequestType, KIND_FILE, KIND_FOLDER};
use crate::text::{concat, concat3, is_empty_str, owned};
use vstd::seq_lib::lemma_concat_associative;

verus! {

/// Header of a price information request as the user sends it: a field that
/// was not sent is `None`, a field sent empty is `Some(None)`.
pub struct RequestHeaderForm {
    pub uuid: Option<u128>,
    pub id: Option<i64>,
    pub type_request_id: Option<Option<RequestType>>,
    pub request_subject: Option<Option<String>>,
    pub organizer_name: Option<Option<String>>,
    pub organizer_mail: Option<Option<String>>,
    pub organizer_phone: Option<Option<String>>,
    pub organizer_location: Option<Option<String>>,
    /// Justification of a closed request.
    pub request_type_text: Option<Option<String>>,
    pub end_date: Option<Option<i64>>,
}

/// A position of a request as the user sends it.
pub struct RequestItemForm {
    pub uuid: Option<u128>,
    pub number: Option<i16>,
}

/// An organization of a request as the user sends it.
pub struct RequestPartnerForm {
    pub uuid: Option<u128>,
    pub supplier_id: Option<i32>,
}

/// A request to save, or to check before saving, a price information request.
pub struct UpdatePriceInformationRequest {
    pub header: RequestHeaderForm,
    pub item_list: Vec<RequestItemForm>,
    pub partner_list: Vec<RequestPartnerForm>,
    pub attachment_list: Vec<Attachment>,
}

/// The messages of the check.
pub enum CheckRequestPriceInfoMessage {
    /// A closed request lacks its justification.
    CloseRequestReason,
    /// Something (named) has to be filled in.
    Fill(String),
    /// A field (its caption, its name) has to be filled in.
    FillField(String, String),
    /// A document of the category has to be attached.
    Attachment(FolderCategory),
}

/// The caption of a folder category that a request must hold a file in.
pub open spec fn category_caption(c: FolderCategory) -> Seq<char> {
    if c == FolderCategory::TechnicalSpecification {
        "Техническое задание"@
    } else {
        "Договорные документы"@
    }
}

/// "Fill in the field "<caption>"", naming the field.
pub open spec fn fill_field_message(caption: Seq<char>, field: Seq<char>) -> MessageView {
    MessageView {
        fields: seq![field],
        ..plain(MessageKind::Information, "Заполните поле \""@ + caption + "\""@)
    }
}

/// "Fill in <what>".
pub open spec fn fill_message(what: Seq<char>) -> MessageView {
    plain(MessageKind::Information, "Заполните "@ + what)
}

/// The error that a closed request lacks its justification.
pub open spec fn close_reason_message() -> MessageView {
    MessageView {
        fields: seq!["request_type_text"@],
        ..plain(MessageKind::Error, "Для закрытого ЗЦИ заполните поле \"Обоснование\""@)
    }
}

/// "Attach <document>".
pub open spec fn attach_message(c: FolderCategory) -> MessageView {
    plain(MessageKind::Information, "Прикрепите "@ + category_caption(c))
}

impl CheckRequestPriceInfoMessage {
    /// The message that the variant stands for.
    pub fn create_message(self) -> (m: Message)
        requires
            self matches CheckRequestPriceInfoMessage::Attachment(c) ==> (c
                == FolderCategory::TechnicalSpecification || c == FolderCategory::ContractDocuments),
        ensures
            match self {
                CheckRequestPriceInfoMessage::CloseRequestReason => m@ == close_reason_message(),
                CheckRequestPriceInfoMessage::Fill(what) => m@ == fill_message(what@),
                CheckRequestPriceInfoMessage::FillField(caption, field) => m@ == fill_field_message(
                    caption@,
                    field@,
                ),
                CheckRequestPriceInfoMessage::Attachment(c) => m@ == attach_message(c),
            },
    {
        match self {
            CheckRequestPriceInfoMessage::CloseRequestReason => {
                let mut fields = Vec::new();
                fields.push(owned("request_type_text"));
                let m = Message::error(owned("Для закрытого ЗЦИ заполните поле \"Обоснование\""));
                let m = m.with_fields(fields);
                proof {
                    assert(strings_view(fields@) =~= seq!["request_type_text"@]);
                }
                m
            },
            CheckRequestPriceInfoMessage::Fill(what) => {
                Message::info(concat("Заполните ", what.as_str()))
            },
            CheckRequestPriceInfoMessage::FillField(caption, field) => {
                let ghost f = field@;
                let mut fields = Vec::new();
                fields.push(field);
                let m = Message::info(concat3("Заполните поле \"", caption.as_str(), "\""));
                let m = m.with_fields(fields);
                proof {
                    assert(strings_view(fields@) =~= seq![f]);
                }
                m
            },
            CheckRequestPriceInfoMessage::Attachment(c) => {
                let caption = if c == FolderCategory::TechnicalSpecification {
                    "Техническое задание"
                } else {
                    "Договорные документы"
                };
                Message::info(concat("Прикрепите ", caption))
            },
        }
    }
}

/// A text field that was not sent, sent empty, or sent as an empty string.
pub open spec fn text_missing(o: Option<Option<String>>) -> bool {
    match o {
        Some(Some(s)) => s@.len() == 0,
        _ => true,
    }
}

/// The type of the request is not chosen.
pub open spec fn type_missing(o: Option<Option<RequestType>>) -> bool {
    match o {
        Some(Some(t)) => t == RequestType::Unspecified,
        _ => true,
    }
}

/// The request is a closed one.
pub open spec fn is_private(o: Option<Option<RequestType>>) -> bool {
    o == Some(Some(RequestType::Private))
}

/// A folder of the category.
pub open spec fn is_folder_of(a: Attachment, c: FolderCategory) -> bool {
    a.kind_id == KIND_FOLDER && a.category_id == Some(c)
}

/// A file in the folder `folder_id` that is neither removed nor classified.
pub open spec fn is_live_file_in(a: Attachment, folder_id: i64) -> bool {
    a.kind_id == KIND_FILE && a.parent_id == Some(folder_id) && !a.is_removed && !a.is_classified
}

/// `i` is the first folder of the category in the list.
pub open spec fn first_folder_at(atts: Seq<Attachment>, c: FolderCategory, i: int) -> bool {
    &&& 0 <= i < atts.len()
    &&& is_folder_of(atts[i], c)
    &&& forall|j: int| 0 <= j < i ==> !is_folder_of(#[trigger] atts[j], c)
}

/// The first folder of the category holds a live file.
pub open spec fn has_document(atts: Seq<Attachment>, c: FolderCategory) -> bool {
    exists|i: int|
        #[trigger] first_folder_at(atts, c, i) && exists|j: int|
            0 <= j < atts.len() && #[trigger] is_live_file_in(atts[j], atts[i].id)
}

/// One message if the condition holds, none otherwise.
pub open spec fn msg_if(cond: bool, m: MessageView) -> Seq<MessageView> {
    if cond { seq![m] } else { Seq::empty() }
}

/// The messages about the header's required fields, in their order.
pub open spec fn header_field_messages(h: RequestHeaderForm) -> Seq<MessageView> {
    msg_if(type_missing(h.type_request_id), fill_field_message("Тип ЗЦИ"@, "type_request_id"@))
        + msg_if(text_missing(h.request_subject), fill_field_message("Предмет ЗЦИ"@, "request_subject"@))
        + msg_if(text_missing(h.organizer_name), fill_field_message("Контактное лицо"@, "organizer_name"@))
        + msg_if(text_missing(h.organizer_mail), fill_field_message("Электронный адрес"@, "organizer_mail"@))
        + msg_if(text_missing(h.organizer_phone), fill_field_message("Телефон"@, "organizer_phone"@))
        + msg_if(
        text_missing(h.organizer_location),
        fill_field_message("Местонахождение"@, "organizer_location"@),
    )
}

/// The messages about a closed request.
pub open spec fn private_messages(h: RequestHeaderForm, partner_count: nat) -> Seq<MessageView> {
    if is_private(h.type_request_id) {
        msg_if(text_missing(h.request_type_text), close_reason_message())
            + msg_if(partner_count == 0, fill_message("данные организаций"@))
    } else {
        Seq::empty()
    }
}

/// The messages about the attached documents.
pub open spec fn document_messages(atts: Seq<Attachment>) -> Seq<MessageView> {
    msg_if(!has_document(atts, FolderCategory::TechnicalSpecification), attach_message(FolderCategory::TechnicalSpecification))
        + msg_if(!has_document(atts, FolderCategory::ContractDocuments), attach_message(FolderCategory::ContractDocuments))
}

/// All messages of the check of a request, in the order in which they are given.
pub open spec fn check_messages(r: UpdatePriceInformationRequest) -> Seq<MessageView> {
    header_field_messages(r.header)
        + private_messages(r.header, r.partner_list@.len())
        + document_messages(r.attachment_list@)
        + msg_if(r.item_list@.len() == 0, fill_message("данные спецификации"@))
}

/// Whether a text field is missing.
fn text_field_missing(o: &Option<Option<String>>) -> (b: bool)
    ensures
        b == text_missing(*o),
{
    match o {
        Some(Some(s)) => is_empty_str(s),
        _ => true,
    }
}

/// Whether the first folder of the category holds a live file.
pub fn find_document(atts: &Vec<Attachment>, c: FolderCategory) -> (b: bool)
    ensures
        b == has_document(atts@, c),
{
    let mut i: usize = 0;
    while i < atts.len()
        invariant
            i <= atts@.len(),
            forall|j: int| 0 <= j < i ==> !is_folder_of(#[trigger] atts@[j], c),
        decreases atts.len() - i,
    {
        let a = atts[i];
        if a.kind_id == KIND_FOLDER && a.category_id == Some(c) {
            let folder_id = a.id;
            proof {
                assert(first_folder_at(atts@, c, i as int));
            }
            let mut j: usize = 0;
            while j < atts.len()
                invariant
                    j <= atts@.len(),
                    i < atts@.len(),
                    folder_id == atts@[i as int].id,
                    first_folder_at(atts@, c, i as int),
                    forall|k: int| 0 <= k < j ==> !is_live_file_in(#[trigger] atts@[k], folder_id),
                decreases atts.len() - j,
            {
                let f = atts[j];
                if f.kind_id == KIND_FILE && f.parent_id == Some(folder_id) && !f.is_removed
                    && !f.is_classified {
                    proof {
                        assert(is_live_file_in(atts@[j as int], atts@[i as int].id));
                    }
                    return true;
                }
                j += 1;
            }
            proof {
                assert forall|k: int| #[trigger] first_folder_at(atts@, c, k) implies k == i by {
                    if k < i {
                        assert(!is_folder_of(atts@[k], c));
                    } else if k > i {
                        assert(!is_folder_of(atts@[i as int], c));
                    }
                }
            }
            return false;
        }
        i += 1;
    }
    proof {
        assert forall|k: int| !(#[trigger] first_folder_at(atts@, c, k)) by {
            if 0 <= k < atts@.len() {
                assert(!is_folder_of(atts@[k], c));
            }
        }
    }
    false
}

/// Appends the messages about one required text field of the header.
fn add_text_field_message(
    messages: &mut Messages,
    o: &Option<Option<String>>,
    caption: &str,
    field: &str,
)
    requires
        old(messages).wf(),
    ensures
        final(messages).wf(),
        final(messages)@.messages == old(messages)@.messages + msg_if(
            text_missing(*o),
            fill_field_message(caption@, field@),
        ),
{
    let ghost start = messages@.messages;
    if text_field_missing(o) {
        messages.add(CheckRequestPriceInfoMessage::FillField(owned(caption), owned(field)).create_message());
    }
    proof {
        assert(messages@.messages =~= start + msg_if(text_missing(*o), fill_field_message(caption@, field@)));
    }
}

/// Appends the messages about the header's required fields.
fn add_header_field_messages(messages: &mut Messages, h: &RequestHeaderForm)
    requires
        old(messages).wf(),
    ensures
        final(messages).wf(),
        final(messages)@.messages == old(messages)@.messages + header_field_messages(*h),
{
    let ghost start = messages@.messages;
    let type_missing_now = match &h.type_request_id {
        Some(Some(t)) => *t == RequestType::Unspecified,
        _ => true,
    };
    if type_missing_now {
        messages.add(CheckRequestPriceInfoMessage::FillField(owned("Тип ЗЦИ"), owned("type_request_id")).create_message());
    }
    proof {
        assert(messages@.messages =~= start + msg_if(type_missing(h.type_request_id), fill_field_message("Тип ЗЦИ"@, "type_request_id"@)));
    }
    let ghost p0 = msg_if(type_missing(h.type_request_id), fill_field_message("Тип ЗЦИ"@, "type_request_id"@));
    let ghost p1 = msg_if(text_missing(h.request_subject), fill_field_message("Предмет ЗЦИ"@, "request_subject"@));
    let ghost p2 = msg_if(text_missing(h.organizer_name), fill_field_message("Контактное лицо"@, "organizer_name"@));
    let ghost p3 = msg_if(text_missing(h.organizer_mail), fill_field_message("Электронный адрес"@, "organizer_mail"@));
    let ghost p4 = msg_if(text_missing(h.organizer_phone), fill_field_message("Телефон"@, "organizer_phone"@));
    let ghost p5 = msg_if(text_missing(h.organizer_location), fill_field_message("Местонахождение"@, "organizer_location"@));
    add_text_field_message(messages, &h.request_subject, "Предмет ЗЦИ", "request_subject");
    let ghost m1 = messages@.messages;
    add_text_field_message(messages, &h.organizer_name, "Контактное лицо", "organizer_name");
    let ghost m2 = messages@.messages;
    add_text_field_message(messages, &h.organizer_mail, "Электронный адрес", "organizer_mail");
    let ghost m3 = messages@.messages;
    add_text_field_message(messages, &h.organizer_phone, "Телефон", "organizer_phone");
    let ghost m4 = messages@.messages;
    add_text_field_message(messages, &h.organizer_location, "Местонахождение", "organizer_location");
    proof {
        assert(messages@.messages == start + p0 + p1 + p2 + p3 + p4 + p5);
        lemma_concat_associative(start, p0, p1);
        lemma_concat_associative(start, p0 + p1, p2);
        lemma_concat_associative(start, p0 + p1 + p2, p3);
        lemma_concat_associative(start, p0 + p1 + p2 + p3, p4);
        lemma_concat_associative(start, p0 + p1 + p2 + p3 + p4, p5);
    }
}

/// Appends the messages about a closed request.
fn add_private_messages(messages: &mut Messages, request: &UpdatePriceInformationRequest)
    requires
        old(messages).wf(),
    ensures
        final(messages).wf(),
        final(messages)@.messages == old(messages)@.messages + private_messages(
            request.header,
            request.partner_list@.len(),
        ),
{
    let ghost start = messages@.messages;
    let h = &request.header;
    let private = match &h.type_request_id {
        Some(Some(t)) => *t == RequestType::Private,
        _ => false,
    };
    if private {
        if text_field_missing(&h.request_type_text) {
            messages.add(CheckRequestPriceInfoMessage::CloseRequestReason.create_message());
        }
        let ghost mid = messages@.messages;
        if request.partner_list.len() == 0 {
            messages.add(CheckRequestPriceInfoMessage::Fill(owned("данные организаций")).create_message());
        }
        proof {
            assert(mid =~= start + msg_if(text_missing(h.request_type_text), close_reason_message()));
            assert(messages@.messages =~= mid + msg_if(request.partner_list@.len() == 0, fill_message("данные организаций"@)));
        }
    }
    proof {
        assert(messages@.messages =~= start + private_messages(*h, request.partner_list@.len()));
    }
}

/// Appends the messages about the attached documents.
fn add_document_messages(messages: &mut Messages, atts: &Vec<Attachment>)
    requires
        old(messages).wf(),
    ensures
        final(messages).wf(),
        final(messages)@.messages == old(messages)@.messages + document_messages(atts@),
{
    let ghost start = messages@.messages;
    if !find_document(atts, FolderCategory::TechnicalSpecification) {
        messages.add(CheckRequestPriceInfoMessage::Attachment(FolderCategory::TechnicalSpecification).create_message());
    }
    let ghost mid = messages@.messages;
    if !find_document(atts, FolderCategory::ContractDocuments) {
        messages.add(CheckRequestPriceInfoMessage::Attachment(FolderCategory::ContractDocuments).create_message());
    }
    proof {
        assert(mid =~= start + msg_if(!has_document(atts@, FolderCategory::TechnicalSpecification), attach_message(FolderCategory::TechnicalSpecification)));
        assert(messages@.messages =~= start + document_messages(atts@));
    }
}

/// Checks a price information request before it is saved or published:
/// the required header fields, for a closed request its justification and
/// organizations, a live file in the folders of the technical specification
/// and of the contract documents, and at least one position.
pub fn check_request_price_info(request: &UpdatePriceInformationRequest) -> (messages: Messages)
    ensures
        messages.wf(),
        messages@.messages == check_messages(*request),
{
    let mut messages = Messages::new();
    add_header_field_messages(&mut messages, &request.header);
    add_private_messages(&mut messages, request);
    add_document_messages(&mut messages, &request.attachment_list);
    let ghost before = messages@.messages;
    if request.item_list.len() == 0 {
        messages.add(CheckRequestPriceInfoMessage::Fill(owned("данные спецификации")).create_message());
    }
    proof {
        assert(messages@.messages =~= before + msg_if(request.item_list@.len() == 0, fill_message("данные спецификации"@)));
        assert(messages@.messages =~= check_messages(*request));
    }
    messages
}

} // verus!
