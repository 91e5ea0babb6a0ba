//! Creating price information requests from plans ("/create_price_information_request"):
//! the check of the user's data, the records created, and their filling
//! from the plans.
use vstd::prelude::*;

use crate::messages::{plain, Message, MessageKind, MessageView, Messages};
use crate::model::{RequestHeader, RequestItem, RequestPartner, RequestStatus, RequestType, TcpError};
use crate::outside::{new_uuid, parse_uuid, parsed_uuid};
use crate::seqs::{lemma_map_take_step, lemma_take_all};
use crate::text::{concat, concat3, decimal, decimals, i64_to_string, join, owned};

verus! {

/// Helpers shared by the service's operations.
pub struct Utils;

impl Utils {
    /// The numbers in decimal, separated by ", ".
    pub fn convert_vec_i64_to_string(v: &Vec<i64>) -> (s: String)
        ensures
            s@ == join(decimals(v@), ", "@),
    {
        let mut s = String::new();
        let mut i: usize = 0;
        while i < v.len()
            invariant
                i <= v@.len(),
                s@ == join(decimals(v@.take(i as int)), ", "@),
            decreases v.len() - i,
        {
            let n = i64_to_string(v[i]);
            proof {
                let d = decimals(v@.take(i + 1));
                assert(d =~= decimals(v@.take(i as int)).push(decimal(v@[i as int] as int)));
                assert(d.drop_last() =~= decimals(v@.take(i as int)));
            }
            if i > 0 {
                s.append(", ");
            }
            s.append(n.as_str());
            i += 1;
        }
        proof {
            lemma_take_all(v@);
        }
        s
    }
}

/// A plan and its positions named in a creation request (as texts).
pub struct PlanUuids {
    pub plan_uuid: String,
    pub plan_item_uuids: Vec<String>,
}

/// An organization named in a creation request.
pub struct SupplierFormData {
    pub supplier_id: i32,
    pub additional_email: Option<String>,
}

/// A file named in a creation request.
pub struct FileFormData {
    pub uuid: String,
    pub name: String,
}

/// A request to create price information requests, one per plan.
pub struct CreatePriceInformationRequest {
    pub plan_data: Vec<PlanUuids>,
    /// End of the term of validity (a date; its text is never empty).
    pub period_of_validity: i64,
    pub request_type: RequestType,
    pub suppliers: Option<Vec<SupplierFormData>>,
    pub technical_specification: FileFormData,
    pub draft_treaty: FileFormData,
    pub template_tkp: FileFormData,
    pub additional_documents: Option<Vec<FileFormData>>,
}

/// The messages of a check of the user's data.
pub struct ValidationResults {
    pub messages: Messages,
}

/// "Fill in the field "<name>"", an error.
pub open spec fn required_message(name: Seq<char>) -> MessageView {
    plain(MessageKind::Error, "Заполните поле \""@ + name + "\""@)
}

/// The errors of the check of a creation request, in order.
pub open spec fn creation_check_messages(r: CreatePriceInformationRequest) -> Seq<MessageView> {
    crate::check_request::msg_if(r.technical_specification.uuid@.len() == 0, required_message("Техническое задание"@))
        + crate::check_request::msg_if(r.draft_treaty.uuid@.len() == 0, required_message("Проект договора"@))
        + crate::check_request::msg_if(r.template_tkp.uuid@.len() == 0, required_message("Шаблон ТКП"@))
        + crate::check_request::msg_if(
        r.request_type == RequestType::Private && (match r.suppliers {
            Some(v) => v@.len() == 0,
            None => true,
        }),
        required_message("Поставщики"@),
    )
}

/// Appends the error when a required value is empty.
fn check_required(results: &mut ValidationResults, value: &str, field_name: &str)
    requires
        old(results).messages.wf(),
    ensures
        final(results).messages.wf(),
        final(results).messages@.messages == old(results).messages@.messages + crate::check_request::msg_if(
            value@.len() == 0,
            required_message(field_name@),
        ),
{
    let ghost s = results.messages@.messages;
    if value.is_empty() {
        results.messages.add(Message::error(concat3("Заполните поле \"", field_name, "\"")));
    }
    proof {
        assert(results.messages@.messages =~= s + crate::check_request::msg_if(value@.len() == 0, required_message(field_name@)));
    }
}

impl CreatePriceInformationRequest {
    /// The check of the user's data: the technical specification, the draft
    /// treaty and the proposal template are required, and a closed request
    /// needs organizations. (The term of validity is a date, whose text is
    /// never empty.)
    pub fn validate(&self) -> (r: ValidationResults)
        ensures
            r.messages.wf(),
            r.messages@.messages == creation_check_messages(*self),
    {
        let mut results = ValidationResults { messages: Messages::new() };
        let ghost s0 = results.messages@.messages;
        check_required(&mut results, self.technical_specification.uuid.as_str(), "Техническое задание");
        check_required(&mut results, self.draft_treaty.uuid.as_str(), "Проект договора");
        check_required(&mut results, self.template_tkp.uuid.as_str(), "Шаблон ТКП");
        let no_suppliers = match &self.suppliers {
            Some(v) => v.len() == 0,
            None => true,
        };
        if self.request_type == RequestType::Private && no_suppliers {
            check_required(&mut results, "", "Поставщики");
        }
        proof {
            let r = *self;
            let p0 = crate::check_request::msg_if(r.technical_specification.uuid@.len() == 0, required_message("Техническое задание"@));
            let p1 = crate::check_request::msg_if(r.draft_treaty.uuid@.len() == 0, required_message("Проект договора"@));
            let p2 = crate::check_request::msg_if(r.template_tkp.uuid@.len() == 0, required_message("Шаблон ТКП"@));
            let p3 = crate::check_request::msg_if(r.request_type == RequestType::Private && no_suppliers, required_message("Поставщики"@));
            assert(""@.len() == 0) by {
                reveal_strlit("");
            }
            vstd::seq_lib::lemma_concat_associative(s0, p0, p1);
            vstd::seq_lib::lemma_concat_associative(s0, p0 + p1, p2);
            vstd::seq_lib::lemma_concat_associative(s0, p0 + p1 + p2, p3);
            assert(results.messages@.messages =~= s0 + (p0 + p1 + p2 + p3));
        }
        results
    }

    /// The messages of the check, when there are any.
    pub fn validate_json(&self) -> (r: Option<Messages>)
        ensures
            creation_check_messages(*self).len() == 0 <==> r is None,
            r matches Some(m) ==> m.wf() && m@.messages == creation_check_messages(*self),
    {
        let res = self.validate();
        if !res.messages.is_empty() {
            return Some(res.messages);
        }
        None
    }
}

} // verus!

verus! {

/// A price information request with its positions and organizations.
pub struct PriceInformationRequest {
    pub header: RequestHeader,
    pub items: Vec<RequestItem>,
    pub suppliers: Option<Vec<RequestPartner>>,
}

/// A uuid as `Uuid::new_v4` makes it: version 4, RFC 4122 variant.
pub open spec fn is_v4(u: u128) -> bool {
    (u >> 76u128) & 0xfu128 == 4 && (u >> 62u128) & 0x3u128 == 2
}

/// The header of a request created from a plan.
pub open spec fn created_header(
    uuid: u128,
    plan_uuid: u128,
    end_date: i64,
    request_type: RequestType,
    now: i64,
) -> RequestHeader {
    RequestHeader {
        id: 0,
        uuid,
        plan_uuid: Some(plan_uuid),
        plan_id: None,
        hierarchy_uuid: None,
        type_request_id: Some(request_type),
        request_subject: None,
        start_date: None,
        end_date: Some(end_date),
        status_id: RequestStatus::Created,
        customer_id: None,
        currency_id: None,
        organizer_id: None,
        organizer_name: None,
        organizer_mail: None,
        organizer_phone: None,
        organizer_location: None,
        reason_closing: None,
        created_by: 0,
        created_at: now,
        changed_by: 0,
        changed_at: 0,
    }
}

/// A position of a created request, before it is filled from the plan.
pub open spec fn blank_item(item: RequestItem, uuid: u128, request_uuid: u128, plan_item_uuid: u128) -> bool {
    &&& item.uuid == uuid
    &&& item.request_uuid == request_uuid
    &&& item.plan_item_uuid == plan_item_uuid
    &&& item.number == 0
    &&& item.description_internal@.len() == 0
    &&& item.category_id == 0 && item.okved2_id == 0 && item.okpd2_id == 0
    &&& item.quantity == 0 && item.unit_id == 0 && item.product_type_id == 0
    &&& item.price is None && item.vat_id is None
}

/// An organization of a created request.
pub open spec fn created_partner(uuid: u128, request_uuid: u128, supplier_id: i32) -> RequestPartner {
    RequestPartner { uuid, request_uuid, supplier_id, is_public: false, is_removed: false, number: 0 }
}

/// Every text of the plan names a uuid.
pub open spec fn plan_uuids_parse(p: PlanUuids) -> bool {
    &&& parsed_uuid(p.plan_uuid@) is Some
    &&& forall|k: int| 0 <= k < p.plan_item_uuids@.len() ==> parsed_uuid(#[trigger] p.plan_item_uuids@[k]@) is Some
}

/// A created request for the plan.
pub open spec fn created_request(
    json: CreatePriceInformationRequest,
    p: PlanUuids,
    r: PriceInformationRequest,
    now: i64,
) -> bool {
    &&& is_v4(r.header.uuid)
    &&& r.header == created_header(r.header.uuid, parsed_uuid(p.plan_uuid@)->0, json.period_of_validity, json.request_type, now)
    &&& r.items@.len() == p.plan_item_uuids@.len()
    &&& forall|k: int| 0 <= k < r.items@.len() ==> is_v4(#[trigger] r.items@[k].uuid) && blank_item(
        r.items@[k],
        r.items@[k].uuid,
        r.header.uuid,
        parsed_uuid(p.plan_item_uuids@[k]@)->0,
    )
    &&& match json.suppliers {
        None => r.suppliers is None,
        Some(v) => r.suppliers matches Some(s) && s@.len() == v@.len() && forall|k: int| 0 <= k < s@.len() ==> is_v4(
            #[trigger] s@[k].uuid,
        ) && s@[k] == created_partner(s@[k].uuid, r.header.uuid, v@[k].supplier_id),
    }
}

/// A new uuid, as `is_v4` states it.
fn fresh_uuid() -> (u: u128)
    ensures
        is_v4(u),
{
    new_uuid()
}

/// Reads a uuid from a text; the text is the error otherwise.
pub fn parse_uuid_text(s: &str) -> (r: Result<u128, TcpError>)
    ensures
        match parsed_uuid(s@) {
            Some(u) => r == Ok::<u128, TcpError>(u),
            None => r matches Err(TcpError::InvalidUuid(t)) && t@ == s@,
        },
{
    match parse_uuid(s) {
        Ok(u) => Ok(u),
        Err(_) => Err(TcpError::InvalidUuid(owned(s))),
    }
}

impl PriceInformationRequest {
    /// The header of a request for the plan.
    pub fn create_header(plan_uuid: &str, json_dto: &CreatePriceInformationRequest, now: i64) -> (r: Result<RequestHeader, TcpError>)
        ensures
            parsed_uuid(plan_uuid@) is Some <==> r is Ok,
            r matches Ok(h) ==> is_v4(h.uuid) && h == created_header(
                h.uuid,
                parsed_uuid(plan_uuid@)->0,
                json_dto.period_of_validity,
                json_dto.request_type,
                now,
            ),
            r matches Err(e) ==> e is InvalidUuid,
    {
        let uuid = fresh_uuid();
        let plan = match parse_uuid_text(plan_uuid) {
            Ok(u) => u,
            Err(e) => return Err(e),
        };
        Ok(RequestHeader {
            id: 0,
            uuid,
            plan_uuid: Some(plan),
            plan_id: None,
            hierarchy_uuid: None,
            type_request_id: Some(json_dto.request_type),
            request_subject: None,
            start_date: None,
            end_date: Some(json_dto.period_of_validity),
            status_id: RequestStatus::Created,
            customer_id: None,
            currency_id: None,
            organizer_id: None,
            organizer_name: None,
            organizer_mail: None,
            organizer_phone: None,
            organizer_location: None,
            reason_closing: None,
            created_by: 0,
            created_at: now,
            changed_by: 0,
            changed_at: 0,
        })
    }

    /// The positions of a request for the plan's positions.
    pub fn create_items(header_uuid: u128, plan_uuids: &PlanUuids) -> (r: Result<Vec<RequestItem>, TcpError>)
        ensures
            (forall|k: int| 0 <= k < plan_uuids.plan_item_uuids@.len() ==> parsed_uuid(#[trigger] plan_uuids.plan_item_uuids@[k]@) is Some)
                <==> r is Ok,
            r matches Ok(items) ==> items@.len() == plan_uuids.plan_item_uuids@.len() && forall|k: int|
                0 <= k < items@.len() ==> is_v4(#[trigger] items@[k].uuid) && blank_item(
                    items@[k],
                    items@[k].uuid,
                    header_uuid,
                    parsed_uuid(plan_uuids.plan_item_uuids@[k]@)->0,
                ),
            r matches Err(e) ==> e is InvalidUuid,
    {
        let list = &plan_uuids.plan_item_uuids;
        let mut items: Vec<RequestItem> = Vec::new();
        let mut k: usize = 0;
        while k < list.len()
            invariant
                k <= list@.len(),
                list@ == plan_uuids.plan_item_uuids@,
                items@.len() == k,
                forall|j: int| 0 <= j < k ==> parsed_uuid(#[trigger] list@[j]@) is Some,
                forall|j: int| 0 <= j < k ==> is_v4(#[trigger] items@[j].uuid) && blank_item(
                    items@[j],
                    items@[j].uuid,
                    header_uuid,
                    parsed_uuid(list@[j]@)->0,
                ),
            decreases list.len() - k,
        {
            let plan_item_uuid = match parse_uuid_text(list[k].as_str()) {
                Ok(u) => u,
                Err(e) => {
                    assert(parsed_uuid(list@[k as int]@) is None);
                    return Err(e);
                },
            };
            let uuid = fresh_uuid();
            items.push(RequestItem {
                uuid,
                request_uuid: header_uuid,
                plan_item_uuid,
                number: 0,
                description_internal: String::new(),
                category_id: 0,
                okved2_id: 0,
                okpd2_id: 0,
                quantity: 0,
                unit_id: 0,
                price: None,
                vat_id: None,
                product_type_id: 0,
            });
            k += 1;
        }
        Ok(items)
    }

    /// The organizations of a request: one for each supplier named, if any.
    pub fn create_suppliers(header_uuid: u128, json_dto: &CreatePriceInformationRequest) -> (r: Option<Vec<RequestPartner>>)
        ensures
            match json_dto.suppliers {
                None => r is None,
                Some(v) => r matches Some(s) && s@.len() == v@.len() && forall|k: int| 0 <= k < s@.len() ==> is_v4(
                    #[trigger] s@[k].uuid,
                ) && s@[k] == created_partner(s@[k].uuid, header_uuid, v@[k].supplier_id),
            },
    {
        match &json_dto.suppliers {
            Some(json_suppliers) => {
                let mut suppliers: Vec<RequestPartner> = Vec::new();
                let mut k: usize = 0;
                while k < json_suppliers.len()
                    invariant
                        k <= json_suppliers@.len(),
                        suppliers@.len() == k,
                        forall|j: int| 0 <= j < k ==> is_v4(#[trigger] suppliers@[j].uuid) && suppliers@[j] == created_partner(
                            suppliers@[j].uuid,
                            header_uuid,
                            json_suppliers@[j].supplier_id,
                        ),
                    decreases json_suppliers.len() - k,
                {
                    let uuid = fresh_uuid();
                    suppliers.push(RequestPartner {
                        uuid,
                        request_uuid: header_uuid,
                        supplier_id: json_suppliers[k].supplier_id,
                        is_public: false,
                        is_removed: false,
                        number: 0,
                    });
                    k += 1;
                }
                Some(suppliers)
            },
            None => None,
        }
    }

    /// The requests to create from a creation request, one per plan, created
    /// at the moment; fails when some text is not a uuid.
    pub fn create_price_information_request_from_json(json_dto: &CreatePriceInformationRequest, now: i64) -> (r: Result<Vec<PriceInformationRequest>, TcpError>)
        ensures
            (forall|i: int| 0 <= i < json_dto.plan_data@.len() ==> plan_uuids_parse(#[trigger] json_dto.plan_data@[i])) <==> r is Ok,
            r matches Ok(list) ==> list@.len() == json_dto.plan_data@.len() && forall|i: int| 0 <= i < list@.len() ==> created_request(
                *json_dto,
                json_dto.plan_data@[i],
                #[trigger] list@[i],
                now,
            ),
            r matches Err(e) ==> e is InvalidUuid,
    {
        let plans = &json_dto.plan_data;
        let mut list: Vec<PriceInformationRequest> = Vec::new();
        let mut i: usize = 0;
        while i < plans.len()
            invariant
                i <= plans@.len(),
                plans@ == json_dto.plan_data@,
                list@.len() == i,
                forall|j: int| 0 <= j < i ==> plan_uuids_parse(#[trigger] plans@[j]),
                forall|j: int| 0 <= j < i ==> created_request(*json_dto, plans@[j], #[trigger] list@[j], now),
            decreases plans.len() - i,
        {
            let header = match Self::create_header(plans[i].plan_uuid.as_str(), json_dto, now) {
                Ok(h) => h,
                Err(e) => {
                    assert(!plan_uuids_parse(plans@[i as int]));
                    return Err(e);
                },
            };
            let items = match Self::create_items(header.uuid, &plans[i]) {
                Ok(v) => v,
                Err(e) => {
                    assert(!plan_uuids_parse(plans@[i as int]));
                    return Err(e);
                },
            };
            let suppliers = Self::create_suppliers(header.uuid, json_dto);
            list.push(PriceInformationRequest { header, items, suppliers });
            i += 1;
        }
        Ok(list)
    }
}

} // verus!

verus! {

/// All positions of the requests, request after request.
pub open spec fn all_items(list: Seq<PriceInformationRequest>) -> Seq<RequestItem>
    decreases list.len(),
{
    if list.len() == 0 {
        Seq::empty()
    } else {
        all_items(list.drop_last()) + list.last().items@
    }
}

/// All organizations of the requests, request after request (none for a
/// request without organizations).
pub open spec fn all_partners(list: Seq<PriceInformationRequest>) -> Seq<RequestPartner>
    decreases list.len(),
{
    if list.len() == 0 {
        Seq::empty()
    } else {
        all_partners(list.drop_last()) + match list.last().suppliers {
            Some(v) => v@,
            None => Seq::empty(),
        }
    }
}

/// The records of requests to save: the headers in order, then all
/// positions and all organizations, request after request.
pub fn insert_price_information_request(list: Vec<PriceInformationRequest>) -> (r: (
    Vec<RequestHeader>,
    Vec<RequestItem>,
    Vec<RequestPartner>,
))
    ensures
        r.0@.len() == list@.len(),
        forall|i: int| 0 <= i < list@.len() ==> #[trigger] r.0@[i] == list@[i].header,
        r.1@ == all_items(list@),
        r.2@ == all_partners(list@),
{
    let ghost l = list@;
    let mut headers: Vec<RequestHeader> = Vec::new();
    let mut items: Vec<RequestItem> = Vec::new();
    let mut partners: Vec<RequestPartner> = Vec::new();
    for req in it: list.into_iter()
        invariant
            it.seq() == l,
            headers@.len() == it.index(),
            forall|i: int| 0 <= i < it.index() ==> #[trigger] headers@[i] == l[i].header,
            items@ == all_items(l.take(it.index() as int)),
            partners@ == all_partners(l.take(it.index() as int)),
    {
        let ghost k = it.index() as int;
        proof {
            assert(req == l[k]);
            assert(l.take(k + 1).drop_last() =~= l.take(k));
            assert(l.take(k + 1).last() == l[k]);
        }
        let PriceInformationRequest { header, items: mut its, suppliers } = req;
        headers.push(header);
        items.append(&mut its);
        match suppliers {
            Some(mut v) => partners.append(&mut v),
            None => {
                proof {
                    assert(partners@ + Seq::<RequestPartner>::empty() =~= partners@);
                }
            },
        }
    }
    proof {
        assert(l.take(l.len() as int) =~= l);
    }
    (headers, items, partners)
}

} // verus!
