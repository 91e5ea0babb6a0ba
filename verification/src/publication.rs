//! Publishing a price information request on the trading platform: the
//! checks before publishing and the request to the integration service.
use vstd::prelude::*;

use crate::check_request::{check_messages, check_request_price_info, UpdatePriceInformationRequest};
use crate::messages::{
    messages_of, messages_view, plain, strings_view, Message, MessageKind, MessageView, Messages,
};
use crate::model::{with_status, Attachment, RequestHeader, RequestPartner, RequestStatus, TcpError, KIND_FILE};
use crate::outside::{id_set_elements, id_set_from, split_words, words};
use crate::seqs::{lemma_map_take_step, lemma_take_all};
use crate::text::{concat, concat3, copy_string, decimal, i16_to_string, i32_to_string, i64_to_string, owned};

verus! {

/// The three parts of a contact's full name: with three words they are the
/// first name, patronymic and last name; with two, first and last name; with
/// one, the first name; otherwise all are empty.
pub open spec fn name_parts(full: Seq<char>) -> (Seq<char>, Seq<char>, Seq<char>) {
    let w = words(full);
    if w.len() == 3 {
        (w[0], w[1], w[2])
    } else if w.len() == 2 {
        (w[0], Seq::empty(), w[1])
    } else if w.len() == 1 {
        (w[0], Seq::empty(), Seq::empty())
    } else {
        (Seq::empty(), Seq::empty(), Seq::empty())
    }
}

/// Splits a contact's full name into first name, patronymic and last name.
pub fn parse_full_name(full_name: &str) -> (r: (String, String, String))
    ensures
        (r.0@, r.1@, r.2@) == name_parts(full_name@),
{
    let mut parts = split_words(full_name);
    let ghost w = parts@.map_values(|x: String| x@);
    proof {
        assert(w == words(full_name@));
    }
    if parts.len() == 3 {
        let last = parts.pop().unwrap();
        let patronymic = parts.pop().unwrap();
        let first = parts.pop().unwrap();
        proof {
            assert(w[0] == first@ && w[1] == patronymic@ && w[2] == last@);
        }
        (first, patronymic, last)
    } else if parts.len() == 2 {
        let last = parts.pop().unwrap();
        let first = parts.pop().unwrap();
        proof {
            assert(w[0] == first@ && w[1] == last@);
        }
        (first, String::new(), last)
    } else if parts.len() == 1 {
        let first = parts.pop().unwrap();
        proof {
            assert(w[0] == first@);
        }
        (first, String::new(), String::new())
    } else {
        (String::new(), String::new(), String::new())
    }
}

/// The kind of position the trading platform expects for a product type:
/// goods (1) are "0", labor (2) is "2", services (3) are "1".
pub open spec fn pos_vid_of(t: i16) -> Option<Seq<char>> {
    if t == 1 {
        Some("0"@)
    } else if t == 2 {
        Some("2"@)
    } else if t == 3 {
        Some("1"@)
    } else {
        None
    }
}

/// The kind of position for the trading platform; other product types are
/// an error.
pub fn map_pos_vid(t: i16) -> (r: Result<String, TcpError>)
    ensures
        match pos_vid_of(t) {
            Some(v) => r matches Ok(s) && s@ == v,
            None => r matches Err(TcpError::InternalError(m)) && m@ == "Неизвестный product_type_id: "@ + decimal(
                t as int,
            ),
        },
{
    if t == 1 {
        Ok(owned("0"))
    } else if t == 2 {
        Ok(owned("2"))
    } else if t == 3 {
        Ok(owned("1"))
    } else {
        let n = i16_to_string(t);
        Err(TcpError::InternalError(concat("Неизвестный product_type_id: ", n.as_str())))
    }
}

/// The contact data of the organizer.
pub struct ContactInfo {
    pub phone: String,
    pub email: String,
    pub first_name: String,
    pub patronymic: String,
    pub last_name: String,
    pub legal_address: String,
}

/// A text field of the header, empty when absent.
pub open spec fn text_or_empty(o: Option<String>) -> Seq<char> {
    match o {
        Some(s) => s@,
        None => Seq::empty(),
    }
}

/// A copy of an optional text, empty when absent.
pub fn copy_or_empty(o: &Option<String>) -> (r: String)
    ensures
        r@ == text_or_empty(*o),
{
    match o {
        Some(s) => copy_string(s),
        None => String::new(),
    }
}

/// The organizer's contact data: phone, mail and location of the header, and
/// the parts of the name.
pub fn build_contract_info(header: &RequestHeader, first_name: String, patronymic: String, last_name: String) -> (c: ContactInfo)
    ensures
        c.phone@ == text_or_empty(header.organizer_phone),
        c.email@ == text_or_empty(header.organizer_mail),
        c.legal_address@ == text_or_empty(header.organizer_location),
        c.first_name@ == first_name@,
        c.patronymic@ == patronymic@,
        c.last_name@ == last_name@,
{
    ContactInfo {
        phone: copy_or_empty(&header.organizer_phone),
        email: copy_or_empty(&header.organizer_mail),
        first_name,
        patronymic,
        last_name,
        legal_address: copy_or_empty(&header.organizer_location),
    }
}

/// An organization as the monolith knows it.
pub struct Organization {
    pub id: i32,
    pub inn: String,
    pub kpp: String,
}

/// An organization of the request for the trading platform.
pub struct Supplier {
    pub inn: String,
    pub kpp: String,
    pub email: String,
    pub asez_id: String,
}

/// The index of the organization with the id that the lookup finds: the last one.
pub open spec fn last_org(orgs: Seq<Organization>, id: i32) -> Option<int>
    decreases orgs.len(),
{
    if orgs.len() == 0 {
        None
    } else if orgs.last().id == id {
        Some(orgs.len() - 1)
    } else {
        last_org(orgs.drop_last(), id)
    }
}

/// The index that the lookup finds is valid.
pub proof fn lemma_last_org_bound(orgs: Seq<Organization>, id: i32)
    ensures
        last_org(orgs, id) matches Some(j) ==> 0 <= j < orgs.len() && orgs[j].id == id,
    decreases orgs.len(),
{
    if orgs.len() > 0 && orgs.last().id != id {
        lemma_last_org_bound(orgs.drop_last(), id);
    }
}

/// Finds the organization with the id as `last_org` states it.
pub fn find_org(orgs: &Vec<Organization>, id: i32) -> (r: Option<usize>)
    ensures
        match r {
            Some(i) => last_org(orgs@, id) == Some(i as int),
            None => last_org(orgs@, id) is None,
        },
{
    let mut i = orgs.len();
    proof {
        lemma_take_all(orgs@);
    }
    while i > 0
        invariant
            i <= orgs@.len(),
            last_org(orgs@, id) == last_org(orgs@.take(i as int), id),
        decreases i,
    {
        proof {
            assert(orgs@.take(i as int).drop_last() =~= orgs@.take(i - 1));
        }
        if orgs[i - 1].id == id {
            return Some(i - 1);
        }
        i = i - 1;
    }
    None
}

/// The supplier of the request for the trading platform: the INN and KPP of
/// its organization, when the monolith knows it, and its id.
pub open spec fn supplier_of(p: RequestPartner, orgs: Seq<Organization>, s: Supplier) -> bool {
    &&& s.asez_id@ == decimal(p.supplier_id as int)
    &&& s.email@ == Seq::<char>::empty()
    &&& match last_org(orgs, p.supplier_id) {
        Some(j) => s.inn@ == orgs[j].inn@ && s.kpp@ == orgs[j].kpp@,
        None => s.inn@ == Seq::<char>::empty() && s.kpp@ == Seq::<char>::empty(),
    }
}

/// The organizations of the request for the trading platform; none when
/// the request has no organization.
pub fn build_suppliers(suppliers: &Vec<RequestPartner>, orgs: &Vec<Organization>) -> (r: Option<Vec<Supplier>>)
    ensures
        suppliers@.len() == 0 <==> r is None,
        r matches Some(v) ==> v@.len() == suppliers@.len() && forall|i: int| 0 <= i < suppliers@.len() ==> supplier_of(
            suppliers@[i],
            orgs@,
            #[trigger] v@[i],
        ),
{
    if suppliers.len() == 0 {
        return None;
    }
    let mut v: Vec<Supplier> = Vec::new();
    let mut i: usize = 0;
    while i < suppliers.len()
        invariant
            i <= suppliers@.len(),
            v@.len() == i,
            forall|k: int| 0 <= k < i ==> supplier_of(suppliers@[k], orgs@, #[trigger] v@[k]),
        decreases suppliers.len() - i,
    {
        let p = suppliers[i];
        let (inn, kpp) = match find_org(orgs, p.supplier_id) {
            Some(j) => {
                proof {
                    lemma_last_org_bound(orgs@, p.supplier_id);
                }
                (copy_string(&orgs[j].inn), copy_string(&orgs[j].kpp))
            },
            None => (String::new(), String::new()),
        };
        v.push(Supplier { inn, kpp, email: String::new(), asez_id: i32_to_string(p.supplier_id) });
        i += 1;
    }
    Some(v)
}

/// The messages of the check before publishing: every message of the check
/// of the request becomes an error unless the check gave only successes or
/// already an error; then the end date is required.
pub open spec fn publish_check_messages(checked: Seq<MessageView>, end_date: Option<Option<i64>>) -> Seq<MessageView> {
    let k = crate::messages::kind_of(checked);
    (if k == MessageKind::Success || k == MessageKind::Error {
        checked
    } else {
        checked.map_values(|m: MessageView| MessageView { kind: MessageKind::Error, ..m })
    }) + crate::check_request::msg_if(
        !(end_date matches Some(Some(_))),
        MessageView { fields: seq!["end_date"@], ..plain(MessageKind::Error, "Заполните поле \"Дата окончания\""@) },
    )
}

/// The check before publishing a request: the check of the request, with
/// every message turned into an error, and the end date.
pub fn prepare_publish_check(request: &UpdatePriceInformationRequest) -> (m: Messages)
    ensures
        m.wf(),
        m@.messages == publish_check_messages(check_messages(*request), request.header.end_date),
{
    let raw = check_request_price_info(request);
    let ghost checked = raw@.messages;
    let mut messages = if raw.kind == MessageKind::Success || raw.kind == MessageKind::Error {
        raw
    } else {
        let mut converted: Vec<Message> = Vec::new();
        let Messages { kind: _, messages: msgs } = raw;
        for msg in it: msgs.into_iter()
            invariant
                it.seq().map_values(|m: Message| m@) == checked,
                messages_view(converted@) == checked.take(it.index() as int).map_values(
                    |m: MessageView| MessageView { kind: MessageKind::Error, ..m },
                ),
        {
            proof {
                lemma_map_take_step(checked, it.index() as int, |m: MessageView| MessageView { kind: MessageKind::Error, ..m });
                assert(checked[it.index() as int] == msg@);
            }
            let ghost before = converted@;
            converted.push(Message { kind: MessageKind::Error, ..msg });
            proof {
                assert(messages_view(converted@) =~= messages_view(before).push(MessageView { kind: MessageKind::Error, ..msg@ }));
            }
        }
        proof {
            lemma_take_all(checked);
            crate::messages::lemma_kind_of_all_errors(messages_view(converted@));
        }
        Messages { kind: MessageKind::Error, messages: converted }
    };
    let ghost mid = messages@.messages;
    let has_end = match request.header.end_date {
        Some(Some(_)) => true,
        _ => false,
    };
    if !has_end {
        let mut fields: Vec<String> = Vec::new();
        fields.push(owned("end_date"));
        let msg = Message::error(owned("Заполните поле \"Дата окончания\"")).with_fields(fields);
        proof {
            assert(strings_view(fields@) =~= seq!["end_date"@]);
        }
        messages.add(msg);
    }
    proof {
        assert(messages@.messages =~= publish_check_messages(checked, request.header.end_date));
    }
    messages
}

} // verus!

verus! {

/// An attachment that goes with a published request: a file that is not
/// classified.
pub open spec fn sent_file(a: Attachment) -> bool {
    a.kind_id == KIND_FILE && !a.is_classified
}

/// The places of the attachments that go with a published request, in order.
pub fn files_to_send(atts: &Vec<Attachment>) -> (r: Vec<usize>)
    ensures
        forall|k: int| 0 <= k < r@.len() ==> (#[trigger] r@[k]) < atts@.len() && sent_file(atts@[r@[k] as int]),
        forall|i: int| 0 <= i < atts@.len() && sent_file(#[trigger] atts@[i]) ==> r@.contains(i as usize),
        forall|a: int, b: int| 0 <= a < b < r@.len() ==> r@[a] < r@[b],
{
    let mut r: Vec<usize> = Vec::new();
    let mut i: usize = 0;
    while i < atts.len()
        invariant
            i <= atts@.len(),
            forall|k: int| 0 <= k < r@.len() ==> (#[trigger] r@[k]) < i && sent_file(atts@[r@[k] as int]),
            forall|q: int| 0 <= q < i && sent_file(#[trigger] atts@[q]) ==> r@.contains(q as usize),
            forall|a: int, b: int| 0 <= a < b < r@.len() ==> r@[a] < r@[b],
        decreases atts.len() - i,
    {
        if atts[i].kind_id == KIND_FILE && !atts[i].is_classified {
            let ghost before = r@;
            r.push(i);
            proof {
                assert forall|q: int| 0 <= q < i && sent_file(#[trigger] atts@[q]) implies r@.contains(q as usize) by {
                    let k = choose|k: int| 0 <= k < before.len() && before[k] == q as usize;
                    assert(r@[k] == q as usize);
                }
                assert(r@[before.len() as int] == i);
            }
        }
        i += 1;
    }
    r
}

/// The organizations of a request, each uuid kept once at its first place.
pub open spec fn first_partners(s: Seq<RequestPartner>) -> Seq<RequestPartner>
    decreases s.len(),
{
    if s.len() == 0 {
        s
    } else {
        let r = first_partners(s.drop_last());
        if exists|j: int| 0 <= j < s.len() - 1 && (#[trigger] s[j]).uuid == s.last().uuid {
            r
        } else {
            r.push(s.last())
        }
    }
}

/// Keeps the first organization record of each uuid, in order.
pub fn dedupe_partners(v: &Vec<RequestPartner>) -> (r: Vec<RequestPartner>)
    ensures
        r@ == first_partners(v@),
{
    let mut r: Vec<RequestPartner> = Vec::new();
    let mut i: usize = 0;
    while i < v.len()
        invariant
            i <= v@.len(),
            r@ == first_partners(v@.take(i as int)),
        decreases v.len() - i,
    {
        let u = v[i].uuid;
        let mut j: usize = 0;
        let mut seen = false;
        while j < i
            invariant
                j <= i < v@.len(),
                seen == exists|k: int| 0 <= k < j && (#[trigger] v@[k]).uuid == u,
                u == v@[i as int].uuid,
            decreases i - j,
        {
            if v[j].uuid == u {
                seen = true;
            }
            j += 1;
        }
        proof {
            let t = v@.take(i + 1);
            assert(t.drop_last() =~= v@.take(i as int));
            assert(t.last() == v@[i as int]);
            assert((exists|k: int| 0 <= k < t.len() - 1 && (#[trigger] t[k]).uuid == t.last().uuid) == seen) by {
                if seen {
                    let k = choose|k: int| 0 <= k < i && (#[trigger] v@[k]).uuid == u;
                    assert(t[k] == v@[k]);
                }
                if exists|k: int| 0 <= k < t.len() - 1 && (#[trigger] t[k]).uuid == t.last().uuid {
                    let k = choose|k: int| 0 <= k < t.len() - 1 && (#[trigger] t[k]).uuid == t.last().uuid;
                    assert(v@[k] == t[k]);
                }
            }
        }
        if !seen {
            r.push(v[i]);
        }
        i += 1;
    }
    proof {
        lemma_take_all(v@);
    }
    r
}

/// The header of a request sent to the trading platform.
pub open spec fn published_header(h: RequestHeader, user_id: i32, now: i64) -> RequestHeader {
    with_status(h, RequestStatus::TransferredToEtp, user_id, now)
}

/// After the integration service accepted the request: the header is sent
/// to the trading platform, changed by the user at the moment, and the
/// success message names it.
pub fn publish_header(header: RequestHeader, user_id: i32, now: i64) -> (r: (RequestHeader, Message))
    ensures
        r.0 == published_header(header, user_id, now),
        r.1@ == plain(MessageKind::Success, " ЗЦИ "@ + decimal(header.id as int) + " направлено на ЭТП ГПБ"@),
{
    let n = i64_to_string(header.id);
    let m = Message::success(concat3(" ЗЦИ ", n.as_str(), " направлено на ЭТП ГПБ"));
    let mut h = header;
    h.status_id = RequestStatus::TransferredToEtp;
    h.changed_by = user_id;
    h.changed_at = now;
    (h, m)
}

/// The integration service must accept the request; its message is the
/// error otherwise.
pub fn check_integration_response(success: bool, message: String) -> (r: Result<(), TcpError>)
    ensures
        r is Ok <==> success,
        r matches Err(e) ==> e matches TcpError::InternalError(m) && m@ == message@,
{
    if !success {
        return Err(TcpError::InternalError(message));
    }
    Ok(())
}

/// An entry of a classifier (OKVED2, OKPD2) as the monolith returns it.
pub struct ClassifierEntry {
    pub id: i32,
    pub code: String,
    pub text: String,
}

/// A classifier code with its name, as the trading platform expects it.
pub struct CodeName {
    pub code: String,
    pub name: String,
}

/// The classifier entries whose id the request uses, as code and name.
pub fn select_classifier(entries: &Vec<ClassifierEntry>, ids: &Vec<i32>) -> (r: Vec<CodeName>)
    ensures
        ({
            let kept = entries@.filter(|e: ClassifierEntry| ids@.contains(e.id));
            &&& r@.len() == kept.len()
            &&& forall|i: int| 0 <= i < kept.len() ==> (#[trigger] r@[i]).code@ == kept[i].code@ && r@[i].name@ == kept[i].text@
        }),
{
    let ghost pred = |e: ClassifierEntry| ids@.contains(e.id);
    let mut r: Vec<CodeName> = Vec::new();
    let mut i: usize = 0;
    while i < entries.len()
        invariant
            i <= entries@.len(),
            ({
                let kept = entries@.take(i as int).filter(|e: ClassifierEntry| ids@.contains(e.id));
                &&& r@.len() == kept.len()
                &&& forall|k: int| 0 <= k < kept.len() ==> (#[trigger] r@[k]).code@ == kept[k].code@ && r@[k].name@ == kept[k].text@
            }),
        decreases entries.len() - i,
    {
        proof {
            crate::seqs::lemma_filter_take_step(entries@, i as int, |e: ClassifierEntry| ids@.contains(e.id));
        }
        if crate::seqs::contains_i32(ids, entries[i].id) {
            r.push(CodeName { code: copy_string(&entries[i].code), name: copy_string(&entries[i].text) });
        }
        i += 1;
    }
    proof {
        lemma_take_all(entries@);
    }
    r
}

/// A customer (organization) of the common dictionaries.
pub struct CustomerEntry {
    pub id: i32,
    pub inn: String,
    pub kpp: String,
    pub is_under_sanctions: bool,
}

/// The customer or organizer of a request for the trading platform.
pub struct Party {
    pub inn: String,
    pub kpp: String,
    pub id: i32,
}

/// The first customer of the dictionary with the id.
pub open spec fn first_customer(c: Seq<CustomerEntry>, id: i32, i: int) -> bool {
    &&& 0 <= i < c.len()
    &&& c[i].id == id
    &&& forall|j: int| 0 <= j < i ==> (#[trigger] c[j]).id != id
}

/// Finds the first customer of the dictionary with the id.
pub fn find_customer(c: &Vec<CustomerEntry>, id: i32) -> (r: Option<usize>)
    ensures
        match r {
            Some(i) => first_customer(c@, id, i as int),
            None => forall|j: int| 0 <= j < c@.len() ==> (#[trigger] c@[j]).id != id,
        },
{
    let mut i: usize = 0;
    while i < c.len()
        invariant
            i <= c@.len(),
            forall|j: int| 0 <= j < i ==> (#[trigger] c@[j]).id != id,
        decreases c.len() - i,
    {
        if c[i].id == id {
            return Some(i);
        }
        i += 1;
    }
    None
}

/// The party of a request: the first dictionary customer with the given
/// id, or an empty party; with its sanctions flag.
pub fn select_party(c: &Vec<CustomerEntry>, id: Option<i32>) -> (r: (Party, bool))
    ensures
        match id {
            Some(x) => match (exists|i: int| first_customer(c@, x, i)) {
                true => exists|i: int| #[trigger] first_customer(c@, x, i) && r.0.inn@ == c@[i].inn@ && r.0.kpp@ == c@[i].kpp@
                    && r.0.id == x && r.1 == c@[i].is_under_sanctions,
                false => r.0.inn@.len() == 0 && r.0.kpp@.len() == 0 && r.0.id == 0 && !r.1,
            },
            None => r.0.inn@.len() == 0 && r.0.kpp@.len() == 0 && r.0.id == 0 && !r.1,
        },
{
    match id {
        Some(x) => match find_customer(c, x) {
            Some(i) => (Party { inn: copy_string(&c[i].inn), kpp: copy_string(&c[i].kpp), id: c[i].id }, c[i].is_under_sanctions),
            None => {
                proof {
                    assert forall|i: int| !first_customer(c@, x, i) by {}
                }
                (Party { inn: String::new(), kpp: String::new(), id: 0 }, false)
            },
        },
        None => (Party { inn: String::new(), kpp: String::new(), id: 0 }, false),
    }
}

/// A purchase category of the common dictionaries.
pub struct CategoryEntry {
    pub id: i32,
    pub code: String,
    pub is_removed: bool,
}

/// Some position of the request is of the category.
pub open spec fn category_used(items: Seq<crate::model::RequestItem>, c: CategoryEntry) -> bool {
    exists|i: int| 0 <= i < items.len() && (#[trigger] items[i]).category_id == (#[verifier::truncate] (c.id as i16))
}

/// The codes of the categories, not removed, that some position uses.
#[verifier::loop_isolation(false)]
pub fn select_subject_types(categories: &Vec<CategoryEntry>, items: &Vec<crate::model::RequestItem>) -> (r: Vec<String>)
    ensures
        ({
            let kept = categories@.filter(|c: CategoryEntry| !c.is_removed && category_used(items@, c));
            &&& r@.len() == kept.len()
            &&& forall|i: int| 0 <= i < kept.len() ==> (#[trigger] r@[i])@ == kept[i].code@
        }),
{
    let ghost pred = |c: CategoryEntry| !c.is_removed && category_used(items@, c);
    let mut r: Vec<String> = Vec::new();
    let mut i: usize = 0;
    while i < categories.len()
        invariant
            i <= categories@.len(),
            ({
                let kept = categories@.take(i as int).filter(|c: CategoryEntry| !c.is_removed && category_used(items@, c));
                &&& r@.len() == kept.len()
                &&& forall|k: int| 0 <= k < kept.len() ==> (#[trigger] r@[k])@ == kept[k].code@
            }),
        decreases categories.len() - i,
    {
        proof {
            crate::seqs::lemma_filter_take_step(categories@, i as int, pred);
        }
        let c = &categories[i];
        let cid = #[verifier::truncate] (c.id as i16);
        let mut used = false;
        let mut j: usize = 0;
        while j < items.len()
            invariant
                j <= items@.len(),
                cid == (#[verifier::truncate] (c.id as i16)),
                used == exists|k: int| 0 <= k < j && (#[trigger] items@[k]).category_id == cid,
            decreases items.len() - j,
        {
            if items[j].category_id == cid {
                used = true;
            }
            j += 1;
        }
        if !c.is_removed && used {
            r.push(copy_string(&c.code));
        }
        i += 1;
    }
    proof {
        lemma_take_all(categories@);
    }
    r
}

/// A currency of the common dictionaries.
pub struct CurrencyEntry {
    pub id: i32,
    pub text: String,
}

/// The first currency of the dictionary with the id.
pub open spec fn first_currency(c: Seq<CurrencyEntry>, id: i32, i: int) -> bool {
    &&& 0 <= i < c.len()
    &&& c[i].id == id
    &&& forall|j: int| 0 <= j < i ==> (#[trigger] c[j]).id != id
}

/// The name of the request's currency: that of the first dictionary
/// currency with its id, or empty.
pub fn select_currency(currencies: &Vec<CurrencyEntry>, currency_id: Option<i16>) -> (r: String)
    ensures
        currency_id is None ==> r@.len() == 0,
        currency_id matches Some(cid) ==> (exists|i: int| #[trigger] first_currency(currencies@, cid as i32, i)
            && r@ == currencies@[i].text@) || ((forall|j: int| 0 <= j < currencies@.len() ==> (#[trigger] currencies@[j]).id
            != cid as i32) && r@.len() == 0),
{
    match currency_id {
        Some(cid) => {
            let id = cid as i32;
            let mut i: usize = 0;
            while i < currencies.len()
                invariant
                    i <= currencies@.len(),
                    id == cid as i32,
                    currency_id == Some(cid),
                    forall|j: int| 0 <= j < i ==> (#[trigger] currencies@[j]).id != id,
                decreases currencies.len() - i,
            {
                if currencies[i].id == id {
                    let t = copy_string(&currencies[i].text);
                    proof {
                        assert(first_currency(currencies@, id, i as int));
                    }
                    return t;
                }
                i += 1;
            }
            String::new()
        },
        None => String::new(),
    }
}

} // verus!

verus! {

/// The distinct values of a list of ids, each once, gathered in a hash set
/// (so in the order that the set gives them).
pub fn distinct_ids(v: &Vec<i32>) -> (r: Vec<i32>)
    ensures
        r@.no_duplicates(),
        r@.to_set() == v@.to_set(),
{
    let s = id_set_from(v);
    id_set_elements(s)
}

/// A unit of measure of the common dictionaries.
#[derive(Clone, Copy, Debug, PartialEq, Eq, Structural)]
pub struct Unit {
    pub id: i32,
    pub okei: i32,
}

/// The index of the unit with the id that the lookup finds: the last one.
pub open spec fn last_unit(units: Seq<Unit>, id: i32) -> Option<int>
    decreases units.len(),
{
    if units.len() == 0 {
        None
    } else if units.last().id == id {
        Some(units.len() - 1)
    } else {
        last_unit(units.drop_last(), id)
    }
}

/// The OKEI code of the unit with the id, zero when unknown.
pub open spec fn okei_of(units: Seq<Unit>, id: i32) -> i32 {
    match last_unit(units, id) {
        Some(j) => units[j].okei,
        None => 0,
    }
}

/// The OKEI code of the unit with the id, as `okei_of` states it.
pub fn find_okei(units: &Vec<Unit>, id: i32) -> (r: i32)
    ensures
        r == okei_of(units@, id),
{
    let mut i = units.len();
    proof {
        lemma_take_all(units@);
    }
    while i > 0
        invariant
            i <= units@.len(),
            last_unit(units@, id) == last_unit(units@.take(i as int), id),
        decreases i,
    {
        proof {
            assert(units@.take(i as int).drop_last() =~= units@.take(i - 1));
        }
        if units[i - 1].id == id {
            return units[i - 1].okei;
        }
        i = i - 1;
    }
    0
}

/// A position of the request for the trading platform.
pub struct Specification {
    pub pos_nr: String,
    pub pos_name: String,
    pub quantity: String,
    pub unit_of_measure: i32,
    pub pos_vid: String,
}

/// The position of the request for the trading platform.
pub open spec fn specification_of(item: crate::model::RequestItem, units: Seq<Unit>, s: Specification) -> bool {
    &&& s.pos_nr@ == decimal(item.number as int)
    &&& s.pos_name@ == item.description_internal@
    &&& s.quantity@ == decimal(item.quantity as int)
    &&& s.unit_of_measure == okei_of(units, item.unit_id as i32)
    &&& Some(s.pos_vid@) == pos_vid_of(item.product_type_id)
}

/// The positions of the request for the trading platform; fails for the
/// first position of an unknown product type.
pub fn build_specifications(items: &Vec<crate::model::RequestItem>, units: &Vec<Unit>) -> (r: Result<Vec<Specification>, TcpError>)
    ensures
        r is Ok <==> forall|i: int| 0 <= i < items@.len() ==> pos_vid_of(#[trigger] items@[i].product_type_id) is Some,
        r matches Ok(v) ==> v@.len() == items@.len() && forall|i: int| 0 <= i < items@.len() ==> specification_of(
            items@[i],
            units@,
            #[trigger] v@[i],
        ),
        r matches Err(e) ==> e is InternalError,
{
    let mut v: Vec<Specification> = Vec::new();
    let mut i: usize = 0;
    while i < items.len()
        invariant
            i <= items@.len(),
            v@.len() == i,
            forall|k: int| 0 <= k < i ==> pos_vid_of(#[trigger] items@[k].product_type_id) is Some,
            forall|k: int| 0 <= k < i ==> specification_of(items@[k], units@, #[trigger] v@[k]),
        decreases items.len() - i,
    {
        let item = &items[i];
        let pos_vid = match map_pos_vid(item.product_type_id) {
            Ok(s) => s,
            Err(e) => return Err(e),
        };
        v.push(Specification {
            pos_nr: i16_to_string(item.number),
            pos_name: copy_string(&item.description_internal),
            quantity: i64_to_string(item.quantity),
            unit_of_measure: find_okei(units, item.unit_id as i32),
            pos_vid,
        });
        i += 1;
    }
    Ok(v)
}

} // verus!
