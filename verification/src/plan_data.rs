//! Filling created price information requests from their plans, as the
//! processing service gives them, and the answer of the creation.
use vstd::prelude::*;

use crate::create_request::{PriceInformationRequest, Utils};
use crate::messages::{plain, Message, MessageKind, MessageView, Messages};
use crate::model::{RequestHeader, RequestItem};
use crate::text::{concat, copy_string, decimals, join, owned};

verus! {

/// The header of a plan, as the processing service gives it.
#[derive(Clone, Copy, Debug, PartialEq, Eq, Structural)]
pub struct PlanRep {
    pub uuid: Option<u128>,
    pub id: Option<i64>,
    pub customer_id: Option<i32>,
    pub currency_id: Option<i16>,
}

/// A position of a plan, as the processing service gives it.
pub struct PlanItemFullRep {
    pub uuid: Option<u128>,
    pub description_internal: Option<Option<String>>,
    pub category_id: Option<i16>,
    pub okved2_id: Option<i32>,
    pub quantity: Option<i64>,
    pub unit_id: Option<i16>,
}

/// A plan with its positions.
pub struct CompletePlanRep {
    pub plan: PlanRep,
    pub items: Vec<PlanItemFullRep>,
}

/// The plans asked for: that of each request (the nil uuid for none).
pub open spec fn plan_uuids_of(requests: Seq<PriceInformationRequest>) -> Seq<u128> {
    requests.map_values(|r: PriceInformationRequest| option_or_zero(r.header.plan_uuid))
}

/// A uuid, the nil uuid for none.
pub open spec fn option_or_zero(u: Option<u128>) -> u128 {
    match u {
        Some(x) => x,
        None => 0,
    }
}

/// The uuids of the plans of the requests, to ask the processing service for.
pub fn get_plans_data(requests: &Vec<PriceInformationRequest>) -> (r: Vec<u128>)
    ensures
        r@ == plan_uuids_of(requests@),
{
    let mut r: Vec<u128> = Vec::new();
    let mut i: usize = 0;
    while i < requests.len()
        invariant
            i <= requests@.len(),
            r@ == plan_uuids_of(requests@.take(i as int)),
        decreases requests.len() - i,
    {
        let u = match requests[i].header.plan_uuid {
            Some(x) => x,
            None => 0,
        };
        r.push(u);
        proof {
            assert(plan_uuids_of(requests@.take(i + 1)) =~= plan_uuids_of(requests@.take(i as int)).push(u));
        }
        i += 1;
    }
    proof {
        assert(requests@.take(requests@.len() as int) =~= requests@);
    }
    r
}

/// The processing service's answer about plans.
pub struct GetPlanResponse {
    pub messages: Messages,
    pub total: i64,
    pub item_list: Vec<CompletePlanRep>,
}

/// Why the plans could not be had.
pub enum PlansFailure {
    /// The service answered with messages (they become the answer's).
    ServiceMessages(Messages),
    /// The service could not be asked.
    Unavailable,
}

/// The plans of the service's answer: an answer with messages, or no
/// answer, is a failure.
pub fn process_plans_response(response: Result<GetPlanResponse, ()>) -> (r: Result<Vec<CompletePlanRep>, PlansFailure>)
    ensures
        match response {
            Ok(a) => if a.messages@.messages.len() > 0 {
                r matches Err(PlansFailure::ServiceMessages(m)) && m@ == a.messages@
            } else {
                r matches Ok(v) && v@ == a.item_list@
            },
            Err(_) => r matches Err(PlansFailure::Unavailable),
        },
{
    match response {
        Ok(a) => {
            if !a.messages.is_empty() {
                Err(PlansFailure::ServiceMessages(a.messages))
            } else {
                Ok(a.item_list)
            }
        },
        Err(_) => Err(PlansFailure::Unavailable),
    }
}

/// The plan of a uuid: the last one given with it (a plan without a uuid
/// counts as the nil uuid).
pub open spec fn plan_for(plans: Seq<CompletePlanRep>, u: u128) -> Option<int>
    decreases plans.len(),
{
    if plans.len() == 0 {
        None
    } else if option_or_zero(plans.last().plan.uuid) == u {
        Some(plans.len() - 1)
    } else {
        plan_for(plans.drop_last(), u)
    }
}

/// The position of a plan with a uuid: the last one given with it.
pub open spec fn plan_item_for(items: Seq<PlanItemFullRep>, u: u128) -> Option<int>
    decreases items.len(),
{
    if items.len() == 0 {
        None
    } else if option_or_zero(items.last().uuid) == u {
        Some(items.len() - 1)
    } else {
        plan_item_for(items.drop_last(), u)
    }
}

/// A value, zero for none.
pub open spec fn or_zero_i64(v: Option<i64>) -> i64 {
    match v {
        Some(x) => x,
        None => 0,
    }
}

/// The description of a plan position, empty for none.
pub open spec fn description_of(d: Option<Option<String>>) -> Seq<char> {
    match d {
        Some(Some(s)) => s@,
        _ => Seq::empty(),
    }
}

/// A request position filled from a plan position, or left as it is.
pub open spec fn enriched_item(old: RequestItem, new: RequestItem, plan_items: Seq<PlanItemFullRep>) -> bool {
    &&& new.uuid == old.uuid && new.request_uuid == old.request_uuid && new.plan_item_uuid == old.plan_item_uuid
    &&& new.number == old.number && new.price == old.price && new.vat_id == old.vat_id
    &&& new.product_type_id == old.product_type_id && new.okpd2_id == old.okpd2_id
    &&& match plan_item_for(plan_items, old.plan_item_uuid) {
        Some(j) => {
            let p = plan_items[j];
            &&& new.description_internal@ == description_of(p.description_internal)
            &&& new.category_id == (match p.category_id {
                Some(x) => x,
                None => 0i16,
            })
            &&& new.okved2_id == (match p.okved2_id {
                Some(x) => x,
                None => 0i32,
            })
            &&& new.quantity == or_zero_i64(p.quantity)
            &&& new.unit_id == (match p.unit_id {
                Some(x) => x,
                None => 0i16,
            })
        },
        None => {
            &&& new.description_internal@ == old.description_internal@
            &&& new.category_id == old.category_id && new.okved2_id == old.okved2_id
            &&& new.quantity == old.quantity && new.unit_id == old.unit_id
        },
    }
}

/// A request filled from its plan, if the plans have it.
pub open spec fn enriched_request(old: PriceInformationRequest, new: PriceInformationRequest, plans: Seq<CompletePlanRep>) -> bool {
    &&& new.suppliers == old.suppliers
    &&& new.items@.len() == old.items@.len()
    &&& match plan_for(plans, option_or_zero(old.header.plan_uuid)) {
        Some(j) => {
            let p = plans[j].plan;
            &&& new.header == (RequestHeader {
                plan_id: Some(or_zero_i64(p.id)),
                customer_id: Some(
                    match p.customer_id {
                        Some(x) => x,
                        None => 0i32,
                    },
                ),
                currency_id: Some(
                    match p.currency_id {
                        Some(x) => x,
                        None => 0i16,
                    },
                ),
                ..old.header
            })
            &&& forall|k: int|
                0 <= k < new.items@.len() ==> enriched_item(old.items@[k], #[trigger] new.items@[k], plans[j].items@)
        },
        None => new.header == old.header && forall|k: int|
            0 <= k < new.items@.len() ==> enriched_item(old.items@[k], #[trigger] new.items@[k], Seq::empty()),
    }
}

/// The place of the plan of a uuid, as `plan_for` states it.
fn find_plan(plans: &Vec<CompletePlanRep>, u: u128) -> (r: Option<usize>)
    ensures
        match r {
            Some(k) => k < plans@.len() && plan_for(plans@, u) == Some(k as int),
            None => plan_for(plans@, u) is None,
        },
{
    let mut i = plans.len();
    proof {
        assert(plans@.take(i as int) =~= plans@);
    }
    while i > 0
        invariant
            i <= plans@.len(),
            plan_for(plans@, u) == plan_for(plans@.take(i as int), u),
        decreases i,
    {
        proof {
            assert(plans@.take(i as int).drop_last() =~= plans@.take(i - 1));
        }
        let pu = match plans[i - 1].plan.uuid {
            Some(x) => x,
            None => 0,
        };
        if pu == u {
            return Some(i - 1);
        }
        i = i - 1;
    }
    None
}

/// The place of the plan position of a uuid, as `plan_item_for` states it.
fn find_plan_item(items: &Vec<PlanItemFullRep>, u: u128) -> (r: Option<usize>)
    ensures
        match r {
            Some(k) => k < items@.len() && plan_item_for(items@, u) == Some(k as int),
            None => plan_item_for(items@, u) is None,
        },
{
    let mut i = items.len();
    proof {
        assert(items@.take(i as int) =~= items@);
    }
    while i > 0
        invariant
            i <= items@.len(),
            plan_item_for(items@, u) == plan_item_for(items@.take(i as int), u),
        decreases i,
    {
        proof {
            assert(items@.take(i as int).drop_last() =~= items@.take(i - 1));
        }
        let pu = match items[i - 1].uuid {
            Some(x) => x,
            None => 0,
        };
        if pu == u {
            return Some(i - 1);
        }
        i = i - 1;
    }
    None
}

/// A request position filled from the plan's positions.
fn enrich_item(old: RequestItem, plan_items: &Vec<PlanItemFullRep>) -> (new: RequestItem)
    ensures
        enriched_item(old, new, plan_items@),
{
    match find_plan_item(plan_items, old.plan_item_uuid) {
        Some(j) => {
            let p = &plan_items[j];
            let description_internal = match &p.description_internal {
                Some(Some(s)) => copy_string(s),
                _ => String::new(),
            };
            let category_id: i16 = match p.category_id {
                Some(x) => x,
                None => 0,
            };
            let okved2_id: i32 = match p.okved2_id {
                Some(x) => x,
                None => 0,
            };
            let quantity: i64 = match p.quantity {
                Some(x) => x,
                None => 0,
            };
            let unit_id: i16 = match p.unit_id {
                Some(x) => x,
                None => 0,
            };
            let new = RequestItem { description_internal, category_id, okved2_id, quantity, unit_id, ..old };
            proof {
                let jj = plan_item_for(plan_items@, old.plan_item_uuid)->0;
                assert(jj == j as int);
                assert(*p == plan_items@[jj]);
                assert(new.description_internal@ == description_of(plan_items@[jj].description_internal));
            }
            new
        },
        None => old,
    }
}

/// The request positions filled from the plan's positions.
fn enrich_request_with_plan_positions(items: Vec<RequestItem>, plan_items: &Vec<PlanItemFullRep>) -> (r: Vec<RequestItem>)
    ensures
        r@.len() == items@.len(),
        forall|k: int| 0 <= k < r@.len() ==> enriched_item(items@[k], #[trigger] r@[k], plan_items@),
{
    let ghost olds = items@;
    let mut r: Vec<RequestItem> = Vec::new();
    for it in iter: items.into_iter()
        invariant
            iter.seq() == olds,
            r@.len() == iter.index(),
            forall|k: int| 0 <= k < r@.len() ==> enriched_item(olds[k], #[trigger] r@[k], plan_items@),
    {
        r.push(enrich_item(it, plan_items));
    }
    r
}

/// The requests filled from their plans: the header takes the plan's
/// number, customer and currency, each position the description,
/// category, OKVED2 code, quantity and unit of its plan position (0 or
/// empty where the plan has none); a request whose plan is not given, and
/// a position whose plan position is not given, stay as they are.
pub fn enrich_request_with_plan_data(requests: Vec<PriceInformationRequest>, plans: &Vec<CompletePlanRep>) -> (r: Vec<
    PriceInformationRequest,
>)
    ensures
        r@.len() == requests@.len(),
        forall|i: int| 0 <= i < r@.len() ==> enriched_request(requests@[i], #[trigger] r@[i], plans@),
{
    let ghost olds = requests@;
    let empty: Vec<PlanItemFullRep> = Vec::new();
    let mut r: Vec<PriceInformationRequest> = Vec::new();
    for req in iter: requests.into_iter()
        invariant
            iter.seq() == olds,
            empty@.len() == 0,
            r@.len() == iter.index(),
            forall|i: int| 0 <= i < r@.len() ==> enriched_request(olds[i], #[trigger] r@[i], plans@),
    {
        let ghost old_req = req;
        let u = match req.header.plan_uuid {
            Some(x) => x,
            None => 0,
        };
        let PriceInformationRequest { header, items, suppliers } = req;
        let new_req = match find_plan(plans, u) {
            Some(j) => {
                let p = plans[j].plan;
                let header = RequestHeader {
                    plan_id: Some(
                        match p.id {
                            Some(x) => x,
                            None => 0,
                        },
                    ),
                    customer_id: Some(
                        match p.customer_id {
                            Some(x) => x,
                            None => 0,
                        },
                    ),
                    currency_id: Some(
                        match p.currency_id {
                            Some(x) => x,
                            None => 0,
                        },
                    ),
                    ..header
                };
                let items = enrich_request_with_plan_positions(items, &plans[j].items);
                PriceInformationRequest { header, items, suppliers }
            },
            None => {
                let items = enrich_request_with_plan_positions(items, &empty);
                proof {
                    assert(empty@ =~= Seq::<PlanItemFullRep>::empty());
                }
                PriceInformationRequest { header, items, suppliers }
            },
        };
        proof {
            assert(enriched_request(old_req, new_req, plans@));
        }
        r.push(new_req);
    }
    r
}

/// The information that the requests were created, naming their numbers.
pub open spec fn creation_success_message(numbers: Seq<i64>) -> MessageView {
    plain(MessageKind::Information, "Успешно созданы запрос(ы): "@ + join(decimals(numbers), ", "@))
}

/// The message of a successful creation.
pub fn fill_success_response(request_numbers: &Vec<i64>) -> (m: Message)
    ensures
        m@ == creation_success_message(request_numbers@),
{
    let list = Utils::convert_vec_i64_to_string(request_numbers);
    Message::info(concat("Успешно созданы запрос(ы): ", list.as_str()))
}

} // verus!
