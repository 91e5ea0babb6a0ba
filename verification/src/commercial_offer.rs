//! Proposals that arrive from the trading platform: the organization that
//! makes one, the records saved for it, and the documents of a proposal.
use vstd::prelude::*;

use crate::create_request::is_v4;
use crate::model::{CheckStatus, ProposalHeader, ProposalItem, ProposalStatus, RequestItem, RequestPartner, TcpError, VatId};
use crate::outside::new_uuid;
use crate::seqs::lemma_take_all;
use crate::text::{concat, concat3, decimal, i16_to_string, i32_to_string, i64_to_string, owned};

verus! {

/// The organization of an arriving proposal: its id in the trading
/// platform's register; its absence is an error that names the request.
pub fn offer_asez_id(asez_id: Option<i32>, req_number: i64) -> (r: Result<i32, TcpError>)
    ensures
        match asez_id {
            Some(id) => r == Ok::<i32, TcpError>(id),
            None => r matches Err(TcpError::InternalError(t)) && t@ == "Отсутствует AsezId для req_number "@ + decimal(
                req_number as int,
            ),
        },
{
    match asez_id {
        Some(id) => Ok(id),
        None => {
            let n = i64_to_string(req_number);
            Err(TcpError::InternalError(concat("Отсутствует AsezId для req_number ", n.as_str())))
        },
    }
}

/// The request of an arriving proposal (its uuid and currency), found by
/// its number; the first one read.
pub fn offer_request(found: &Vec<(u128, Option<i16>)>, req_number: i64) -> (r: Result<(u128, Option<i16>), TcpError>)
    ensures
        found@.len() > 0 ==> r == Ok::<(u128, Option<i16>), TcpError>(found@[0]),
        found@.len() == 0 ==> (r matches Err(TcpError::RecordNotFound(id, table)) && id@ == decimal(req_number as int)
            && table@ == "request_head"@),
{
    if found.len() > 0 {
        Ok(found[0])
    } else {
        Err(TcpError::RecordNotFound(i64_to_string(req_number), owned("request_head")))
    }
}

/// An organization of the request already registered for the platform's
/// organization, and whether it already made a proposal.
pub struct ExistingPartner {
    pub partner: RequestPartner,
    pub has_proposal: bool,
}

/// The largest of the numbers, 0 for none.
pub open spec fn max_number(numbers: Seq<i16>) -> int
    decreases numbers.len(),
{
    if numbers.len() == 0 {
        0
    } else {
        let m = max_number(numbers.drop_last());
        if numbers.last() > m {
            numbers.last() as int
        } else {
            m
        }
    }
}

/// The organization that makes an arriving proposal: the one registered
/// (now public) unless it already made a proposal, which is an error;
/// otherwise a new public organization numbered after the last one.
pub fn find_or_create_partner(
    existing: Option<ExistingPartner>,
    numbers: &Vec<i16>,
    asez_id: i32,
    req_head_uuid: u128,
) -> (r: Result<RequestPartner, TcpError>)
    requires
        forall|i: int| 0 <= i < numbers@.len() ==> #[trigger] numbers@[i] < 32767,
    ensures
        match existing {
            Some(e) => if e.has_proposal {
                r matches Err(TcpError::InternalError(t)) && t@ == "От данной организации уже создано ТКП"@
            } else {
                r == Ok::<RequestPartner, TcpError>(RequestPartner { is_public: true, ..e.partner })
            },
            None => r matches Ok(p) && is_v4(p.uuid) && p == (RequestPartner {
                uuid: p.uuid,
                request_uuid: req_head_uuid,
                supplier_id: asez_id,
                is_public: true,
                is_removed: false,
                number: (max_number(numbers@) + 1) as i16,
            }),
        },
{
    match existing {
        Some(e) => {
            if e.has_proposal {
                Err(TcpError::InternalError(owned("От данной организации уже создано ТКП")))
            } else {
                Ok(RequestPartner { is_public: true, ..e.partner })
            }
        },
        None => {
            let mut m: i16 = 0;
            let mut i: usize = 0;
            while i < numbers.len()
                invariant
                    i <= numbers@.len(),
                    m == max_number(numbers@.take(i as int)),
                    m < 32767,
                    forall|k: int| 0 <= k < numbers@.len() ==> #[trigger] numbers@[k] < 32767,
                decreases numbers.len() - i,
            {
                proof {
                    assert(numbers@.take(i + 1).drop_last() =~= numbers@.take(i as int));
                }
                if numbers[i] > m {
                    m = numbers[i];
                }
                i += 1;
            }
            proof {
                lemma_take_all(numbers@);
            }
            Ok(
                RequestPartner {
                    uuid: new_uuid(),
                    request_uuid: req_head_uuid,
                    supplier_id: asez_id,
                    is_public: true,
                    is_removed: false,
                    number: m + 1,
                },
            )
        },
    }
}

/// An arriving proposal as the library reads it: amounts in the currency's
/// smallest unit.
pub struct CommercialOffer {
    /// The proposal's id on the trading platform.
    pub tcp_id: i32,
    pub hierarchy_uuid: u128,
    pub date_start_proposal: i64,
    pub date_end_proposal: i64,
    pub user_id: i32,
    /// Total of the positions' costs.
    pub sum_excluded_vat_total: i64,
    pub price_info: Vec<PriceInfo>,
}

/// A position of an arriving proposal.
pub struct PriceInfo {
    /// The number of the request position.
    pub price_info_pos_nr: i16,
    pub price: i64,
    pub cost: i64,
    pub cost_nds: i64,
    pub impossible_to_do: Option<bool>,
    pub vat_id: Option<VatId>,
    pub pay_condition_id: Option<i16>,
    pub prepayment_percent: Option<i64>,
    pub cause_impossible: Option<String>,
}

/// The header saved for an arriving proposal: received now, under review.
pub open spec fn offer_header(
    h: ProposalHeader,
    offer: CommercialOffer,
    request_uuid: u128,
    partner_uuid: u128,
    currency_id: i16,
    now: i64,
) -> bool {
    &&& is_v4(h.uuid)
    &&& h == (ProposalHeader {
        id: 0,
        uuid: h.uuid,
        request_uuid,
        supplier_uuid: partner_uuid,
        hierarchy_uuid: Some(offer.hierarchy_uuid),
        start_date: Some(offer.date_start_proposal),
        end_date: Some(offer.date_end_proposal),
        status_id: ProposalStatus::Received,
        status_check_id: CheckStatus::Review,
        result_id: None,
        receive_date: Some(now),
        sum_excluded_vat_total: Some(offer.sum_excluded_vat_total),
        currency_id: currency_id as i32,
        etp_id: Some(offer.tcp_id),
        created_by: offer.user_id,
        created_at: now,
        changed_by: offer.user_id,
        changed_at: now,
    })
}

/// The request position with the number: the last one read.
pub open spec fn item_numbered(items: Seq<RequestItem>, number: i16) -> Option<RequestItem>
    decreases items.len(),
{
    if items.len() == 0 {
        None
    } else if items.last().number == number {
        Some(items.last())
    } else {
        item_numbered(items.drop_last(), number)
    }
}

/// The request position with the number, as `item_numbered` states it.
fn find_numbered(items: &Vec<RequestItem>, number: i16) -> (r: Option<u128>)
    ensures
        match item_numbered(items@, number) {
            Some(it) => r == Some(it.uuid),
            None => r is None,
        },
{
    let mut i = items.len();
    proof {
        lemma_take_all(items@);
    }
    while i > 0
        invariant
            i <= items@.len(),
            item_numbered(items@, number) == item_numbered(items@.take(i as int), number),
        decreases i,
    {
        proof {
            assert(items@.take(i as int).drop_last() =~= items@.take(i - 1));
        }
        if items[i - 1].number == number {
            return Some(items[i - 1].uuid);
        }
        i = i - 1;
    }
    None
}

/// A value kept only for a position marked impossible to do.
pub open spec fn if_impossible<T>(impossible: bool, v: T) -> Option<T> {
    if impossible {
        Some(v)
    } else {
        None
    }
}

/// The text of an optional string.
pub open spec fn text_view(t: Option<String>) -> Option<Seq<char>> {
    match t {
        Some(s) => Some(s@),
        None => None,
    }
}

/// The position saved for a position of an arriving proposal.
pub open spec fn offer_item(it: ProposalItem, p: PriceInfo, proposal_uuid: u128, request_item_uuid: u128) -> bool {
    let impossible = p.impossible_to_do == Some(true);
    &&& is_v4(it.uuid)
    &&& it.proposal_uuid == proposal_uuid
    &&& it.request_item_uuid == request_item_uuid
    &&& it.number == p.price_info_pos_nr
    &&& it.price == if_impossible(impossible, p.price)
    &&& it.vat_id == p.vat_id
    &&& it.is_possibility == impossible
    &&& text_view(it.possibility_note) == text_view(p.cause_impossible)
    &&& it.pay_condition_id == p.pay_condition_id
    &&& it.prepayment_percent == p.prepayment_percent
    &&& it.sum_excluded_vat == if_impossible(impossible, p.cost)
    &&& it.sum_included_vat == if_impossible(impossible, p.cost_nds)
}

/// Every position of the proposal names a request position.
pub open spec fn all_positions_found(ps: Seq<PriceInfo>, items: Seq<RequestItem>) -> bool {
    forall|k: int| 0 <= k < ps.len() ==> item_numbered(items, (#[trigger] ps[k]).price_info_pos_nr) is Some
}

/// The first position (in order) that names no request position.
pub open spec fn first_unfound(ps: Seq<PriceInfo>, items: Seq<RequestItem>, k: int) -> bool {
    &&& 0 <= k < ps.len()
    &&& item_numbered(items, ps[k].price_info_pos_nr) is None
    &&& forall|j: int| 0 <= j < k ==> item_numbered(items, (#[trigger] ps[j]).price_info_pos_nr) is Some
}

/// The records saved for an arriving proposal, once its organization is
/// known: the header, and the positions matched to the request's positions
/// by number. Fails when the request has no currency or a position's
/// number matches no request position.
#[verifier::loop_isolation(false)]
pub fn commercial_offer_response(
    offer: CommercialOffer,
    request_uuid: u128,
    currency_id: Option<i16>,
    partner: &RequestPartner,
    request_items: &Vec<RequestItem>,
    now: i64,
) -> (r: Result<(ProposalHeader, Vec<ProposalItem>), TcpError>)
    ensures
        (currency_id is Some && all_positions_found(offer.price_info@, request_items@)) <==> r is Ok,
        currency_id is None ==> (r matches Err(TcpError::InternalError(t)) && t@
            == "Не удалось получить currency_id из RequestHeader (возможно отсутствует в БД)"@),
        currency_id is Some && !all_positions_found(offer.price_info@, request_items@) ==> exists|k: int|
            first_unfound(offer.price_info@, request_items@, k) && (r matches Err(TcpError::InternalError(t)) && t@
                == "Не найдена позиция ЗЦИ с номером "@ + decimal((#[trigger] offer.price_info@[k]).price_info_pos_nr as int)),
        r matches Ok((h, items)) ==> {
            &&& offer_header(h, offer, request_uuid, partner.uuid, currency_id->0, now)
            &&& items@.len() == offer.price_info@.len()
            &&& forall|k: int|
                0 <= k < items@.len() ==> offer_item(
                    #[trigger] items@[k],
                    offer.price_info@[k],
                    h.uuid,
                    item_numbered(request_items@, offer.price_info@[k].price_info_pos_nr)->0.uuid,
                )
        },
{
    let cur = match currency_id {
        Some(c) => c,
        None => {
            return Err(
                TcpError::InternalError(owned("Не удалось получить currency_id из RequestHeader (возможно отсутствует в БД)")),
            );
        },
    };
    let h = ProposalHeader {
        id: 0,
        uuid: new_uuid(),
        request_uuid,
        supplier_uuid: partner.uuid,
        hierarchy_uuid: Some(offer.hierarchy_uuid),
        start_date: Some(offer.date_start_proposal),
        end_date: Some(offer.date_end_proposal),
        status_id: ProposalStatus::Received,
        status_check_id: CheckStatus::Review,
        result_id: None,
        receive_date: Some(now),
        sum_excluded_vat_total: Some(offer.sum_excluded_vat_total),
        currency_id: cur as i32,
        etp_id: Some(offer.tcp_id),
        created_by: offer.user_id,
        created_at: now,
        changed_by: offer.user_id,
        changed_at: now,
    };
    let ps = &offer.price_info;
    let mut items: Vec<ProposalItem> = Vec::new();
    let mut k: usize = 0;
    while k < ps.len()
        invariant
            k <= ps@.len(),
            ps@ == offer.price_info@,
            items@.len() == k,
            forall|j: int| 0 <= j < k ==> item_numbered(request_items@, (#[trigger] ps@[j]).price_info_pos_nr) is Some,
            forall|j: int|
                0 <= j < k ==> offer_item(
                    #[trigger] items@[j],
                    ps@[j],
                    h.uuid,
                    item_numbered(request_items@, ps@[j].price_info_pos_nr)->0.uuid,
                ),
        decreases ps.len() - k,
    {
        let p = &ps[k];
        let request_item_uuid = match find_numbered(request_items, p.price_info_pos_nr) {
            Some(u) => u,
            None => {
                let n = i16_to_string(p.price_info_pos_nr);
                proof {
                    assert(first_unfound(offer.price_info@, request_items@, k as int));
                }
                return Err(TcpError::InternalError(concat("Не найдена позиция ЗЦИ с номером ", n.as_str())));
            },
        };
        let impossible = match p.impossible_to_do {
            Some(b) => b,
            None => false,
        };
        let note = match &p.cause_impossible {
            Some(t) => Some(owned(t.as_str())),
            None => None,
        };
        items.push(
            ProposalItem {
                uuid: new_uuid(),
                proposal_uuid: h.uuid,
                request_item_uuid,
                number: p.price_info_pos_nr,
                price: if impossible {
                    Some(p.price)
                } else {
                    None
                },
                vat_id: p.vat_id,
                is_possibility: impossible,
                possibility_note: note,
                pay_condition_id: p.pay_condition_id,
                prepayment_percent: p.prepayment_percent,
                sum_excluded_vat: if impossible {
                    Some(p.cost)
                } else {
                    None
                },
                sum_included_vat: if impossible {
                    Some(p.cost_nds)
                } else {
                    None
                },
            },
        );
        k += 1;
    }
    Ok((h, items))
}

/// The document folder of a proposal arriving with documents: an error
/// names the proposal's platform id when it has none.
pub fn commercial_offer_add_doc_response(tcp_id: i32, header: &ProposalHeader) -> (r: Result<u128, TcpError>)
    ensures
        match header.hierarchy_uuid {
            Some(u) => r == Ok::<u128, TcpError>(u),
            None => r matches Err(TcpError::InternalError(t)) && t@ == "У ТКП (TCPID="@ + decimal(tcp_id as int)
                + ") отсутствует hierarchy_uuid"@,
        },
{
    match header.hierarchy_uuid {
        Some(u) => Ok(u),
        None => {
            let n = i32_to_string(tcp_id);
            Err(TcpError::InternalError(concat3("У ТКП (TCPID=", n.as_str(), ") отсутствует hierarchy_uuid")))
        },
    }
}

} // verus!
