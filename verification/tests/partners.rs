use technical_commercial_proposal::model::{CheckStatus, ProposalHeader, ProposalStatus, RequestHeader, RequestPartner, RequestStatus, RequestWithPartners};
use technical_commercial_proposal::partners::{
    check_partners, convert_suppliers_to_response_items, finish_delete_partner, plan_delete_partner, CheckPartnerReq, DeletePartnerPlan,
    PartnerWithProposals, SupplierId,
};

fn header(status_id: RequestStatus) -> RequestHeader {
    RequestHeader {
        id: 1,
        uuid: 0x1,
        plan_uuid: None,
        plan_id: None,
        hierarchy_uuid: None,
        type_request_id: None,
        request_subject: None,
        start_date: None,
        end_date: None,
        status_id,
        customer_id: None,
        currency_id: None,
        organizer_id: None,
        organizer_name: None,
        organizer_mail: None,
        organizer_phone: None,
        organizer_location: None,
        reason_closing: None,
        created_by: 5,
        created_at: 0,
        changed_by: 5,
        changed_at: 0,
    }
}

fn partner(uuid: u128, supplier_id: i32, is_public: bool) -> RequestPartner {
    RequestPartner { uuid, request_uuid: 0x1, supplier_id, is_public, is_removed: false, number: 1 }
}

fn proposal(uuid: u128, supplier_uuid: u128, status_id: ProposalStatus) -> ProposalHeader {
    ProposalHeader {
        id: 1,
        uuid,
        request_uuid: 0x1,
        supplier_uuid,
        hierarchy_uuid: None,
        start_date: None,
        end_date: None,
        status_id,
        status_check_id: CheckStatus::Review,
        result_id: None,
        receive_date: None,
        sum_excluded_vat_total: None,
        currency_id: 643,
        etp_id: None,
        created_by: 5,
        created_at: 0,
        changed_by: 5,
        changed_at: 0,
    }
}

fn req(ids: &[i32]) -> CheckPartnerReq {
    CheckPartnerReq { id: 1, uuid: 0x1, item_list: ids.iter().map(|i| SupplierId { supplier_id: *i }).collect() }
}

#[test]
fn convert_suppliers_keeps_order_and_flag() {
    let items = convert_suppliers_to_response_items(&vec![SupplierId { supplier_id: 3 }, SupplierId { supplier_id: 1 }], false);
    assert_eq!(items.len(), 2);
    assert_eq!(items[0].supplier_id, 3);
    assert!(!items[1].is_allowed);
}

#[test]
fn delete_from_a_draft_removes_named_partners() {
    let requests = vec![RequestWithPartners {
        header: header(RequestStatus::TcpProject),
        suppliers: vec![partner(0xa, 10, false), partner(0xb, 20, true)],
    }];
    match plan_delete_partner(&req(&[10]), requests) {
        DeletePartnerPlan::RemoveAll { removed, items, messages } => {
            assert_eq!(removed.len(), 1);
            assert_eq!(removed[0].uuid, 0xa);
            assert!(removed[0].is_removed);
            assert!(items[0].is_allowed);
            assert_eq!(messages.messages[0].text, "Выбранные записи удалены");
        },
        _ => panic!("expected removal"),
    }
}

#[test]
fn delete_without_a_request_is_prohibited() {
    match plan_delete_partner(&req(&[10, 20]), vec![]) {
        DeletePartnerPlan::Prohibited { items, messages } => {
            assert!(items.iter().all(|i| !i.is_allowed));
            assert_eq!(
                messages.messages[0].text,
                "Удаление организации невозможно. Статус ЗЦИ не равен одному из статусов: 70, 90, 100, 150"
            );
        },
        _ => panic!("expected a prohibition"),
    }
}

#[test]
fn delete_while_accepting_refuses_published_partners() {
    let requests = vec![RequestWithPartners {
        header: header(RequestStatus::AcceptingIncomingTCPs),
        suppliers: vec![partner(0xa, 10, true), partner(0xb, 20, false)],
    }];
    match plan_delete_partner(&req(&[10, 20, 30]), requests) {
        DeletePartnerPlan::Review { items, messages, not_public } => {
            assert_eq!(not_public.len(), 1);
            assert_eq!(not_public[0].supplier_id, 20);
            // 30 was only added on the page; 10 is published
            assert_eq!(items[0].supplier_id, 30);
            assert!(items[0].is_allowed);
            assert_eq!(items[1].supplier_id, 10);
            assert!(!items[1].is_allowed);
            assert_eq!(messages.messages[0].text, "Выбранные записи удалены");
            assert_eq!(messages.messages[1].text, "Информация опубликована на ЭТП ГПБ. Удаление невозможно");

            let done = finish_delete_partner(
                items,
                messages,
                vec![PartnerWithProposals { partner: not_public[0], proposals: vec![proposal(0x100, 0xb, ProposalStatus::Created)] }],
            );
            assert_eq!(done.remove_partners.len(), 1);
            assert!(done.remove_partners[0].is_removed);
            assert_eq!(done.delete_proposals.len(), 1);
            assert!(matches!(done.delete_proposals[0].status_id, ProposalStatus::Deleted));
            assert_eq!(done.messages.messages.len(), 3);
        },
        _ => panic!("expected a review"),
    }
}

#[test]
fn delete_with_a_received_proposal_is_refused() {
    let items = vec![];
    let messages = technical_commercial_proposal::messages::Messages::new();
    let done = finish_delete_partner(
        items,
        messages,
        vec![PartnerWithProposals { partner: partner(0xb, 20, false), proposals: vec![proposal(0x100, 0xb, ProposalStatus::Received)] }],
    );
    assert!(done.remove_partners.is_empty());
    assert!(done.delete_proposals.is_empty());
    assert!(!done.items[0].is_allowed);
    assert_eq!(done.messages.messages[0].text, "Удаление организации невозможно. Имеется подтвержденное ТКП");
}

#[test]
fn add_partner_refused_when_a_proposal_exists() {
    let partners = vec![
        PartnerWithProposals { partner: partner(0xa, 10, false), proposals: vec![proposal(0x100, 0xa, ProposalStatus::Created)] },
        PartnerWithProposals { partner: partner(0xb, 20, false), proposals: vec![] },
    ];
    let (items, messages) = check_partners(&req(&[10, 20, 30]), &partners);
    assert!(!items[0].is_allowed);
    assert!(items[1].is_allowed);
    assert!(items[2].is_allowed);
    assert_eq!(messages.messages.len(), 1);
    assert_eq!(messages.messages[0].text, "Для выбранной организации уже существует ТКП");
}

#[test]
fn proposals_of_several_records_of_a_supplier_are_gathered() {
    // the supplier 10 has two records; only the second has a proposal
    let partners = vec![
        PartnerWithProposals { partner: partner(0xa, 10, false), proposals: vec![] },
        PartnerWithProposals { partner: partner(0xc, 10, false), proposals: vec![proposal(0x100, 0xc, ProposalStatus::Created)] },
        PartnerWithProposals { partner: partner(0xb, 20, false), proposals: vec![] },
    ];
    let (items, messages) = check_partners(&req(&[10, 20]), &partners);
    assert!(!items[0].is_allowed);
    assert!(items[1].is_allowed);
    assert_eq!(messages.messages.len(), 1);
}
