use technical_commercial_proposal::commercial_offer::{
    commercial_offer_add_doc_response, commercial_offer_response, find_or_create_partner, offer_asez_id, offer_request,
    CommercialOffer, ExistingPartner, PriceInfo,
};
use technical_commercial_proposal::export::{check_export_data, export_document, export_entity_kind, request_item_field, EntityKind, ExportSection, ItemField};
use technical_commercial_proposal::grouping::{
    get_price_information_requests_by_plan_uuid, get_price_information_requests_by_plan_uuid_vec, get_tkp_by_uuid_request,
    get_tkp_by_uuid_request_vec,
};
use technical_commercial_proposal::messages::{MessageKind, Messages};
use technical_commercial_proposal::model::{
    CheckStatus, ProposalHeader, ProposalItem, ProposalStatus, RequestHeader, RequestItem, RequestPartner, RequestStatus, TcpError, VatId,
};
use technical_commercial_proposal::organization_question::{process_pre_organization_question, OrganizationQuestionRep, QuestionHierarchy};
use technical_commercial_proposal::model::{Attachment, FolderCategory};
use technical_commercial_proposal::proposal_view::{
    disabled_field_list, items_for_pricing, pricing_items, proposal_detail, single_detail, tcp_rows,
    GetTechnicalCommercialProposalMessage, PricingPositionData, ProposalDetailData, RequestItemPrice,
};
use technical_commercial_proposal::subject_purchased::{
    organizations_remove, organizations_update, purchasing_subject_group_remove, purchasing_subject_record,
    purchasing_subject_remove, upsert_purchasing_subject_message, PartnerSubjectPurchasedRep,
};

fn proposal(id: i64, created_by: i32, status_id: ProposalStatus) -> ProposalHeader {
    ProposalHeader {
        id,
        uuid: 0x500 + id as u128,
        request_uuid: 0x1,
        supplier_uuid: 0xa,
        hierarchy_uuid: None,
        start_date: None,
        end_date: None,
        status_id,
        status_check_id: CheckStatus::Review,
        result_id: None,
        receive_date: None,
        sum_excluded_vat_total: Some(1000),
        currency_id: 643,
        etp_id: Some(77),
        created_by,
        created_at: 0,
        changed_by: created_by,
        changed_at: 0,
    }
}

fn p_item(uuid: u128, request_item_uuid: u128, number: i16, vat_id: Option<VatId>, sum_included_vat: Option<i64>) -> ProposalItem {
    ProposalItem {
        uuid,
        proposal_uuid: 0x501,
        request_item_uuid,
        number,
        price: Some(10),
        vat_id,
        is_possibility: false,
        possibility_note: None,
        pay_condition_id: None,
        prepayment_percent: None,
        sum_excluded_vat: None,
        sum_included_vat,
    }
}

fn r_header(id: i64, created_by: i32) -> RequestHeader {
    RequestHeader {
        id,
        uuid: 0x1,
        plan_uuid: None,
        plan_id: None,
        hierarchy_uuid: None,
        type_request_id: None,
        request_subject: None,
        start_date: None,
        end_date: None,
        status_id: RequestStatus::AcceptingIncomingTCPs,
        customer_id: None,
        currency_id: None,
        organizer_id: None,
        organizer_name: None,
        organizer_mail: None,
        organizer_phone: None,
        organizer_location: None,
        reason_closing: None,
        created_by,
        created_at: 0,
        changed_by: created_by,
        changed_at: 0,
    }
}

fn detail_data(owner: i32, status_id: ProposalStatus, items: Vec<ProposalItem>) -> ProposalDetailData {
    ProposalDetailData {
        proposal_header: proposal(1, owner, status_id),
        items,
        partner: RequestPartner { uuid: 0xa, request_uuid: 0x1, supplier_id: 321, is_public: false, is_removed: false, number: 1 },
        request_header: r_header(2000, 999),
    }
}

#[test]
fn proposal_detail_orders_positions_and_locks_for_others() {
    let items = vec![p_item(0x2, 0xb2, 2, None, None), p_item(0x1, 0xb1, 1, None, None)];
    let prices = vec![
        RequestItemPrice { uuid: 0xb1, price: Some(100), vat_id: Some(VatId::Rate(20)) },
        RequestItemPrice { uuid: 0xb2, price: Some(200), vat_id: None },
    ];
    let d = proposal_detail(detail_data(5, ProposalStatus::Created, items), &prices, 5).ok().unwrap();
    assert_eq!(d.request_id, 2000);
    assert_eq!(d.created_by, 999);
    assert_eq!(d.supplier_id, 321);
    let uuids: Vec<u128> = d.item_list.iter().map(|x| x.item.uuid).collect();
    assert_eq!(uuids, vec![0x1, 0x2]);
    assert_eq!(d.item_list[0].price, Some(100));
    assert_eq!(d.item_list[0].vat_id, Some(VatId::Rate(20)));
    assert!(!d.item_list[0].disabled);

    let other = proposal_detail(detail_data(5, ProposalStatus::Created, vec![p_item(0x1, 0xb1, 1, None, None)]), &prices, 6).ok().unwrap();
    assert!(other.item_list[0].disabled);
    let deleted = proposal_detail(detail_data(5, ProposalStatus::Deleted, vec![p_item(0x1, 0xb1, 1, None, None)]), &prices, 5).ok().unwrap();
    assert!(deleted.item_list[0].disabled);
    assert_eq!(disabled_field_list().len(), 12);
    assert_eq!(disabled_field_list()[0], "supplier_price");
}

#[test]
fn proposal_detail_without_request_position_fails() {
    let items = vec![p_item(0x1, 0xb9, 1, None, None)];
    match proposal_detail(detail_data(5, ProposalStatus::Created, items), &vec![], 5) {
        Err(TcpError::RecordNotFound(id, table)) => {
            assert_eq!(table, "request_item");
            assert_eq!(id, "00000000-0000-0000-0000-0000000000b9");
        },
        _ => panic!("expected a missing position"),
    }
    // of two missing positions, the one first by number is named
    let two = vec![p_item(0x2, 0xc2, 3, None, None), p_item(0x1, 0xc1, 2, None, None)];
    match proposal_detail(detail_data(5, ProposalStatus::Created, two), &vec![], 5) {
        Err(TcpError::RecordNotFound(id, _)) => assert_eq!(id, "00000000-0000-0000-0000-0000000000c1"),
        _ => panic!("expected a missing position"),
    }
    match single_detail(vec![], 7) {
        Err(TcpError::RecordNotFound(id, table)) => {
            assert_eq!(id, "7");
            assert_eq!(table, "proposal_head");
        },
        _ => panic!("expected a missing proposal"),
    }
}

#[test]
fn tcp_not_found_message_names_requests() {
    let m = GetTechnicalCommercialProposalMessage::is_tcp_not_found(&vec![3, 4]);
    assert_eq!(m.text, "Для ЗЦИ 3, 4 ТКП не найдено");
    assert!(matches!(m.kind, MessageKind::Information));
    let ids: Vec<String> = m.item_list.iter().map(|p| p.id.clone()).collect();
    assert_eq!(ids, vec!["3".to_string(), "4".to_string()]);
}

#[test]
fn tcp_rows_show_each_request_position_once() {
    let d1 = detail_data(5, ProposalStatus::Received, vec![p_item(0x1, 0xb1, 1, None, None), p_item(0x2, 0xb2, 2, None, None)]);
    let d2 = detail_data(5, ProposalStatus::Received, vec![p_item(0x3, 0xb1, 1, None, None)]);
    let rows = tcp_rows(vec![d1, d2], &vec![0xb1, 0xb2]);
    assert_eq!(rows.len(), 2);
    assert_eq!(rows[0].position_list[0].request_item, Some(0));
    assert_eq!(rows[0].position_list[1].request_item, Some(1));
    assert_eq!(rows[1].position_list[0].request_item, None);
}

#[test]
fn pricing_items_sum_and_vat() {
    let same = detail_data(5, ProposalStatus::Received, vec![
        p_item(0x1, 0xb1, 1, Some(VatId::Rate(20)), Some(120)),
        p_item(0x2, 0xb2, 2, Some(VatId::Rate(20)), None),
    ]);
    let mixed = detail_data(5, ProposalStatus::Received, vec![
        p_item(0x1, 0xb1, 1, Some(VatId::Rate(20)), Some(5)),
        p_item(0x2, 0xb2, 2, Some(VatId::Rate(10)), Some(7)),
    ]);
    let empty = detail_data(5, ProposalStatus::Received, vec![]);
    let r = pricing_items(&vec![same, mixed, empty]);
    assert_eq!(r[0].supplier_vat_id, VatId::Rate(20));
    assert_eq!(r[0].sum_included_vat, 120);
    assert_eq!(r[0].sum_excluded_vat, 1000);
    assert_eq!(r[0].supplier_id, 321);
    assert_eq!(r[1].supplier_vat_id, VatId::Compound);
    assert_eq!(r[1].sum_included_vat, 12);
    assert_eq!(r[2].supplier_vat_id, VatId::Compound);
    assert_eq!(r[2].sum_included_vat, 0);
}

#[test]
fn items_for_pricing_warns_about_missing_price() {
    let ps = vec![
        PricingPositionData { proposal_item_uuid: 0x1, price: Some(50), plan_item_uuid: 0xc1 },
        PricingPositionData { proposal_item_uuid: 0x2, price: None, plan_item_uuid: 0xc2 },
    ];
    let (items, messages) = items_for_pricing(&ps);
    assert_eq!(items.len(), 1);
    assert_eq!(items[0].plan_item_uuid, 0xc1);
    assert_eq!(items[0].proposal_price, 50);
    assert_eq!(messages.messages.len(), 1);
    assert!(matches!(messages.kind, MessageKind::Warning));
    assert_eq!(
        messages.messages[0].text,
        "В выбранном ТКП (00000000-0000-0000-0000-000000000002) не указана Цена Организации"
    );
}

#[test]
fn requests_are_put_back_together() {
    let parts = get_price_information_requests_by_plan_uuid(&vec![0x1, 0x2, 0x1], &vec![0x2, 0x1, 0x1], &vec![0x1]);
    assert_eq!(parts[0].items, vec![1, 2]);
    assert_eq!(parts[0].partners, Some(vec![0]));
    assert_eq!(parts[1].items, vec![0]);
    assert_eq!(parts[1].partners, None);
    assert!(parts[2].items.is_empty());

    let groups = get_price_information_requests_by_plan_uuid_vec(&vec![Some(p1_u128()), None, Some(p1_u128()), Some(7)], &vec![0x1, 0x2, 0x3, 0x4], &vec![0x3, 0x1], &vec![]);
    assert_eq!(groups.len(), 2);
    let g = groups.iter().find(|g| g.plan_uuid == p1_u128()).unwrap();
    let hs: Vec<usize> = g.requests.iter().map(|r| r.header).collect();
    assert_eq!(hs, vec![0, 2]);
    assert_eq!(g.requests[0].items, vec![1]);
    assert_eq!(g.requests[1].items, vec![0]);

    assert_eq!(get_tkp_by_uuid_request(&vec![0x5, 0x5], &vec![0x5, 0x6, 0x5]), vec![vec![0, 2], vec![]]);
    let by_request = get_tkp_by_uuid_request_vec(&vec![0x1, 0x2, 0x1], &vec![0x10, 0x20, 0x30], &vec![0x30, 0x10]);
    assert_eq!(by_request.len(), 2);
    assert_eq!(by_request[0].request_uuid, 0x1);
    assert_eq!(by_request[0].proposals, vec![(0, vec![1]), (2, vec![0])]);
}

fn p1_u128() -> u128 {
    0xaa
}

#[test]
fn question_attachments_go_to_the_first_question() {
    let q = |uuid: u128| OrganizationQuestionRep {
        uuid,
        question_text: Some("?".to_string()),
        question_created_at: None,
        answer_question_text: None,
        answer_created_at: None,
        answer_published_at: None,
    };
    let a = Attachment { id: 1, kind_id: 1, category_id: Some(FolderCategory::Other), parent_id: None, is_removed: false, is_classified: false };
    let hierarchies = vec![QuestionHierarchy { uuid: 0x2, item_list: vec![a] }];
    let (data, messages) = process_pre_organization_question(vec![q(0x1), q(0x2), q(0x2)], hierarchies, Messages::new());
    assert!(messages.messages.is_empty());
    assert!(data.item_list[0].attachment_list.is_empty());
    assert_eq!(data.item_list[1].attachment_list.len(), 1);
    assert!(data.item_list[2].attachment_list.is_empty());
    assert_eq!(data.item_list[1].organization_question.uuid, 0x2);
}

#[test]
fn purchasing_subjects_and_organizations() {
    let g = purchasing_subject_record(None, None, "Группа".to_string(), 4, 10);
    assert_eq!(g.hierarchy_id, 1);
    assert_eq!(g.hierarchy_uuid, g.uuid);
    let s = purchasing_subject_record(Some(0x7), Some(0x9), "Предмет".to_string(), 4, 10);
    assert_eq!(s.uuid, 0x7);
    assert_eq!(s.hierarchy_id, 2);
    assert_eq!(s.hierarchy_uuid, 0x9);
    assert_eq!(upsert_purchasing_subject_message(None, Some((1, 1))).text, "Новая группа Предметов закупки создана");
    assert_eq!(upsert_purchasing_subject_message(Some(0x9), Some((1, 2))).text, "Предмет закупки изменен");
    assert_eq!(upsert_purchasing_subject_message(Some(0x9), None).text, "Ошибка при создании нового Предмета закупки");
    assert!(matches!(organizations_remove(0).kind, MessageKind::Error));
    assert_eq!(organizations_remove(1).text, "Организация удалена");
    let (go_on, m) = purchasing_subject_group_remove(&vec![]);
    assert!(!go_on);
    assert!(matches!(m.kind, MessageKind::Error));
    assert!(purchasing_subject_group_remove(&vec![0x1]).0);
    let (go_on, m) = purchasing_subject_remove(None);
    assert!(!go_on);
    assert_eq!(m.text, "Выбрана группа Предметов закупки вместо Предмета закупки");
    let (p, m) = organizations_update(PartnerSubjectPurchasedRep { uuid_subject: Some(0x3), supplier_id: Some(8) }, 4, 10).ok().unwrap();
    assert_eq!(p.uuid_subject, 0x3);
    assert!(!p.is_removed);
    assert_eq!(m.text, "Организация добавлена");
    let err = organizations_update(PartnerSubjectPurchasedRep { uuid_subject: None, supplier_id: Some(8) }, 4, 10);
    assert_eq!(err.err().unwrap().text, "Обязательные поля не присутствуют в запросе");
}

#[test]
fn export_sections_and_errors() {
    assert!(matches!(export_entity_kind(&ExportSection::RequestList).ok(), Some(EntityKind::RequestList)));
    match export_entity_kind(&ExportSection::Other("Тест".to_string())) {
        Err(TcpError::Section(t)) => assert_eq!(t, "Секция Тест не имеет возможности экспорта таблицы"),
        _ => panic!("expected a section error"),
    }
    match check_export_data(0) {
        Err(TcpError::Business(m)) => assert_eq!(m.messages[0].text, "По данному запросу данных не найдено"),
        _ => panic!("expected no data"),
    }
    assert!(check_export_data(3).is_ok());
    assert_eq!(export_document(Ok(Some(vec![1, 2]))).ok(), Some(vec![1u8, 2]));
    match export_document(Ok(None)) {
        Err(TcpError::Export(t)) => assert_eq!(t, "Отсутствует содержимое документа"),
        _ => panic!("expected no content"),
    }
    match export_document(Err("down".to_string())) {
        Err(TcpError::Export(t)) => assert_eq!(t, "Ошибка формирования документа из сервиса print-doc: down"),
        _ => panic!("expected a service error"),
    }
    assert_eq!(request_item_field("plan_id"), ItemField::PlanId);
    assert_eq!(request_item_field("currency_id"), ItemField::CurrencyId);
    assert_eq!(request_item_field("quantity"), ItemField::Item);
}

fn r_item(uuid: u128, number: i16) -> RequestItem {
    RequestItem {
        uuid,
        request_uuid: 0x1,
        plan_item_uuid: 0,
        number,
        description_internal: String::new(),
        category_id: 0,
        okved2_id: 0,
        okpd2_id: 0,
        quantity: 1,
        unit_id: 0,
        price: None,
        vat_id: None,
        product_type_id: 1,
    }
}

#[test]
fn arriving_proposals() {
    assert_eq!(offer_asez_id(Some(5), 1).ok(), Some(5));
    match offer_asez_id(None, 12) {
        Err(TcpError::InternalError(t)) => assert_eq!(t, "Отсутствует AsezId для req_number 12"),
        _ => panic!("expected an error"),
    }
    assert_eq!(offer_request(&vec![(0x1, Some(643))], 12).ok(), Some((0x1, Some(643))));
    assert!(offer_request(&vec![], 12).is_err());

    let existing = RequestPartner { uuid: 0xa, request_uuid: 0x1, supplier_id: 5, is_public: false, is_removed: false, number: 2 };
    let p = find_or_create_partner(Some(ExistingPartner { partner: existing, has_proposal: false }), &vec![], 5, 0x1).ok().unwrap();
    assert!(p.is_public);
    assert_eq!(p.uuid, 0xa);
    match find_or_create_partner(Some(ExistingPartner { partner: existing, has_proposal: true }), &vec![], 5, 0x1) {
        Err(TcpError::InternalError(t)) => assert_eq!(t, "От данной организации уже создано ТКП"),
        _ => panic!("expected an error"),
    }
    let n = find_or_create_partner(None, &vec![3, 7, 1], 5, 0x1).ok().unwrap();
    assert_eq!(n.number, 8);
    assert!(n.is_public);
    assert_eq!(n.supplier_id, 5);

    let offer = |pos: i16, impossible: Option<bool>| CommercialOffer {
        tcp_id: 77,
        hierarchy_uuid: 0xd,
        date_start_proposal: 1,
        date_end_proposal: 2,
        user_id: 4,
        sum_excluded_vat_total: 300,
        price_info: vec![PriceInfo {
            price_info_pos_nr: pos,
            price: 100,
            cost: 300,
            cost_nds: 360,
            impossible_to_do: impossible,
            vat_id: Some(VatId::Rate(20)),
            pay_condition_id: None,
            prepayment_percent: None,
            cause_impossible: None,
        }],
    };
    let (h, items) = commercial_offer_response(offer(1, Some(true)), 0x1, Some(643), &n, &vec![r_item(0xb1, 1)], 9).ok().unwrap();
    assert!(matches!(h.status_id, ProposalStatus::Received));
    assert!(matches!(h.status_check_id, CheckStatus::Review));
    assert_eq!(h.receive_date, Some(9));
    assert_eq!(h.currency_id, 643);
    assert_eq!(h.supplier_uuid, n.uuid);
    assert_eq!(items[0].request_item_uuid, 0xb1);
    assert_eq!(items[0].price, Some(100));
    assert!(items[0].is_possibility);
    let (_, items) = commercial_offer_response(offer(1, None), 0x1, Some(643), &n, &vec![r_item(0xb1, 1)], 9).ok().unwrap();
    assert_eq!(items[0].price, None);
    assert_eq!(items[0].sum_excluded_vat, None);
    match commercial_offer_response(offer(4, None), 0x1, Some(643), &n, &vec![r_item(0xb1, 1)], 9) {
        Err(TcpError::InternalError(t)) => assert_eq!(t, "Не найдена позиция ЗЦИ с номером 4"),
        _ => panic!("expected a missing position"),
    }
    assert!(commercial_offer_response(offer(1, None), 0x1, None, &n, &vec![r_item(0xb1, 1)], 9).is_err());

    let mut with_docs = proposal(1, 5, ProposalStatus::Received);
    assert!(commercial_offer_add_doc_response(77, &with_docs).is_err());
    with_docs.hierarchy_uuid = Some(0xe);
    assert_eq!(commercial_offer_add_doc_response(77, &with_docs).ok(), Some(0xe));
    match commercial_offer_add_doc_response(77, &proposal(2, 5, ProposalStatus::Received)) {
        Err(TcpError::InternalError(t)) => assert_eq!(t, "У ТКП (TCPID=77) отсутствует hierarchy_uuid"),
        _ => panic!("expected a missing folder"),
    }
}
