use technical_commercial_proposal::approve::{approve_proposals, ApproveProposalMessage, HierarchyItem, JoinedProposal};
use technical_commercial_proposal::messages::MessageKind;
use technical_commercial_proposal::model::{Attachment, CheckStatus, FolderCategory, ProposalHeader, ProposalItem, ProposalStatus, TcpError};
use technical_commercial_proposal::update_proposal::{check_update_proposal, finalise_response, ProposalHeaderForm, ProposalItemForm, UpdateProposalMessage, UpdateProposalReq};

fn header(id: i64, hierarchy_uuid: Option<u128>, receive_date: Option<i64>) -> ProposalHeader {
    ProposalHeader {
        id,
        uuid: 0x100 + id as u128,
        request_uuid: 0x1,
        supplier_uuid: 0xa,
        hierarchy_uuid,
        start_date: Some(1),
        end_date: Some(2),
        status_id: ProposalStatus::Created,
        status_check_id: CheckStatus::Review,
        result_id: None,
        receive_date,
        sum_excluded_vat_total: None,
        currency_id: 643,
        etp_id: None,
        created_by: 5,
        created_at: 0,
        changed_by: 5,
        changed_at: 0,
    }
}

fn item(uuid: u128, is_possibility: bool, price: Option<i64>) -> ProposalItem {
    ProposalItem {
        uuid,
        proposal_uuid: 0x101,
        request_item_uuid: 0xb1,
        number: 1,
        price,
        vat_id: None,
        is_possibility,
        possibility_note: Some("нет".to_string()),
        pay_condition_id: None,
        prepayment_percent: None,
        sum_excluded_vat: None,
        sum_included_vat: None,
    }
}

fn tender_docs() -> Vec<HierarchyItem> {
    vec![HierarchyItem {
        uuid: 0xd,
        item_list: vec![
            Attachment { id: 1, kind_id: 2, category_id: Some(FolderCategory::TenderDocumentation), parent_id: None, is_removed: false, is_classified: false },
            Attachment { id: 2, kind_id: 1, category_id: Some(FolderCategory::TenderDocumentation), parent_id: Some(1), is_removed: false, is_classified: false },
        ],
    }]
}

#[test]
fn approve_marks_received_and_reports_each() {
    let data = vec![
        JoinedProposal { header: header(1, Some(0xd), None), items: vec![item(0x1, false, None)] },
        JoinedProposal { header: header(2, Some(0xd), Some(3)), items: vec![] },
    ];
    let (updated, messages) = approve_proposals(&data, &tender_docs(), 9, 50).ok().unwrap();
    assert!(updated.iter().all(|h| matches!(h.status_id, ProposalStatus::Received)));
    assert_eq!(updated[0].receive_date, Some(50));
    assert_eq!(updated[1].receive_date, Some(3));
    assert_eq!(updated[0].changed_by, 9);
    let texts: Vec<String> = messages.messages.iter().map(|m| m.text.clone()).collect();
    assert_eq!(texts, vec!["ТКП 1 подтверждено".to_string(), "ТКП 2 подтверждено".to_string()]);
}

#[test]
fn approve_with_missing_fields_fails() {
    let data = vec![JoinedProposal { header: header(1, None, None), items: vec![item(0x1, true, None)] }];
    match approve_proposals(&data, &vec![], 9, 50) {
        Err(TcpError::Business(m)) => {
            let texts: Vec<String> = m.messages.iter().map(|m| m.text.clone()).collect();
            assert_eq!(
                texts,
                vec![
                    "Заполните поле UUID иерархии".to_string(),
                    "Заполните поле Цена Организации (без НДС)".to_string(),
                    "Заполните поле Ставка НДС Организации".to_string(),
                    "Прикрепите Документ ТКП".to_string(),
                ]
            );
            assert_eq!(m.messages[0].item_list[0].id, "1");
            assert_eq!(m.messages[1].item_list[0].uuid, Some(0x1));
        },
        _ => panic!("expected a refusal"),
    }
    assert_eq!(ApproveProposalMessage::not_found_tcp_document().text, "Прикрепите Документ ТКП");
    assert_eq!(ApproveProposalMessage::success(7).text, "ТКП 7 подтверждено");
}

#[test]
fn update_proposal_lists_missing_fields() {
    let req = UpdateProposalReq {
        supplier_id: None,
        header: ProposalHeaderForm { uuid: None, id: Some(4), supplier_uuid: None, request_uuid: None, start_date: None, end_date: Some(1) },
        item_list: vec![ProposalItemForm {
            uuid: Some(0x1),
            request_item_uuid: None,
            number: Some(1),
            supplier_price: Some(5),
            supplier_vat_id: Some(20),
            is_possibility: Some(true),
            possibility_note: None,
            pay_condition_id: Some(Some(10)),
            prepayment_percent: None,
            sum_excluded_vat: None,
        }],
        attachment_list: vec![],
    };
    let m = check_update_proposal(&req);
    let texts: Vec<String> = m.messages.iter().map(|m| m.text.clone()).collect();
    assert_eq!(
        texts,
        vec![
            "Выберите организацию".to_string(),
            "Заполните поле Начало срока действия".to_string(),
            "Заполните поле UUID позиции ЗЦИ".to_string(),
            "Заполните поле Причина невозможности поставки".to_string(),
            "Заполните поле Размер аванса, %".to_string(),
            "Прикрепите Документ ТКП".to_string(),
        ]
    );
    assert!(matches!(m.kind, MessageKind::Error));
    assert_eq!(m.messages[1].item_list[0].id, "4");
    assert_eq!(UpdateProposalMessage::no_authority().description, "ТКП запрошено на ЭТП ГПБ. Ручное создание невозможно");
}

#[test]
fn approving_twice_keeps_the_first_receive_date() {
    let data = vec![JoinedProposal { header: header(1, Some(0xd), None), items: vec![] }];
    let (once, _) = approve_proposals(&data, &tender_docs(), 9, 50).ok().unwrap();
    let again_data = vec![JoinedProposal { header: once[0], items: vec![] }];
    let (twice, _) = approve_proposals(&again_data, &tender_docs(), 9, 50).ok().unwrap();
    assert_eq!(twice[0], once[0]);
    let (later, _) = approve_proposals(&again_data, &tender_docs(), 9, 80).ok().unwrap();
    assert_eq!(later[0].receive_date, Some(50));
}

fn request_item(uuid: u128, price: Option<i64>) -> technical_commercial_proposal::model::RequestItem {
    technical_commercial_proposal::model::RequestItem {
        uuid,
        request_uuid: 0x1,
        plan_item_uuid: 0x9,
        number: 1,
        description_internal: String::new(),
        category_id: 1,
        okved2_id: 0,
        okpd2_id: 0,
        quantity: 1,
        unit_id: 1,
        price,
        vat_id: None,
        product_type_id: 1,
    }
}

#[test]
fn finalise_response_prices_positions_and_names_the_first_missing() {
    let found = vec![request_item(0xb1, Some(500))];
    let ok = finalise_response(vec![item(0x1, false, None)], &found).ok().unwrap();
    assert_eq!(ok[0].price, Some(500));
    assert_eq!(ok[0].proposal_item.uuid, 0x1);
    let missing = vec![
        item(0x1, false, None),
        ProposalItem { request_item_uuid: 0xb7, ..item(0x2, false, None) },
        ProposalItem { request_item_uuid: 0xb8, ..item(0x3, false, None) },
    ];
    match finalise_response(missing, &found) {
        Err(TcpError::RecordNotFound(id, table)) => {
            assert_eq!(id, "00000000-0000-0000-0000-0000000000b7");
            assert_eq!(table, "request_item");
        },
        _ => panic!("expected a missing request position"),
    }
}
