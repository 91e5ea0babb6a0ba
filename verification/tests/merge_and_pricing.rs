use technical_commercial_proposal::check_request::{RequestItemForm, RequestPartnerForm};
use technical_commercial_proposal::detail::OrganizationQuestion;
use technical_commercial_proposal::merge::{merge_items, merge_partners, new_entries, saved_partner_rows, saved_request_message};
use technical_commercial_proposal::messages::MessageKind;
use technical_commercial_proposal::model::{CheckStatus, ProposalHeader, ProposalStatus, RequestPartner, ReviewResult, TcpError};
use technical_commercial_proposal::pricing::{
    match_organizations, missing_organizations_error, pricing_messages, review_proposals, review_result, FoundOrganization,
    OrganizationName, OrganizationRef,
};

fn proposal(id: i64, uuid: u128, supplier_uuid: u128, status_id: ProposalStatus) -> ProposalHeader {
    ProposalHeader {
        id,
        uuid,
        request_uuid: 1,
        supplier_uuid,
        hierarchy_uuid: None,
        start_date: None,
        end_date: None,
        status_id,
        status_check_id: CheckStatus::Review,
        result_id: None,
        receive_date: None,
        sum_excluded_vat_total: None,
        currency_id: 643,
        etp_id: None,
        created_by: 5,
        created_at: 0,
        changed_by: 5,
        changed_at: 0,
    }
}

fn partner(uuid: u128, supplier_id: i32, number: i16) -> RequestPartner {
    RequestPartner { uuid, request_uuid: 1, supplier_id, is_public: false, is_removed: false, number }
}

#[test]
fn merged_items_are_sorted_numbered_and_stale_ones_deleted() {
    // positions sent out of order; one refers to a stored position, one is new
    let forms = vec![
        RequestItemForm { uuid: None, number: Some(5) },
        RequestItemForm { uuid: Some(0x11), number: Some(2) },
        RequestItemForm { uuid: None, number: None },
    ];
    let olds = vec![0x11, 0x22];
    let m = merge_items(&forms, &olds);
    let order: Vec<usize> = m.items.iter().map(|e| e.form_index.unwrap()).collect();
    assert_eq!(order, vec![2, 1, 0]);
    let numbers: Vec<i16> = m.items.iter().map(|e| e.number).collect();
    assert_eq!(numbers, vec![1, 2, 3]);
    assert_eq!(m.items[1].uuid, 0x11);
    assert_eq!(m.items[1].old_index, Some(0));
    assert_eq!(m.items[0].old_index, None);
    assert_eq!((m.items[0].uuid >> 76) & 0xf, 4);
    assert_eq!(m.delete_items, vec![0x22]);
}

#[test]
fn a_stored_position_is_taken_over_once() {
    let forms = vec![
        RequestItemForm { uuid: Some(0x11), number: Some(1) },
        RequestItemForm { uuid: Some(0x11), number: Some(1) },
    ];
    let m = merge_items(&forms, &vec![0x11]);
    assert_eq!(m.items[0].old_index, Some(0));
    assert_eq!(m.items[1].old_index, None);
    assert_ne!(m.items[1].uuid, 0x11);
    assert!(m.delete_items.is_empty());
}

#[test]
fn merged_partners_keep_unnamed_stored_ones_at_the_end() {
    let forms = vec![
        RequestPartnerForm { uuid: Some(0x1001), supplier_id: None },
        RequestPartnerForm { uuid: None, supplier_id: Some(9) },
    ];
    let olds = vec![0x1001, 0x1002];
    let r = merge_partners(&forms, &olds);
    assert_eq!(r.len(), 3);
    assert_eq!(r[0].uuid, 0x1001);
    assert_eq!(r[0].old_index, Some(0));
    assert_eq!(r[0].number, 1);
    assert_eq!(r[1].old_index, None);
    assert_eq!(r[1].number, 2);
    assert_eq!(r[2].uuid, 0x1002);
    assert_eq!(r[2].form_index, None);
    assert_eq!(r[2].old_index, Some(1));
    assert_eq!(r[2].number, 3);
}

#[test]
fn new_request_entries_are_numbered_from_one() {
    let r = new_entries(3);
    let numbers: Vec<i16> = r.iter().map(|e| e.number).collect();
    assert_eq!(numbers, vec![1, 2, 3]);
    assert!(r.iter().all(|e| e.old_index.is_none()));
    assert_ne!(r[0].uuid, r[1].uuid);
}

#[test]
fn saved_messages_name_the_request() {
    assert_eq!(saved_request_message(false, 2000000000).text, "Обновлен ЗЦИ 2000000000");
    assert_eq!(saved_request_message(true, 7).text, "Создан ЗЦИ 7");
    assert!(matches!(saved_request_message(true, 7).kind, MessageKind::Success));
}

#[test]
fn saved_partner_rows_show_proposal_status_and_questions() {
    let partners = vec![partner(0xa, 1, 1), partner(0xb, 2, 2), partner(0xc, 3, 3)];
    let proposals = vec![proposal(1, 0x100, 0xa, ProposalStatus::Created), proposal(2, 0x101, 0xb, ProposalStatus::Created)];
    let questions = vec![
        OrganizationQuestion { uuid: 1, supplier_uuid: 0xa, answer_created_at: None },
        OrganizationQuestion { uuid: 2, supplier_uuid: 0xb, answer_created_at: Some(5) },
        OrganizationQuestion { uuid: 3, supplier_uuid: 0xb, answer_created_at: None },
        // the same question read twice counts once
        OrganizationQuestion { uuid: 3, supplier_uuid: 0xb, answer_created_at: None },
    ];
    let rows = saved_partner_rows(partners, &proposals, &questions);
    assert!(matches!(rows[0].proposal_status, Some(ProposalStatus::Created)));
    assert_eq!(rows[0].question_answer, Some((1, 0)));
    assert_eq!(rows[1].question_answer, Some((2, 1)));
    assert!(rows[2].proposal_status.is_none());
    assert_eq!(rows[2].question_answer, None);
}

#[test]
fn review_choice_and_update() {
    assert!(matches!(review_result(Some(true)), ReviewResult::Consider));
    assert!(matches!(review_result(Some(false)), ReviewResult::Ignore));
    assert!(matches!(review_result(None), ReviewResult::Ignore));
    let r = review_proposals(vec![proposal(3, 0x1, 0xa, ProposalStatus::Received)], ReviewResult::Consider, 9, 77);
    assert!(matches!(r[0].status_check_id, CheckStatus::Reviewed));
    assert!(matches!(r[0].result_id, Some(ReviewResult::Consider)));
    assert_eq!(r[0].changed_by, 9);
    assert_eq!(r[0].changed_at, 77);
    // marking twice changes nothing more
    let again = review_proposals(r.clone(), ReviewResult::Consider, 9, 77);
    assert_eq!(again, r);
}

#[test]
fn organizations_are_matched_by_monolith_id() {
    let refs = vec![
        OrganizationRef { supplier_id: 10, supplier_uuid: 0xa },
        OrganizationRef { supplier_id: 20, supplier_uuid: 0xb },
    ];
    let found = vec![
        FoundOrganization { id: 20, text: "ООО Б".to_string() },
        FoundOrganization { id: 10, text: "ООО А".to_string() },
        FoundOrganization { id: 10, text: "ignored".to_string() },
        FoundOrganization { id: 30, text: "other".to_string() },
    ];
    let names = match_organizations(&refs, &found).ok().unwrap();
    let pairs: Vec<(u128, String)> = names.iter().map(|n| (n.supplier_uuid, n.text.clone())).collect();
    assert_eq!(pairs, vec![(0xb, "ООО Б".to_string()), (0xa, "ООО А".to_string())]);

    let missing = match_organizations(&refs, &vec![FoundOrganization { id: 20, text: "x".to_string() }]);
    let ids = match missing {
        Err(ids) => ids,
        Ok(_) => panic!("expected missing ids"),
    };
    assert_eq!(ids, vec![10]);
    match missing_organizations_error(&vec![10, 40]) {
        TcpError::MonolithError(t) => assert_eq!(t, "В монолите не найдены организации ИД = 10, 40."),
        _ => panic!("expected a monolith error"),
    }
}

#[test]
fn pricing_messages_name_proposal_and_organization() {
    let names = vec![OrganizationName { supplier_uuid: 0xa, text: "ООО А".to_string() }];
    let updated = vec![proposal(15, 0x1, 0xa, ProposalStatus::Received)];
    let m = pricing_messages(&updated, &names, true).ok().unwrap();
    assert_eq!(m.messages[0].text, "ТКП 15 от ООО А можно применить при АЦ");
    assert_eq!(m.messages[0].item_list[0].id, "15");
    let m = pricing_messages(&updated, &names, false).ok().unwrap();
    assert_eq!(m.messages[0].text, "ТКП 15 от ООО А нельзя учесть при АЦ");
    let unknown = vec![proposal(16, 0x2, 0xb, ProposalStatus::Received)];
    match pricing_messages(&unknown, &names, true) {
        Err(TcpError::RecordNotFound(id, table)) => {
            assert_eq!(id, "organization (request_partner.uuid) из монолита");
            assert_eq!(table, "request_partner");
        },
        _ => panic!("expected a missing organization"),
    }
}
