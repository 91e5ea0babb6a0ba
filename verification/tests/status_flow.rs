use technical_commercial_proposal::close::{check_requests, close_requests, pre_close_items, RequestCloseItem};
use technical_commercial_proposal::model::{RequestHeader, RequestPartner, RequestStatus, RequestWithPartners, TcpError};
use technical_commercial_proposal::request_status::{complete_requests, delete_requests, request_confirmation, request_header_closing};

fn header(id: i64, uuid: u128, status_id: RequestStatus, created_by: i32) -> RequestHeader {
    RequestHeader {
        id,
        uuid,
        plan_uuid: None,
        plan_id: None,
        hierarchy_uuid: None,
        type_request_id: None,
        request_subject: Some(format!("subject {id}")),
        start_date: None,
        end_date: Some(100),
        status_id,
        customer_id: None,
        currency_id: None,
        organizer_id: None,
        organizer_name: None,
        organizer_mail: None,
        organizer_phone: None,
        organizer_location: None,
        reason_closing: None,
        created_by,
        created_at: 0,
        changed_by: created_by,
        changed_at: 0,
    }
}

fn with_partners(h: RequestHeader, ids: &[i32]) -> RequestWithPartners {
    let suppliers = ids
        .iter()
        .enumerate()
        .map(|(n, id)| RequestPartner {
            uuid: 1000 + n as u128,
            request_uuid: h.uuid,
            supplier_id: *id,
            is_public: false,
            is_removed: false,
            number: n as i16 + 1,
        })
        .collect();
    RequestWithPartners { header: h, suppliers }
}

#[test]
fn pre_close_refuses_wrong_status_and_other_users() {
    let requests = vec![
        with_partners(header(1, 0x1, RequestStatus::AcceptingIncomingTCPs, 5), &[10, 20]),
        with_partners(header(2, 0x2, RequestStatus::TcpProject, 5), &[]),
        with_partners(header(3, 0x3, RequestStatus::ErrorPublishingChanges, 6), &[]),
    ];
    let (valid, messages) = check_requests(requests, 5);
    assert_eq!(valid.len(), 1);
    assert_eq!(valid[0].header.id, 1);
    let m = messages.unwrap();
    assert_eq!(m.messages.len(), 2);
    assert_eq!(m.messages[0].text, "Досрочное закрытие выбранных ЗЦИ невозможно");
    assert_eq!(m.messages[0].item_list[0].id, "2");
    assert_eq!(m.messages[0].item_list[0].uuid, None);
    assert_eq!(m.messages[1].text, "Нет полномочий");
    assert_eq!(m.messages[1].description, "Невозможно закрыть ЗЦИ, созданное другим пользователем");
    assert_eq!(m.messages[1].item_list[0].id, "3");

    let items = pre_close_items(valid);
    assert_eq!(items[0].supplier_list, vec![10, 20]);
    assert_eq!(items[0].request_subject, Some("subject 1".to_string()));
}

#[test]
fn pre_close_all_valid_has_no_messages() {
    let requests = vec![with_partners(header(1, 0x1, RequestStatus::AcceptingIncomingTCPs, 5), &[])];
    let (valid, messages) = check_requests(requests, 5);
    assert_eq!(valid.len(), 1);
    assert!(messages.is_none());
}

#[test]
fn close_sets_status_and_reason() {
    let valid = vec![with_partners(header(1, 0x1, RequestStatus::AcceptingIncomingTCPs, 5), &[])];
    let req = vec![RequestCloseItem { id: 1, uuid: 0x1, reason_closing: "поздно".to_string() }];
    let o = close_requests(valid, &req, 5, 42).ok().unwrap();
    assert!(matches!(o.updated[0].status_id, RequestStatus::EntryClosedEarly));
    assert_eq!(o.updated[0].reason_closing, Some("поздно".to_string()));
    assert_eq!(o.updated[0].changed_at, 42);
    assert!(matches!(o.ret_list[0].status_id, RequestStatus::EntryClosedEarly));
    assert_eq!(o.messages.messages[0].text, "Статус ЗЦИ изменен на \"Прием закрыт досрочно\"");
}

#[test]
fn close_without_reason_fails() {
    let valid = vec![with_partners(header(1, 0x1, RequestStatus::AcceptingIncomingTCPs, 5), &[])];
    let req = vec![RequestCloseItem { id: 2, uuid: 0x2, reason_closing: "x".to_string() }];
    match close_requests(valid, &req, 5, 42) {
        Err(TcpError::RecordNotFound(_, table)) => assert_eq!(table, "request_head"),
        _ => panic!("expected a missing request"),
    }
}

#[test]
fn complete_changes_only_closed_requests() {
    let headers = vec![
        header(1, 0x1, RequestStatus::EntryClosed, 5),
        header(2, 0x2, RequestStatus::AcceptingIncomingTCPs, 5),
        header(3, 0x3, RequestStatus::EntryClosedEarly, 5),
    ];
    let o = complete_requests(headers, 5, 9);
    let ids: Vec<i64> = o.updated.iter().map(|h| h.id).collect();
    assert_eq!(ids, vec![1, 3]);
    assert!(o.updated.iter().all(|h| matches!(h.status_id, RequestStatus::Reviewed)));
    assert_eq!(o.messages.messages.len(), 2);
    assert_eq!(o.messages.messages[0].text, "Статус выбранных ЗЦИ изменен на \"Рассмотрение завершено\"");
    assert_eq!(o.messages.messages[1].text, "Завершение рассмотрения выбранных ЗЦИ невозможно");
    assert_eq!(o.messages.messages[1].item_list[0].id, "2");
}

#[test]
fn complete_by_another_user_changes_nothing() {
    let o = complete_requests(vec![header(1, 0x1, RequestStatus::EntryClosed, 6)], 5, 9);
    assert!(o.updated.is_empty());
    assert_eq!(o.messages.messages[0].text, "Нет полномочий");
    assert_eq!(o.messages.messages[0].description, "Невозможно закрыть ЗЦИ, созданный другим пользователем");
}

#[test]
fn delete_drafts_and_failed_transfers() {
    let headers = vec![
        header(1, 0x1, RequestStatus::TcpProject, 5),
        header(2, 0x2, RequestStatus::AcceptingIncomingTCPs, 5),
        header(3, 0x3, RequestStatus::TransferToEtpError, 5),
    ];
    let o = delete_requests(headers, 5, 1).ok().unwrap();
    let ids: Vec<i64> = o.updated.iter().map(|h| h.id).collect();
    assert_eq!(ids, vec![1, 3]);
    assert!(o.updated.iter().all(|h| matches!(h.status_id, RequestStatus::Deleted)));
    assert_eq!(o.messages.messages[0].text, "Выбранные ЗЦИ удалены");
    assert_eq!(o.messages.messages[1].text, "Выбранные ЗЦИ опубликованы на ЭТП ГПБ. Удаление невозможно");
}

#[test]
fn delete_by_another_user_is_refused() {
    match delete_requests(vec![header(1, 0x1, RequestStatus::TcpProject, 6)], 5, 1) {
        Err(TcpError::Business(m)) => {
            assert_eq!(m.messages[0].text, "Нет полномочий");
            assert_eq!(m.messages[0].item_list[0].uuid, Some(0x1));
        },
        _ => panic!("expected a refusal"),
    }
}

#[test]
fn background_closing_closes_expired_acceptance_once() {
    let headers = vec![
        header(1, 0x1, RequestStatus::AcceptingIncomingTCPs, 5),
        header(2, 0x2, RequestStatus::TcpProject, 5),
        RequestHeader { end_date: Some(500), ..header(3, 0x3, RequestStatus::AcceptingIncomingTCPs, 5) },
    ];
    let closed = request_header_closing(headers, -1, 100);
    assert_eq!(closed.len(), 1);
    assert_eq!(closed[0].id, 1);
    assert!(matches!(closed[0].status_id, RequestStatus::EntryClosed));
    assert_eq!(closed[0].changed_by, -1);
    // a second run closes nothing again
    assert!(request_header_closing(closed, -1, 100).is_empty());
}

#[test]
fn confirmation_of_the_trading_platform() {
    let u = request_confirmation(header(1, 0x1, RequestStatus::TransferredToEtp, 5), "SUCCESS", 3, 50).ok().unwrap().unwrap();
    assert!(matches!(u.header.status_id, RequestStatus::AcceptingIncomingTCPs));
    assert_eq!(u.header.start_date, Some(50));
    assert!(u.with_start_date);
    let u = request_confirmation(header(1, 0x1, RequestStatus::TransferredToEtp, 5), "error", 3, 50).ok().unwrap().unwrap();
    assert!(matches!(u.header.status_id, RequestStatus::TransferToEtpError));
    assert!(!u.with_start_date);
    assert!(request_confirmation(header(1, 0x1, RequestStatus::TransferToEtpError, 5), "success", 3, 50).ok().unwrap().is_none());
    match request_confirmation(header(1, 0x1, RequestStatus::TransferredToEtp, 5), "maybe", 3, 50) {
        Err(TcpError::InternalError(t)) => assert_eq!(t, "CommercialOfferRequestConfirmation: неизвестный статус 'maybe'"),
        _ => panic!("expected an unknown status"),
    }
}

#[test]
fn closed_requests_complete_and_deleted_ones_stay() {
    // closed early, then the review is completed
    let requests = vec![with_partners(header(1, 0x1, RequestStatus::AcceptingIncomingTCPs, 5), &[10])];
    let (valid, _) = check_requests(requests, 5);
    let reasons = vec![RequestCloseItem { id: 1, uuid: 0x1, reason_closing: "срок".to_string() }];
    let closed = close_requests(valid, &reasons, 5, 20).ok().unwrap();
    let completed = complete_requests(closed.updated, 5, 30);
    assert_eq!(completed.updated.len(), 1);
    assert!(matches!(completed.updated[0].status_id, RequestStatus::Reviewed));
    // a reviewed or deleted request is touched by no operation
    let both = || vec![header(3, 0x3, RequestStatus::Reviewed, 5), header(2, 0x2, RequestStatus::Deleted, 5)];
    assert!(complete_requests(both(), 5, 40).updated.is_empty());
    assert!(delete_requests(both(), 5, 40).ok().unwrap().updated.is_empty());
    let (still_valid, refusals) = check_requests(both().into_iter().map(|h| with_partners(h, &[])).collect(), 5);
    assert!(still_valid.is_empty());
    assert!(refusals.is_some());
    assert!(request_header_closing(both(), -1, 1000).is_empty());
}
