use technical_commercial_proposal::grouping::first_positions;
use technical_commercial_proposal::model::{Attachment, FolderCategory};
use technical_commercial_proposal::publication::files_to_send;
use technical_commercial_proposal::create_request::PriceInformationRequest;
use technical_commercial_proposal::detail::{details_by_id, price_information_detail, JoinedPriceInformationInfoDetail, OrganizationQuestion};
use technical_commercial_proposal::model::{CheckStatus, ProposalHeader, ProposalStatus, RequestHeader, RequestItem, RequestPartner, RequestStatus, TcpError};
use technical_commercial_proposal::plan_data::{
    enrich_request_with_plan_data, fill_success_response, get_plans_data, process_plans_response, CompletePlanRep, GetPlanResponse,
    PlanItemFullRep, PlanRep, PlansFailure,
};
use technical_commercial_proposal::messages::{Message, Messages};
use technical_commercial_proposal::publication::{
    build_specifications, build_suppliers, check_integration_response, distinct_ids, find_okei, publish_header, select_classifier,
    select_currency, ClassifierEntry, CurrencyEntry, Organization, Unit,
};
use technical_commercial_proposal::request_list::{build_extra, filter, FilterValue, RequestListRow, RowFilter};

fn header(id: i64, plan_uuid: Option<u128>) -> RequestHeader {
    RequestHeader {
        id,
        uuid: 0x10 + id as u128,
        plan_uuid,
        plan_id: None,
        hierarchy_uuid: None,
        type_request_id: None,
        request_subject: None,
        start_date: None,
        end_date: None,
        status_id: RequestStatus::TcpProject,
        customer_id: None,
        currency_id: None,
        organizer_id: None,
        organizer_name: None,
        organizer_mail: None,
        organizer_phone: None,
        organizer_location: None,
        reason_closing: None,
        created_by: 5,
        created_at: 0,
        changed_by: 5,
        changed_at: 0,
    }
}

fn item(uuid: u128, number: i16, plan_item_uuid: u128, product_type_id: i16) -> RequestItem {
    RequestItem {
        uuid,
        request_uuid: 0x11,
        plan_item_uuid,
        number,
        description_internal: "old".to_string(),
        category_id: 0,
        okved2_id: 0,
        okpd2_id: 0,
        quantity: 1,
        unit_id: 796,
        price: None,
        vat_id: None,
        product_type_id,
    }
}

fn partner(uuid: u128, supplier_id: i32) -> RequestPartner {
    RequestPartner { uuid, request_uuid: 0x11, supplier_id, is_public: false, is_removed: false, number: 1 }
}

fn proposal(uuid: u128, supplier_uuid: u128, status_check_id: CheckStatus, hierarchy_uuid: Option<u128>) -> ProposalHeader {
    ProposalHeader {
        id: 1,
        uuid,
        request_uuid: 0x11,
        supplier_uuid,
        hierarchy_uuid,
        start_date: None,
        end_date: None,
        status_id: ProposalStatus::Received,
        status_check_id,
        result_id: None,
        receive_date: None,
        sum_excluded_vat_total: None,
        currency_id: 643,
        etp_id: None,
        created_by: 5,
        created_at: 0,
        changed_by: 5,
        changed_at: 0,
    }
}

#[test]
fn detail_orders_items_and_counts_questions() {
    let joined = JoinedPriceInformationInfoDetail {
        header: header(1, None),
        items: vec![item(0x2, 2, 0, 1), item(0x1, 1, 0, 1)],
        suppliers: vec![partner(0xa, 10), partner(0xa, 10), partner(0xb, 20)],
        proposal_headers: vec![proposal(0x100, 0xa, CheckStatus::Review, None)],
        organization_questions: vec![
            OrganizationQuestion { uuid: 1, supplier_uuid: 0xa, answer_created_at: Some(1) },
            OrganizationQuestion { uuid: 2, supplier_uuid: 0xa, answer_created_at: None },
        ],
    };
    let d = price_information_detail(joined);
    let numbers: Vec<i16> = d.item_list.iter().map(|i| i.number).collect();
    assert_eq!(numbers, vec![1, 2]);
    assert_eq!(d.partner_list.len(), 2);
    assert_eq!(d.partner_list[0].question_answer, (2, 1));
    assert_eq!(d.partner_list[0].proposal.map(|p| p.uuid), Some(0x100));
    assert_eq!(d.partner_list[1].question_answer, (0, 0));
    assert!(d.partner_list[1].proposal.is_none());
    match details_by_id(vec![], 5) {
        Err(TcpError::RecordNotFound(id, table)) => {
            assert_eq!(id, "5");
            assert_eq!(table, "request_head");
        },
        _ => panic!("expected a missing request"),
    }
}

#[test]
fn list_extra_fields_and_filters() {
    let suppliers = vec![partner(0xa, 10), partner(0xb, 20)];
    let proposals = vec![
        proposal(0x100, 0xa, CheckStatus::Reviewed, Some(0xf1)),
        proposal(0x101, 0xa, CheckStatus::Review, None),
    ];
    let e = build_extra(&suppliers, &proposals);
    assert_eq!(e.supplier_list, vec![10, 20]);
    assert_eq!(e.tkp_in, vec![10]);
    assert_eq!(e.hierarchy_uuid, vec![0xf1]);
    assert_eq!(e.tkp_done, vec![1, 2]);

    let rows = vec![
        RequestListRow { header: header(1, None), extra: e },
        RequestListRow { header: header(2, None), extra: build_extra(&vec![partner(0xc, 30)], &vec![]) },
    ];
    let f = vec![RowFilter { field: "supplier_list".to_string(), values: vec![FilterValue::Int(30), FilterValue::Other] }];
    let kept = filter(rows, &f);
    assert_eq!(kept.len(), 1);
    assert_eq!(kept[0].header.id, 2);
}

#[test]
fn publication_pieces() {
    let (h, m) = publish_header(header(12, None), 3, 44);
    assert!(matches!(h.status_id, RequestStatus::TransferredToEtp));
    assert_eq!(h.changed_by, 3);
    assert_eq!(m.text, " ЗЦИ 12 направлено на ЭТП ГПБ");
    match check_integration_response(false, "down".to_string()) {
        Err(TcpError::InternalError(t)) => assert_eq!(t, "down"),
        _ => panic!("expected an error"),
    }
    assert!(check_integration_response(true, String::new()).is_ok());

    let entries = vec![
        ClassifierEntry { id: 1, code: "01".to_string(), text: "one".to_string() },
        ClassifierEntry { id: 2, code: "02".to_string(), text: "two".to_string() },
    ];
    let picked = select_classifier(&entries, &vec![2]);
    assert_eq!(picked.len(), 1);
    assert_eq!(picked[0].code, "02");
    assert_eq!(picked[0].name, "two");
    let currencies = vec![CurrencyEntry { id: 643, text: "RUB".to_string() }];
    assert_eq!(select_currency(&currencies, Some(643)), "RUB");
    assert_eq!(select_currency(&currencies, None), "");
    let mut ids = distinct_ids(&vec![3, 1, 3]);
    ids.sort();
    assert_eq!(ids, vec![1, 3]);
    let units = vec![Unit { id: 796, okei: 796 }, Unit { id: 796, okei: 797 }];
    assert_eq!(find_okei(&units, 796), 797);
    assert_eq!(find_okei(&units, 1), 0);

    let specs = build_specifications(&vec![item(0x1, 1, 0, 3)], &units).ok().unwrap();
    assert_eq!(specs[0].pos_nr, "1");
    assert_eq!(specs[0].pos_vid, "1");
    assert_eq!(specs[0].unit_of_measure, 797);
    assert!(build_specifications(&vec![item(0x1, 1, 0, 9)], &units).is_err());

    assert!(build_suppliers(&vec![], &vec![]).is_none());
    let orgs = vec![Organization { id: 10, inn: "7700".to_string(), kpp: "01".to_string() }];
    let s = build_suppliers(&vec![partner(0xa, 10)], &orgs).unwrap();
    assert_eq!(s[0].inn, "7700");
    assert_eq!(s[0].asez_id, "10");
}

#[test]
fn requests_are_filled_from_plans() {
    let r = PriceInformationRequest {
        header: header(1, Some(0xaa)),
        items: vec![item(0x1, 1, 0xc1, 1), item(0x2, 2, 0xc9, 1)],
        suppliers: None,
    };
    let other = PriceInformationRequest { header: header(2, Some(0xbb)), items: vec![], suppliers: None };
    assert_eq!(get_plans_data(&vec![r, other]), vec![0xaa, 0xbb]);

    let r = PriceInformationRequest {
        header: header(1, Some(0xaa)),
        items: vec![item(0x1, 1, 0xc1, 1), item(0x2, 2, 0xc9, 1)],
        suppliers: None,
    };
    let plans = vec![CompletePlanRep {
        plan: PlanRep { uuid: Some(0xaa), id: Some(77), customer_id: None, currency_id: Some(643) },
        items: vec![PlanItemFullRep {
            uuid: Some(0xc1),
            description_internal: Some(Some("Насос".to_string())),
            category_id: Some(4),
            okved2_id: Some(28),
            quantity: Some(3),
            unit_id: Some(5),
        }],
    }];
    let out = enrich_request_with_plan_data(vec![r], &plans);
    assert_eq!(out[0].header.plan_id, Some(77));
    assert_eq!(out[0].header.customer_id, Some(0));
    assert_eq!(out[0].header.currency_id, Some(643));
    assert_eq!(out[0].items[0].description_internal, "Насос");
    assert_eq!(out[0].items[0].quantity, 3);
    assert_eq!(out[0].items[1].description_internal, "old");

    assert_eq!(fill_success_response(&vec![5, 6]).text, "Успешно созданы запрос(ы): 5, 6");

    let mut service = Messages::new();
    service.add(Message::error("нет".to_string()));
    match process_plans_response(Ok(GetPlanResponse { messages: service, total: 0, item_list: vec![] })) {
        Err(PlansFailure::ServiceMessages(m)) => assert_eq!(m.messages[0].text, "нет"),
        _ => panic!("expected the service's messages"),
    }
    assert!(matches!(process_plans_response(Err(())), Err(PlansFailure::Unavailable)));
    let ok = process_plans_response(Ok(GetPlanResponse { messages: Messages::new(), total: 1, item_list: plans }));
    assert_eq!(ok.ok().unwrap().len(), 1);
}

#[test]
fn first_positions_keep_each_key_once_in_order() {
    assert_eq!(first_positions(&vec![7, 3, 7, 5, 3, 9]), vec![0, 1, 3, 5]);
    assert_eq!(first_positions(&vec![]), Vec::<usize>::new());
    assert_eq!(first_positions(&vec![4, 4, 4]), vec![0]);
}

#[test]
fn files_to_send_are_unclassified_files() {
    let att = |id: i64, kind_id: i16, is_classified: bool| Attachment {
        id,
        kind_id,
        category_id: Some(FolderCategory::Other),
        parent_id: None,
        is_removed: false,
        is_classified,
    };
    let atts = vec![att(1, 2, false), att(2, 1, false), att(3, 1, true), att(4, 1, false)];
    assert_eq!(files_to_send(&atts), vec![1, 3]);
    assert_eq!(files_to_send(&vec![]), Vec::<usize>::new());
}
