use technical_commercial_proposal::check_request::{
    check_request_price_info, RequestHeaderForm, RequestItemForm, RequestPartnerForm, UpdatePriceInformationRequest,
};
use technical_commercial_proposal::create_request::{
    CreatePriceInformationRequest, FileFormData, PlanUuids, PriceInformationRequest, SupplierFormData,
};
use technical_commercial_proposal::messages::{Message, MessageKind};
use technical_commercial_proposal::model::{Attachment, FolderCategory, RequestStatus, RequestType, TcpError};

fn empty_header() -> RequestHeaderForm {
    RequestHeaderForm {
        uuid: None,
        id: None,
        type_request_id: None,
        request_subject: None,
        organizer_name: None,
        organizer_mail: None,
        organizer_phone: None,
        organizer_location: None,
        request_type_text: None,
        end_date: None,
    }
}

fn filled_header(request_type_text: Option<Option<String>>) -> RequestHeaderForm {
    RequestHeaderForm {
        uuid: None,
        id: None,
        type_request_id: Some(Some(RequestType::Private)),
        request_subject: Some(Some("request_subject".to_string())),
        organizer_name: Some(Some("organizer_name".to_string())),
        organizer_mail: Some(Some("organizer_mail".to_string())),
        organizer_phone: Some(Some("organizer_phone".to_string())),
        organizer_location: Some(Some("organizer_location".to_string())),
        request_type_text,
        end_date: None,
    }
}

fn att(id: i64, kind_id: i16, category: FolderCategory, parent_id: Option<i64>, is_removed: bool, is_classified: bool) -> Attachment {
    Attachment { id, kind_id, category_id: Some(category), parent_id, is_removed, is_classified }
}

fn documents() -> Vec<Attachment> {
    vec![
        att(1, 2, FolderCategory::TechnicalSpecification, None, false, false),
        att(11, 1, FolderCategory::TechnicalSpecification, Some(1), false, false),
        att(2, 2, FolderCategory::ContractDocuments, None, false, false),
        att(12, 1, FolderCategory::ContractDocuments, Some(2), false, false),
    ]
}

fn texts(m: &[Message]) -> Vec<String> {
    m.iter().map(|x| x.text.clone()).collect()
}

#[test]
fn check_empty_request_lists_every_missing_field() {
    let request = UpdatePriceInformationRequest {
        header: empty_header(),
        item_list: vec![],
        partner_list: vec![],
        attachment_list: vec![],
    };
    let messages = check_request_price_info(&request);
    assert!(matches!(messages.kind, MessageKind::Information));
    assert_eq!(
        texts(&messages.messages),
        vec![
            "Заполните поле \"Тип ЗЦИ\"",
            "Заполните поле \"Предмет ЗЦИ\"",
            "Заполните поле \"Контактное лицо\"",
            "Заполните поле \"Электронный адрес\"",
            "Заполните поле \"Телефон\"",
            "Заполните поле \"Местонахождение\"",
            "Прикрепите Техническое задание",
            "Прикрепите Договорные документы",
            "Заполните данные спецификации",
        ]
    );
    assert_eq!(messages.messages[0].fields, vec!["type_request_id".to_string()]);
    assert_eq!(messages.messages[5].fields, vec!["organizer_location".to_string()]);
    assert!(messages.messages[6].fields.is_empty());
    assert!(!messages.is_error());
}

#[test]
fn check_private_request_without_reason_is_an_error() {
    let request = UpdatePriceInformationRequest {
        header: filled_header(None),
        item_list: vec![RequestItemForm { uuid: None, number: None }],
        partner_list: vec![],
        attachment_list: documents(),
    };
    let messages = check_request_price_info(&request);
    assert!(matches!(messages.kind, MessageKind::Error));
    assert_eq!(
        texts(&messages.messages),
        vec!["Для закрытого ЗЦИ заполните поле \"Обоснование\"", "Заполните данные организаций"]
    );
    assert!(matches!(messages.messages[0].kind, MessageKind::Error));
    assert_eq!(messages.messages[0].fields, vec!["request_type_text".to_string()]);
    assert!(matches!(messages.messages[1].kind, MessageKind::Information));
}

#[test]
fn check_complete_request_has_no_messages() {
    let request = UpdatePriceInformationRequest {
        header: filled_header(Some(Some("request_type_text".to_string()))),
        item_list: vec![RequestItemForm { uuid: None, number: None }],
        partner_list: vec![RequestPartnerForm { uuid: None, supplier_id: None }],
        attachment_list: documents(),
    };
    let messages = check_request_price_info(&request);
    assert!(messages.messages.is_empty());
    assert!(matches!(messages.kind, MessageKind::Success));
}

#[test]
fn check_folders_without_live_files_need_documents() {
    let mut request = UpdatePriceInformationRequest {
        header: filled_header(Some(Some("request_type_text".to_string()))),
        item_list: vec![RequestItemForm { uuid: None, number: None }],
        partner_list: vec![RequestPartnerForm { uuid: None, supplier_id: None }],
        attachment_list: vec![
            att(1, 2, FolderCategory::TechnicalSpecification, None, false, false),
            att(2, 2, FolderCategory::ContractDocuments, None, false, false),
        ],
    };
    let expected = vec!["Прикрепите Техническое задание", "Прикрепите Договорные документы"];
    let messages = check_request_price_info(&request);
    assert_eq!(texts(&messages.messages), expected);
    assert!(matches!(messages.kind, MessageKind::Information));

    request.attachment_list = vec![
        att(1, 2, FolderCategory::TechnicalSpecification, None, false, false),
        att(11, 1, FolderCategory::TechnicalSpecification, Some(1), true, false),
        att(2, 2, FolderCategory::ContractDocuments, None, false, false),
        att(12, 1, FolderCategory::ContractDocuments, Some(2), false, true),
    ];
    let messages = check_request_price_info(&request);
    assert_eq!(texts(&messages.messages), expected);
}

fn file(uuid: &str, name: &str) -> FileFormData {
    FileFormData { uuid: uuid.to_string(), name: name.to_string() }
}

fn creation_request(plans: Vec<PlanUuids>, request_type: RequestType, suppliers: Option<Vec<SupplierFormData>>) -> CreatePriceInformationRequest {
    CreatePriceInformationRequest {
        plan_data: plans,
        period_of_validity: 0,
        request_type,
        suppliers,
        technical_specification: file("550e8400-e29b-41d4-a717-446655441000", "technical_specification.doc"),
        draft_treaty: file("550e8400-e29b-41d4-a717-446655441100", "draft_treaty.doc"),
        template_tkp: file("510e8400-e39b-41d4-a716-446655440002", "template_tkp.doc"),
        additional_documents: Some(vec![
            file("510e8400-e29b-41d4-a717-446655440002", "additional_document1.doc"),
            file("510e8500-e29b-41d4-a716-446655440002", "additional_document2.doc"),
        ]),
    }
}

#[test]
fn test_create_price_information_request_from_json() {
    let plan1 = PlanUuids {
        plan_uuid: "550e8400-e29b-41d4-a716-446655440000".to_string(),
        plan_item_uuids: vec![
            "550e8400-e29b-41d4-a716-446655440001".to_string(),
            "550e8400-e29b-41d4-a716-446655440002".to_string(),
        ],
    };
    let plan2 = PlanUuids {
        plan_uuid: "550e8400-e29b-41d4-a716-446655441000".to_string(),
        plan_item_uuids: vec![
            "550e8400-e29b-41d4-a716-146655440001".to_string(),
            "510e8400-e29b-41d4-a716-446655440002".to_string(),
        ],
    };
    let supplier1 = SupplierFormData { supplier_id: 1111, additional_email: Some("email1".to_string()) };
    let supplier2 = SupplierFormData { supplier_id: 2222, additional_email: Some("email2".to_string()) };
    let crate_json = creation_request(vec![plan1, plan2], RequestType::Public, Some(vec![supplier1, supplier2]));
    let requests = PriceInformationRequest::create_price_information_request_from_json(&crate_json, 0).ok().unwrap();
    assert_eq!(requests.len(), 2_usize);
    for request in requests {
        assert_eq!(request.items.len(), 2_usize);
        assert_eq!(request.suppliers.unwrap().len(), 2_usize);
    }
}

#[test]
fn created_records_point_at_their_header() {
    let plan = PlanUuids {
        plan_uuid: "550e8400-e29b-41d4-a716-446655440000".to_string(),
        plan_item_uuids: vec!["550e8400-e29b-41d4-a716-446655440001".to_string()],
    };
    let json = creation_request(vec![plan], RequestType::Private, Some(vec![SupplierFormData { supplier_id: 7, additional_email: None }]));
    let requests = PriceInformationRequest::create_price_information_request_from_json(&json, 123).ok().unwrap();
    let r = &requests[0];
    assert_eq!(r.header.plan_uuid, Some(0x550e8400_e29b_41d4_a716_446655440000u128));
    assert!(matches!(r.header.status_id, RequestStatus::Created));
    assert!(matches!(r.header.type_request_id, Some(RequestType::Private)));
    assert_eq!(r.header.created_at, 123);
    assert_eq!((r.header.uuid >> 76) & 0xf, 4);
    assert_eq!(r.items[0].request_uuid, r.header.uuid);
    assert_eq!(r.items[0].plan_item_uuid, 0x550e8400_e29b_41d4_a716_446655440001u128);
    assert_ne!(r.items[0].uuid, r.header.uuid);
    let s = r.suppliers.as_ref().unwrap();
    assert_eq!(s[0].request_uuid, r.header.uuid);
    assert_eq!(s[0].supplier_id, 7);
}

#[test]
fn creation_with_a_bad_uuid_fails() {
    let plan = PlanUuids {
        plan_uuid: "550e8400-e29b-41d4-a716-446655440000".to_string(),
        plan_item_uuids: vec!["not a uuid".to_string()],
    };
    let json = creation_request(vec![plan], RequestType::Public, None);
    match PriceInformationRequest::create_price_information_request_from_json(&json, 0) {
        Err(TcpError::InvalidUuid(t)) => assert_eq!(t, "not a uuid"),
        _ => panic!("expected an invalid uuid"),
    }
}

#[test]
fn validation_requires_documents_and_private_suppliers() {
    let mut json = creation_request(vec![], RequestType::Private, Some(vec![]));
    json.draft_treaty = file("", "x");
    let msgs = json.validate_json().unwrap();
    assert_eq!(
        texts(&msgs.messages),
        vec!["Заполните поле \"Проект договора\"", "Заполните поле \"Поставщики\""]
    );
    assert!(msgs.is_error());
    let ok = creation_request(vec![], RequestType::Public, None);
    assert!(ok.validate_json().is_none());
}
