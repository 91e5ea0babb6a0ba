use technical_commercial_proposal::create_request::Utils;
use technical_commercial_proposal::messages::{Message, MessageKind, Messages, ParamItem};
use technical_commercial_proposal::model::TcpError;
use technical_commercial_proposal::publication::{map_pos_vid, parse_full_name};

#[test]
fn convert_vec_i64_to_string_joins_with_comma() {
    assert_eq!(Utils::convert_vec_i64_to_string(&vec![1, 22, -3]), "1, 22, -3");
    assert_eq!(Utils::convert_vec_i64_to_string(&vec![]), "");
    assert_eq!(Utils::convert_vec_i64_to_string(&vec![2000000000]), "2000000000");
}

#[test]
fn parse_full_name_by_word_count() {
    assert_eq!(
        parse_full_name("Иван Иванович Иванов"),
        ("Иван".to_string(), "Иванович".to_string(), "Иванов".to_string())
    );
    assert_eq!(parse_full_name("  Иван   Иванов "), ("Иван".to_string(), String::new(), "Иванов".to_string()));
    assert_eq!(parse_full_name("Иван"), ("Иван".to_string(), String::new(), String::new()));
    assert_eq!(parse_full_name(""), (String::new(), String::new(), String::new()));
    assert_eq!(parse_full_name("a b c d"), (String::new(), String::new(), String::new()));
}

#[test]
fn map_pos_vid_known_and_unknown() {
    assert_eq!(map_pos_vid(1).ok(), Some("0".to_string()));
    assert_eq!(map_pos_vid(2).ok(), Some("2".to_string()));
    assert_eq!(map_pos_vid(3).ok(), Some("1".to_string()));
    match map_pos_vid(7) {
        Err(TcpError::InternalError(t)) => assert_eq!(t, "Неизвестный product_type_id: 7"),
        _ => panic!("expected an error"),
    }
}

#[test]
fn messages_kind_is_most_severe() {
    let mut m = Messages::new();
    assert!(matches!(m.kind, MessageKind::Success));
    assert!(m.is_empty());
    m.add(Message::info("a".to_string()));
    assert!(matches!(m.kind, MessageKind::Information));
    m.add(Message::error("b".to_string()));
    assert!(matches!(m.kind, MessageKind::Error));
    m.add(Message::warn("c".to_string()));
    assert!(matches!(m.kind, MessageKind::Error));
    assert!(m.is_error());
    assert_eq!(m.messages.len(), 3);
}

#[test]
fn add_all_appends_in_order() {
    let mut a = Messages::new();
    a.add(Message::success("x".to_string()));
    let mut b = Messages::new();
    b.add(Message::warn("y".to_string()));
    b.add(Message::info("z".to_string()));
    a.add_all(b);
    let texts: Vec<String> = a.messages.iter().map(|m| m.text.clone()).collect();
    assert_eq!(texts, vec!["x".to_string(), "y".to_string(), "z".to_string()]);
    assert!(matches!(a.kind, MessageKind::Warning));
    assert!(!a.is_error());
}

#[test]
fn param_item_from_id_names_the_number() {
    let p = ParamItem::from_id(42);
    assert_eq!(p.id, "42");
    assert_eq!(p.uuid, None);
    let m = Message::success("t".to_string()).with_param_item(ParamItem::from_id(-5));
    assert_eq!(m.item_list.len(), 1);
    assert_eq!(m.item_list[0].id, "-5");
}
