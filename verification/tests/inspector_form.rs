use rust_2d_game_engine::ecs::attribute::{AttributeType, AttributeValue};
use rust_2d_game_engine::ecs::Entity;
use rust_2d_game_engine::inspector::{
    duration_text, file_kind, parse_attribute_value, parse_i32, vector_parts, EditEvent, FileKind, Inspector,
};

#[test]
fn identifiers_are_alphanumeric_or_underscore() {
    let i = Inspector::new();
    assert!(i.is_valid_identifier("hp"));
    assert!(i.is_valid_identifier("max_speed_2"));
    assert!(i.is_valid_identifier("größe"));
    assert!(!i.is_valid_identifier(""));
    assert!(!i.is_valid_identifier("has space"));
    assert!(!i.is_valid_identifier("dash-name"));
    for b in 0u8..128 {
        let c = b as char;
        let s = c.to_string();
        assert_eq!(i.is_valid_identifier(&s), c.is_ascii_alphanumeric() || c == '_', "char {:?}", c);
    }
}

#[test]
fn create_adds_a_prefixed_attribute_and_closes() {
    let mut e = Entity::new(1, "player").unwrap();
    let mut i = Inspector::new();
    i.show_metadata_popup = true;
    i.metadata_new_name = "score".to_string();
    i.choose_metadata_type(AttributeType::Integer);
    assert_eq!(i.metadata_new_value, AttributeValue::Integer(0));
    assert!(i.create_metadata_attribute(&mut e));
    let a = e.get_attribute_by_name("metadata_score").unwrap();
    assert_eq!(a.data_type, AttributeType::Integer);
    assert_eq!(a.value, AttributeValue::Integer(0));
    assert!(i.data_updated);
    assert!(!i.show_metadata_popup);
    assert_eq!(i.metadata_new_name, "");
    assert_eq!(i.metadata_new_type, AttributeType::String);
    assert_eq!(i.metadata_new_value, AttributeValue::String(String::new()));
}

#[test]
fn invalid_name_is_refused() {
    let mut e = Entity::new(1, "player").unwrap();
    let mut i = Inspector::new();
    i.show_metadata_popup = true;
    i.metadata_new_name = "bad name".to_string();
    assert!(!i.create_metadata_attribute(&mut e));
    assert_eq!(i.metadata_error_message, "Invalid identifier name. Use alphanumeric or underscores.");
    assert!(i.show_metadata_popup);
    assert_eq!(e.list_attribute().len(), 3);
}

#[test]
fn taken_name_is_refused() {
    let mut e = Entity::new(1, "player").unwrap();
    let mut i = Inspector::new();
    i.metadata_new_name = "tag".to_string();
    i.choose_metadata_type(AttributeType::Boolean);
    assert!(i.create_metadata_attribute(&mut e));
    i.metadata_new_name = "tag".to_string();
    i.show_metadata_popup = true;
    assert!(!i.create_metadata_attribute(&mut e));
    assert_eq!(i.metadata_error_message, "Attribute 'metadata_tag' already exists");
    assert!(i.show_metadata_popup);
}

#[test]
fn cancel_clears_the_dialog() {
    let mut i = Inspector::new();
    i.show_metadata_popup = true;
    i.metadata_new_name = "x".to_string();
    i.choose_metadata_type(AttributeType::Float);
    assert_eq!(i.metadata_new_value, AttributeValue::Float(0.0f32.to_bits()));
    i.metadata_error_message = "oops".to_string();
    i.cancel_metadata_popup();
    assert!(!i.show_metadata_popup);
    assert_eq!(i.metadata_new_name, "");
    assert_eq!(i.metadata_new_type, AttributeType::String);
    assert_eq!(i.metadata_error_message, "");
    assert!(!i.data_updated);
}

#[test]
fn files_are_presented_by_extension() {
    assert_eq!(file_kind("/p/assets/images/hero.PNG"), FileKind::Image);
    assert_eq!(file_kind("a/b.jpeg"), FileKind::Image);
    assert_eq!(file_kind("music.Ogg"), FileKind::Audio);
    assert_eq!(file_kind("/p/assets/scripts/player.lua"), FileKind::Script);
    assert_eq!(file_kind("src/main.rs"), FileKind::Script);
    assert_eq!(file_kind("fonts/mono.ttf"), FileKind::Font);
    assert_eq!(file_kind("notes.txt"), FileKind::Unsupported);
    assert_eq!(file_kind(".png"), FileKind::Unsupported);
    assert_eq!(file_kind("archive.tar.gif"), FileKind::Image);
    assert_eq!(file_kind("/p/.."), FileKind::Unsupported);
    assert_eq!(file_kind("README"), FileKind::Unsupported);
}

#[test]
fn duration_starts_at_the_largest_unit() {
    assert_eq!(duration_text(0), "Duration: 0s");
    assert_eq!(duration_text(59), "Duration: 59s");
    assert_eq!(duration_text(61), "Duration: 1m 1s");
    assert_eq!(duration_text(3600), "Duration: 1h 0m 0s");
    assert_eq!(duration_text(3 * 86400 + 2 * 3600 + 5), "Duration: 3d 2h 0m 5s");
    // as the window computes it from a float length
    let seconds = 187.6f32.round() as u64;
    assert_eq!(duration_text(seconds), "Duration: 3m 8s");
}

#[test]
fn integers_read_as_str_parse_does() {
    let samples = [
        "0", "42", "-17", "+5", "007", "", "-", "+", "2147483647", "2147483648", "-2147483648", "-2147483649",
        "99999999999999999999", "1 ", " 1", "1a", "--1", "+-1", "١٢",
    ];
    for s in samples {
        assert_eq!(parse_i32(s), s.parse::<i32>().ok(), "input {:?}", s);
    }
}

#[test]
fn vector_text_needs_exactly_two_parts() {
    assert_eq!(vector_parts(" 1.5 , -2 "), Some(("1.5".to_string(), "-2".to_string())));
    assert_eq!(vector_parts("1,2,3"), None);
    assert_eq!(vector_parts("12"), None);
    assert_eq!(vector_parts(","), Some((String::new(), String::new())));
}

#[test]
fn edited_text_reads_as_the_attribute_type() {
    let int = AttributeValue::Integer(3);
    assert_eq!(parse_attribute_value("-12", &int, None, None), Some(AttributeValue::Integer(-12)));
    assert_eq!(parse_attribute_value("1.5", &int, Some(1.5f32.to_bits()), None), None);
    let b = AttributeValue::Boolean(false);
    assert_eq!(parse_attribute_value("true", &b, None, None), Some(AttributeValue::Boolean(true)));
    assert_eq!(parse_attribute_value("True", &b, None, None), None);
    let s = AttributeValue::String("a".to_string());
    assert_eq!(parse_attribute_value(" x ", &s, None, None), Some(AttributeValue::String(" x ".to_string())));
    let f = AttributeValue::Float(0);
    assert_eq!(parse_attribute_value("2.5", &f, Some(2.5f32.to_bits()), None), Some(AttributeValue::Float(2.5f32.to_bits())));
    assert_eq!(parse_attribute_value("abc", &f, None, None), None);
    let v = AttributeValue::Vector2(0, 0);
    let pair = Some((1.0f32.to_bits(), 2.0f32.to_bits()));
    assert_eq!(parse_attribute_value("1, 2", &v, None, pair), Some(AttributeValue::Vector2(1.0f32.to_bits(), 2.0f32.to_bits())));
    assert_eq!(parse_attribute_value("1, 2, 3", &v, None, pair), None);
    assert_eq!(parse_attribute_value("1, x", &v, None, None), None);
}

#[test]
fn editing_an_attribute_value() {
    let mut e = Entity::new(1, "player").unwrap();
    let hp = e.create_attribute("hp", AttributeType::Integer, AttributeValue::Integer(3)).unwrap();
    let mut i = Inspector::new();
    assert_eq!(i.edit_text(hp, "3".to_string()), "3");
    assert_eq!(i.edit_attribute(&mut e, hp, EditEvent::Typed("12".to_string())), Ok(()));
    assert_eq!(i.edit_text(hp, "3".to_string()), "12");
    assert_eq!(i.edit_attribute(&mut e, hp, EditEvent::FocusLost(None, None)), Ok(()));
    assert_eq!(e.get_attribute(hp).unwrap().value, AttributeValue::Integer(12));
    assert!(i.data_updated);
    assert!(i.editing_states.is_empty());
    // an unreadable text is dropped and the value kept
    i.data_updated = false;
    i.edit_attribute(&mut e, hp, EditEvent::Typed("twelve".to_string())).unwrap();
    assert_eq!(i.edit_attribute(&mut e, hp, EditEvent::FocusLost(None, None)), Ok(()));
    assert_eq!(e.get_attribute(hp).unwrap().value, AttributeValue::Integer(12));
    assert!(!i.data_updated);
    assert!(i.editing_states.is_empty());
}

#[test]
fn toggling_and_deleting_attributes() {
    let mut e = Entity::new(1, "player").unwrap();
    let alive = e.create_attribute("alive", AttributeType::Boolean, AttributeValue::Boolean(false)).unwrap();
    let mut i = Inspector::new();
    assert_eq!(i.edit_attribute(&mut e, alive, EditEvent::Toggle(true)), Ok(()));
    assert_eq!(e.get_attribute(alive).unwrap().value, AttributeValue::Boolean(true));
    assert_eq!(i.editing_states, vec![(alive, "true".to_string())]);
    // without delete mode, delete does nothing
    assert_eq!(i.edit_attribute(&mut e, alive, EditEvent::Delete), Ok(()));
    assert!(e.get_attribute(alive).is_ok());
    i.toggle_delete_mode();
    assert_eq!(i.edit_attribute(&mut e, alive, EditEvent::Delete), Ok(()));
    assert!(e.get_attribute(alive).is_err());
    assert!(i.editing_states.is_empty());
    let x = e.get_attribute_by_name("x").unwrap().id;
    assert_eq!(
        i.edit_attribute(&mut e, x, EditEvent::Delete),
        Err("Cannot delete core position attributes".to_string())
    );
    assert!(e.get_attribute(x).is_ok());
    // focus lost on an attribute that is gone
    i.edit_attribute(&mut e, alive, EditEvent::Typed("x".to_string())).unwrap();
    assert_eq!(i.edit_attribute(&mut e, alive, EditEvent::FocusLost(None, None)), Err("Attribute not found".to_string()));
}
