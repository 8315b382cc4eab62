use tf2tts::log_watcher::{extract_chat_message, extract_messages, messages_from_bytes};

#[test]
fn dead_team_line_yields_its_message() {
    assert_eq!(extract_chat_message("Foo", "*DEAD*(TEAM) Foo : gg"), Some("gg".to_string()));
}

#[test]
fn each_prefix_is_recognized() {
    assert_eq!(extract_chat_message("Foo", "(TEAM) Foo : push"), Some("push".to_string()));
    assert_eq!(extract_chat_message("Foo", "*DEAD*(TEAM) Foo : medic"), Some("medic".to_string()));
    assert_eq!(extract_chat_message("Foo", "Foo : hello"), Some("hello".to_string()));
    assert_eq!(extract_chat_message("Foo", "*DEAD* Foo : gg wp"), Some("gg wp".to_string()));
}

#[test]
fn other_player_line_yields_nothing() {
    assert_eq!(extract_chat_message("Foo", "Bar : hi"), None);
    assert_eq!(extract_chat_message("Foo", "Foo connected"), None);
    assert_eq!(extract_chat_message("Foo", ""), None);
    assert_eq!(extract_chat_message("Foo", " Foo : hi"), None);
}

#[test]
fn remainder_is_trimmed_and_stripped_once() {
    assert_eq!(extract_chat_message("Foo", "Foo :   spaced out \t"), Some("spaced out".to_string()));
    assert_eq!(extract_chat_message("Foo", "Foo : Foo : twice"), Some("Foo : twice".to_string()));
    assert_eq!(extract_chat_message("Foo", "Foo :"), Some(String::new()));
    assert_eq!(extract_chat_message("Foo", "Foo :\u{3000}wide\u{A0}"), Some("wide".to_string()));
}

#[test]
fn names_with_spaces_and_unicode() {
    assert_eq!(extract_chat_message("Dr. Ünïcode", "(TEAM) Dr. Ünïcode : héllo"), Some("héllo".to_string()));
    assert_eq!(extract_chat_message("Dr. Ünïcode", "Dr. Unicode : hello"), None);
}

#[test]
fn chunk_yields_messages_in_order() {
    let chunk = "Foo : one\r\nBar : nope\nFoo : \n(TEAM) Foo : two\n*DEAD* Foo : three";
    assert_eq!(
        extract_messages("Foo", chunk),
        vec!["one".to_string(), "two".to_string(), "three".to_string()]
    );
}

#[test]
fn empty_chunk_yields_nothing() {
    assert!(extract_messages("Foo", "").is_empty());
    assert!(extract_messages("Foo", "\n\n\r\n").is_empty());
}

#[test]
fn invalid_bytes_are_replaced_before_extraction() {
    let bytes: Vec<u8> = vec![b'F', b'o', b'o', b' ', b':', b' ', b'h', b'i', 0xff, b'\n'];
    assert_eq!(messages_from_bytes("Foo", &bytes), vec!["hi\u{FFFD}".to_string()]);
}

#[test]
fn valid_bytes_decode_as_text() {
    let bytes = "Foo : héllo there\n".as_bytes();
    assert_eq!(messages_from_bytes("Foo", bytes), vec!["héllo there".to_string()]);
}
