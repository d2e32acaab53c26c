use chatroom::ChatMessage;

#[test]
fn new_keeps_both_fields() {
    let m = ChatMessage::new("alice", "hello");
    assert_eq!(m.get_username(), "alice");
    assert_eq!(m.get_content(), "hello");
}

#[test]
fn empty_fields_are_accepted() {
    let m = ChatMessage::new("", "");
    assert_eq!(m.get_username(), "");
    assert_eq!(m.get_content(), "");
    assert_eq!(m.render(), ": ");
}

#[test]
fn render_joins_with_colon() {
    let m = ChatMessage::new("alice", "hello");
    assert_eq!(m.render(), "alice: hello");
}

#[test]
fn encode_writes_two_key_object() {
    let m = ChatMessage::new("alice", "hello");
    assert_eq!(m.encode(), r#"{"username":"alice","content":"hello"}"#);
}

#[test]
fn encode_escapes_quotes_backslashes_and_controls() {
    let m = ChatMessage::new("a\"b", "x\\y\nz\t\u{1}\u{1f}\u{8}\u{c}\r");
    assert_eq!(
        m.encode(),
        r#"{"username":"a\"b","content":"x\\y\nz\t\u0001\u001f\b\f\r"}"#
    );
}

#[test]
fn encode_keeps_non_ascii() {
    let m = ChatMessage::new("zoë", "héllo ✓");
    assert_eq!(m.encode(), "{\"username\":\"zoë\",\"content\":\"héllo ✓\"}");
}

#[test]
fn decode_reads_encoded_text() {
    let d = ChatMessage::decode(r#"{"username":"Host","content":"bob has joined the chat!"}"#)
        .unwrap();
    assert_eq!(d.get_username(), "Host");
    assert_eq!(d.get_content(), "bob has joined the chat!");
}

#[test]
fn decode_reads_escapes() {
    let d = ChatMessage::decode(r#"{"username":"\u0041","content":"\u001F"}"#).unwrap();
    assert_eq!(d.get_username(), "A");
    assert_eq!(d.get_content(), "\u{1f}");
    let d = ChatMessage::decode(r#"{"username":"a\/b","content":"q\"\\\n\u001fA"}"#)
        .unwrap();
    assert_eq!(d.get_username(), "a/b");
    assert_eq!(d.get_content(), "q\"\\\n\u{1f}A");
}

#[test]
fn round_trip_keeps_fields_and_rendering() {
    let cases = [
        ("alice", "hello"),
        ("", ""),
        ("we\"ird\\", "line\nbreak\ttab\u{0}\u{7f}"),
        ("ünï", "{\"username\":\"x\"}"),
    ];
    for (u, c) in cases {
        let m = ChatMessage::new(u, c);
        let d = ChatMessage::decode(&m.encode()).unwrap();
        assert_eq!(d.get_username(), u);
        assert_eq!(d.get_content(), c);
        assert_eq!(d.render(), m.render());
    }
}

#[test]
fn decode_rejects_other_text() {
    assert!(ChatMessage::decode("").is_none());
    assert!(ChatMessage::decode("hello").is_none());
    assert!(ChatMessage::decode(r#"{"username":"a","content":"b"} "#).is_none());
    assert!(ChatMessage::decode(r#"{"content":"b","username":"a"}"#).is_none());
    assert!(ChatMessage::decode(r#"{"username":"a","content":"b"#).is_none());
    assert!(ChatMessage::decode("{\"username\":\"a\nb\",\"content\":\"c\"}").is_none());
    assert!(ChatMessage::decode(r#"{"username":"a\x","content":"b"}"#).is_none());
}
