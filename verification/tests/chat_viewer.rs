use mofa_studio::chat::{
    extract_string, message_from_parts, BridgeError, BridgeState, ChatJsonFields, ChatViewerBridge,
    EventMetadata, MessageRole, PayloadData,
};

#[test]
fn test_parse_plain_text() {
    let meta = EventMetadata::default();
    let msg = ChatViewerBridge::parse_message("Hello world", "mofa-asr", &meta);
    assert_eq!(msg.content, "Hello world");
    assert_eq!(msg.sender, "mofa-asr");
    assert_eq!(msg.role, MessageRole::Assistant);
    assert!(!msg.is_streaming);
}

#[test]
fn test_parse_json_full() {
    let meta = EventMetadata::default();
    let json = r#"{"content":"Hi there","sender":"Bot","role":"assistant","is_streaming":false}"#;
    let msg = ChatViewerBridge::parse_message(json, "node", &meta);
    assert_eq!(msg.content, "Hi there");
    assert_eq!(msg.sender, "Bot");
    assert_eq!(msg.role, MessageRole::Assistant);
    assert!(!msg.is_streaming);
}

#[test]
fn test_parse_json_user_role() {
    let meta = EventMetadata::default();
    let json = r#"{"content":"What is Rust?","sender":"human","role":"user"}"#;
    let msg = ChatViewerBridge::parse_message(json, "node", &meta);
    assert_eq!(msg.role, MessageRole::User);
    assert_eq!(msg.sender, "human");
}

#[test]
fn test_parse_json_streaming() {
    let meta = EventMetadata::default();
    let json = r#"{"content":"chunk","sender":"LLM","role":"assistant","is_streaming":true,"session_id":"s42"}"#;
    let msg = ChatViewerBridge::parse_message(json, "node", &meta);
    assert!(msg.is_streaming);
    assert_eq!(msg.session_id, Some("s42".to_string()));
}

#[test]
fn test_parse_metadata_role_override() {
    let mut meta = EventMetadata::default();
    meta.values.insert("role".to_string(), "user".to_string());
    let msg = ChatViewerBridge::parse_message("plain text", "input_node", &meta);
    assert_eq!(msg.role, MessageRole::User);
}

#[test]
fn test_parse_system_role() {
    let meta = EventMetadata::default();
    let json = r#"{"content":"System notice","role":"system"}"#;
    let msg = ChatViewerBridge::parse_message(json, "node", &meta);
    assert_eq!(msg.role, MessageRole::System);
}

#[test]
fn json_without_content_keeps_whole_text_and_uses_metadata() {
    let mut meta = EventMetadata::default();
    meta.values.insert("participant_id".to_string(), "tutor".to_string());
    meta.values.insert("session_id".to_string(), "m1".to_string());
    let json = r#"{"content":5,"role":"bogus"}"#;
    let msg = ChatViewerBridge::parse_message(json, "node", &meta);
    assert_eq!(msg.content, json);
    assert_eq!(msg.sender, "tutor");
    assert_eq!(msg.role, MessageRole::Assistant);
    assert_eq!(msg.session_id, Some("m1".to_string()));
}

#[test]
fn plain_text_streaming_flag_from_metadata() {
    let mut meta = EventMetadata::default();
    meta.values.insert("is_streaming".to_string(), "true".to_string());
    meta.values.insert("role".to_string(), "system".to_string());
    let msg = ChatViewerBridge::parse_message("x", "src", &meta);
    assert!(msg.is_streaming);
    assert_eq!(msg.role, MessageRole::System);
    meta.values.insert("is_streaming".to_string(), "yes".to_string());
    let msg = ChatViewerBridge::parse_message("x", "src", &meta);
    assert!(!msg.is_streaming);
}

#[test]
fn message_from_parts_uses_given_timestamp() {
    let meta = EventMetadata::default();
    let fields = ChatJsonFields {
        content: None,
        sender: Some("S".to_string()),
        role: Some("user".to_string()),
        is_streaming: Some(true),
        session_id: None,
    };
    let m = message_from_parts("t", "src", &meta, Some(fields), 42);
    assert_eq!(m.timestamp, 42);
    assert_eq!(m.content, "t");
    assert_eq!(m.sender, "S");
    assert_eq!(m.role, MessageRole::User);
    assert!(m.is_streaming);
    assert_eq!(m.session_id, None);
}

#[test]
fn bridge_connection_states() {
    let mut b = ChatViewerBridge::new("mofa-chat-viewer");
    assert_eq!(b.node_id(), "mofa-chat-viewer");
    assert_eq!(b.state(), BridgeState::Disconnected);
    assert!(b.connect().is_ok());
    assert_eq!(b.state(), BridgeState::Connecting);
    b.on_node_init(true);
    assert!(b.is_connected());
    assert_eq!(b.connect(), Err(BridgeError::AlreadyConnected));
    assert!(b.disconnect().is_ok());
    assert_eq!(b.state(), BridgeState::Disconnected);
    b.on_node_init(false);
    assert_eq!(b.state(), BridgeState::Error);
    assert_eq!(
        b.expected_inputs(),
        vec!["chat", "text", "asr_output", "llm_output", "transcript"]
    );
    assert!(b.expected_outputs().is_empty());
    assert!(b.send("x").is_ok());
}

#[test]
fn event_text_extraction() {
    assert_eq!(extract_string(&PayloadData::Utf8(vec!["hi".to_string(), "x".to_string()])), Some("hi".to_string()));
    assert_eq!(extract_string(&PayloadData::LargeUtf8(vec![])), None);
    assert_eq!(extract_string(&PayloadData::UInt8("caf\u{e9}".as_bytes().to_vec())), Some("caf\u{e9}".to_string()));
    assert_eq!(extract_string(&PayloadData::UInt8(vec![0xff, 0x41])), None);
    assert_eq!(extract_string(&PayloadData::Other), None);
}

#[test]
fn event_parameters_later_pair_wins() {
    let meta = EventMetadata::from_pairs(&vec![
        ("role".to_string(), "user".to_string()),
        ("participant_id".to_string(), "alice".to_string()),
        ("role".to_string(), "system".to_string()),
    ]);
    assert_eq!(meta.get("role"), Some("system"));
    assert_eq!(meta.participant_id(), Some("alice"));
    assert_eq!(meta.get("session_id"), None);
}

#[test]
fn input_events_become_messages() {
    let meta = EventMetadata::from_pairs(&vec![("participant_id".to_string(), "bob".to_string())]);
    let msg = ChatViewerBridge::handle_input("asr_output", &meta, &PayloadData::Utf8(vec!["hello".to_string()]))
        .unwrap();
    assert_eq!(msg.content, "hello");
    assert_eq!(msg.sender, "bob");
    let none = ChatViewerBridge::handle_input("asr_output", &meta, &PayloadData::Other);
    assert!(none.is_none());
    let bytes = ChatViewerBridge::handle_input("text", &EventMetadata::default(), &PayloadData::UInt8(b"plain".to_vec()))
        .unwrap();
    assert_eq!(bytes.sender, "text");
    assert_eq!(bytes.role, MessageRole::Assistant);
}
