use ai::{
    decode_event, decode_message, parse_response, Content, ImageSource, MessagesResponse, Model,
    Response, ResponseError, ServerStreamEvent, TimedWrapper, Usage,
};

fn value(js: &str) -> serde_json::Value {
    serde_json::from_str(js).unwrap()
}

#[test]
fn usage_merge_is_order_independent() {
    let a = Usage { input_tokens: 5, output_tokens: 2 };
    let b = Usage { input_tokens: 3, output_tokens: 1 };
    let mut ab = a;
    ab.extend(b);
    let mut ba = b;
    ba.extend(a);
    assert_eq!(ab, Usage { input_tokens: 8, output_tokens: 3 });
    assert_eq!(ba, ab);
    let c = Usage { input_tokens: 10, output_tokens: 20 };
    let mut left = ab;
    left.extend(c);
    let mut bc = b;
    bc.extend(c);
    let mut right = a;
    right.extend(bc);
    assert_eq!(left, right);
    assert!(a.can_extend(&b));
    assert!(!Usage { input_tokens: u64::MAX, output_tokens: 0 }.can_extend(&b));
}

#[test]
fn message_merge_follows_the_field_rules() {
    let mut m = MessagesResponse {
        id: "msg_1".into(),
        model: "m1".into(),
        role: "assistant".into(),
        stop_reason: Some("a".into()),
        content: vec![Content::Text { text: "x".into() }],
        ..Default::default()
    };
    m.extend(MessagesResponse {
        id: String::new(),
        model: "m2".into(),
        stop_sequence: Some("END".into()),
        content: vec![Content::Text { text: "y".into() }],
        usage: Some(Usage { input_tokens: 1, output_tokens: 2 }),
        ..Default::default()
    });
    assert_eq!(m.id, "msg_1");
    assert_eq!(m.model, "m2");
    assert_eq!(m.role, "assistant");
    assert_eq!(m.stop_reason.as_deref(), Some("a"));
    assert_eq!(m.stop_sequence.as_deref(), Some("END"));
    assert_eq!(
        m.content,
        vec![Content::Text { text: "x".into() }, Content::Text { text: "y".into() }]
    );
    assert_eq!(m.usage, Some(Usage { input_tokens: 1, output_tokens: 2 }));
    m.extend(MessagesResponse::default());
    assert_eq!(m.usage, Some(Usage { input_tokens: 1, output_tokens: 2 }));
}

#[test]
fn fragment_text_of_each_block_kind() {
    assert_eq!(Content::text("hi").fragment(), "hi");
    assert_eq!(Content::TextDelta { text: "yo".into() }.fragment(), "yo");
    let image = Content::Image {
        source: ImageSource {
            typ: "base64".into(),
            media_type: "image/png".into(),
            data: "AQIDBA==".into(),
        },
    };
    assert_eq!(image.fragment(), "[image/png (8 bytes)]");
    let wide = Content::Image {
        source: ImageSource { typ: "base64".into(), media_type: "m".into(), data: "\u{e9}".into() },
    };
    assert_eq!(wide.fragment(), "[m (2 bytes)]");
}

#[test]
fn image_content_from_file_bytes() {
    match Content::image_from_file_bytes("photo.png", &[1, 2, 3]) {
        Some(Content::Image { source }) => {
            assert_eq!(source.typ, "base64");
            assert_eq!(source.media_type, "image/png");
            assert_eq!(source.data, "AQID");
        }
        _ => panic!("expected an image"),
    }
    let jpeg = Content::image_from_file_bytes("images/collin.jpeg", b"hello").unwrap();
    assert_eq!(jpeg.fragment(), "[image/jpeg (8 bytes)]");
    assert!(Content::image_from_file_bytes("notes", &[1]).is_none());
}

#[test]
fn message_fields_default_and_reject_wrong_types() {
    let m = decode_message(&value(r#"{"stop_sequence":null,"extra":1}"#)).unwrap();
    assert!(m.content.is_empty());
    assert_eq!(m.id, "");
    assert_eq!(m.stop_sequence, None);
    assert_eq!(m.usage, None);
    assert!(decode_message(&value(r#"{"id":null}"#)).is_none());
    assert!(decode_message(&value(r#"{"usage":{"input_tokens":1}}"#)).is_none());
    assert!(decode_message(&value(r#"{"content":[{"type":"video"}]}"#)).is_none());
    assert!(decode_message(&value(r#"[]"#)).is_none());
}

#[test]
fn every_event_kind_decodes() {
    let cases = [
        r#"{"type":"message_start","message":{"content":[]}}"#,
        r#"{"type":"content_block_start","index":0,"content_block":{"type":"text","text":""}}"#,
        r#"{"type":"content_block_delta","index":0,"delta":{"type":"text_delta","text":"a"}}"#,
        r#"{"type":"content_block_stop","index":0}"#,
        r#"{"type":"message_delta","delta":{"stop_reason":"end_turn"}}"#,
        r#"{"type":"message_stop"}"#,
        r#"{"type":"ping"}"#,
    ];
    let decoded: Vec<ServerStreamEvent> =
        cases.iter().map(|c| decode_event(&value(c)).unwrap()).collect();
    assert!(matches!(decoded[0], ServerStreamEvent::MessageStart { .. }));
    assert!(matches!(decoded[1], ServerStreamEvent::StartBlock { index: 0, .. }));
    assert!(matches!(decoded[2], ServerStreamEvent::BlockDelta { index: 0, .. }));
    assert!(matches!(decoded[3], ServerStreamEvent::BlockStop { index: 0 }));
    assert!(matches!(decoded[4], ServerStreamEvent::MessageDelta { .. }));
    assert!(matches!(decoded[5], ServerStreamEvent::MessageStop));
    assert!(matches!(decoded[6], ServerStreamEvent::Ping));
    assert!(decode_event(&value(r#"{"type":"content_block_stop","index":-1}"#)).is_none());
    assert!(decode_event(&value(r#"{"type":"content_block_stop"}"#)).is_none());
    assert!(decode_event(&value(r#"{"index":0}"#)).is_none());
}

#[test]
fn response_kinds_and_failures() {
    match parse_response(r#"{"type":"error","error":{"type":"overloaded_error","message":"busy"}}"#) {
        Ok(Response::Error { error }) => {
            assert_eq!(error.typ, "overloaded_error");
            assert_eq!(error.message, "busy");
        }
        _ => panic!("expected an error response"),
    }
    match parse_response(r#"{"type":"message","id":"m","usage":{"input_tokens":19,"output_tokens":40}}"#) {
        Ok(Response::Messages(m)) => {
            assert_eq!(m.id, "m");
            assert_eq!(m.usage, Some(Usage { input_tokens: 19, output_tokens: 40 }));
        }
        _ => panic!("expected a message"),
    }
    assert_eq!(parse_response("{").unwrap_err(), ResponseError::InvalidJson);
    assert_eq!(parse_response(r#"{"type":"other"}"#).unwrap_err(), ResponseError::UnknownShape);
}

#[test]
fn model_names() {
    assert_eq!(Model::from("custom").as_str(), "custom");
}

#[test]
fn timed_wrapper_measures_from_first_poll() {
    let mut t = TimedWrapper::new(42);
    assert_eq!(t.start, None);
    assert_eq!(t.mark_poll(100), 100);
    assert_eq!(t.mark_poll(150), 100);
    assert_eq!(t.elapsed(175), 75);
    assert_eq!(t.elapsed(50), 0);
    assert_eq!(t.fut, 42);
}
