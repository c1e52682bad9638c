use ai::{decode_content, parse_response, Content, MessagesResponse, Response, Usage};

fn content_from(js: &str) -> Content {
    let v: serde_json::Value = serde_json::from_str(js).unwrap();
    decode_content(&v).unwrap()
}

#[test]
fn anthropic_serde_content() {
    let js = r#"{"type":"text", "text":"foobar"}"#;
    let c = content_from(js);
    assert_eq!(c, Content::Text { text: String::from("foobar") });
}

#[test]
fn client_serde_content() {
    let js = r#"{"type":"text", "text":"foobar"}"#;
    let c = content_from(js);
    assert_eq!(c, Content::Text { text: String::from("foobar") });
}

#[test]
fn mod_serde_content() {
    let js = r#"{"type":"text", "text":"foobar"}"#;
    let c = content_from(js);
    assert_eq!(c, Content::Text { text: String::from("foobar") });
}

#[test]
fn anthropic_serde_error_resp() {
    let json = r#"{"type":"error","error":{"type":"invalid_request_error","message":"messages.0.content.0.image.source.media_type: Input should be 'image/jpeg', 'image/png', 'image/gif' or 'image/webp'"}}"#;
    let _c: Response = parse_response(json).unwrap();
}

#[test]
fn client_serde_error_resp() {
    let json = r#"
        {
          "type": "error",
          "error": {
            "type": "invalid_request_error",
            "message": "messages.0.content.0.image.source.media_type: Input should be 'image/jpeg', 'image/png', 'image/gif' or 'image/webp'"
          }
        }
        "#;
    parse_response(json).unwrap();
}

#[test]
fn mod_serde_error_resp() {
    let json = r#"{"type":"error","error":{"type":"invalid_request_error","message":"messages.0.content.0.image.source.media_type: Input should be 'image/jpeg', 'image/png', 'image/gif' or 'image/webp'"}}"#;
    let _c: Response = parse_response(json).unwrap();
}

const MESSAGE_RESPONSE: &str = r#"
            {
              "content": [
                {
                  "text": "Use reqwest with serde for JSON serialization",
                  "type": "text"
                }
              ],
              "id": "msg_01BhheLXdCtJUbMsZ3enae5i",
              "model": "sonnet-20241022",
              "role": "assistant",
              "stop_reason": "end_turn",
              "stop_sequence": null,
              "type": "message",
              "usage": {
                "input_tokens": 19,
                "output_tokens": 40
              }
            }
        "#;

#[test]
fn anthropic_serde_err_resp2() {
    let _c: Response = parse_response(MESSAGE_RESPONSE).unwrap();
}

#[test]
fn client_serde_err_resp2() {
    let _c: Response = parse_response(MESSAGE_RESPONSE).unwrap();
}

#[test]
fn mod_serde_err_resp2() {
    let _c: Response = parse_response(MESSAGE_RESPONSE).unwrap();
}

#[test]
fn client_response_merge() {
    let mut r1 = MessagesResponse { usage: None, ..Default::default() };
    let r2 = MessagesResponse {
        usage: Some(Usage { input_tokens: 42, output_tokens: 420 }),
        ..Default::default()
    };
    r1.extend(r2);
    assert_eq!(r1.usage, Some(Usage { input_tokens: 42, output_tokens: 420 }));
    r1.extend(MessagesResponse {
        usage: Some(Usage { input_tokens: 42, output_tokens: 420 }),
        ..Default::default()
    });
    assert_eq!(r1.usage, Some(Usage { input_tokens: 42 * 2, output_tokens: 420 * 2 }));
}

#[test]
fn mod_response_merge() {
    let mut r1 = MessagesResponse { usage: None, ..Default::default() };
    let r2 = MessagesResponse {
        usage: Some(Usage { input_tokens: 42, output_tokens: 420 }),
        ..Default::default()
    };
    r1.extend(r2);
    assert_eq!(r1.usage, Some(Usage { input_tokens: 42, output_tokens: 420 }));
    r1.extend(MessagesResponse {
        usage: Some(Usage { input_tokens: 42, output_tokens: 420 }),
        ..Default::default()
    });
    assert_eq!(r1.usage, Some(Usage { input_tokens: 42 * 2, output_tokens: 420 * 2 }));
}
