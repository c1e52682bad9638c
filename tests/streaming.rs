use ai::{
    deliver_all, Accumulator, Action, Content, FrameDecoder, FrameError, Input, MessagesResponse, Phase,
    ProtocolError, ServerStreamEvent, StreamError, StreamSession, TextStreamEvent, TransportError,
    Usage,
};

const EXAMPLE_PARTS: [&str; 22] = [
    "event: message_start\n",
    "data: {\"type\":\"message_start\",\"message\":{\"content\":[],\"id\":\"msg_1\",\"model\":\"m\",\"role\":\"assistant\"}}\n",
    "\n",
    "event: content_block_start\n",
    "data: {\"type\":\"content_block_start\",\"index\":0,\"content_block\":{\"type\":\"text\",\"text\":\"Hel\"}}\n",
    "\n",
    ": a comment line\n",
    "event: content_block_delta\n",
    "data: {\"type\":\"content_block_delta\",\"index\":0,\"delta\":{\"type\":\"text_delta\",\"text\":\"lo\"}}\n",
    "\n",
    "event: ping\n",
    "data: {\"type\":\"ping\"}\n",
    "\n",
    "event: content_block_stop\n",
    "data: {\"type\":\"content_block_stop\",\"index\":0}\n",
    "\n",
    "event: message_delta\n",
    "data: {\"type\":\"message_delta\",\"delta\":{\"stop_reason\":\"end_turn\",\"usage\":{\"input_tokens\":5,\"output_tokens\":2}}}\n",
    "\n",
    "event: message_stop\n",
    "data: {\"type\":\"message_stop\"}\n",
    "\n",
];

fn example() -> String {
    EXAMPLE_PARTS.concat()
}

fn content_text(m: &MessagesResponse) -> String {
    let mut s = String::new();
    for c in &m.content {
        s.push_str(&c.fragment());
    }
    s
}

fn summary(item: &Result<TextStreamEvent, StreamError>) -> String {
    match item {
        Ok(TextStreamEvent::Fragment(t)) => format!("fragment {t}"),
        Ok(TextStreamEvent::EOF(m)) => format!(
            "final {} {:?} {:?} {:?}",
            content_text(m),
            m.id,
            m.stop_reason,
            m.usage
        ),
        Err(e) => format!("error {}", e.describe()),
    }
}

/// Drives a session over the chunks as a driver would, delivering every item.
fn drive(chunks: &[&[u8]]) -> (Vec<Result<TextStreamEvent, StreamError>>, Phase) {
    let mut session = StreamSession::new();
    let mut rest = chunks.iter();
    let mut out = Vec::new();
    let mut input = Input::Resume;
    loop {
        match session.step(input) {
            Action::Read => {
                input = match rest.next() {
                    Some(c) => Input::Bytes(c.to_vec()),
                    None => Input::TransportEnded,
                }
            }
            Action::Deliver(item) => {
                out.push(item);
                input = Input::Resume;
            }
            Action::Stop => break,
        }
    }
    (out, session.phase())
}

fn drive_one(bytes: &[u8]) -> (Vec<Result<TextStreamEvent, StreamError>>, Phase) {
    drive(&[bytes])
}

fn summaries(items: &[Result<TextStreamEvent, StreamError>]) -> Vec<String> {
    items.iter().map(summary).collect()
}

#[test]
fn example_stream_yields_fragments_then_final_message() {
    let (items, phase) = drive(&[example().as_bytes()]);
    assert_eq!(
        summaries(&items),
        vec![
            "fragment Hel".to_string(),
            "fragment lo".to_string(),
            "final Hello \"msg_1\" Some(\"end_turn\") Some(Usage { input_tokens: 5, output_tokens: 2 })"
                .to_string(),
        ]
    );
    assert_eq!(phase, Phase::ClosedNormal);
    match &items[2] {
        Ok(TextStreamEvent::EOF(m)) => {
            assert_eq!(m.usage, Some(Usage { input_tokens: 5, output_tokens: 2 }));
            assert_eq!(m.content, vec![Content::Text { text: "Hello".to_string() }]);
        }
        _ => panic!("expected the final message"),
    }
}

#[test]
fn chunk_boundaries_do_not_change_the_items() {
    let text = example();
    let bytes = text.as_bytes();
    let (whole, _) = drive(&[bytes]);
    let expected = summaries(&whole);
    for cut in 0..=bytes.len() {
        let (items, _) = drive(&[&bytes[..cut], &bytes[cut..]]);
        assert_eq!(summaries(&items), expected, "cut at {cut}");
    }
    let singles: Vec<&[u8]> = bytes.chunks(1).collect();
    let (items, _) = drive(&singles);
    assert_eq!(summaries(&items), expected);
    let sevens: Vec<&[u8]> = bytes.chunks(7).collect();
    let (items, _) = drive(&sevens);
    assert_eq!(summaries(&items), expected);
}

#[test]
fn deliver_all_ignores_chunk_boundaries() {
    let text = example();
    let bytes = text.as_bytes();
    let whole = summaries(&deliver_all(&vec![bytes.to_vec()]));
    assert_eq!(whole.len(), 3);
    assert_eq!(whole, summaries(&drive(&[bytes]).0));
    for size in [1, 2, 3, 5, 64] {
        let chunks: Vec<Vec<u8>> = bytes.chunks(size).map(|c| c.to_vec()).collect();
        assert_eq!(summaries(&deliver_all(&chunks)), whole, "chunks of {size}");
    }
    let cut: Vec<Vec<u8>> = vec![bytes[..10].to_vec(), Vec::new(), bytes[10..].to_vec()];
    assert_eq!(summaries(&deliver_all(&cut)), whole);
    let early = summaries(&deliver_all(&vec![bytes[..40].to_vec()]));
    assert_eq!(early, vec!["error transport closed before the message was complete".to_string()]);
}

#[test]
fn crlf_line_endings_decode_the_same() {
    let crlf = example().replace('\n', "\r\n");
    let (a, _) = drive(&[example().as_bytes()]);
    let (b, _) = drive(&[crlf.as_bytes()]);
    assert_eq!(summaries(&a), summaries(&b));
}

#[test]
fn lone_cr_line_endings_decode_the_same() {
    let cr = example().replace('\n', "\r");
    let (a, _) = drive(&[example().as_bytes()]);
    let (b, _) = drive(&[cr.as_bytes()]);
    assert_eq!(summaries(&a), summaries(&b));
    let crlf = example().replace('\n', "\r\n");
    let bytes = crlf.as_bytes();
    for cut in 0..=bytes.len() {
        let (c, _) = drive(&[&bytes[..cut], &bytes[cut..]]);
        assert_eq!(summaries(&c), summaries(&a), "cut at {cut}");
    }
}

#[test]
fn start_with_content_fails_without_fragments() {
    let text = [
        "data: {\"type\":\"message_start\",\"message\":{\"content\":[{\"type\":\"text\",\"text\":\"x\"}]}}\n\n",
        "data: {\"type\":\"content_block_start\",\"index\":0,\"content_block\":{\"type\":\"text\",\"text\":\"Hel\"}}\n\n",
    ]
    .concat();
    let (items, phase) = drive(&[text.as_bytes()]);
    assert_eq!(items.len(), 1);
    assert!(matches!(items[0], Err(StreamError::Protocol(ProtocolError::StartNotEmpty))));
    assert_eq!(phase, Phase::ClosedError);
}

#[test]
fn block_index_other_than_zero_fails() {
    for event in ["content_block_start", "content_block_delta"] {
        let key = if event == "content_block_start" { "content_block" } else { "delta" };
        let text = format!(
            "data: {{\"type\":\"{event}\",\"index\":1,\"{key}\":{{\"type\":\"text\",\"text\":\"x\"}}}}\n\n"
        );
        let (items, _) = drive(&[text.as_bytes()]);
        assert_eq!(items.len(), 1);
        assert!(matches!(items[0], Err(StreamError::Protocol(ProtocolError::BlockIndex(1)))));
    }
    let (items, _) = drive_one(b"data: {\"type\":\"content_block_stop\",\"index\":3}\n\n");
    assert!(matches!(items[0], Err(StreamError::Protocol(ProtocolError::BlockIndex(3)))));
    assert_eq!(
        items[0].as_ref().err().unwrap().describe(),
        "event for block 3, only block 0 is supported"
    );
}

#[test]
fn consumer_closing_stops_the_session_quietly() {
    let mut session = StreamSession::new();
    assert!(matches!(session.step(Input::Resume), Action::Read));
    let action = session.step(Input::Bytes(example().into_bytes()));
    assert!(matches!(action, Action::Deliver(Ok(TextStreamEvent::Fragment(_)))));
    assert!(matches!(session.step(Input::ConsumerClosed), Action::Stop));
    assert_eq!(session.phase(), Phase::ClosedCancelled);
    assert!(matches!(session.step(Input::Resume), Action::Stop));
    assert!(matches!(session.step(Input::Bytes(b"data: x\n\n".to_vec())), Action::Stop));
    assert!(matches!(session.step(Input::TransportEnded), Action::Stop));
}

#[test]
fn payload_that_is_not_an_event_keeps_the_raw_text() {
    let (items, _) = drive_one(b"data: not json\n\n");
    match &items[0] {
        Err(StreamError::Decode { payload }) => assert_eq!(payload, "not json"),
        other => panic!("unexpected {}", summary(other)),
    }
    let (items, _) = drive_one(b"data: {\"type\":\"mystery\"}\n\n");
    match &items[0] {
        Err(StreamError::Decode { payload }) => assert_eq!(payload, "{\"type\":\"mystery\"}"),
        other => panic!("unexpected {}", summary(other)),
    }
    assert_eq!(
        items[0].as_ref().err().unwrap().describe(),
        "unrecognised event payload: {\"type\":\"mystery\"}"
    );
}

#[test]
fn invalid_utf8_is_a_frame_error() {
    let (items, phase) = drive_one(b"data: \xff\xfe\n\n");
    assert_eq!(items.len(), 1);
    assert!(matches!(items[0], Err(StreamError::Frame(FrameError::InvalidUtf8))));
    assert_eq!(phase, Phase::ClosedError);
}

#[test]
fn transport_failure_and_early_end_are_terminal_errors() {
    let mut session = StreamSession::new();
    assert!(matches!(session.step(Input::Resume), Action::Read));
    match session.step(Input::TransportFailed("connection reset".to_string())) {
        Action::Deliver(Err(StreamError::Transport(TransportError::Read(m)))) => {
            assert_eq!(m, "connection reset")
        }
        _ => panic!("expected a transport error"),
    }
    assert!(matches!(session.step(Input::Resume), Action::Stop));

    let (items, phase) = drive_one(b"data: {\"type\":\"ping\"}\n\n");
    assert_eq!(items.len(), 1);
    assert!(matches!(items[0], Err(StreamError::Transport(TransportError::ClosedEarly))));
    assert_eq!(phase, Phase::ClosedError);
}

#[test]
fn nothing_is_delivered_after_the_final_message() {
    let doubled = example().repeat(2);
    let (items, phase) = drive(&[doubled.as_bytes()]);
    assert_eq!(items.len(), 3);
    assert_eq!(phase, Phase::ClosedNormal);
}

#[test]
fn usage_overflow_is_a_protocol_error() {
    let text = [
        "data: {\"type\":\"message_delta\",\"delta\":{\"usage\":{\"input_tokens\":18446744073709551615,\"output_tokens\":0}}}\n\n",
        "data: {\"type\":\"message_delta\",\"delta\":{\"usage\":{\"input_tokens\":1,\"output_tokens\":0}}}\n\n",
    ]
    .concat();
    let (items, _) = drive(&[text.as_bytes()]);
    assert!(matches!(items[0], Err(StreamError::Protocol(ProtocolError::UsageOverflow))));
}

#[test]
fn decoder_reads_fields_comments_and_multiline_data() {
    let mut d = FrameDecoder::new();
    d.push(b": comment\nevent: greet\nid: 7\nretry: 10\ndata: one\ndata:two\nfield-without-colon\n\n\n\nevent: lonely\n\ndata\n\ndata: tail");
    let f = d.next_frame().unwrap().unwrap();
    assert_eq!(f.event.as_deref(), Some("greet"));
    assert_eq!(f.id.as_deref(), Some("7"));
    assert_eq!(f.data, "one\ntwo");
    let mut e = FrameDecoder::new();
    e.push(b"data: a\r");
    e.push(b"\ndata: b\r\r");
    let only = e.next_frame().unwrap().unwrap();
    assert_eq!(only.data, "a\nb");
    assert!(e.next_frame().is_none());
    let g = d.next_frame().unwrap().unwrap();
    assert_eq!(g.event, None);
    assert_eq!(g.data, "");
    assert!(d.next_frame().is_none());
    d.push(b"\n\n");
    assert_eq!(d.next_frame().unwrap().unwrap().data, "tail");
    assert!(d.next_frame().is_none());
}

#[test]
fn accumulator_keeps_forwarded_text_in_order() {
    let mut acc = Accumulator::new();
    let start = ServerStreamEvent::MessageStart { message: MessagesResponse::default() };
    assert!(matches!(acc.apply(start), Ok(None)));
    let mut forwarded = String::new();
    let events = vec![
        ServerStreamEvent::StartBlock { index: 0, content: Content::Text { text: "a".into() } },
        ServerStreamEvent::BlockDelta { index: 0, delta: Content::TextDelta { text: "bc".into() } },
        ServerStreamEvent::Ping,
        ServerStreamEvent::BlockDelta { index: 0, delta: Content::TextDelta { text: "d".into() } },
        ServerStreamEvent::BlockStop { index: 0 },
    ];
    for e in events {
        if let Ok(Some(TextStreamEvent::Fragment(t))) = acc.apply(e) {
            forwarded.push_str(&t);
        }
    }
    match acc.apply(ServerStreamEvent::MessageStop) {
        Ok(Some(TextStreamEvent::EOF(m))) => {
            assert_eq!(forwarded, "abcd");
            assert_eq!(content_text(&m), forwarded);
        }
        _ => panic!("expected the final message"),
    }
    // The accumulator is empty again, so a new start is accepted.
    let again = ServerStreamEvent::MessageStart { message: MessagesResponse::default() };
    assert!(matches!(acc.apply(again), Ok(None)));
}

#[test]
fn start_after_content_is_a_protocol_error() {
    let mut acc = Accumulator::new();
    let block = ServerStreamEvent::StartBlock { index: 0, content: Content::Text { text: "a".into() } };
    assert!(acc.apply(block).is_ok());
    let start = ServerStreamEvent::MessageStart { message: MessagesResponse::default() };
    assert!(matches!(acc.apply(start), Err(ProtocolError::StartAfterContent)));
}
