use rust_agent::llm::{Delta, StreamChatCompletionChunk, StreamChoice};
use rust_agent::sse::{SseDecoder, SseEvent};
use rust_agent::traits::StreamChunk;

fn chunk(content: Option<&str>, finish: Option<&str>) -> StreamChatCompletionChunk {
    StreamChatCompletionChunk {
        id: "c".to_string(),
        choices: vec![StreamChoice {
            index: 0,
            delta: Delta { role: None, content: content.map(|s| s.to_string()), reasoning_content: None },
            finish_reason: finish.map(|s| s.to_string()),
        }],
    }
}

fn payload(e: Option<SseEvent>) -> String {
    match e {
        Some(SseEvent::Payload(p)) => p,
        other => panic!("unexpected {:?}", other),
    }
}

#[test]
fn data_lines_become_events() {
    let mut d = SseDecoder::new();
    d.push_bytes(b": comment\n\ndata: {\"a\":1}\r\nevent: x\ndata: [DONE]\n");
    assert_eq!(payload(d.next_event()), "{\"a\":1}");
    assert!(matches!(d.next_event(), Some(SseEvent::Done)));
    assert!(d.next_event().is_none());
    assert_eq!(d.buffer, "");
}

#[test]
fn incomplete_lines_wait_for_more_bytes() {
    let mut d = SseDecoder::new();
    d.push_bytes(b"data: {\"b\"");
    assert!(d.next_event().is_none());
    assert_eq!(d.buffer, "data: {\"b\"");
    d.push_bytes(b":2}\n");
    assert_eq!(payload(d.next_event()), "{\"b\":2}");
}

#[test]
fn invalid_bytes_are_replaced() {
    let mut d = SseDecoder::new();
    d.push_bytes(&[b'd', b'a', b't', b'a', b':', b' ', 0xFF, b'\n']);
    assert_eq!(payload(d.next_event()), "\u{FFFD}");
    d.push_bytes("data: 你好\n".as_bytes());
    assert_eq!(payload(d.next_event()), "你好");
}

#[test]
fn chunks_accumulate_into_the_answer() {
    let mut d = SseDecoder::new();
    let (out, done) = d.apply_chunk(&chunk(Some("Hel"), None));
    assert!(!done);
    assert_eq!(out.len(), 1);
    assert!(matches!(&out[0], StreamChunk::Delta(t) if t == "Hel"));
    let (out, done) = d.apply_chunk(&chunk(None, None));
    assert!(!done && out.is_empty());
    let (out, done) = d.apply_chunk(&chunk(Some("lo"), Some("stop")));
    assert!(done);
    assert_eq!(out.len(), 2);
    assert!(matches!(&out[1], StreamChunk::Done { content, usage: None } if content == "Hello"));
    assert_eq!(d.accumulated, "Hello");
    let empty = StreamChatCompletionChunk { id: "e".to_string(), choices: vec![] };
    let (out, done) = d.apply_chunk(&empty);
    assert!(!done && out.is_empty());
}

#[test]
fn stream_end_completes_only_with_text() {
    let d = SseDecoder::new();
    assert!(d.finish().is_none());
    let mut d = SseDecoder::new();
    d.apply_chunk(&chunk(Some("x"), None));
    assert!(matches!(d.finish(), Some(StreamChunk::Done { content, .. }) if content == "x"));
    assert!(matches!(d.done_chunk(), StreamChunk::Done { content, .. } if content == "x"));
}

#[test]
fn later_bytes_leave_a_complete_event_alone() {
    let mut whole = SseDecoder::new();
    whole.push_bytes(b"data: x\ndata: y");
    let mut split = SseDecoder::new();
    split.push_bytes(b"data: x\n");
    split.push_bytes(b"data: y");
    assert_eq!(payload(whole.next_event()), "x");
    assert_eq!(payload(split.next_event()), "x");
    assert_eq!(whole.buffer, "data: y");
    assert_eq!(split.buffer, "data: y");
}
