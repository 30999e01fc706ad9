use agm_proxy::json::{parse_json, render_json};
use agm_proxy::sse::{
    broken_event, broken_stream, event_with, read_data_line, read_line, relay, response_event,
    trace_event, trace_meta, Chunk, Line, LineBuffer, DONE_EVENT,
};

fn lines_of(chunks: &[&[u8]]) -> Vec<Line> {
    let mut buffer = LineBuffer::new();
    let mut lines = Vec::new();
    for chunk in chunks {
        assert!(buffer.has_room_for(chunk.len()));
        buffer.push(chunk);
        lines.extend(buffer.take_lines());
    }
    lines
}

#[test]
fn lines_are_taken_one_by_one() {
    let mut buffer = LineBuffer::new();
    buffer.push(b"a\r\n\nb");
    assert_eq!(buffer.next_line(), Some(b"a\r\n".to_vec()));
    assert_eq!(buffer.next_line(), Some(b"\n".to_vec()));
    assert_eq!(buffer.next_line(), None);
    buffer.push(b"c\n");
    assert_eq!(buffer.next_line(), Some(b"bc\n".to_vec()));
    assert_eq!(buffer.next_line(), None);
    assert!(!buffer.has_room_for(usize::MAX));
}

#[test]
fn chunks_can_be_cut_anywhere() {
    let stream = "data: {\"a\": \"\u{e9}\"}\n\n: note\ndata: [DONE]\n".as_bytes();
    let whole = lines_of(&[stream]);
    assert_eq!(whole.len(), 4);
    for cut in 0..stream.len() {
        assert_eq!(lines_of(&[&stream[..cut], &stream[cut..]]), whole);
    }
}

#[test]
fn every_kind_of_line_is_read() {
    let line = |bytes: &[u8]| read_line(bytes.to_vec());
    assert_eq!(line(b" \t\r\n"), Line::Blank);
    assert_eq!(line(b"data: [DONE]\n"), Line::Done);
    assert_eq!(line(b"  data:   [DONE] \r\n"), Line::Done);
    assert_eq!(line(b"data: data: [DONE]\n"), Line::Done);
    assert_eq!(line(b"data: {\"a\":1}\n"), Line::Event(parse_json("{\"a\":1}").unwrap()));
    assert_eq!(line(b"data: {oops\n"), Line::Verbatim("data: {oops".to_string()));
    assert_eq!(line(b"data:{\"a\":1}\n"), Line::Verbatim("data:{\"a\":1}".to_string()));
    assert_eq!(line(b": comment \n"), Line::Verbatim(": comment".to_string()));
    assert_eq!(line(b"\xff\xfe\n"), Line::Raw(b"\xff\xfe\n".to_vec()));
    assert_eq!(line(b"\xed\xa0\x80\n"), Line::Raw(b"\xed\xa0\x80\n".to_vec()));
    assert_eq!(line("é\n".as_bytes()), Line::Verbatim("é".to_string()));
}

#[test]
fn a_data_line_is_its_document_or_itself() {
    let json = || parse_json("[1]").unwrap();
    assert_eq!(read_data_line(Some(json()), "data: [1]"), Line::Event(json()));
    assert_eq!(read_data_line(None, "data: x"), Line::Verbatim("data: x".to_string()));
}

#[test]
fn lines_are_relayed() {
    let text = |line| match relay(line) {
        Some(Chunk::Text(text)) => text,
        other => panic!("unexpected chunk: {other:?}"),
    };
    assert_eq!(relay(Line::Blank), None);
    assert_eq!(text(Line::Done), "data: [DONE]\n\n");
    assert_eq!(text(Line::Verbatim(": c".to_string())), ": c\n\n");
    let wrapped = parse_json(r#"{"response":{"a":1},"traceId":"t"}"#).unwrap();
    assert_eq!(text(Line::Event(wrapped)), "data: {\"a\":1}\n\n");
    let bare = parse_json(r#"{"b": 2}"#).unwrap();
    assert_eq!(text(Line::Event(bare)), "data: {\"b\":2}\n\n");
    assert_eq!(relay(Line::Raw(vec![255, 10])), Some(Chunk::Bytes(vec![255, 10])));
}

#[test]
fn events_frame_their_documents() {
    assert_eq!(DONE_EVENT, "data: [DONE]\n\n");
    assert_eq!(event_with("{}"), "data: {}\n\n");
    assert_eq!(response_event(parse_json("[]").unwrap()), "data: []\n\n");
    assert_eq!(trace_event("t-1"), "data: {\"__cloudCodeMeta\":{\"traceId\":\"t-1\"}}\n\n");
    assert_eq!(render_json(trace_meta("t")), r#"{"__cloudCodeMeta":{"traceId":"t"}}"#);
}

#[test]
fn a_broken_stream_is_told() {
    let document = r#"{"choices":[{"delta":{"content":"\n[Stream Error] cut"},"finish_reason":"error","index":0}],"id":"sid","model":"pro","object":"chat.completion.chunk"}"#;
    assert_eq!(render_json(broken_stream("sid", "pro", "cut")), document);
    assert_eq!(broken_event("sid", "pro", "cut"), format!("data: {document}\n\n"));
}
