//! Streams of server-sent events: lines out of chunks, what a line says, and the chunks that are
//! passed on.

use crate::gemini::{enclosed, unwrap_envelope};
use crate::json::{
    items_tree, json_integer, json_parse, json_render, parse_json, render_json, Json, JsonTree,
};
use crate::text;
use crate::text::{occurs_at, stripped, trimmed};
use vstd::prelude::*;
use vstd::string::*;
use vstd::utf8::*;

verus! {

/// `bytes::BytesMut`, opaque.
#[verifier::external_type_specification]
#[verifier::external_body]
pub struct ExBytesMut(bytes::BytesMut);

/// The bytes that a `bytes::BytesMut` holds.
pub uninterp spec fn buffered(buffer: bytes::BytesMut) -> Seq<u8>;

/// `bytes::BytesMut::new` makes an empty buffer.
#[verifier::external_body]
fn new_buffer() -> (buffer: bytes::BytesMut)
    ensures
        buffered(buffer) == Seq::<u8>::empty(),
{
    bytes::BytesMut::new()
}

/// `bytes::BytesMut::extend_from_slice` adds the bytes at the end. (Its storage has at most four
/// times the size that its contents ever had, so it does not overflow within the bound.)
#[verifier::external_body]
fn extend_buffer(buffer: &mut bytes::BytesMut, chunk: &[u8])
    requires
        buffered(*old(buffer)).len() + chunk@.len() <= isize::MAX / 4,
    ensures
        buffered(*final(buffer)) == buffered(*old(buffer)) + chunk@,
{
    buffer.extend_from_slice(chunk);
}

/// `bytes::BytesMut::split_to` takes the first `at` bytes out.
#[verifier::external_body]
fn split_buffer(buffer: &mut bytes::BytesMut, at: usize) -> (front: bytes::BytesMut)
    requires
        at <= buffered(*old(buffer)).len(),
    ensures
        buffered(front) == buffered(*old(buffer)).take(at as int),
        buffered(*final(buffer)) == buffered(*old(buffer)).skip(at as int),
{
    buffer.split_to(at)
}

/// `bytes::BytesMut::as_ref` gives the bytes as a slice.
#[verifier::external_body]
fn buffer_bytes(buffer: &bytes::BytesMut) -> (slice: &[u8])
    ensures
        slice@ == buffered(*buffer),
{
    buffer.as_ref()
}

/// `std::str::from_utf8` gives the text that bytes are the UTF-8 encoding of, and an error where
/// they are of none.
#[verifier::external_body]
fn utf8_text(bytes: &[u8]) -> (text: Option<&str>)
    ensures
        match text {
            Some(text) => valid_utf8(bytes@) && text@ == decode_utf8(bytes@),
            None => !valid_utf8(bytes@),
        },
{
    std::str::from_utf8(bytes).ok()
}

/// The byte that ends a line.
pub const NEWLINE: u8 = 10;

/// The length of the first line with its end; of all bytes where no line ends.
pub open spec fn line_len(bytes: Seq<u8>) -> int
    decreases bytes.len(),
{
    if bytes.len() == 0 {
        0
    } else if bytes[0] == NEWLINE {
        1
    } else {
        1 + line_len(bytes.skip(1))
    }
}

/// The lines that have ended, each with its end.
pub open spec fn lines(bytes: Seq<u8>) -> Seq<Seq<u8>>
    decreases bytes.len(),
{
    if bytes.contains(NEWLINE) {
        proof {
            lemma_line_len(bytes);
        }
        seq![bytes.take(line_len(bytes))] + lines(bytes.skip(line_len(bytes)))
    } else {
        Seq::empty()
    }
}

/// The bytes after the last line that has ended.
pub open spec fn unfinished(bytes: Seq<u8>) -> Seq<u8>
    decreases bytes.len(),
{
    if bytes.contains(NEWLINE) {
        proof {
            lemma_line_len(bytes);
        }
        unfinished(bytes.skip(line_len(bytes)))
    } else {
        bytes
    }
}

/// The first line ends with the first newline.
pub proof fn lemma_line_len(bytes: Seq<u8>)
    ensures
        0 <= line_len(bytes) <= bytes.len(),
        bytes.contains(NEWLINE) ==> 0 < line_len(bytes) && bytes[line_len(bytes) - 1] == NEWLINE,
        forall|i: int| 0 <= i < line_len(bytes) - 1 ==> #[trigger] bytes[i] != NEWLINE,
        !bytes.contains(NEWLINE) ==> line_len(bytes) == bytes.len(),
    decreases bytes.len(),
{
    if bytes.len() > 0 {
        let rest = bytes.skip(1);
        lemma_line_len(rest);
        if bytes[0] != NEWLINE {
            if bytes.contains(NEWLINE) {
                let i = choose|i: int| 0 <= i < bytes.len() && bytes[i] == NEWLINE;
                assert(rest[i - 1] == NEWLINE);
            }
            if rest.contains(NEWLINE) {
                let i = choose|i: int| 0 <= i < rest.len() && rest[i] == NEWLINE;
                assert(bytes[i + 1] == NEWLINE);
            }
            assert forall|i: int| 0 <= i < line_len(bytes) - 1 implies #[trigger] bytes[i]
                != NEWLINE by {
                if i > 0 {
                    assert(rest[i - 1] == bytes[i]);
                }
            }
        } else {
            assert(bytes.contains(bytes[0]));
        }
    }
}

/// A position with a newline before which there is none ends the first line.
proof fn lemma_line_len_is(bytes: Seq<u8>, at: int)
    requires
        0 <= at < bytes.len(),
        bytes[at] == NEWLINE,
        forall|i: int| 0 <= i < at ==> #[trigger] bytes[i] != NEWLINE,
    ensures
        line_len(bytes) == at + 1,
        bytes.contains(NEWLINE),
{
    lemma_line_len(bytes);
    assert(bytes.contains(bytes[at]));
    if line_len(bytes) - 1 > at {
        assert(bytes[at] != NEWLINE);
    }
}

/// The bytes of a stream that are not yet passed on.
#[derive(Debug)]
pub struct LineBuffer {
    buffer: bytes::BytesMut,
}

impl View for LineBuffer {
    type V = Seq<u8>;

    closed spec fn view(&self) -> Seq<u8> {
        buffered(self.buffer)
    }
}

impl LineBuffer {
    /// An empty buffer.
    pub fn new() -> (lines: Self)
        ensures
            lines@ == Seq::<u8>::empty(),
    {
        LineBuffer { buffer: new_buffer() }
    }

    /// Whether `more` bytes can be added.
    pub fn has_room_for(&self, more: usize) -> (room: bool)
        ensures
            room == (self@.len() + more <= isize::MAX / 4),
    {
        let held: usize = buffer_bytes(&self.buffer).len();
        let limit: usize = isize::MAX as usize / 4;
        held <= limit && more <= limit - held
    }

    /// Adds a chunk at the end.
    pub fn push(&mut self, chunk: &[u8])
        requires
            old(self)@.len() + chunk@.len() <= isize::MAX / 4,
        ensures
            final(self)@ == old(self)@ + chunk@,
    {
        extend_buffer(&mut self.buffer, chunk);
    }

    /// Takes out the first line that has ended, with its end.
    pub fn next_line(&mut self) -> (line: Option<Vec<u8>>)
        ensures
            match line {
                Some(line) => old(self)@.contains(NEWLINE) && line@ == old(self)@.take(
                    line_len(old(self)@),
                ) && final(self)@ == old(self)@.skip(line_len(old(self)@)),
                None => !old(self)@.contains(NEWLINE) && final(self)@ == old(self)@,
            },
    {
        let bytes = buffer_bytes(&self.buffer);
        let mut at: usize = 0;
        while at < bytes.len() && bytes[at] != NEWLINE
            invariant
                at <= bytes@.len(),
                forall|i: int| 0 <= i < at ==> #[trigger] bytes@[i] != NEWLINE,
            decreases bytes@.len() - at,
        {
            at = at + 1;
        }
        if at == bytes.len() {
            return None;
        }
        proof {
            lemma_line_len_is(bytes@, at as int);
        }
        let front = split_buffer(&mut self.buffer, at + 1);
        Some(vstd::slice::slice_to_vec(buffer_bytes(&front)))
    }
}

/// The bytes of all lines, one after the other.
pub open spec fn joined(lines: Seq<Seq<u8>>) -> Seq<u8>
    decreases lines.len(),
{
    if lines.len() == 0 {
        Seq::empty()
    } else {
        lines[0] + joined(lines.skip(1))
    }
}

/// A line: it ends with a newline and holds no other.
pub open spec fn is_line(line: Seq<u8>) -> bool {
    &&& line.len() > 0
    &&& line.last() == NEWLINE
    &&& !line.drop_last().contains(NEWLINE)
}

/// No byte is lost, added or moved: the lines that have ended and the bytes after them are the
/// bytes of the stream.
pub proof fn law_lines_are_the_stream(bytes: Seq<u8>)
    ensures
        joined(lines(bytes)) + unfinished(bytes) == bytes,
        !unfinished(bytes).contains(NEWLINE),
        forall|i: int| 0 <= i < lines(bytes).len() ==> is_line(#[trigger] lines(bytes)[i]),
    decreases bytes.len(),
{
    lemma_line_len(bytes);
    if bytes.contains(NEWLINE) {
        let first = bytes.take(line_len(bytes));
        let rest = bytes.skip(line_len(bytes));
        law_lines_are_the_stream(rest);
        assert(lines(bytes).skip(1) =~= lines(rest));
        assert(bytes =~= first + rest);
        assert(joined(lines(bytes)) + unfinished(bytes) =~= first + (joined(lines(rest))
            + unfinished(rest)));
        assert(is_line(first)) by {
            assert forall|i: int| 0 <= i < first.drop_last().len() implies first.drop_last()[i]
                != NEWLINE by {
                assert(bytes[i] != NEWLINE);
            }
        }
        assert forall|i: int| 0 <= i < lines(bytes).len() implies is_line(
            #[trigger] lines(bytes)[i],
        ) by {
            if i > 0 {
                assert(lines(bytes)[i] == lines(rest)[i - 1]);
            }
        }
    } else {
        assert(joined(lines(bytes)) + unfinished(bytes) =~= bytes);
    }
}

/// However a stream is cut into chunks, its lines are the same: those of the first chunk, then
/// those of what is left of it and the second one.
pub proof fn law_chunks_do_not_matter(first: Seq<u8>, second: Seq<u8>)
    ensures
        lines(first + second) == lines(first) + lines(unfinished(first) + second),
        unfinished(first + second) == unfinished(unfinished(first) + second),
    decreases first.len(),
{
    let all = first + second;
    lemma_line_len(first);
    lemma_line_len(all);
    if first.contains(NEWLINE) {
        let n = line_len(first);
        assert(all[n - 1] == NEWLINE);
        assert forall|i: int| 0 <= i < n - 1 implies #[trigger] all[i] != NEWLINE by {
            assert(all[i] == first[i]);
        }
        lemma_line_len_is(all, n - 1);
        let rest = first.skip(n);
        law_chunks_do_not_matter(rest, second);
        assert(all.take(n) =~= first.take(n));
        assert(all.skip(n) =~= rest + second);
        assert(lines(all) =~= lines(first) + lines(unfinished(first) + second));
    } else {
        assert(lines(all) =~= lines(first) + lines(unfinished(first) + second));
    }
}

/// Taking out the first line leaves the other lines and the bytes after them.
pub proof fn law_next_line_is_the_first(bytes: Seq<u8>)
    requires
        bytes.contains(NEWLINE),
    ensures
        lines(bytes).len() > 0,
        lines(bytes)[0] == bytes.take(line_len(bytes)),
        lines(bytes.skip(line_len(bytes))) == lines(bytes).skip(1),
        unfinished(bytes.skip(line_len(bytes))) == unfinished(bytes),
{
    lemma_line_len(bytes);
    assert(lines(bytes).skip(1) =~= lines(bytes.skip(line_len(bytes))));
}

/// What a line says.
#[derive(Debug, PartialEq, Eq)]
pub enum Line {
    /// Nothing.
    Blank,
    /// That the stream is done.
    Done,
    /// A document.
    Event(Json),
    /// A text that is passed on as it is.
    Verbatim(String),
    /// Bytes that are no text and passed on as they are.
    Raw(Vec<u8>),
}

/// What a [`Line`] says.
pub enum LineView {
    Blank,
    Done,
    Event(JsonTree),
    Verbatim(Seq<char>),
    Raw(Seq<u8>),
}

impl View for Line {
    type V = LineView;

    open spec fn view(&self) -> LineView {
        match *self {
            Line::Blank => LineView::Blank,
            Line::Done => LineView::Done,
            Line::Event(json) => LineView::Event(json@),
            Line::Verbatim(text) => LineView::Verbatim(text@),
            Line::Raw(bytes) => LineView::Raw(bytes@),
        }
    }
}

/// What the text of a data line says, where `document` is the document that it is.
pub open spec fn data_line(document: Option<JsonTree>, text: Seq<char>) -> LineView {
    match document {
        Some(tree) => LineView::Event(tree),
        None => LineView::Verbatim(text),
    }
}

/// What the text of a line says, white space around it aside.
pub open spec fn text_line(text: Seq<char>) -> LineView {
    let data = trimmed(stripped(text, "data: "@));
    if text.len() == 0 {
        LineView::Blank
    } else if !occurs_at(text, "data: "@, 0) {
        LineView::Verbatim(text)
    } else if data == "[DONE]"@ {
        LineView::Done
    } else {
        data_line(json_parse(data), text)
    }
}

/// What a line of these bytes says.
pub open spec fn byte_line(bytes: Seq<u8>) -> LineView {
    if valid_utf8(bytes) {
        text_line(trimmed(decode_utf8(bytes)))
    } else {
        LineView::Raw(bytes)
    }
}

/// What the text of a data line says, where `document` is the document that it is.
pub fn read_data_line(document: Option<Json>, text: &str) -> (line: Line)
    ensures
        line@ == data_line(
            match document {
                Some(json) => Some(json@),
                None => None,
            },
            text@,
        ),
{
    match document {
        Some(json) => Line::Event(json),
        None => Line::Verbatim(text.to_owned()),
    }
}

/// What the text of a line says, white space around it aside.
pub fn read_text_line(text: &str) -> (line: Line)
    ensures
        line@ == text_line(text@),
{
    if text.is_empty() {
        return Line::Blank;
    }
    if !text::starts_with(text, "data: ") {
        return Line::Verbatim(text.to_owned());
    }
    let data = text::trim(text::trim_start_matches(text, "data: "));
    if text::same(data, "[DONE]") {
        return Line::Done;
    }
    read_data_line(parse_json(data), text)
}

/// What a line of these bytes says.
pub fn read_line(bytes: Vec<u8>) -> (line: Line)
    ensures
        line@ == byte_line(bytes@),
{
    match utf8_text(bytes.as_slice()) {
        Some(text) => read_text_line(text::trim(text)),
        None => Line::Raw(bytes),
    }
}

/// The event that carries a document.
pub open spec fn event(tree: JsonTree) -> Seq<char> {
    "data: "@ + json_render(tree) + "\n\n"@
}

/// The event that ends a stream.
pub const DONE_EVENT: &'static str = "data: [DONE]\n\n";

/// The event that carries a document, where `rendered` is the text of it.
pub fn event_with(rendered: &str) -> (chunk: String)
    ensures
        chunk@ == "data: "@ + rendered@ + "\n\n"@,
{
    let mut chunk = "data: ".to_owned();
    chunk.append(rendered);
    chunk.append("\n\n");
    chunk
}

/// The event that carries the response in a document.
pub fn response_event(document: Json) -> (chunk: String)
    ensures
        chunk@ == event(enclosed(document@)),
{
    event_with(render_json(unwrap_envelope(document)).as_str())
}

/// The document that tells the trace of the upstream.
pub open spec fn trace_document(trace_id: Seq<char>) -> JsonTree {
    JsonTree::Object(
        map!["__cloudCodeMeta"@ => JsonTree::Object(map!["traceId"@ => JsonTree::Text(trace_id)])],
    )
}

/// The document that tells the trace of the upstream.
pub fn trace_meta(trace_id: &str) -> (document: Json)
    ensures
        document@ == trace_document(trace_id@),
{
    Json::object().with("__cloudCodeMeta", Json::object().with("traceId", Json::text(trace_id)))
}

/// The event that tells the trace of the upstream, the first one of a stream.
pub fn trace_event(trace_id: &str) -> (chunk: String)
    ensures
        chunk@ == event(trace_document(trace_id@)),
{
    event_with(render_json(trace_meta(trace_id)).as_str())
}

/// The document that tells that a stream broke off.
pub open spec fn broken_document(
    session_id: Seq<char>,
    model: Seq<char>,
    error: Seq<char>,
) -> JsonTree {
    JsonTree::Object(
        map![
        "id"@ => JsonTree::Text(session_id),
        "object"@ => JsonTree::Text("chat.completion.chunk"@),
        "model"@ => JsonTree::Text(model),
        "choices"@ => JsonTree::Array(seq![JsonTree::Object(map![
            "index"@ => JsonTree::Number(json_integer(0)),
            "delta"@ => JsonTree::Object(map![
                "content"@ => JsonTree::Text("\n[Stream Error] "@ + error)
            ]),
            "finish_reason"@ => JsonTree::Text("error"@)
        ])])
    ],
    )
}

/// The document that tells that a stream broke off.
pub fn broken_stream(session_id: &str, model: &str, error: &str) -> (document: Json)
    ensures
        document@ == broken_document(session_id@, model@, error@),
{
    let mut content = "\n[Stream Error] ".to_owned();
    content.append(error);
    let choice = Json::object().with("index", Json::integer(0)).with(
        "delta",
        Json::object().with("content", Json::Text(content)),
    ).with("finish_reason", Json::text("error"));
    let mut choices: Vec<Json> = Vec::new();
    choices.push(choice);
    assert(items_tree(choices@) =~= seq![choice@]);
    Json::object().with("id", Json::text(session_id)).with(
        "object",
        Json::text("chat.completion.chunk"),
    ).with("model", Json::text(model)).with("choices", Json::Array(choices))
}

/// The event that tells that a stream broke off.
pub fn broken_event(session_id: &str, model: &str, error: &str) -> (chunk: String)
    ensures
        chunk@ == event(broken_document(session_id@, model@, error@)),
{
    event_with(render_json(broken_stream(session_id, model, error)).as_str())
}

/// What lines say, one by one.
pub open spec fn lines_view(lines: Seq<Line>) -> Seq<LineView> {
    Seq::new(lines.len(), |i: int| lines[i]@)
}

/// What the lines of these bytes say, one by one.
pub open spec fn byte_lines(lines: Seq<Seq<u8>>) -> Seq<LineView> {
    Seq::new(lines.len(), |i: int| byte_line(lines[i]))
}

impl LineBuffer {
    /// Takes out the lines that have ended and reads them, in order.
    pub fn take_lines(&mut self) -> (read: Vec<Line>)
        ensures
            lines_view(read@) == byte_lines(lines(old(self)@)),
            final(self)@ == unfinished(old(self)@),
    {
        let ghost all = lines(self@);
        let ghost end = unfinished(self@);
        let mut read: Vec<Line> = Vec::new();
        assert(all.skip(0) =~= all);
        loop
            invariant
                read@.len() <= all.len(),
                lines_view(read@) == byte_lines(all.take(read@.len() as int)),
                lines(self@) == all.skip(read@.len() as int),
                unfinished(self@) == end,
            ensures
                lines_view(read@) == byte_lines(all),
                self@ == end,
            decreases self@.len(),
        {
            let ghost before = self@;
            let ghost n = read@.len() as int;
            match self.next_line() {
                Some(bytes) => {
                    proof {
                        lemma_line_len(before);
                        law_next_line_is_the_first(before);
                        assert(all[n] == bytes@);
                        assert(all.skip(n).skip(1) =~= all.skip(n + 1));
                    }
                    let ghost held = read@;
                    read.push(read_line(bytes));
                    assert(lines_view(read@) =~= lines_view(held).push(byte_line(bytes@)));
                    assert(byte_lines(all.take(n + 1)) =~= byte_lines(all.take(n)).push(
                        byte_line(bytes@),
                    ));
                },
                None => {
                    assert(all.skip(n).len() == lines(before).len() == 0);
                    assert(all.take(n) =~= all);
                    break;
                },
            }
        }
        read
    }
}

/// What is passed on of a line.
#[derive(Debug, PartialEq, Eq)]
pub enum Chunk {
    Text(String),
    Bytes(Vec<u8>),
}

/// What a [`Chunk`] says.
pub enum ChunkView {
    Text(Seq<char>),
    Bytes(Seq<u8>),
}

impl View for Chunk {
    type V = ChunkView;

    open spec fn view(&self) -> ChunkView {
        match *self {
            Chunk::Text(text) => ChunkView::Text(text@),
            Chunk::Bytes(bytes) => ChunkView::Bytes(bytes@),
        }
    }
}

/// What is passed on of a line: nothing of a blank one, of a document the response in it.
pub open spec fn relayed(line: LineView) -> Option<ChunkView> {
    match line {
        LineView::Blank => None,
        LineView::Done => Some(ChunkView::Text(DONE_EVENT@)),
        LineView::Event(tree) => Some(ChunkView::Text(event(enclosed(tree)))),
        LineView::Verbatim(text) => Some(ChunkView::Text(text + "\n\n"@)),
        LineView::Raw(bytes) => Some(ChunkView::Bytes(bytes)),
    }
}

/// What is passed on of a line.
pub fn relay(line: Line) -> (chunk: Option<Chunk>)
    ensures
        relayed(line@) == match chunk {
            Some(chunk) => Some(chunk@),
            None => None,
        },
{
    match line {
        Line::Blank => None,
        Line::Done => Some(Chunk::Text(DONE_EVENT.to_owned())),
        Line::Event(json) => Some(Chunk::Text(response_event(json))),
        Line::Verbatim(text) => {
            let mut chunk = text;
            chunk.append("\n\n");
            Some(Chunk::Text(chunk))
        },
        Line::Raw(bytes) => Some(Chunk::Bytes(bytes)),
    }
}

} // verus!
