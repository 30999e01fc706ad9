//! What reading and relaying a stream are for, said of what goes in and what comes out.

use crate::gemini::enclosed;
use crate::json::{json_integer, json_parse, json_render, Json, JsonTree};
use crate::reply_laws::{has_members, says};
use crate::sse::{
    broken_event, broken_stream, byte_line, byte_lines, event_with, is_line, joined,
    law_lines_are_the_stream, lemma_line_len, line_len, lines, lines_view, read_data_line, read_line,
    read_text_line, relay, response_event, text_line, trace_event, trace_meta, unfinished, Chunk,
    Line, LineBuffer, LineView, DONE_EVENT,
};
use crate::text::{occurs_at, stripped, trimmed};
use crate::text_laws::{
    is_trim_of, law_stripping_takes_off_every_prefix, law_trim_is_unique,
    law_trimming_takes_off_white_space, repeated,
};
use vstd::prelude::*;
use vstd::string::*;
use vstd::utf8::*;

verus! {

/// `text` is the event that carries the document: the document written out, marked as data, with an
/// empty line behind it.
pub open spec fn carries(text: Seq<char>, tree: JsonTree) -> bool {
    text == "data: "@ + json_render(tree) + "\n\n"@
}

/// `text` is the event that carries the response in a document: its member `response`, whatever that
/// holds, or the document itself where it has none.
pub open spec fn carries_response(text: Seq<char>, document: JsonTree) -> bool {
    &&& forall|inner: JsonTree| #[trigger] says(document, "response"@, inner) ==> carries(text, inner)
    &&& !(document is Object && document->Object_0.contains_key("response"@)) ==> carries(
        text,
        document,
    )
}

/// Of a blank line nothing is passed on; of a document the response in it, out of its envelope; the
/// end as it is; any other text with an empty line behind it; bytes that are no text as they are.
pub proof fn law_relayed_line(line: Line, chunk: Option<Chunk>)
    requires
        call_ensures(relay, (line,), chunk),
    ensures
        match line {
            Line::Blank => chunk is None,
            Line::Done => chunk matches Some(Chunk::Text(text)) && text@ == "data: [DONE]\n\n"@,
            Line::Event(json) => chunk matches Some(Chunk::Text(text)) && carries_response(
                text@,
                json@,
            ),
            Line::Verbatim(told) => chunk matches Some(Chunk::Text(text)) && text@ == told@
                + "\n\n"@,
            Line::Raw(bytes) => chunk matches Some(Chunk::Bytes(raw)) && raw@ == bytes@,
        },
{
    if let Line::Event(json) = line {
        lemma_response(json@);
    }
}

proof fn lemma_response(document: JsonTree)
    ensures
        carries_response("data: "@ + json_render(enclosed(document)) + "\n\n"@, document),
{
}

/// The payload does not begin with another mark of data.
pub open spec fn is_unmarked(payload: Seq<char>) -> bool {
    !exists|after: Seq<char>| payload == #[trigger] ("data: "@ + after)
}

/// `line` is what the text of a line says: nothing, where it is empty; the text itself, where it is
/// not marked as data; else, marks and white space aside, that the stream is done, or a document, or
/// the text itself where it is none.
pub open spec fn text_reads_as(text: Seq<char>, line: LineView) -> bool {
    &&& text.len() == 0 ==> line == LineView::Blank
    &&& text.len() > 0 && is_unmarked(text) ==> line == LineView::Verbatim(text)
    &&& forall|times: nat, payload: Seq<char>, data: Seq<char>|
        times > 0 && is_unmarked(payload) && #[trigger] is_trim_of(payload, data) && text
            == #[trigger] (repeated("data: "@, times) + payload) ==> if data == "[DONE]"@ {
            line == LineView::Done
        } else {
            match json_parse(data) {
                Some(tree) => line == LineView::Event(tree),
                None => line == LineView::Verbatim(text),
            }
        }
}

/// `line` is what a line of these bytes says: the bytes themselves, where they are no text; else what
/// the text says, white space around it aside.
pub open spec fn bytes_read_as(bytes: Seq<u8>, line: LineView) -> bool {
    &&& !valid_utf8(bytes) ==> line == LineView::Raw(bytes)
    &&& valid_utf8(bytes) ==> forall|text: Seq<char>| #[trigger]
        is_trim_of(decode_utf8(bytes), text) ==> text_reads_as(text, line)
}

proof fn lemma_stripped(times: nat, payload: Seq<char>, prefix: Seq<char>)
    requires
        prefix.len() > 0,
        !exists|after: Seq<char>| payload == #[trigger] (prefix + after),
    ensures
        stripped(repeated(prefix, times) + payload, prefix) == payload,
    decreases times,
{
    let text = repeated(prefix, times) + payload;
    if times == 0 {
        assert(text =~= payload);
        if occurs_at(payload, prefix, 0) {
            assert(payload =~= prefix + payload.skip(prefix.len() as int));
        }
    } else {
        let rest = repeated(prefix, (times - 1) as nat) + payload;
        lemma_stripped((times - 1) as nat, payload, prefix);
        assert(text =~= prefix + rest);
        assert(text.subrange(0, prefix.len() as int) =~= prefix);
        assert(text.skip(prefix.len() as int) =~= rest);
    }
}

proof fn lemma_text_line(text: Seq<char>)
    ensures
        text_reads_as(text, text_line(text)),
{
    reveal_strlit("data: ");
    assert("data: "@.len() == 6);
    if text.len() > 0 && is_unmarked(text) {
        if occurs_at(text, "data: "@, 0) {
            assert(text =~= "data: "@ + text.skip(6));
        }
    }
    assert forall|times: nat, payload: Seq<char>, data: Seq<char>|
        times > 0 && is_unmarked(payload) && #[trigger] is_trim_of(payload, data) && text
            == #[trigger] (repeated("data: "@, times) + payload) implies if data == "[DONE]"@ {
        text_line(text) == LineView::Done
    } else {
        match json_parse(data) {
            Some(tree) => text_line(text) == LineView::Event(tree),
            None => text_line(text) == LineView::Verbatim(text),
        }
    } by {
        lemma_stripped(times, payload, "data: "@);
        law_trimming_takes_off_white_space(payload);
        law_trim_is_unique(payload, data, trimmed(payload));
        let rest = repeated("data: "@, (times - 1) as nat) + payload;
        assert(text =~= "data: "@ + rest);
        assert(text.subrange(0, 6) =~= "data: "@);
        assert(occurs_at(text, "data: "@, 0));
    }
}

proof fn lemma_byte_line(bytes: Seq<u8>)
    ensures
        bytes_read_as(bytes, byte_line(bytes)),
{
    if valid_utf8(bytes) {
        let decoded = decode_utf8(bytes);
        law_trimming_takes_off_white_space(decoded);
        assert forall|text: Seq<char>| #[trigger] is_trim_of(decoded, text) implies text_reads_as(
            text,
            byte_line(bytes),
        ) by {
            law_trim_is_unique(decoded, text, trimmed(decoded));
            lemma_text_line(text);
        }
    }
}

/// Every text can be told apart in this way: it is empty, or not marked as data, or so many marks and
/// a payload.
pub proof fn law_every_text_is_read(text: Seq<char>)
    ensures
        text.len() == 0 || is_unmarked(text) || exists|times: nat, payload: Seq<char>, data: Seq<char>|
            times > 0 && is_unmarked(payload) && #[trigger] is_trim_of(payload, data) && text
                == #[trigger] (repeated("data: "@, times) + payload),
{
    reveal_strlit("data: ");
    assert("data: "@.len() == 6);
    if !is_unmarked(text) {
        law_stripping_takes_off_every_prefix(text, "data: "@);
        let payload = stripped(text, "data: "@);
        let times = choose|times: nat|
            text == #[trigger] repeated("data: "@, times) + stripped(text, "data: "@);
        if times == 0 {
            assert(text =~= payload);
        }
        law_trimming_takes_off_white_space(payload);
        assert(is_trim_of(payload, trimmed(payload)));
        assert(text == repeated("data: "@, times) + payload);
    }
}

/// A line is read as its bytes say.
pub proof fn law_line_is_read(
    bytes: Vec<u8>,
    text: &str,
    document: Option<Json>,
    line: Line,
    text_read: Line,
    data_read: Line,
)
    requires
        call_ensures(read_line, (bytes,), line),
        call_ensures(read_text_line, (text,), text_read),
        call_ensures(read_data_line, (document, text), data_read),
    ensures
        bytes_read_as(bytes@, line@),
        text_reads_as(text@, text_read@),
        match document {
            Some(json) => data_read matches Line::Event(read) && read@ == json@,
            None => data_read matches Line::Verbatim(read) && read@ == text@,
        },
{
    lemma_byte_line(bytes@);
    lemma_text_line(text@);
}

/// `pieces` are lines, each ended by its only newline.
pub open spec fn are_lines(pieces: Seq<Seq<u8>>) -> bool {
    forall|i: int|
        0 <= i < pieces.len() ==> {
            &&& (#[trigger] pieces[i]).len() > 0
            &&& pieces[i].last() == 10
            &&& forall|j: int| 0 <= j < pieces[i].len() - 1 ==> pieces[i][j] != 10
        }
}

/// The pieces one after the other.
pub open spec fn put_together(pieces: Seq<Seq<u8>>) -> Seq<u8> {
    pieces.flatten()
}

proof fn lemma_joined(pieces: Seq<Seq<u8>>)
    ensures
        joined(pieces) == put_together(pieces),
    decreases pieces.len(),
{
    if pieces.len() > 0 {
        lemma_joined(pieces.skip(1));
        assert(pieces.skip(1) =~= pieces.drop_first());
    }
}

/// All lines that have ended are taken out and read, in order; what is left, put behind them, gives
/// back what was there, and holds no newline. A chunk is added at the end. The next line is the first
/// one that has ended.
pub proof fn law_lines_are_taken_in_order(chunk: &[u8])
    ensures
        forall|buffer: &mut LineBuffer, read: Vec<Line>| #[trigger]
            call_ensures(LineBuffer::take_lines, (buffer,), read) ==> exists|pieces: Seq<Seq<u8>>|
                {
                    &&& #[trigger] are_lines(pieces)
                    &&& (*buffer)@ == put_together(pieces) + (*final(buffer))@
                    &&& forall|i: int| 0 <= i < (*final(buffer))@.len() ==> (*final(buffer))@[i] != 10
                    &&& read@.len() == pieces.len()
                    &&& forall|i: int|
                        0 <= i < pieces.len() ==> bytes_read_as(pieces[i], (#[trigger] read@[i])@)
                },
        forall|buffer: &mut LineBuffer| #[trigger]
            call_ensures(LineBuffer::push, (buffer, chunk), ()) ==> (*final(buffer))@ == (*buffer)@
                + chunk@,
        forall|buffer: &mut LineBuffer, line: Option<Vec<u8>>| #[trigger]
            call_ensures(LineBuffer::next_line, (buffer,), line) ==> match line {
                Some(bytes) => are_lines(seq![bytes@]) && (*buffer)@ == bytes@ + (*final(buffer))@,
                None => (*final(buffer))@ == (*buffer)@ && forall|i: int|
                    0 <= i < (*buffer)@.len() ==> (*buffer)@[i] != 10,
            },
{
    assert forall|buffer: &mut LineBuffer, read: Vec<Line>| #[trigger]
        call_ensures(LineBuffer::take_lines, (buffer,), read) implies exists|
        pieces: Seq<Seq<u8>>,
    |
        {
            &&& #[trigger] are_lines(pieces)
            &&& (*buffer)@ == put_together(pieces) + (*final(buffer))@
            &&& forall|i: int| 0 <= i < (*final(buffer))@.len() ==> (*final(buffer))@[i] != 10
            &&& read@.len() == pieces.len()
            &&& forall|i: int|
                0 <= i < pieces.len() ==> bytes_read_as(pieces[i], (#[trigger] read@[i])@)
        } by {
        let bytes = (*buffer)@;
        let pieces = lines(bytes);
        law_lines_are_the_stream(bytes);
        lemma_joined(pieces);
        assert(lines_view(read@) == byte_lines(pieces));
        assert(lines_view(read@).len() == pieces.len());
        assert forall|i: int| 0 <= i < pieces.len() implies bytes_read_as(
            pieces[i],
            (#[trigger] read@[i])@,
        ) by {
            lemma_byte_line(pieces[i]);
            assert(lines_view(read@)[i] == read@[i]@);
            assert(byte_lines(pieces)[i] == byte_line(pieces[i]));
        }
        assert(are_lines(pieces)) by {
            assert forall|i: int| 0 <= i < pieces.len() implies {
                &&& (#[trigger] pieces[i]).len() > 0
                &&& pieces[i].last() == 10
                &&& forall|j: int| 0 <= j < pieces[i].len() - 1 ==> pieces[i][j] != 10
            } by {
                assert(is_line(pieces[i]));
                let body = pieces[i].drop_last();
                assert forall|j: int| 0 <= j < pieces[i].len() - 1 implies pieces[i][j] != 10 by {
                    assert(body[j] == pieces[i][j]);
                }
            }
        }
        let rest = unfinished(bytes);
        assert forall|i: int| 0 <= i < rest.len() implies rest[i] != 10 by {
            assert(rest.contains(rest[i]));
        }
    }
    assert forall|buffer: &mut LineBuffer, line: Option<Vec<u8>>| #[trigger]
        call_ensures(LineBuffer::next_line, (buffer,), line) implies match line {
        Some(bytes) => are_lines(seq![bytes@]) && (*buffer)@ == bytes@ + (*final(buffer))@,
        None => (*final(buffer))@ == (*buffer)@ && forall|i: int|
            0 <= i < (*buffer)@.len() ==> (*buffer)@[i] != 10,
    } by {
        let all = (*buffer)@;
        lemma_line_len(all);
        match line {
            Some(bytes) => {
                assert(all =~= bytes@ + (*final(buffer))@);
                assert forall|j: int| 0 <= j < bytes@.len() - 1 implies bytes@[j] != 10 by {
                    assert(all[j] == bytes@[j]);
                }
                assert(bytes@.last() == all[line_len(all) - 1]);
            },
            None => {
                assert forall|i: int| 0 <= i < all.len() implies all[i] != 10 by {
                    assert(all.contains(all[i]));
                }
            },
        }
    }
}

/// A buffer has room while four times what it would hold can be counted.
pub proof fn law_room_is_left(buffer: &LineBuffer, more: usize, room: bool)
    requires
        call_ensures(LineBuffer::has_room_for, (buffer, more), room),
    ensures
        room <==> 4 * (buffer@.len() + more) <= isize::MAX,
{
}

/// An event frames the text that it carries, or the response in a document; the end of a stream is an
/// event of its own.
pub proof fn law_events_frame_what_they_carry(
    rendered: &str,
    document: Json,
    framed: String,
    response: String,
)
    requires
        call_ensures(event_with, (rendered,), framed),
        call_ensures(response_event, (document,), response),
    ensures
        framed@ == "data: "@ + rendered@ + "\n\n"@,
        carries_response(response@, document@),
        DONE_EVENT@ == "data: [DONE]\n\n"@,
{
    lemma_response(document@);
}

/// The first event of a stream tells the trace of the upstream, and nothing else.
pub proof fn law_trace_is_told(trace_id: &str, meta: Json, chunk: String)
    requires
        call_ensures(trace_meta, (trace_id,), meta),
        call_ensures(trace_event, (trace_id,), chunk),
    ensures
        carries(chunk@, meta@),
        has_members(meta@, set!["__cloudCodeMeta"@]),
        ({
            let inner = meta@->Object_0["__cloudCodeMeta"@];
            has_members(inner, set!["traceId"@]) && says(
                inner,
                "traceId"@,
                JsonTree::Text(trace_id@),
            )
        }),
{
    assert(meta@->Object_0.dom() =~= set!["__cloudCodeMeta"@]);
    let inner = meta@->Object_0["__cloudCodeMeta"@];
    assert(inner->Object_0.dom() =~= set!["traceId"@]);
}

/// A stream that broke off is told as a chunk of the session and the model, whose one choice carries
/// the error as its content and ends with it.
pub proof fn law_broken_stream_is_told(
    session_id: &str,
    model: &str,
    error: &str,
    document: Json,
    chunk: String,
)
    requires
        call_ensures(broken_stream, (session_id, model, error), document),
        call_ensures(broken_event, (session_id, model, error), chunk),
    ensures
        carries(chunk@, document@),
        has_members(document@, set!["id"@, "object"@, "model"@, "choices"@]),
        says(document@, "id"@, JsonTree::Text(session_id@)),
        says(document@, "object"@, JsonTree::Text("chat.completion.chunk"@)),
        says(document@, "model"@, JsonTree::Text(model@)),
        document@->Object_0["choices"@] is Array,
        document@->Object_0["choices"@]->Array_0.len() == 1,
        ({
            let choice = document@->Object_0["choices"@]->Array_0[0];
            &&& has_members(choice, set!["index"@, "delta"@, "finish_reason"@])
            &&& says(choice, "index"@, JsonTree::Number(json_integer(0)))
            &&& says(choice, "finish_reason"@, JsonTree::Text("error"@))
            &&& {
                let delta = choice->Object_0["delta"@];
                &&& has_members(delta, set!["content"@])
                &&& says(delta, "content"@, JsonTree::Text("\n[Stream Error] "@ + error@))
            }
        }),
{
    reveal_strlit("id");
    reveal_strlit("object");
    reveal_strlit("model");
    reveal_strlit("choices");
    reveal_strlit("index");
    reveal_strlit("delta");
    reveal_strlit("finish_reason");
    assert("id"@.len() == 2 && "object"@.len() == 6 && "model"@.len() == 5 && "choices"@.len() == 7);
    assert("index"@.len() == 5 && "delta"@.len() == 5 && "finish_reason"@.len() == 13);
    assert("index"@[0] != "delta"@[0]);
    assert(document@->Object_0.dom() =~= set!["id"@, "object"@, "model"@, "choices"@]);
    let choice = document@->Object_0["choices"@]->Array_0[0];
    assert(choice->Object_0.dom() =~= set!["index"@, "delta"@, "finish_reason"@]);
    let delta = choice->Object_0["delta"@];
    assert(delta->Object_0.dom() =~= set!["content"@]);
}

} // verus!
