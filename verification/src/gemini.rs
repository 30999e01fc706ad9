//! Requests and replies of the Gemini protocol.

use crate::json::{items_tree, json_integer, Json, JsonTree};
use crate::models::Refusal;
use crate::pool_retry::{str_view, string_view};
use crate::text;
use crate::text::{decimal, occurs};
use vstd::prelude::*;
use vstd::string::*;

verus! {

/// A request for content.
pub struct GenerateRequest {
    /// The model that the client names.
    pub model_name: String,
    /// Whether the client wants the content as a stream.
    pub client_wants_stream: bool,
}

/// `path` is a model and a method, parted by the last colon; without a colon it is a model and
/// the method is to generate content.
pub open spec fn is_split(path: Seq<char>, model: Seq<char>, method: Seq<char>) -> bool {
    if path.contains(':') {
        path == model + seq![':'] + method && !method.contains(':')
    } else {
        path == model && method == "generateContent"@
    }
}

/// A method that generates content.
pub open spec fn is_generate_method(method: Seq<char>) -> bool {
    method == "generateContent"@ || method == "streamGenerateContent"@
}

/// Parts a path into a model and a method.
pub fn split_model_action(path: &str) -> (parts: (String, String))
    ensures
        is_split(path@, parts.0@, parts.1@),
{
    match text::rfind(path, ':') {
        Some(i) => {
            let total: usize = path.unicode_len();
            let model = path.substring_char(0, i);
            let method = path.substring_char(i + 1, total);
            proof {
                assert(path@ =~= model@ + seq![':'] + method@);
                assert(method@ =~= path@.skip(i + 1));
                assert(path@.contains(path@[i as int]));
            }
            (model.to_owned(), method.to_owned())
        },
        None => (path.to_owned(), "generateContent".to_owned()),
    }
}

/// A path can be parted in one way only.
pub proof fn law_split_is_unique(
    path: Seq<char>,
    model: Seq<char>,
    method: Seq<char>,
    other_model: Seq<char>,
    other_method: Seq<char>,
)
    requires
        is_split(path, model, method),
        is_split(path, other_model, other_method),
    ensures
        model == other_model,
        method == other_method,
{
    if path.contains(':') {
        let i = model.len() as int;
        let j = other_model.len() as int;
        assert(path[i] == ':' && path[j] == ':');
        if i < j {
            assert(method[j - i - 1] == path[j]);
        }
        if j < i {
            assert(other_method[i - j - 1] == path[i]);
        }
        assert(model =~= path.take(i));
        assert(other_model =~= path.take(j));
        assert(method =~= path.skip(i + 1));
        assert(other_method =~= path.skip(j + 1));
    }
}

/// Reads the path of a request for content; a refusal where the method is none that generates
/// content.
pub fn parse_generate_request(path: &str) -> (request: Result<GenerateRequest, Refusal>)
    ensures
        exists|model: Seq<char>, method: Seq<char>| #[trigger]
            is_split(path@, model, method) && match request {
                Ok(request) => is_generate_method(method) && request.model_name@ == model
                    && request.client_wants_stream == (method == "streamGenerateContent"@),
                Err(refusal) => !is_generate_method(method) && refusal.status == 400
                    && refusal.message@ == "Unsupported method: "@ + method,
            },
{
    let (model_name, method) = split_model_action(path);
    let streams = text::same(method.as_str(), "streamGenerateContent");
    if !streams && !text::same(method.as_str(), "generateContent") {
        let mut message = "Unsupported method: ".to_owned();
        message.append(method.as_str());
        return Err(Refusal { status: 400, message });
    }
    Ok(GenerateRequest { model_name, client_wants_stream: streams })
}

/// How the upstream is called.
pub struct UpstreamCall {
    pub method: &'static str,
    pub query: Option<&'static str>,
}

/// How the upstream is called: always for a stream, also where the client wants none.
pub fn upstream_call(client_wants_stream: bool) -> (call: UpstreamCall)
    ensures
        call.method@ == "streamGenerateContent"@,
        str_view(call.query) == Some("alt=sse"@),
{
    let force_stream_internally = !client_wants_stream;
    if client_wants_stream || force_stream_internally {
        UpstreamCall { method: "streamGenerateContent", query: Some("alt=sse") }
    } else {
        UpstreamCall { method: "generateContent", query: None }
    }
}

/// The text in Unicode small letters, by `str::to_lowercase`.
pub uninterp spec fn unicode_lowercase(text: Seq<char>) -> Seq<char>;

/// `str::to_lowercase`: the result depends on the text alone; what it is, is not stated.
#[verifier::external_body]
fn to_lowercase(text: &str) -> (out: String)
    ensures
        out@ == unicode_lowercase(text@),
{
    text.to_lowercase()
}

/// The value of the header that turns on what a family of models offers beyond the usual.
pub open spec fn beta_features(family: Seq<char>) -> Seq<char> {
    family
        + "-code-20250219,interleaved-thinking-2025-05-14,fine-grained-tool-streaming-2025-05-14"@
}

/// A header: its name and its value.
#[derive(Debug, PartialEq, Eq)]
pub struct Header {
    pub name: &'static str,
    pub value: String,
}

/// The header that the models of `family` are asked with; none where that word does not stand in
/// `lowercase`, the name of the model in small letters.
pub fn beta_header_for(lowercase: &str, family: &str) -> (header: Option<Header>)
    ensures
        match header {
            Some(header) => occurs(lowercase@, family@) && header.name@ == "anthropic-beta"@
                && header.value@ == beta_features(family@),
            None => !occurs(lowercase@, family@),
        },
{
    if !text::contains(lowercase, family) {
        return None;
    }
    let mut value = family.to_owned();
    value.append(
        "-code-20250219,interleaved-thinking-2025-05-14,fine-grained-tool-streaming-2025-05-14",
    );
    Some(Header { name: "anthropic-beta", value })
}

/// The header that a model is asked with where its name, in whatever letters, holds that of
/// `family`.
pub fn beta_header(mapped_model: &str, family: &str) -> (header: Option<Header>)
    ensures
        match header {
            Some(header) => occurs(unicode_lowercase(mapped_model@), family@) && header.name@
                == "anthropic-beta"@ && header.value@ == beta_features(family@),
            None => !occurs(unicode_lowercase(mapped_model@), family@),
        },
{
    let lowercase = to_lowercase(mapped_model);
    beta_header_for(lowercase.as_str(), family)
}

/// The tools that an entry of a request declares: its function declarations, or the entry itself.
pub open spec fn declared_tools(entry: JsonTree) -> Seq<JsonTree> {
    match entry.member("functionDeclarations"@) {
        Some(JsonTree::Array(declarations)) => declarations,
        _ => seq![entry],
    }
}

/// The tools that the entries of a request declare, in order.
pub open spec fn all_declared_tools(entries: Seq<JsonTree>) -> Seq<JsonTree>
    decreases entries.len(),
{
    if entries.len() == 0 {
        Seq::empty()
    } else {
        all_declared_tools(entries.drop_last()) + declared_tools(entries.last())
    }
}

/// The tools that a request declares; `None` where it has no list of tools.
pub open spec fn request_tools(body: JsonTree) -> Option<Seq<JsonTree>> {
    match body.member("tools"@) {
        Some(JsonTree::Array(entries)) => Some(all_declared_tools(entries)),
        _ => None,
    }
}

/// The tools that a request declares, function declarations one by one; `None` where it has no
/// list of tools.
pub fn flatten_tools(body: Json) -> (tools: Option<Vec<Json>>)
    ensures
        request_tools(body@) == match tools {
            Some(tools) => Some(items_tree(tools@)),
            None => None,
        },
{
    let entries = match body.into_member("tools") {
        Ok(Json::Array(entries)) => entries,
        _ => return None,
    };
    let ghost all = entries@;
    let ghost trees = items_tree(all);
    let mut tools: Vec<Json> = Vec::new();
    assert(items_tree(tools@) =~= all_declared_tools(trees.take(0)));
    for entry in it: entries.into_iter()
        invariant
            it.seq() == all,
            trees == items_tree(all),
            items_tree(tools@) == all_declared_tools(trees.take(it.index() as int)),
    {
        let ghost i = it.index() as int;
        let ghost before = tools@;
        proof {
            assert(trees[i] == entry@);
            assert(trees.take(i + 1).drop_last() =~= trees.take(i));
            assert(trees.take(i + 1).last() == entry@);
        }
        let nested = match entry.get("functionDeclarations") {
            Some(member) => member.as_array().is_some(),
            None => false,
        };
        if nested {
            if let Ok(Json::Array(declarations)) = entry.into_member("functionDeclarations") {
                let mut declarations = declarations;
                let ghost declared = declarations@;
                tools.append(&mut declarations);
                assert(items_tree(tools@) =~= items_tree(before) + items_tree(declared));
            }
        } else {
            tools.push(entry);
            assert(items_tree(tools@) =~= items_tree(before) + seq![entry@]);
        }
    }
    assert(trees.take(all.len() as int) =~= trees);
    Some(tools)
}

/// The response in a document: what its member `response` holds, or the document itself.
pub open spec fn enclosed(document: JsonTree) -> JsonTree {
    match document.member("response"@) {
        Some(response) => response,
        None => document,
    }
}

/// The response in a document.
pub fn unwrap_envelope(document: Json) -> (response: Json)
    ensures
        response@ == enclosed(document@),
{
    match document.into_member("response") {
        Ok(response) => response,
        Err(document) => document,
    }
}

/// The thought signature of a part, if it has one.
pub open spec fn part_signature(part: JsonTree) -> Option<Seq<char>> {
    match part.member("thoughtSignature"@) {
        Some(JsonTree::Text(signature)) => Some(signature),
        _ => None,
    }
}

/// The thought signatures of parts, in order.
pub open spec fn part_signatures(parts: Seq<JsonTree>) -> Seq<Seq<char>>
    decreases parts.len(),
{
    if parts.len() == 0 {
        Seq::empty()
    } else {
        let front = part_signatures(parts.drop_last());
        match part_signature(parts.last()) {
            Some(signature) => front.push(signature),
            None => front,
        }
    }
}

/// The parts of the content of a candidate.
pub open spec fn candidate_parts(candidate: JsonTree) -> Seq<JsonTree> {
    match candidate.member("content"@) {
        Some(content) => match content.member("parts"@) {
            Some(JsonTree::Array(parts)) => parts,
            _ => Seq::empty(),
        },
        None => Seq::empty(),
    }
}

/// The thought signatures of candidates, in order.
pub open spec fn candidate_signatures(candidates: Seq<JsonTree>) -> Seq<Seq<char>>
    decreases candidates.len(),
{
    if candidates.len() == 0 {
        Seq::empty()
    } else {
        candidate_signatures(candidates.drop_last()) + part_signatures(
            candidate_parts(candidates.last()),
        )
    }
}

/// The thought signatures of a response, in order.
pub open spec fn response_signatures(document: JsonTree) -> Seq<Seq<char>> {
    match enclosed(document).member("candidates"@) {
        Some(JsonTree::Array(candidates)) => candidate_signatures(candidates),
        _ => Seq::empty(),
    }
}

/// The characters of strings, one by one.
pub open spec fn strings_view(strings: Seq<String>) -> Seq<Seq<char>> {
    Seq::new(strings.len(), |i: int| strings[i]@)
}

/// Adds the thought signatures of the parts of a candidate.
fn push_signatures(candidate: &Json, signatures: &mut Vec<String>)
    ensures
        strings_view(final(signatures)@) == strings_view(old(signatures)@) + part_signatures(
            candidate_parts(candidate@),
        ),
{
    let parts = match candidate.get("content") {
        Some(content) => match content.get("parts") {
            Some(parts) => parts.as_array(),
            None => None,
        },
        None => None,
    };
    let ghost before = strings_view(signatures@);
    match parts {
        Some(parts) => {
            let ghost trees = items_tree(parts@);
            let mut i: usize = 0;
            assert(before + part_signatures(trees.take(0)) =~= before);
            while i < parts.len()
                invariant
                    trees == items_tree(parts@),
                    i <= parts@.len(),
                    strings_view(signatures@) == before + part_signatures(trees.take(i as int)),
                decreases parts@.len() - i,
            {
                let part = &parts[i];
                proof {
                    assert(trees[i as int] == part@);
                    assert(trees.take(i + 1).drop_last() =~= trees.take(i as int));
                    assert(trees.take(i + 1).last() == part@);
                }
                let ghost held = signatures@;
                if let Some(member) = part.get("thoughtSignature") {
                    if let Some(signature) = member.as_str() {
                        signatures.push(signature.to_owned());
                        assert(strings_view(signatures@) =~= strings_view(held).push(signature@));
                        assert(strings_view(signatures@) =~= before + part_signatures(
                            trees.take(i + 1),
                        ));
                    }
                }
                i = i + 1;
            }
            assert(trees.take(i as int) =~= trees);
        },
        None => {
            assert(before + Seq::<Seq<char>>::empty() =~= before);
        },
    }
}

/// The thought signatures of a response, in order.
pub fn thought_signatures(document: &Json) -> (signatures: Vec<String>)
    ensures
        strings_view(signatures@) == response_signatures(document@),
{
    let response = match document.get("response") {
        Some(response) => response,
        None => document,
    };
    let mut signatures: Vec<String> = Vec::new();
    assert(strings_view(signatures@) =~= Seq::<Seq<char>>::empty());
    let candidates = match response.get("candidates") {
        Some(candidates) => candidates.as_array(),
        None => None,
    };
    if let Some(candidates) = candidates {
        let ghost trees = items_tree(candidates@);
        let mut i: usize = 0;
        assert(strings_view(signatures@) =~= candidate_signatures(trees.take(0)));
        while i < candidates.len()
            invariant
                trees == items_tree(candidates@),
                i <= candidates@.len(),
                strings_view(signatures@) == candidate_signatures(trees.take(i as int)),
            decreases candidates@.len() - i,
        {
            proof {
                assert(trees[i as int] == candidates@[i as int]@);
                assert(trees.take(i + 1).drop_last() =~= trees.take(i as int));
                assert(trees.take(i + 1).last() == candidates@[i as int]@);
            }
            push_signatures(&candidates[i], &mut signatures);
            i = i + 1;
        }
        assert(trees.take(i as int) =~= trees);
    }
    signatures
}

/// The part that asks the model to leave out a signature that was not accepted.
pub open spec fn repair_part() -> JsonTree {
    JsonTree::Object(
        map![
        "text"@ => JsonTree::Text("\n\n[System Recovery] Your previous output contained an invalid signature. Please regenerate the response without the corrupted signature block."@)
    ],
    )
}

/// The parts of a content with the repair part added.
pub open spec fn repaired_parts(parts: JsonTree) -> JsonTree {
    match parts {
        JsonTree::Array(items) => JsonTree::Array(items.push(repair_part())),
        other => other,
    }
}

/// A content with the repair part added to its parts.
pub open spec fn repaired_content(content: JsonTree) -> JsonTree {
    match content.member("parts"@) {
        Some(parts) => JsonTree::Object(
            content->Object_0.insert("parts"@, repaired_parts(parts)),
        ),
        None => content,
    }
}

/// Contents with the repair part added to the last one.
pub open spec fn repaired_contents(contents: JsonTree) -> JsonTree {
    match contents {
        JsonTree::Array(items) => if items.len() > 0 {
            JsonTree::Array(items.update(items.len() - 1, repaired_content(items.last())))
        } else {
            contents
        },
        other => other,
    }
}

/// A request with the repair part added to its last content.
pub open spec fn repaired_request(body: JsonTree) -> JsonTree {
    match body.member("contents"@) {
        Some(contents) => JsonTree::Object(
            body->Object_0.insert("contents"@, repaired_contents(contents)),
        ),
        None => body,
    }
}

fn repair_parts(parts: Json) -> (out: Json)
    ensures
        out@ == repaired_parts(parts@),
{
    match parts {
        Json::Array(items) => {
            let mut items = items;
            let ghost before = items@;
            items.push(
                Json::object().with(
                    "text",
                    Json::text(
                        "\n\n[System Recovery] Your previous output contained an invalid signature. Please regenerate the response without the corrupted signature block.",
                    ),
                ),
            );
            assert(items_tree(items@) =~= items_tree(before).push(repair_part()));
            Json::Array(items)
        },
        other => other,
    }
}

fn repair_content(content: Json) -> (out: Json)
    ensures
        out@ == repaired_content(content@),
{
    match content.detach("parts") {
        Ok((hole, parts)) => hole.fill(repair_parts(parts)),
        Err(content) => content,
    }
}

fn repair_contents(contents: Json) -> (out: Json)
    ensures
        out@ == repaired_contents(contents@),
{
    match contents {
        Json::Array(items) => {
            let mut items = items;
            let ghost before = items@;
            match items.pop() {
                Some(last) => {
                    items.push(repair_content(last));
                    assert(items_tree(items@) =~= items_tree(before).update(
                        before.len() - 1,
                        repaired_content(items_tree(before).last()),
                    ));
                    Json::Array(items)
                },
                None => Json::Array(items),
            }
        },
        other => other,
    }
}

/// Adds to the last content of a request the part that asks the model to leave out a signature
/// that was not accepted. A request without contents stays as it is.
pub fn repair_request(body: Json) -> (out: Json)
    ensures
        out@ == repaired_request(body@),
{
    match body.detach("contents") {
        Ok((hole, contents)) => hole.fill(repair_contents(contents)),
        Err(body) => body,
    }
}

/// `axum::http::StatusCode::from_u16` accepts the numbers of three digits.
#[verifier::external_body]
fn is_status_code(code: u16) -> (valid: bool)
    ensures
        valid == (100 <= code <= 999),
{
    axum::http::StatusCode::from_u16(code).is_ok()
}

/// A character that a header value can hold: no control character but the tab.
pub open spec fn is_header_char(c: char) -> bool {
    (c as u32 >= 32 && c as u32 != 127) || c == '\t'
}

/// A text that a header value can be.
pub open spec fn is_header_text(text: Seq<char>) -> bool {
    forall|i: int| 0 <= i < text.len() ==> is_header_char(#[trigger] text[i])
}

/// `axum::http::HeaderValue::from_str` accepts a text without control characters, the tab
/// excepted. (It looks at the bytes; those of a character beyond ASCII are all accepted.)
#[verifier::external_body]
fn is_header_value(text: &str) -> (valid: bool)
    ensures
        valid == is_header_text(text@),
{
    axum::http::HeaderValue::from_str(text).is_ok()
}

/// The reply to a request that failed.
#[derive(Debug, PartialEq, Eq)]
pub struct ErrorReply {
    pub status: u16,
    pub body: Json,
    /// The header `x-account-email`.
    pub account_email: Option<String>,
    /// The header `x-mapped-model`.
    pub mapped_model: Option<String>,
    /// The header `retry-after`.
    pub retry_after: Option<String>,
}

/// What an [`ErrorReply`] says.
pub struct ReplyView {
    pub status: u16,
    pub body: JsonTree,
    pub account_email: Option<Seq<char>>,
    pub mapped_model: Option<Seq<char>>,
    pub retry_after: Option<Seq<char>>,
}

impl View for ErrorReply {
    type V = ReplyView;

    open spec fn view(&self) -> ReplyView {
        ReplyView {
            status: self.status,
            body: self.body@,
            account_email: string_view(self.account_email),
            mapped_model: string_view(self.mapped_model),
            retry_after: string_view(self.retry_after),
        }
    }
}

/// `status` where it is one, else 502.
pub open spec fn reply_status(status: u16) -> u16 {
    if 100 <= status <= 999 {
        status
    } else {
        502
    }
}

/// The document that tells of a failure.
pub open spec fn error_document(status: u16, message: Seq<char>) -> JsonTree {
    JsonTree::Object(
        map![
        "error"@ => JsonTree::Object(map![
            "code"@ => JsonTree::Number(json_integer(status as u64)),
            "message"@ => JsonTree::Text(message),
            "status"@ => JsonTree::Text("UPSTREAM_ERROR"@)
        ])
    ],
    )
}

/// A header of this value, where it can be one.
pub open spec fn header_text(value: Option<Seq<char>>) -> Option<Seq<char>> {
    match value {
        Some(text) => if is_header_text(text) {
            Some(text)
        } else {
            None
        },
        None => None,
    }
}

/// The reply to a request that failed.
pub open spec fn error_reply(
    status: u16,
    message: Seq<char>,
    email: Option<Seq<char>>,
    mapped_model: Option<Seq<char>>,
    retry_after: Option<Seq<char>>,
) -> ReplyView {
    ReplyView {
        status: reply_status(status),
        body: error_document(reply_status(status), message),
        account_email: header_text(email),
        mapped_model: header_text(mapped_model),
        retry_after: header_text(retry_after),
    }
}

fn header_of(value: Option<&str>) -> (header: Option<String>)
    ensures
        string_view(header) == header_text(str_view(value)),
{
    match value {
        Some(text) => if is_header_value(text) {
            Some(text.to_owned())
        } else {
            None
        },
        None => None,
    }
}

/// The reply to a request that failed. A header whose value is none that a header can have is left
/// out.
pub fn gemini_error_response(
    status_code: u16,
    error_text: &str,
    email: Option<&str>,
    mapped_model: Option<&str>,
    retry_after: Option<&str>,
) -> (reply: ErrorReply)
    ensures
        reply@ == error_reply(
            status_code,
            error_text@,
            str_view(email),
            str_view(mapped_model),
            str_view(retry_after),
        ),
{
    let status: u16 = if is_status_code(status_code) {
        status_code
    } else {
        502
    };
    let error = Json::object().with("code", Json::integer(status as u64)).with(
        "message",
        Json::text(error_text),
    ).with("status", Json::text("UPSTREAM_ERROR"));
    ErrorReply {
        status,
        body: Json::object().with("error", error),
        account_email: header_of(email),
        mapped_model: header_of(mapped_model),
        retry_after: header_of(retry_after),
    }
}

/// The name by which a request is told apart in the logs, by the milliseconds of the second in which
/// it came.
pub fn trace_id(subsec_millis: u32) -> (id: String)
    ensures
        id@ == "req_"@ + decimal(subsec_millis as nat),
{
    let mut id = "req_".to_owned();
    id.append(text::decimal_of(subsec_millis as u64).as_str());
    id
}

/// The refusal of a request whose stream could not be collected into one document.
pub fn refuse_uncollected(error: &str) -> (refusal: Refusal)
    ensures
        refusal.status == 500,
        refusal.message@ == "Stream collection error: "@ + error@,
{
    let mut message = "Stream collection error: ".to_owned();
    message.append(error);
    Refusal { status: 500, message }
}

/// The error that stands for a body that could not be read.
pub fn unread_error(status_code: u16) -> (error: String)
    ensures
        error@ == "HTTP "@ + decimal(status_code as nat),
{
    let mut error = "HTTP ".to_owned();
    error.append(text::decimal_of(status_code as u64).as_str());
    error
}

} // verus!
