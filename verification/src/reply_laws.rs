//! What requests are read as and what replies say, said of their results.

use crate::gemini::{
    all_declared_tools, beta_header, beta_header_for, candidate_parts, candidate_signatures,
    declared_tools, enclosed, error_document, error_reply, flatten_tools, gemini_error_response,
    header_text, is_generate_method, is_header_char, is_split, law_split_is_unique,
    parse_generate_request, part_signatures, refuse_uncollected, repair_part, repair_request,
    repaired_content, split_model_action, strings_view, thought_signatures, trace_id,
    unicode_lowercase, unread_error, unwrap_envelope, upstream_call, ErrorReply, GenerateRequest,
    Header, UpstreamCall,
};
use crate::json::{items_tree, json_integer, Json, JsonTree};
use crate::models::{
    describe_model, list_model, list_models, list_models_of, listing, no_tokens, refuse_without_token,
    requested_model, summarize_model, Refusal,
};
use crate::pool_retry::string_view;
use crate::text::decimal;
use crate::text_laws::{
    is_numeral_of, law_numeral_stands_for_its_number, law_occurrence_is_a_split, stands_in,
};
use vstd::prelude::*;
use vstd::string::*;

verus! {

/// The member `key` of the document is `member`.
pub open spec fn says(tree: JsonTree, key: Seq<char>, member: JsonTree) -> bool {
    tree is Object && tree->Object_0.contains_key(key) && tree->Object_0[key] == member
}

/// The document is an object with these members and no other.
pub open spec fn has_members(tree: JsonTree, keys: Set<Seq<char>>) -> bool {
    tree is Object && tree->Object_0.dom() == keys
}

/// The document tells of a failure: under `error` the code, the message and that the upstream failed,
/// and nothing else.
pub open spec fn tells_failure(tree: JsonTree, code: u16, message: Seq<char>) -> bool {
    &&& has_members(tree, set!["error"@])
    &&& tree->Object_0.contains_key("error"@)
    &&& {
        let error = tree->Object_0["error"@];
        &&& has_members(error, set!["code"@, "message"@, "status"@])
        &&& says(error, "code"@, JsonTree::Number(json_integer(code as u64)))
        &&& says(error, "message"@, JsonTree::Text(message))
        &&& says(error, "status"@, JsonTree::Text("UPSTREAM_ERROR"@))
    }
}

/// The document that an error reply has tells of the failure.
pub proof fn lemma_error_document(code: u16, message: Seq<char>)
    ensures
        tells_failure(error_document(code, message), code, message),
{
    reveal_strlit("code");
    reveal_strlit("message");
    reveal_strlit("status");
    let tree = error_document(code, message);
    assert(tree->Object_0.dom() =~= set!["error"@]);
    let error = tree->Object_0["error"@];
    assert(error->Object_0.dom() =~= set!["code"@, "message"@, "status"@]);
    assert("code"@.len() == 4 && "message"@.len() == 7 && "status"@.len() == 6);
}

/// A character that a header can hold.
pub open spec fn fits_header(c: char) -> bool {
    c as u32 == 9 || (32 <= c as u32 && c as u32 != 127)
}

/// `header` is `value` where every character of it fits, else nothing.
pub open spec fn is_header_of(header: Option<String>, value: Option<Seq<char>>) -> bool {
    match value {
        Some(text) => if forall|i: int| 0 <= i < text.len() ==> fits_header(#[trigger] text[i]) {
            header matches Some(kept) && kept@ == text
        } else {
            header is None
        },
        None => header is None,
    }
}

/// `reply` tells of a failure with this status (502 where it is none), this message and these
/// headers.
pub open spec fn replies_with(
    reply: ErrorReply,
    status: u16,
    message: Seq<char>,
    email: Option<Seq<char>>,
    mapped_model: Option<Seq<char>>,
    retry_after: Option<Seq<char>>,
) -> bool {
    &&& 100 <= status <= 999 ==> reply.status == status
    &&& !(100 <= status <= 999) ==> reply.status == 502
    &&& tells_failure(reply.body@, reply.status, message)
    &&& is_header_of(reply.account_email, email)
    &&& is_header_of(reply.mapped_model, mapped_model)
    &&& is_header_of(reply.retry_after, retry_after)
}

/// The characters of an optional text.
pub open spec fn characters(text: Option<&str>) -> Option<Seq<char>> {
    match text {
        Some(text) => Some(text@),
        None => None,
    }
}

/// An error reply has the status of the failure, tells it and the message in its body, and carries the
/// account, the model and the `Retry-After` where a header can hold them.
pub proof fn law_error_reply(
    status: u16,
    message: &str,
    email: Option<&str>,
    mapped_model: Option<&str>,
    retry_after: Option<&str>,
    reply: ErrorReply,
)
    requires
        call_ensures(
            gemini_error_response,
            (status, message, email, mapped_model, retry_after),
            reply,
        ),
    ensures
        replies_with(
            reply,
            status,
            message@,
            characters(email),
            characters(mapped_model),
            characters(retry_after),
        ),
{
    lemma_reply(
        reply,
        status,
        message@,
        characters(email),
        characters(mapped_model),
        characters(retry_after),
    );
}

/// A reply that says what an error reply does tells of the failure.
pub proof fn lemma_reply(
    reply: ErrorReply,
    status: u16,
    message: Seq<char>,
    email: Option<Seq<char>>,
    mapped_model: Option<Seq<char>>,
    retry_after: Option<Seq<char>>,
)
    requires
        reply@ == error_reply(status, message, email, mapped_model, retry_after),
    ensures
        replies_with(reply, status, message, email, mapped_model, retry_after),
{
    lemma_error_document(reply.status, message);
    lemma_header(reply.account_email, email);
    lemma_header(reply.mapped_model, mapped_model);
    lemma_header(reply.retry_after, retry_after);
}

proof fn lemma_header(header: Option<String>, value: Option<Seq<char>>)
    requires
        string_view(header) == header_text(value),
    ensures
        is_header_of(header, value),
{
    if let Some(text) = value {
        assert forall|i: int| 0 <= i < text.len() implies fits_header(#[trigger] text[i])
            == is_header_char(text[i]) by {
            lemma_header_char(text[i]);
        }
    }
}

proof fn lemma_header_char(c: char)
    ensures
        fits_header(c) == is_header_char(c),
{
}

/// A path is a model and a method around its last colon, or a model that content is to be generated
/// with. Only the two methods that generate content are served; any other is refused by name.
pub proof fn law_path_names_model_and_method(
    path: &str,
    model: Seq<char>,
    method: Seq<char>,
    parts: (String, String),
    request: Result<GenerateRequest, Refusal>,
)
    requires
        call_ensures(split_model_action, (path,), parts),
        call_ensures(parse_generate_request, (path,), request),
        !method.contains(':'),
        path@ == model + ":"@ + method || (path@ == model && !model.contains(':') && method
            == "generateContent"@),
    ensures
        parts.0@ == model,
        parts.1@ == method,
        method == "generateContent"@ ==> (request matches Ok(read) && read.model_name@ == model
            && !read.client_wants_stream),
        method == "streamGenerateContent"@ ==> (request matches Ok(read) && read.model_name@ == model
            && read.client_wants_stream),
        method != "generateContent"@ && method != "streamGenerateContent"@ ==> (
        request matches Err(refusal) && refusal.status == 400 && refusal.message@
            == "Unsupported method: "@ + method),
{
    reveal_strlit(":");
    reveal_strlit("generateContent");
    reveal_strlit("streamGenerateContent");
    assert("generateContent"@.len() == 15 && "streamGenerateContent"@.len() == 21);
    if path@ == model + ":"@ + method {
        assert(path@[model.len() as int] == ':');
        assert(path@.contains(':'));
        assert(":"@ =~= seq![':']);
    }
    assert(is_split(path@, model, method));
    law_split_is_unique(path@, model, method, parts.0@, parts.1@);
    let (read_model, read_method) = choose|read_model: Seq<char>, read_method: Seq<char>|
        #[trigger] is_split(path@, read_model, read_method) && match request {
            Ok(request) => is_generate_method(read_method) && request.model_name@ == read_model
                && request.client_wants_stream == (read_method == "streamGenerateContent"@),
            Err(refusal) => !is_generate_method(read_method) && refusal.status == 400
                && refusal.message@ == "Unsupported method: "@ + read_method,
        };
    law_split_is_unique(path@, model, method, read_model, read_method);
}

/// The upstream is asked for a stream, whatever the client wants; a model of the family, in whatever
/// letters it is named, is asked with the beta header.
pub proof fn law_upstream_is_asked_for_a_stream(
    wanted: bool,
    mapped_model: &str,
    lowercase: &str,
    family: &str,
    call: UpstreamCall,
    header: Option<Header>,
    header_as: Option<Header>,
)
    requires
        call_ensures(upstream_call, (wanted,), call),
        call_ensures(beta_header_for, (lowercase, family), header_as),
        call_ensures(beta_header, (mapped_model, family), header),
    ensures
        call.method@ == "streamGenerateContent"@,
        call.query matches Some(query) && query@ == "alt=sse"@,
        header is Some <==> stands_in(unicode_lowercase(mapped_model@), family@),
        header_as is Some <==> stands_in(lowercase@, family@),
        header is Some && header_as is Some ==> header->0.name@ == header_as->0.name@
            && header->0.value@ == header_as->0.value@,
        header_as matches Some(header) ==> header.name@ == "anthropic-beta"@,
        header matches Some(header) ==> header.name@ == "anthropic-beta"@ && header.value@ == family@
            + "-code-20250219,interleaved-thinking-2025-05-14,fine-grained-tool-streaming-2025-05-14"@,
{
    law_occurrence_is_a_split(unicode_lowercase(mapped_model@), family@);
    law_occurrence_is_a_split(lowercase@, family@);
}

/// What the member `key` of a document is an array of; nothing where it is none.
pub open spec fn list_of(tree: JsonTree, key: Seq<char>) -> Seq<JsonTree> {
    if tree is Object && tree->Object_0.contains_key(key) && tree->Object_0[key] is Array {
        tree->Object_0[key]->Array_0
    } else {
        Seq::empty()
    }
}

/// The member `key` of a document is an array.
pub open spec fn has_list(tree: JsonTree, key: Seq<char>) -> bool {
    tree is Object && tree->Object_0.contains_key(key) && tree->Object_0[key] is Array
}

/// What one entry of a list of tools gives.
pub open spec fn tools_of(entry: JsonTree) -> Seq<JsonTree> {
    if has_list(entry, "functionDeclarations"@) {
        list_of(entry, "functionDeclarations"@)
    } else {
        seq![entry]
    }
}

proof fn lemma_tools(entries: Seq<JsonTree>)
    ensures
        all_declared_tools(entries) == entries.map_values(|entry: JsonTree| tools_of(entry)).flatten(),
    decreases entries.len(),
{
    let per_entry = entries.map_values(|entry: JsonTree| tools_of(entry));
    per_entry.lemma_flatten_and_flatten_alt_are_equivalent();
    if entries.len() > 0 {
        let front = entries.drop_last();
        lemma_tools(front);
        let per_front = front.map_values(|entry: JsonTree| tools_of(entry));
        per_front.lemma_flatten_and_flatten_alt_are_equivalent();
        assert(per_entry.drop_last() =~= per_front);
        assert(per_entry.last() == tools_of(entries.last()));
        assert(declared_tools(entries.last()) =~= tools_of(entries.last()));
    }
}

/// The tools of a request are, entry by entry and in order, the function declarations of the entries
/// that have a list of them, and the other entries themselves.
pub proof fn law_tools_are_flattened(body: Json, tools: Option<Vec<Json>>)
    requires
        call_ensures(flatten_tools, (body,), tools),
    ensures
        tools is Some <==> has_list(body@, "tools"@),
        tools matches Some(flat) ==> items_tree(flat@) == list_of(body@, "tools"@).map_values(
            |entry: JsonTree| tools_of(entry),
        ).flatten(),
{
    lemma_tools(list_of(body@, "tools"@));
}

/// A response leaves the envelope that it came in, whatever it holds; without one it stays as it is.
pub proof fn law_envelope_is_taken_off(document: Json, response: Json)
    requires
        call_ensures(unwrap_envelope, (document,), response),
    ensures
        forall|inner: JsonTree| #[trigger]
            says(document@, "response"@, inner) ==> response@ == inner,
        !(document@ is Object && document@->Object_0.contains_key("response"@)) ==> response@
            == document@,
{
}

/// The signature of a part, alone in a sequence; nothing where it has none.
pub open spec fn signature_of(part: JsonTree) -> Seq<Seq<char>> {
    if part is Object && part->Object_0.contains_key("thoughtSignature"@)
        && part->Object_0["thoughtSignature"@] is Text {
        seq![part->Object_0["thoughtSignature"@]->Text_0]
    } else {
        Seq::empty()
    }
}

/// The signatures of a candidate, part by part.
pub open spec fn signatures_of(candidate: JsonTree) -> Seq<Seq<char>> {
    if candidate is Object && candidate->Object_0.contains_key("content"@) {
        list_of(candidate->Object_0["content"@], "parts"@).map_values(
            |part: JsonTree| signature_of(part),
        ).flatten()
    } else {
        Seq::empty()
    }
}

proof fn lemma_part_signatures(parts: Seq<JsonTree>)
    ensures
        part_signatures(parts) == parts.map_values(|part: JsonTree| signature_of(part)).flatten(),
    decreases parts.len(),
{
    let each = parts.map_values(|part: JsonTree| signature_of(part));
    each.lemma_flatten_and_flatten_alt_are_equivalent();
    if parts.len() > 0 {
        let front = parts.drop_last();
        lemma_part_signatures(front);
        let per_front = front.map_values(|part: JsonTree| signature_of(part));
        per_front.lemma_flatten_and_flatten_alt_are_equivalent();
        assert(each.drop_last() =~= per_front);
        assert(each.last() == signature_of(parts.last()));
        assert(part_signatures(parts) =~= part_signatures(front) + signature_of(parts.last()));
    }
}

proof fn lemma_candidate_signatures(candidates: Seq<JsonTree>)
    ensures
        candidate_signatures(candidates) == candidates.map_values(
            |candidate: JsonTree| signatures_of(candidate),
        ).flatten(),
    decreases candidates.len(),
{
    let each = candidates.map_values(|candidate: JsonTree| signatures_of(candidate));
    each.lemma_flatten_and_flatten_alt_are_equivalent();
    if candidates.len() > 0 {
        let front = candidates.drop_last();
        lemma_candidate_signatures(front);
        let per_front = front.map_values(|candidate: JsonTree| signatures_of(candidate));
        per_front.lemma_flatten_and_flatten_alt_are_equivalent();
        assert(each.drop_last() =~= per_front);
        lemma_part_signatures(candidate_parts(candidates.last()));
        let none = Seq::<JsonTree>::empty();
        assert(part_signatures(none) =~= Seq::<Seq<char>>::empty());
        assert(part_signatures(candidate_parts(candidates.last())) =~= signatures_of(
            candidates.last(),
        ));
        assert(each.last() == signatures_of(candidates.last()));
    }
}

/// The signatures of a response are those of its candidates, part by part and in order, whether it
/// stands in an envelope or not.
pub proof fn law_signatures_are_collected(document: &Json, signatures: Vec<String>)
    requires
        call_ensures(thought_signatures, (document,), signatures),
    ensures
        ({
            let tree = document@;
            let response = if tree is Object && tree->Object_0.contains_key("response"@) {
                tree->Object_0["response"@]
            } else {
                tree
            };
            signatures@.map_values(|signature: String| signature@) == list_of(
                response,
                "candidates"@,
            ).map_values(|candidate: JsonTree| signatures_of(candidate)).flatten()
        }),
{
    let response = enclosed(document@);
    lemma_candidate_signatures(list_of(response, "candidates"@));
    assert(candidate_signatures(Seq::<JsonTree>::empty()) =~= Seq::<Seq<char>>::empty());
    assert(signatures@.map_values(|signature: String| signature@) =~= strings_view(signatures@));
}

/// `later` is the object `before` with its member `key` changed from `old_member` to `new_member`,
/// and nothing else.
pub open spec fn only_changes(
    before: JsonTree,
    later: JsonTree,
    key: Seq<char>,
    old_member: JsonTree,
    new_member: JsonTree,
) -> bool {
    &&& before is Object && later is Object
    &&& before->Object_0.dom() == later->Object_0.dom()
    &&& says(before, key, old_member)
    &&& says(later, key, new_member)
    &&& forall|other: Seq<char>|
        other != key && before->Object_0.contains_key(other) ==> #[trigger] later->Object_0[other]
            == before->Object_0[other]
}

/// The part that is added to a request whose signature was not accepted.
pub open spec fn asks_for_repair(part: JsonTree) -> bool {
    &&& has_members(part, set!["text"@])
    &&& says(
        part,
        "text"@,
        JsonTree::Text(
            "\n\n[System Recovery] Your previous output contained an invalid signature. Please regenerate the response without the corrupted signature block."@,
        ),
    )
}

/// The last content of a request has a list of parts.
pub open spec fn can_be_repaired(body: JsonTree) -> bool {
    &&& has_list(body, "contents"@)
    &&& list_of(body, "contents"@).len() > 0
    &&& has_list(list_of(body, "contents"@).last(), "parts"@)
}

/// A repair adds one part, that asks for it, behind the parts of the last content; everything else in
/// the request stays as it is. A request whose last content has no parts stays as it is altogether.
pub proof fn law_repair_adds_one_part(body: Json, repaired: Json)
    requires
        call_ensures(repair_request, (body,), repaired),
    ensures
        !can_be_repaired(body@) ==> repaired@ == body@,
        can_be_repaired(body@) ==> {
            let contents = list_of(body@, "contents"@);
            let changed = list_of(repaired@, "contents"@);
            let parts = list_of(contents.last(), "parts"@);
            let more = list_of(changed.last(), "parts"@);
            &&& only_changes(
                body@,
                repaired@,
                "contents"@,
                JsonTree::Array(contents),
                JsonTree::Array(changed),
            )
            &&& changed.len() == contents.len()
            &&& forall|i: int| 0 <= i < contents.len() - 1 ==> #[trigger] changed[i] == contents[i]
            &&& only_changes(
                contents.last(),
                changed.last(),
                "parts"@,
                JsonTree::Array(parts),
                JsonTree::Array(more),
            )
            &&& more.len() == parts.len() + 1
            &&& forall|i: int| 0 <= i < parts.len() ==> #[trigger] more[i] == parts[i]
            &&& asks_for_repair(more.last())
        },
{
    let tree = body@;
    assert(repair_part()->Object_0.dom() =~= set!["text"@]);
    if tree is Object && tree->Object_0.contains_key("contents"@) {
        let contents = tree->Object_0["contents"@];
        if contents is Array && contents->Array_0.len() > 0 {
            let items = contents->Array_0;
            let last = items.last();
            if last is Object && last->Object_0.contains_key("parts"@) {
                let changed = repaired_content(last);
                assert(changed->Object_0.dom() =~= last->Object_0.dom());
                if !(last->Object_0["parts"@] is Array) {
                    assert(changed->Object_0 =~= last->Object_0);
                }
            }
            if !can_be_repaired(tree) {
                assert(repaired_content(last) == last);
                assert(items.update(items.len() - 1, last) =~= items);
            }
        }
        assert(repaired@->Object_0.dom() =~= tree->Object_0.dom());
        if !can_be_repaired(tree) {
            assert(repaired@->Object_0 =~= tree->Object_0);
        }
    }
}

/// The small texts: a name for the logs, the error of a body that could not be read, and refusals.
pub proof fn law_small_texts(
    millis: u32,
    status: u16,
    error: &str,
    id: String,
    unread: String,
    uncollected: Refusal,
    without_token: Refusal,
)
    requires
        call_ensures(trace_id, (millis,), id),
        call_ensures(unread_error, (status,), unread),
        call_ensures(refuse_uncollected, (error,), uncollected),
        call_ensures(refuse_without_token, (error,), without_token),
    ensures
        exists|numeral: Seq<char>|
            is_numeral_of(numeral, millis as nat) && id@ == #[trigger] ("req_"@ + numeral),
        exists|numeral: Seq<char>|
            is_numeral_of(numeral, status as nat) && unread@ == #[trigger] ("HTTP "@ + numeral),
        uncollected.status == 500,
        uncollected.message@ == "Stream collection error: "@ + error@,
        without_token.status == 503,
        without_token.message@ == "Token error: "@ + error@,
{
    law_numeral_stands_for_its_number(millis as nat);
    law_numeral_stands_for_its_number(status as nat);
    assert(id@ == "req_"@ + decimal(millis as nat));
    assert(unread@ == "HTTP "@ + decimal(status as nat));
}

/// A document asks for the model that it names; where it names none, or an empty one, it is refused.
pub proof fn law_model_is_asked_for_by_name(body: &Json, model: Result<String, Refusal>)
    requires
        call_ensures(requested_model, (body,), model),
    ensures
        forall|name: Seq<char>| #[trigger]
            says(body@, "model"@, JsonTree::Text(name)) && name.len() > 0 ==> (
            model matches Ok(asked) && asked@ == name),
        (forall|name: Seq<char>|
            name.len() > 0 ==> !(#[trigger] says(body@, "model"@, JsonTree::Text(name)))) ==> (
        model matches Err(refusal) && refusal.status == 400 && refusal.message@
            == "Missing 'model' field"@),
{
    if let Ok(asked) = model {
        assert(says(body@, "model"@, JsonTree::Text(asked@)));
    }
}

/// The description of a model tells its names, its type and its features, and the configuration for
/// images where there is one; nothing else.
pub proof fn law_model_is_described(
    model_name: &str,
    mapped_model: &str,
    request_type: &str,
    has_web_search: bool,
    image_config: Option<Json>,
    document: Json,
)
    requires
        call_ensures(
            describe_model,
            (model_name, mapped_model, request_type, has_web_search, image_config),
            document,
        ),
    ensures
        has_members(
            document@,
            if image_config is Some {
                set!["model"@, "mapped_model"@, "type"@, "features"@, "config"@]
            } else {
                set!["model"@, "mapped_model"@, "type"@, "features"@]
            },
        ),
        says(document@, "model"@, JsonTree::Text(model_name@)),
        says(document@, "mapped_model"@, JsonTree::Text(mapped_model@)),
        says(document@, "type"@, JsonTree::Text(request_type@)),
        image_config matches Some(config) ==> says(document@, "config"@, config@),
        ({
            let features = document@->Object_0["features"@];
            &&& has_members(features, set!["has_web_search"@, "is_image_gen"@])
            &&& says(features, "has_web_search"@, JsonTree::Bool(has_web_search))
            &&& says(features, "is_image_gen"@, JsonTree::Bool(request_type@ == "image_gen"@))
        }),
{
    reveal_strlit("model");
    reveal_strlit("mapped_model");
    reveal_strlit("type");
    reveal_strlit("features");
    reveal_strlit("config");
    reveal_strlit("has_web_search");
    reveal_strlit("is_image_gen");
    assert("model"@.len() == 5 && "mapped_model"@.len() == 12 && "type"@.len() == 4
        && "features"@.len() == 8 && "config"@.len() == 6);
    assert("has_web_search"@.len() == 14 && "is_image_gen"@.len() == 12);
    let features = document@->Object_0["features"@];
    assert(features->Object_0.dom() =~= set!["has_web_search"@, "is_image_gen"@]);
    if image_config is Some {
        assert(document@->Object_0.dom()
            =~= set!["model"@, "mapped_model"@, "type"@, "features"@, "config"@]);
    } else {
        assert(document@->Object_0.dom()
            =~= set!["model"@, "mapped_model"@, "type"@, "features"@]);
    }
}

/// The entry tells of this model, and of nothing but what every entry does.
pub open spec fn lists(
    entry: JsonTree,
    id: Seq<char>,
    temperature: serde_json::Number,
    top_p: serde_json::Number,
) -> bool {
    &&& has_members(
        entry,
        set![
            "name"@,
            "version"@,
            "displayName"@,
            "description"@,
            "inputTokenLimit"@,
            "outputTokenLimit"@,
            "supportedGenerationMethods"@,
            "temperature"@,
            "topP"@,
            "topK"@,
        ],
    )
    &&& says(entry, "name"@, JsonTree::Text("models/"@ + id))
    &&& says(entry, "version"@, JsonTree::Text("001"@))
    &&& says(entry, "displayName"@, JsonTree::Text(id))
    &&& says(entry, "description"@, JsonTree::Text(""@))
    &&& says(entry, "inputTokenLimit"@, JsonTree::Number(json_integer(128000)))
    &&& says(entry, "outputTokenLimit"@, JsonTree::Number(json_integer(8192)))
    &&& says(
        entry,
        "supportedGenerationMethods"@,
        JsonTree::Array(
            seq![JsonTree::Text("generateContent"@), JsonTree::Text("countTokens"@)],
        ),
    )
    &&& says(entry, "temperature"@, JsonTree::Number(temperature))
    &&& says(entry, "topP"@, JsonTree::Number(top_p))
    &&& says(entry, "topK"@, JsonTree::Number(json_integer(64)))
}

proof fn lemma_listing(id: Seq<char>, temperature: serde_json::Number, top_p: serde_json::Number)
    ensures
        lists(listing(id, temperature, top_p), id, temperature, top_p),
{
    reveal_strlit("name");
    reveal_strlit("version");
    reveal_strlit("displayName");
    reveal_strlit("description");
    reveal_strlit("inputTokenLimit");
    reveal_strlit("outputTokenLimit");
    reveal_strlit("supportedGenerationMethods");
    reveal_strlit("temperature");
    reveal_strlit("topP");
    reveal_strlit("topK");
    assert("name"@.len() == 4 && "topP"@.len() == 4 && "topK"@.len() == 4 && "version"@.len() == 7);
    assert("displayName"@.len() == 11 && "description"@.len() == 11 && "temperature"@.len() == 11);
    assert("inputTokenLimit"@.len() == 15 && "outputTokenLimit"@.len() == 16
        && "supportedGenerationMethods"@.len() == 26);
    assert("name"@[0] != "topP"@[0] && "name"@[0] != "topK"@[0] && "topP"@[3] != "topK"@[3]);
    assert("displayName"@[1] != "description"@[1] && "displayName"@[0] != "temperature"@[0]
        && "description"@[0] != "temperature"@[0]);
    let entry = listing(id, temperature, top_p);
    assert(entry->Object_0.dom() =~= set![
        "name"@,
        "version"@,
        "displayName"@,
        "description"@,
        "inputTokenLimit"@,
        "outputTokenLimit"@,
        "supportedGenerationMethods"@,
        "temperature"@,
        "topP"@,
        "topK"@,
    ]);
}

/// The list of models has one entry for each, in order, that tells of it; a single one is listed and
/// summed up by its name.
pub proof fn law_models_are_listed(
    ids: &Vec<String>,
    id: &str,
    temperature: serde_json::Number,
    top_p: serde_json::Number,
    entries: Vec<Json>,
    all: Json,
    entry: Json,
    listed: Json,
    summary: Json,
    counted: Json,
)
    requires
        call_ensures(list_models_of, (ids, temperature, top_p), all),
        call_ensures(list_model, (id, temperature, top_p), entry),
        call_ensures(list_models, (entries,), listed),
        call_ensures(summarize_model, (id,), summary),
        call_ensures(no_tokens, (), counted),
    ensures
        has_members(all@, set!["models"@]),
        has_list(all@, "models"@),
        list_of(all@, "models"@).len() == ids@.len(),
        forall|i: int|
            0 <= i < ids@.len() ==> lists(
                #[trigger] list_of(all@, "models"@)[i],
                ids@[i]@,
                temperature,
                top_p,
            ),
        lists(entry@, id@, temperature, top_p),
        has_members(listed@, set!["models"@]),
        says(listed@, "models"@, JsonTree::Array(items_tree(entries@))),
        has_members(summary@, set!["name"@, "displayName"@]),
        says(summary@, "name"@, JsonTree::Text("models/"@ + id@)),
        says(summary@, "displayName"@, JsonTree::Text(id@)),
        has_members(counted@, set!["totalTokens"@]),
        says(counted@, "totalTokens"@, JsonTree::Number(json_integer(0))),
{
    lemma_listing(id@, temperature, top_p);
    assert forall|i: int| 0 <= i < ids@.len() implies lists(
        #[trigger] list_of(all@, "models"@)[i],
        ids@[i]@,
        temperature,
        top_p,
    ) by {
        lemma_listing(ids@[i]@, temperature, top_p);
    }
    reveal_strlit("name");
    reveal_strlit("displayName");
    assert("name"@.len() == 4 && "displayName"@.len() == 11);
    assert(all@->Object_0.dom() =~= set!["models"@]);
    assert(listed@->Object_0.dom() =~= set!["models"@]);
    assert(summary@->Object_0.dom() =~= set!["name"@, "displayName"@]);
    assert(counted@->Object_0.dom() =~= set!["totalTokens"@]);
}

} // verus!
