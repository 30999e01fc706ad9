use agm_proxy::gemini::{
    beta_header, beta_header_for, flatten_tools, gemini_error_response, parse_generate_request,
    refuse_uncollected, repair_request, split_model_action, thought_signatures, trace_id,
    unread_error, unwrap_envelope, upstream_call,
};
use agm_proxy::json::{parse_json, render_json, Json};

fn read(text: &str) -> Json {
    parse_json(text).unwrap()
}

#[test]
fn a_path_is_split_at_its_last_colon() {
    let parts = |path| split_model_action(path);
    assert_eq!(parts("pro:generateContent"), ("pro".to_string(), "generateContent".to_string()));
    assert_eq!(parts("a:b:c"), ("a:b".to_string(), "c".to_string()));
    assert_eq!(parts("pro"), ("pro".to_string(), "generateContent".to_string()));
    assert_eq!(parts("pro:"), ("pro".to_string(), "".to_string()));
    assert_eq!(parts(""), ("".to_string(), "generateContent".to_string()));
}

#[test]
fn only_methods_that_generate_are_served() {
    let request = parse_generate_request("pro:streamGenerateContent").ok().unwrap();
    assert_eq!(request.model_name, "pro");
    assert!(request.client_wants_stream);
    let request = parse_generate_request("pro").ok().unwrap();
    assert!(!request.client_wants_stream);
    let refusal = parse_generate_request("pro:countTokens").err().unwrap();
    assert_eq!(refusal.status, 400);
    assert_eq!(refusal.message, "Unsupported method: countTokens");
}

#[test]
fn the_upstream_always_streams() {
    for wanted in [true, false] {
        let call = upstream_call(wanted);
        assert_eq!(call.method, "streamGenerateContent");
        assert_eq!(call.query, Some("alt=sse"));
    }
}

#[test]
fn a_family_of_models_takes_its_header() {
    let header = beta_header("models/STRAßE-2", "straße").unwrap();
    assert_eq!(header.name, "anthropic-beta");
    assert_eq!(
        header.value,
        "straße-code-20250219,interleaved-thinking-2025-05-14,fine-grained-tool-streaming-2025-05-14"
    );
    assert_eq!(beta_header("models/other", "straße"), None);
    assert_eq!(beta_header_for("models/STRAßE-2", "straße"), None);
    assert!(beta_header_for("models/straße-2", "straße").is_some());
}

#[test]
fn tools_are_flattened() {
    let body = read(
        r#"{"tools":[{"functionDeclarations":[{"name":"a"},{"name":"b"}]},{"googleSearch":{}},{"functionDeclarations":7},{"functionDeclarations":[]}]}"#,
    );
    let tools = flatten_tools(body).unwrap();
    assert_eq!(
        tools,
        vec![
            read(r#"{"name":"a"}"#),
            read(r#"{"name":"b"}"#),
            read(r#"{"googleSearch":{}}"#),
            read(r#"{"functionDeclarations":7}"#)
        ]
    );
    assert!(flatten_tools(read(r#"{"tools":{}}"#)).is_none());
    assert!(flatten_tools(read("{}")).is_none());
}

#[test]
fn responses_leave_their_envelope() {
    assert_eq!(unwrap_envelope(read(r#"{"response":{"a":1},"x":2}"#)), read(r#"{"a":1}"#));
    assert_eq!(unwrap_envelope(read(r#"{"response":null}"#)), Json::Null);
    assert_eq!(unwrap_envelope(read(r#"{"a":1}"#)), read(r#"{"a":1}"#));
}

#[test]
fn signatures_are_found_in_order() {
    let inner = r#"{"candidates":[{"content":{"parts":[{"thoughtSignature":"s1"},{"text":"t"},{"thoughtSignature":5}]}},{"content":{}},{"content":{"parts":[{"thoughtSignature":"s2"}]}}]}"#;
    assert_eq!(thought_signatures(&read(inner)), vec!["s1", "s2"]);
    let wrapped = format!("{{\"response\":{inner},\"candidates\":[]}}");
    assert_eq!(thought_signatures(&read(&wrapped)), vec!["s1", "s2"]);
    assert!(thought_signatures(&read(r#"{"response":7}"#)).is_empty());
}

#[test]
fn a_repair_is_added_to_the_last_content_alone() {
    let body = read(r#"{"contents":[{"parts":[{"text":"a"}]},{"parts":[{"text":"b"}],"role":"user"}],"x":1}"#);
    assert_eq!(
        render_json(repair_request(body)),
        r#"{"contents":[{"parts":[{"text":"a"}]},{"parts":[{"text":"b"},{"text":"\n\n[System Recovery] Your previous output contained an invalid signature. Please regenerate the response without the corrupted signature block."}],"role":"user"}],"x":1}"#
    );
    for text in [
        "{}",
        "[]",
        r#"{"contents":[]}"#,
        r#"{"contents":7}"#,
        r#"{"contents":[{"role":"user"}]}"#,
        r#"{"contents":[{"parts":"p"}]}"#,
        r#"{"contents":[5]}"#,
    ] {
        assert_eq!(repair_request(read(text)), read(text));
    }
}

#[test]
fn an_error_reply_tells_status_message_and_headers() {
    let reply = gemini_error_response(503, "down", Some("a@b.c"), Some("pro"), Some("17"));
    assert_eq!(reply.status, 503);
    assert_eq!(reply.account_email.as_deref(), Some("a@b.c"));
    assert_eq!(reply.mapped_model.as_deref(), Some("pro"));
    assert_eq!(reply.retry_after.as_deref(), Some("17"));
    assert_eq!(
        render_json(reply.body),
        r#"{"error":{"code":503,"message":"down","status":"UPSTREAM_ERROR"}}"#
    );
}

#[test]
fn an_error_reply_drops_what_no_header_can_hold() {
    let reply = gemini_error_response(0, "", Some("a\nb"), Some("é\t~"), None);
    assert_eq!(reply.status, 502);
    assert_eq!(reply.account_email, None);
    assert_eq!(reply.mapped_model.as_deref(), Some("é\t~"));
    assert_eq!(reply.retry_after, None);
    assert_eq!(
        render_json(reply.body),
        r#"{"error":{"code":502,"message":"","status":"UPSTREAM_ERROR"}}"#
    );
    for (status, kept) in [(99, 502), (100, 100), (999, 999), (1000, 502)] {
        assert_eq!(gemini_error_response(status, "", None, None, None).status, kept);
    }
    for text in ["\u{0}", "\u{1f}", "\u{7f}", "a\r"] {
        assert_eq!(gemini_error_response(500, "", None, None, Some(text)).retry_after, None);
    }
    for text in ["", " ", "\u{80}", "語"] {
        let reply = gemini_error_response(500, "", None, None, Some(text));
        assert_eq!(reply.retry_after.as_deref(), Some(text));
    }
}

#[test]
fn small_texts_are_put_together() {
    assert_eq!(trace_id(42), "req_42");
    assert_eq!(unread_error(500), "HTTP 500");
    let refusal = refuse_uncollected("cut off");
    assert_eq!(refusal.status, 500);
    assert_eq!(refusal.message, "Stream collection error: cut off");
}
