use agm_proxy::json::{json_of_value, parse_json, render_json, value_of_json, Json};
use agm_proxy::models::{
    describe_model, list_model, list_models, list_models_of, no_tokens, refuse_without_token,
    requested_model, summarize_model,
};
use agm_proxy::text::{
    chars_of, contains, decimal_of, find, rfind, same, starts_with, to_ascii_lowercase, trim,
    trim_start_matches,
};

#[test]
fn documents_are_read_and_written_by_the_json_crate() {
    let json = parse_json(r#" {"b": [1, -2.5, true, null], "a": "x\né"} "#).unwrap();
    assert_eq!(json.get("a").unwrap().as_str(), Some("x\né"));
    assert_eq!(json.get("b").unwrap().as_array().unwrap().len(), 4);
    assert!(json.get("c").is_none());
    assert!(json.get("a").unwrap().get("a").is_none());
    assert_eq!(json.as_str(), None);
    assert_eq!(render_json(json), r#"{"a":"x\né","b":[1,-2.5,true,null]}"#);
    assert!(parse_json("{").is_none());
    assert!(parse_json("").is_none());
    assert_eq!(parse_json("null"), Some(Json::Null));
    assert!(matches!(parse_json("false"), Some(Json::Bool(false))));
}

#[test]
fn the_last_member_of_a_name_counts() {
    let json = Json::object().with("a", Json::integer(1)).with("b", Json::Null).with(
        "a",
        Json::integer(2),
    );
    assert_eq!(json.get("a"), Some(&Json::integer(2)));
    assert_eq!(render_json(json), r#"{"a":2,"b":null}"#);
    assert_eq!(Json::text("t").with("a", Json::Null), Json::text("t"));
}

#[test]
fn values_and_documents_correspond() {
    let text = r#"{"a":{"b":[{"c":18446744073709551615},0.5,""]},"d":[]}"#;
    let value: serde_json::Value = serde_json::from_str(text).unwrap();
    let json = json_of_value(value.clone());
    assert_eq!(json, parse_json(text).unwrap());
    assert_eq!(value_of_json(json), value);
}

#[test]
fn members_move_out_and_back() {
    let json = parse_json(r#"{"a":1,"b":2}"#).unwrap();
    let (hole, member) = json.detach("a").unwrap();
    assert_eq!(member, Json::integer(1));
    assert_eq!(render_json(hole.fill(Json::text("new"))), r#"{"a":"new","b":2}"#);
    assert_eq!(Json::Null.detach("a").err(), Some(Json::Null));
    let json = parse_json(r#"{"a":1,"b":2}"#).unwrap();
    assert_eq!(json.into_member("b"), Ok(Json::integer(2)));
    assert_eq!(Json::object().into_member("b"), Err(Json::object()));
}

#[test]
fn a_model_is_asked_for_by_name() {
    let named = parse_json(r#"{"model":"gemini-2.5-pro"}"#).unwrap();
    assert_eq!(requested_model(&named).ok(), Some("gemini-2.5-pro".to_string()));
    for text in [r#"{"model":""}"#, r#"{"model":5}"#, "{}", "[]"] {
        let refusal = requested_model(&parse_json(text).unwrap()).err().unwrap();
        assert_eq!(refusal.status, 400);
        assert_eq!(refusal.message, "Missing 'model' field");
    }
}

#[test]
fn a_model_is_described_with_its_features() {
    let plain = describe_model("m", "mapped", "agent", true, None);
    assert_eq!(
        render_json(plain),
        r#"{"features":{"has_web_search":true,"is_image_gen":false},"mapped_model":"mapped","model":"m","type":"agent"}"#
    );
    let config = Json::object().with("size", Json::text("1K"));
    let image = describe_model("m", "mapped", "image_gen", false, Some(config));
    assert_eq!(
        render_json(image),
        r#"{"config":{"size":"1K"},"features":{"has_web_search":false,"is_image_gen":true},"mapped_model":"mapped","model":"m","type":"image_gen"}"#
    );
}

#[test]
fn models_are_listed_and_summarized() {
    let number = |n| serde_json::Number::from_f64(n).unwrap();
    let entry = list_model("pro", number(1.0), number(0.95));
    assert_eq!(
        render_json(list_models(vec![entry])),
        r#"{"models":[{"description":"","displayName":"pro","inputTokenLimit":128000,"name":"models/pro","outputTokenLimit":8192,"supportedGenerationMethods":["generateContent","countTokens"],"temperature":1.0,"topK":64,"topP":0.95,"version":"001"}]}"#
    );
    let ids = vec!["b".to_string(), "a".to_string()];
    let entries = vec![
        list_model("b", number(1.0), number(0.95)),
        list_model("a", number(1.0), number(0.95)),
    ];
    assert_eq!(list_models_of(&ids, number(1.0), number(0.95)), list_models(entries));
    assert_eq!(
        render_json(list_models_of(&Vec::new(), number(1.0), number(0.95))),
        r#"{"models":[]}"#
    );
    assert_eq!(
        render_json(summarize_model("pro")),
        r#"{"displayName":"pro","name":"models/pro"}"#
    );
    assert_eq!(render_json(no_tokens()), r#"{"totalTokens":0}"#);
}

#[test]
fn a_request_without_token_is_refused() {
    let refusal = refuse_without_token("none left");
    assert_eq!(refusal.status, 503);
    assert_eq!(refusal.message, "Token error: none left");
}

#[test]
fn text_is_searched_by_characters() {
    assert_eq!(to_ascii_lowercase("ÄBC xYz[@`"), "Äbc xyz[@`");
    assert!(contains("aab", "ab") && contains("", "") && !contains("a", "ab"));
    assert!(starts_with("data: x", "data: ") && !starts_with(" data: x", "data: "));
    assert!(same("é", "é") && !same("é", "e"));
    assert_eq!(find("äb{{", '{'), Some(2));
    assert_eq!(rfind("a:b:c", ':'), Some(3));
    assert_eq!((find("x", '{'), rfind("x", ':')), (None, None));
    assert_eq!(chars_of("aé"), vec!['a', 'é']);
}

#[test]
fn text_is_trimmed_like_the_standard_library_does() {
    for text in ["", " \t\r\n", " a b\u{3000}", "\u{a0}x\u{2028}", "\u{200b}x", "\u{85}\u{1680}y "] {
        assert_eq!(trim(text), text.trim());
    }
    for text in ["data: data: x", "data:x", "", "data: "] {
        assert_eq!(trim_start_matches(text, "data: "), text.trim_start_matches("data: "));
    }
    assert_eq!(trim_start_matches("x", ""), "x");
}

#[test]
fn numerals_have_no_leading_zeros() {
    for n in [0, 7, 10, 503, 1_000_000, u64::MAX] {
        assert_eq!(decimal_of(n), n.to_string());
    }
}
