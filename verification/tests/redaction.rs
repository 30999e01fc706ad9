use agm_proxy::pool_retry::{classify_pool_failure, limit_error, sanitize_error, PoolFailure};
use agm_proxy::redaction::redact;

#[test]
fn credentials_behind_a_scheme_are_redacted() {
    assert_eq!(sanitize_error("sent bearer abc.def-1 upstream"), "sent bearer [REDACTED] upstream");
    assert_eq!(sanitize_error("Basic Zm9vOmJhcg=="), "Basic [REDACTED]");
    assert_eq!(
        sanitize_error("Authorization: Bearer abc.def"),
        "Authorization: [REDACTED] [REDACTED]"
    );
}

#[test]
fn assigned_secrets_are_redacted_wherever_they_stand() {
    assert_eq!(
        sanitize_error(r#"{"access_token":"abc","n":1} api_key=xyz, done"#),
        r#"{"access_token":[REDACTED],"n":1} api_key=[REDACTED], done"#
    );
    assert_eq!(sanitize_error("password: 'a b' ok"), "password: [REDACTED] ok");
}

#[test]
fn a_request_body_is_redacted_to_the_end() {
    assert_eq!(
        sanitize_error("bad Request Payload = {\n\"a\": 1\n} tail"),
        "bad Request Payload: [REDACTED]"
    );
}

#[test]
fn an_error_without_secrets_is_kept() {
    assert_eq!(sanitize_error("temporary upstream failure"), "temporary upstream failure");
    assert_eq!(sanitize_error(""), "");
}

#[test]
fn long_errors_are_cut_to_the_limit() {
    let fits = "é".repeat(1024);
    assert_eq!(limit_error(&fits), fits);

    let long = "é".repeat(1025);
    let cut = limit_error(&long);
    assert_eq!(cut.chars().count(), 1024);
    assert_eq!(cut, format!("{}...", "é".repeat(1021)));
}

#[test]
fn transport_failures_hold_a_sanitized_error_and_no_status() {
    let failure = PoolFailure::transport("token: id_token=abc; retry");

    assert_eq!(failure.status, 0);
    assert_eq!(failure.retry_after, None);
    assert_eq!(failure.sanitized_error, "token: id_token=[REDACTED]; retry");
    assert!(!failure.should_cooldown_account());
    assert_eq!(failure.clone(), failure);
}

#[test]
fn the_longest_stored_error_is_the_limit() {
    let failure = classify_pool_failure(500, &"x".repeat(5000), None);

    assert_eq!(failure.sanitized_error.chars().count(), 1024);
}

#[test]
fn nothing_behind_the_label_of_a_request_body_is_stored() {
    for before in ["", "failed: ", "request body \n", "a request body: x ", "bearer abc\t"] {
        for label in [
            "request body: ",
            "Request\u{a0} PAYLOAD\n= ",
            "REQUEST body:",
            "request\tpayload=",
        ] {
            let bare = sanitize_error(&format!("{before}{label}"));
            for body in ["{\"a\": 1}", "line\nline\r\n", "x request body: y", "é", ":=", " "] {
                assert_eq!(sanitize_error(&format!("{before}{label}{body}")), bare);
            }
            let long = format!("{before}{label}{}", "y".repeat(3000));
            assert_eq!(sanitize_error(&long), bare);
        }
    }
}

#[test]
fn no_credential_is_stored_whatever_it_is() {
    for before in ["", "sent ", "\u{3000}", "Auth(", "\"", "b ba bea:", "x-basi-"] {
        for scheme in ["bearer ", "BASIC\t\n", "Bearer\u{a0}"] {
            for rest in ["", " then", ",x", "\"}", "\u{e9}bearer q", "; basic z.", "\nbearer"] {
                let word = scheme.trim_end();
                let tail = redact(rest);
                let expected = format!("{before}{word} [REDACTED]{tail}");
                for token in ["a", "A.b_c~d+e/f=g-0", "bearer", "basic", "\u{17f}\u{212a}k"] {
                    let text = format!("{before}{scheme}{token}{rest}");
                    assert_eq!(redact(&text), expected);
                }
            }
        }
    }
}

#[test]
fn no_secret_is_stored_whatever_it_is() {
    let names = [
        "access_token",
        "Access-Token",
        "ACCESSTOKEN",
        "refresh_token",
        "refreshtoken",
        "id_token",
        "id-token",
        "api_key",
        "APIKEY",
        "x-api-key",
        "api-key",
        "client_secret",
        "clientSecret",
        "password",
        "authorization",
        "Proxy-Authorization",
    ];
    for before in ["", "x", "{\"", "x-", "proxy-", "pass ", "access_", "\u{e9}: "] {
        for name in names {
            for secret in ["s", "\"a b, c}\""] {
                let text = format!("{before}{name}\": {secret}}} tail");
                assert_eq!(redact(&text), format!("{before}{name}\": [REDACTED]}} tail"));
            }
        }
    }
    for sign in [":", "=", "\" : ", " =\n", "\"\u{2003}:"] {
        for rest in ["", ", n: 1", "} password=q", ";", "\u{3000}api_key: 'z'"] {
            let expected = format!("({}{sign}[REDACTED]{}", "Api-Key", redact(rest));
            for secret in ["s", "=a:b", "a\"b'c{", "\"\"", "\"a b, c}\"", "'x;y\nz'"] {
                let text = format!("({}{sign}{secret}{rest}", "Api-Key");
                assert_eq!(redact(&text), expected);
            }
        }
    }
}

#[test]
fn a_text_without_anything_to_hide_is_kept() {
    for text in [
        "",
        "request bod: y",
        "requests body: y",
        "bear er x",
        "basi c",
        "pass word=1",
        "token: 5, key = 7",
        "é \u{3000}\n",
    ] {
        assert_eq!(redact(text), text);
    }
}
