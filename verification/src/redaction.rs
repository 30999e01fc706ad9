//! What errors are freed of before they are stored: request bodies, credentials and secrets.

use crate::text::{is_white, lowered};
use vstd::prelude::*;
use vstd::string::*;

verus! {

/// A request body or payload, from its label to the end.
pub const REQUEST_BODY_PATTERN: &'static str = r"(?is)\b(request\s+(?:body|payload))\s*[:=].*$";

/// An authorization credential behind its scheme.
pub const BEARER_CREDENTIAL_PATTERN: &'static str = r"(?i)\b(bearer|basic)\s+[a-z0-9._~+/=-]+";

/// A secret behind the name that it is assigned to.
pub const SECRET_ASSIGNMENT_PATTERN: &'static str = r#"(?i)("?(?:access[_-]?token|refresh[_-]?token|id[_-]?token|api[_-]?key|x-api-key|client[_-]?secret|password|authorization|proxy-authorization)"?\s*[:=]\s*)("[^"]*"|'[^']*'|[^\s,;}]+)"#;

/// `text` with the first match of the regular expression `pattern` replaced.
pub uninterp spec fn regex_replaced(
    pattern: Seq<char>,
    text: Seq<char>,
    replacement: Seq<char>,
) -> Seq<char>;

/// `text` with every match of the regular expression `pattern` replaced.
pub uninterp spec fn regex_replaced_all(
    pattern: Seq<char>,
    text: Seq<char>,
    replacement: Seq<char>,
) -> Seq<char>;

/// The regular expressions by which errors are redacted.
pub open spec fn is_redaction_pattern(pattern: Seq<char>) -> bool {
    ||| pattern == REQUEST_BODY_PATTERN@
    ||| pattern == BEARER_CREDENTIAL_PATTERN@
    ||| pattern == SECRET_ASSIGNMENT_PATTERN@
}

/// A character that matches a small ASCII letter where case is ignored, though it is none of the
/// ASCII letters: the long s and the Kelvin sign.
pub open spec fn is_stray_letter(c: char) -> bool {
    c == '\u{17f}' || c == '\u{212a}'
}

/// No stray letter stands in `s`.
pub open spec fn folds_plainly(s: Seq<char>) -> bool {
    forall|i: int| 0 <= i < s.len() ==> !is_stray_letter(#[trigger] s[i])
}

/// Nothing but white space.
pub open spec fn all_white(s: Seq<char>) -> bool {
    forall|i: int| 0 <= i < s.len() ==> is_white(#[trigger] s[i])
}

/// `label` reads "request", `gap`, `word`, `space`, `mark` and `trail`, in any ASCII case: the word
/// is "body" or "payload", the mark a colon or an equals sign, the rest white space.
pub open spec fn is_label_of(
    label: Seq<char>,
    gap: Seq<char>,
    word: Seq<char>,
    space: Seq<char>,
    mark: Seq<char>,
    trail: Seq<char>,
) -> bool {
    &&& gap.len() > 0
    &&& all_white(gap)
    &&& word == "body"@ || word == "payload"@
    &&& all_white(space)
    &&& mark == ":"@ || mark == "="@
    &&& all_white(trail)
    &&& lowered(label) == "request"@ + gap + word + space + mark + trail
}

/// A label behind which a request body or payload stands.
pub open spec fn is_body_label(label: Seq<char>) -> bool {
    exists|
        gap: Seq<char>,
        word: Seq<char>,
        space: Seq<char>,
        mark: Seq<char>,
        trail: Seq<char>,
    | #[trigger] is_label_of(label, gap, word, space, mark, trail)
}

/// A label behind which a request body or payload stands is in `text`, or a stray letter, with
/// which there may be one.
pub open spec fn has_body_label(text: Seq<char>) -> bool {
    ||| !folds_plainly(text)
    ||| exists|i: int, j: int|
        0 <= i <= j <= text.len() && is_body_label(#[trigger] text.subrange(i, j))
}

/// In `text`, a request body stands behind a label that nothing or white space precedes.
pub open spec fn holds_request_body(
    text: Seq<char>,
    before: Seq<char>,
    label: Seq<char>,
    body: Seq<char>,
) -> bool {
    &&& before.len() == 0 || is_white(before.last())
    &&& is_body_label(label)
    &&& text == before + label + body
}

/// The word that names how a credential is meant, in any ASCII case.
pub open spec fn is_scheme(word: Seq<char>) -> bool {
    lowered(word) == "bearer"@ || lowered(word) == "basic"@
}

/// The word that names how a credential is meant is in `text`, or a stray letter, with which there
/// may be one.
pub open spec fn names_scheme(text: Seq<char>) -> bool {
    ||| !folds_plainly(text)
    ||| exists|i: int, j: int|
        0 <= i <= j <= text.len() && is_scheme(#[trigger] text.subrange(i, j))
}

/// A character of a credential.
pub open spec fn is_token_char(c: char) -> bool {
    ||| 'a' <= c <= 'z'
    ||| 'A' <= c <= 'Z'
    ||| '0' <= c <= '9'
    ||| c == '.' || c == '_' || c == '~' || c == '+' || c == '/' || c == '=' || c == '-'
    ||| is_stray_letter(c)
}

/// A character after which a word can begin: white space, or an ASCII character that is no letter,
/// digit or underscore.
pub open spec fn is_break(c: char) -> bool {
    ||| is_white(c)
    ||| (c as u32) < 128 && !('a' <= c <= 'z' || 'A' <= c <= 'Z' || '0' <= c <= '9' || c == '_')
}

/// In `text`, the whole credential `token` stands behind the first scheme.
pub open spec fn holds_credential(
    text: Seq<char>,
    before: Seq<char>,
    scheme: Seq<char>,
    gap: Seq<char>,
    token: Seq<char>,
    rest: Seq<char>,
) -> bool {
    &&& text == before + scheme + gap + token + rest
    &&& !names_scheme(before)
    &&& before.len() == 0 || is_break(before.last())
    &&& is_scheme(scheme)
    &&& gap.len() > 0 && all_white(gap)
    &&& token.len() > 0
    &&& forall|i: int| 0 <= i < token.len() ==> is_token_char(#[trigger] token[i])
    &&& rest.len() == 0 || !is_token_char(rest[0])
}

/// `word` is `front` and `back`, joined by an underscore, a hyphen or nothing.
pub open spec fn is_joined(word: Seq<char>, front: Seq<char>, back: Seq<char>) -> bool {
    word == front + back || word == front + "_"@ + back || word == front + "-"@ + back
}

/// The name of a secret, in any ASCII case.
pub open spec fn is_secret_name(name: Seq<char>) -> bool {
    let word = lowered(name);
    ||| is_joined(word, "access"@, "token"@)
    ||| is_joined(word, "refresh"@, "token"@)
    ||| is_joined(word, "id"@, "token"@)
    ||| is_joined(word, "api"@, "key"@)
    ||| word == "x-api-key"@
    ||| is_joined(word, "client"@, "secret"@)
    ||| word == "password"@
    ||| word == "authorization"@
    ||| word == "proxy-authorization"@
}

/// The name of a secret is in `text`, or a stray letter, with which there may be one.
pub open spec fn names_secret(text: Seq<char>) -> bool {
    ||| !folds_plainly(text)
    ||| exists|i: int, j: int|
        0 <= i <= j <= text.len() && is_secret_name(#[trigger] text.subrange(i, j))
}

/// `sign` reads `quote`, `space`, `mark` and `trail`: a quotation mark or nothing, a colon or an
/// equals sign, and white space around that.
pub open spec fn is_sign_of(
    sign: Seq<char>,
    quote: Seq<char>,
    space: Seq<char>,
    mark: Seq<char>,
    trail: Seq<char>,
) -> bool {
    &&& quote.len() == 0 || quote == "\""@
    &&& all_white(space)
    &&& mark == ":"@ || mark == "="@
    &&& all_white(trail)
    &&& sign == quote + space + mark + trail
}

/// What stands between a name and what is assigned to it.
pub open spec fn is_assignment(sign: Seq<char>) -> bool {
    exists|quote: Seq<char>, space: Seq<char>, mark: Seq<char>, trail: Seq<char>| #[trigger]
        is_sign_of(sign, quote, space, mark, trail)
}

/// `s` stands between two of the quotation mark `q` and holds no other.
pub open spec fn is_quoted(s: Seq<char>, q: char) -> bool {
    &&& s.len() >= 2
    &&& s[0] == q
    &&& s.last() == q
    &&& forall|i: int| 0 < i < s.len() - 1 ==> #[trigger] s[i] != q
}

/// A character of a secret without quotation marks around it.
pub open spec fn is_bare_char(c: char) -> bool {
    !is_white(c) && c != ',' && c != ';' && c != '}'
}

/// `secret` is all that is assigned, where `rest` follows it.
pub open spec fn is_whole_secret(secret: Seq<char>, rest: Seq<char>) -> bool {
    ||| is_quoted(secret, '"')
    ||| is_quoted(secret, '\'')
    ||| {
        &&& secret.len() > 0
        &&& secret[0] != '"' && secret[0] != '\''
        &&& forall|i: int| 0 <= i < secret.len() ==> is_bare_char(#[trigger] secret[i])
        &&& rest.len() == 0 || !is_bare_char(rest[0])
    }
}

/// In `text`, the whole of `secret` is assigned to the first name of a secret.
pub open spec fn holds_secret(
    text: Seq<char>,
    before: Seq<char>,
    name: Seq<char>,
    sign: Seq<char>,
    secret: Seq<char>,
    rest: Seq<char>,
) -> bool {
    &&& text == before + name + sign + secret + rest
    &&& !names_secret(before)
    &&& is_secret_name(name)
    &&& is_assignment(sign)
    &&& is_whole_secret(secret, rest)
}

/// `text` without its request body.
pub open spec fn without_body(text: Seq<char>) -> Seq<char> {
    regex_replaced(REQUEST_BODY_PATTERN@, text, "$1: [REDACTED]"@)
}

/// `text` without its credentials.
pub open spec fn without_credentials(text: Seq<char>) -> Seq<char> {
    regex_replaced_all(BEARER_CREDENTIAL_PATTERN@, text, "$1 [REDACTED]"@)
}

/// `text` without its secrets.
pub open spec fn without_secrets(text: Seq<char>) -> Seq<char> {
    regex_replaced_all(SECRET_ASSIGNMENT_PATTERN@, text, "$1[REDACTED]"@)
}

/// `text` without request bodies, credentials and secrets.
pub open spec fn redacted(text: Seq<char>) -> Seq<char> {
    without_secrets(without_credentials(without_body(text)))
}

/// `regex::Regex::replace` with the regular expression `pattern`, which compiles where it is one
/// of the redaction patterns. The result depends on the three texts alone. Where the pattern is
/// that of a request body and the replacement keeps the label alone, nothing behind a label counts:
/// a match begins at the label or before it, and reaches to the end of the text. A text without a
/// label has no match and is kept. What the result is otherwise, is not stated.
#[verifier::external_body]
fn replace_match(pattern: &str, text: &str, replacement: &str) -> (out: String)
    requires
        is_redaction_pattern(pattern@),
    ensures
        out@ == regex_replaced(pattern@, text@, replacement@),
        pattern@ == REQUEST_BODY_PATTERN@ && replacement@ == "$1: [REDACTED]"@ ==> forall|
            before: Seq<char>,
            label: Seq<char>,
            body: Seq<char>,
        | #[trigger]
            holds_request_body(text@, before, label, body) ==> out@ == without_body(before + label),
        pattern@ == REQUEST_BODY_PATTERN@ && !has_body_label(text@) ==> out@ == text@,
{
    let expression = regex::Regex::new(pattern).expect("redaction pattern must compile");
    expression.replace(text, replacement).into_owned()
}

/// `regex::Regex::replace_all` with the regular expression `pattern`, which compiles where it is
/// one of the redaction patterns. The result depends on the three texts alone. The first credential
/// gives way to the replacement as a whole, up to the first character that is none of a credential;
/// so does the first secret, with its quotation marks or up to white space, a comma, a semicolon or
/// a closing brace. What stands before is kept, and what follows is replaced by itself. A text
/// without a scheme, or without the name of a secret, has no match and is kept. What the result is
/// otherwise, is not stated.
#[verifier::external_body]
fn replace_matches(pattern: &str, text: &str, replacement: &str) -> (out: String)
    requires
        is_redaction_pattern(pattern@),
    ensures
        out@ == regex_replaced_all(pattern@, text@, replacement@),
        pattern@ == BEARER_CREDENTIAL_PATTERN@ && replacement@ == "$1 [REDACTED]"@ ==> forall|
            before: Seq<char>,
            scheme: Seq<char>,
            gap: Seq<char>,
            token: Seq<char>,
            rest: Seq<char>,
        | #[trigger]
            holds_credential(text@, before, scheme, gap, token, rest) ==> out@ == before + scheme
                + " [REDACTED]"@ + without_credentials(rest),
        pattern@ == BEARER_CREDENTIAL_PATTERN@ && !names_scheme(text@) ==> out@ == text@,
        pattern@ == SECRET_ASSIGNMENT_PATTERN@ && replacement@ == "$1[REDACTED]"@ ==> forall|
            before: Seq<char>,
            name: Seq<char>,
            sign: Seq<char>,
            secret: Seq<char>,
            rest: Seq<char>,
        | #[trigger]
            holds_secret(text@, before, name, sign, secret, rest) ==> out@ == before + name + sign
                + "[REDACTED]"@ + without_secrets(rest),
        pattern@ == SECRET_ASSIGNMENT_PATTERN@ && !names_secret(text@) ==> out@ == text@,
{
    let expression = regex::Regex::new(pattern).expect("redaction pattern must compile");
    expression.replace_all(text, replacement).into_owned()
}

/// Frees a text of request bodies, credentials and secrets.
pub fn redact(text: &str) -> (out: String)
    ensures
        out@ == redacted(text@),
        forall|before: Seq<char>, label: Seq<char>, body: Seq<char>| #[trigger]
            holds_request_body(text@, before, label, body) ==> out@ == redacted(before + label),
        !has_body_label(text@) ==> forall|
            before: Seq<char>,
            scheme: Seq<char>,
            gap: Seq<char>,
            token: Seq<char>,
            rest: Seq<char>,
        | #[trigger]
            holds_credential(text@, before, scheme, gap, token, rest) ==> out@ == without_secrets(
                before + scheme + " [REDACTED]"@ + without_credentials(rest),
            ),
        !has_body_label(text@) && !names_scheme(text@) ==> forall|
            before: Seq<char>,
            name: Seq<char>,
            sign: Seq<char>,
            secret: Seq<char>,
            rest: Seq<char>,
        | #[trigger]
            holds_secret(text@, before, name, sign, secret, rest) ==> out@ == before + name + sign
                + "[REDACTED]"@ + without_secrets(rest),
        !has_body_label(text@) && !names_scheme(text@) && !names_secret(text@) ==> out@ == text@,
{
    let body_free = replace_match(REQUEST_BODY_PATTERN, text, "$1: [REDACTED]");
    let credential_free = replace_matches(
        BEARER_CREDENTIAL_PATTERN,
        body_free.as_str(),
        "$1 [REDACTED]",
    );
    replace_matches(SECRET_ASSIGNMENT_PATTERN, credential_free.as_str(), "$1[REDACTED]")
}

} // verus!
