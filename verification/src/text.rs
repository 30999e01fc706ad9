//! Text operations on sequences of characters: ASCII case folding, substring search, trimming,
//! splitting and decimal numerals.

use vstd::prelude::*;
use vstd::string::*;

verus! {

/// `c` with an ASCII capital letter replaced by its small letter.
pub open spec fn lower_char(c: char) -> char {
    if 'A' <= c && c <= 'Z' {
        ((c as u8) + 32) as char
    } else {
        c
    }
}

/// `s` with every ASCII capital letter replaced by its small letter.
pub open spec fn lowered(s: Seq<char>) -> Seq<char> {
    Seq::new(s.len(), |i: int| lower_char(s[i]))
}

/// `p` stands in `s` at position `i`.
pub open spec fn occurs_at(s: Seq<char>, p: Seq<char>, i: int) -> bool {
    &&& 0 <= i
    &&& i + p.len() <= s.len()
    &&& s.subrange(i, i + p.len()) == p
}

/// `p` stands somewhere in `s`.
pub open spec fn occurs(s: Seq<char>, p: Seq<char>) -> bool {
    exists|i: int| occurs_at(s, p, i)
}

/// The string that holds exactly the characters of `chars`, by `String::from_iter`.
#[verifier::external_body]
pub(crate) fn string_of(chars: &[char]) -> (text: String)
    ensures
        text@ == chars@,
{
    String::from_iter(chars)
}

/// The characters of `text`, in order.
pub fn chars_of(text: &str) -> (chars: Vec<char>)
    ensures
        chars@ == text@,
{
    let mut chars: Vec<char> = Vec::new();
    for c in it: text.chars()
        invariant
            it.seq() == text@,
            chars@ == text@.take(it.index() as int),
    {
        chars.push(c);
    }
    chars
}

/// `text` in ASCII small letters; every other character is kept.
pub fn to_ascii_lowercase(text: &str) -> (out: String)
    ensures
        out@ == lowered(text@),
{
    let mut chars: Vec<char> = Vec::new();
    for c in it: text.chars()
        invariant
            it.seq() == text@,
            chars@ == lowered(text@).take(it.index() as int),
    {
        let low: char = if 'A' <= c && c <= 'Z' {
            ((c as u8) + 32) as char
        } else {
            c
        };
        chars.push(low);
    }
    string_of(&chars)
}

/// Whether `needle` stands in `haystack` at position `at`.
fn matches_at(haystack: &Vec<char>, needle: &Vec<char>, at: usize) -> (found: bool)
    requires
        at + needle@.len() <= haystack@.len(),
    ensures
        found == occurs_at(haystack@, needle@, at as int),
{
    let total: usize = haystack.len();
    let mut k: usize = 0;
    while k < needle.len()
        invariant
            total == haystack@.len(),
            at + needle@.len() <= haystack@.len(),
            k <= needle@.len(),
            forall|j: int| 0 <= j < k ==> haystack@[at + j] == needle@[j],
        decreases needle@.len() - k,
    {
        if haystack[at + k] != needle[k] {
            assert(haystack@.subrange(at as int, at + needle@.len())[k as int] != needle@[k as int]);
            return false;
        }
        k = k + 1;
    }
    assert(haystack@.subrange(at as int, at + needle@.len()) =~= needle@);
    true
}

/// Whether `needle` stands somewhere in `haystack`.
pub fn contains(haystack: &str, needle: &str) -> (found: bool)
    ensures
        found == occurs(haystack@, needle@),
{
    let hay = chars_of(haystack);
    let pat = chars_of(needle);
    if pat.len() > hay.len() {
        return false;
    }
    let last: usize = hay.len() - pat.len();
    let mut at: usize = 0;
    while at <= last
        invariant
            hay@ == haystack@,
            pat@ == needle@,
            last + pat@.len() == hay@.len(),
            at <= last + 1,
            forall|j: int| 0 <= j < at ==> !occurs_at(haystack@, needle@, j),
        decreases last + 1 - at,
    {
        if matches_at(&hay, &pat, at) {
            return true;
        }
        if at == last {
            return false;
        }
        at = at + 1;
    }
    false
}

/// Whether the two texts hold the same characters.
pub fn same(a: &str, b: &str) -> (equal: bool)
    ensures
        equal == (a@ == b@),
{
    a.to_owned() == b.to_owned()
}

/// Whether `text` begins with `prefix`.
pub fn starts_with(text: &str, prefix: &str) -> (found: bool)
    ensures
        found == occurs_at(text@, prefix@, 0),
{
    let hay = chars_of(text);
    let pat = chars_of(prefix);
    pat.len() <= hay.len() && matches_at(&hay, &pat, 0)
}

/// The characters with the Unicode property White_Space.
pub open spec fn is_white(c: char) -> bool {
    let u = c as u32;
    ||| 0x09 <= u <= 0x0d
    ||| u == 0x20
    ||| u == 0x85
    ||| u == 0xa0
    ||| u == 0x1680
    ||| 0x2000 <= u <= 0x200a
    ||| u == 0x2028
    ||| u == 0x2029
    ||| u == 0x202f
    ||| u == 0x205f
    ||| u == 0x3000
}

fn is_white_space(c: char) -> (white: bool)
    ensures
        white == is_white(c),
{
    let u: u32 = c as u32;
    (0x09 <= u && u <= 0x0d) || u == 0x20 || u == 0x85 || u == 0xa0 || u == 0x1680 || (0x2000 <= u
        && u <= 0x200a) || u == 0x2028 || u == 0x2029 || u == 0x202f || u == 0x205f || u == 0x3000
}

/// `s` without its leading white space.
pub open spec fn trimmed_start(s: Seq<char>) -> Seq<char>
    decreases s.len(),
{
    if s.len() > 0 && is_white(s[0]) {
        trimmed_start(s.skip(1))
    } else {
        s
    }
}

/// `s` without its trailing white space.
pub open spec fn trimmed_end(s: Seq<char>) -> Seq<char>
    decreases s.len(),
{
    if s.len() > 0 && is_white(s.last()) {
        trimmed_end(s.drop_last())
    } else {
        s
    }
}

/// `s` without its leading and trailing white space.
pub open spec fn trimmed(s: Seq<char>) -> Seq<char> {
    trimmed_end(trimmed_start(s))
}

/// `text` without its leading and trailing white space.
pub fn trim(text: &str) -> (out: &str)
    ensures
        out@ == trimmed(text@),
{
    let chars = chars_of(text);
    let mut from: usize = 0;
    assert(text@.skip(0) =~= text@);
    while from < chars.len() && is_white_space(chars[from])
        invariant
            chars@ == text@,
            from <= chars@.len(),
            trimmed_start(text@) == trimmed_start(text@.skip(from as int)),
        decreases chars@.len() - from,
    {
        assert(text@.skip(from as int).skip(1) =~= text@.skip(from + 1));
        from = from + 1;
    }
    let ghost inner = text@.skip(from as int);
    assert(trimmed_start(text@) == inner);
    let mut to: usize = chars.len();
    assert(text@.subrange(from as int, to as int) =~= inner);
    while from < to && is_white_space(chars[to - 1])
        invariant
            chars@ == text@,
            from <= to <= chars@.len(),
            trimmed_end(inner) == trimmed_end(text@.subrange(from as int, to as int)),
        decreases to - from,
    {
        assert(text@.subrange(from as int, to as int).drop_last() =~= text@.subrange(
            from as int,
            to - 1,
        ));
        to = to - 1;
    }
    text.substring_char(from, to)
}

/// `s` after `p` has been removed from its front as often as it stands there.
pub open spec fn stripped(s: Seq<char>, p: Seq<char>) -> Seq<char>
    decreases s.len(),
{
    if p.len() > 0 && occurs_at(s, p, 0) {
        stripped(s.skip(p.len() as int), p)
    } else {
        s
    }
}

/// `text` after `prefix` has been removed from its front as often as it stands there.
pub fn trim_start_matches<'a>(text: &'a str, prefix: &str) -> (out: &'a str)
    ensures
        out@ == stripped(text@, prefix@),
{
    let hay = chars_of(text);
    let pat = chars_of(prefix);
    let total: usize = hay.len();
    if pat.len() == 0 {
        return text;
    }
    let mut from: usize = 0;
    assert(text@.skip(0) =~= text@);
    while pat.len() <= total - from && matches_at(&hay, &pat, from)
        invariant
            hay@ == text@,
            pat@ == prefix@,
            pat@.len() > 0,
            total == hay@.len(),
            from <= total,
            stripped(text@, prefix@) == stripped(text@.skip(from as int), prefix@),
        decreases total - from,
    {
        assert(text@.skip(from as int).subrange(0, pat@.len() as int) =~= text@.subrange(
            from as int,
            from + pat@.len(),
        ));
        assert(text@.skip(from as int).skip(pat@.len() as int) =~= text@.skip(from + pat@.len()));
        from = from + pat.len();
    }
    proof {
        if from + pat@.len() <= total {
            assert(text@.skip(from as int).subrange(0, pat@.len() as int) =~= text@.subrange(
                from as int,
                from + pat@.len(),
            ));
        }
        assert(text@.skip(from as int) =~= text@.subrange(from as int, total as int));
    }
    text.substring_char(from, total)
}

/// Position of the first `c` in `text`.
pub fn find(text: &str, c: char) -> (at: Option<usize>)
    ensures
        match at {
            Some(i) => i < text@.len() && text@[i as int] == c && !text@.take(i as int).contains(c),
            None => !text@.contains(c),
        },
{
    let chars = chars_of(text);
    let mut i: usize = 0;
    while i < chars.len()
        invariant
            chars@ == text@,
            i <= chars@.len(),
            forall|j: int| 0 <= j < i ==> text@[j] != c,
        decreases chars@.len() - i,
    {
        if chars[i] == c {
            return Some(i);
        }
        i = i + 1;
    }
    None
}

/// Position of the last `c` in `text`.
pub fn rfind(text: &str, c: char) -> (at: Option<usize>)
    ensures
        match at {
            Some(i) => i < text@.len() && text@[i as int] == c && !text@.skip(i + 1).contains(c),
            None => !text@.contains(c),
        },
{
    let chars = chars_of(text);
    let mut i: usize = chars.len();
    while i > 0
        invariant
            chars@ == text@,
            i <= chars@.len(),
            forall|j: int| i <= j < text@.len() ==> text@[j] != c,
        decreases i,
    {
        if chars[i - 1] == c {
            return Some(i - 1);
        }
        i = i - 1;
    }
    None
}

/// The decimal numeral of `n`, without leading zeros.
pub open spec fn decimal(n: nat) -> Seq<char>
    decreases n,
{
    if n < 10 {
        seq![digit(n)]
    } else {
        decimal(n / 10).push(digit(n % 10))
    }
}

/// The digit with the value `d`.
pub open spec fn digit(d: nat) -> char {
    (('0' as u8) + d) as char
}

/// The decimal numeral of `n`.
pub fn decimal_of(n: u64) -> (out: String)
    ensures
        out@ == decimal(n as nat),
{
    let mut tail: Vec<char> = Vec::new();
    let mut rest: u64 = n;
    while rest >= 10
        invariant
            decimal(n as nat) == decimal(rest as nat) + tail@.reverse(),
        decreases rest,
    {
        let low: char = (48u8 + (rest % 10) as u8) as char;
        let ghost before = tail@;
        tail.push(low);
        assert(tail@.reverse() =~= seq![low] + before.reverse());
        assert(decimal(rest as nat) =~= decimal((rest / 10) as nat).push(low));
        assert(decimal(rest as nat) + before.reverse() =~= decimal((rest / 10) as nat)
            + tail@.reverse());
        rest = rest / 10;
    }
    let top: char = (48u8 + rest as u8) as char;
    let ghost before = tail@;
    tail.push(top);
    assert(tail@.reverse() =~= seq![top] + before.reverse());
    let mut chars: Vec<char> = Vec::new();
    let mut i: usize = tail.len();
    while i > 0
        invariant
            i <= tail@.len(),
            chars@ == tail@.reverse().take(tail@.len() - i),
        decreases i,
    {
        chars.push(tail[i - 1]);
        i = i - 1;
    }
    assert(chars@ =~= tail@.reverse());
    string_of(&chars)
}

} // verus!
