//! What the text operations are for, said of their results.

use crate::text::{
    chars_of, contains, decimal, decimal_of, digit, find, is_white, lower_char, lowered, occurs,
    occurs_at, rfind, same, starts_with, stripped, to_ascii_lowercase, trim, trim_start_matches, trimmed, trimmed_end,
    trimmed_start,
};
use vstd::prelude::*;
use vstd::string::*;

verus! {

/// `text` is made of something, then `part`, then something.
pub open spec fn stands_in(text: Seq<char>, part: Seq<char>) -> bool {
    exists|before: Seq<char>, after: Seq<char>| text == #[trigger] (before + part + after)
}

/// A part occurs in a text exactly if the text can be put together around it.
pub proof fn law_occurrence_is_a_split(text: Seq<char>, part: Seq<char>)
    ensures
        occurs(text, part) <==> stands_in(text, part),
{
    if occurs(text, part) {
        let i = choose|i: int| occurs_at(text, part, i);
        let before = text.take(i);
        let after = text.skip(i + part.len());
        assert(text =~= before + part + after);
    }
    if stands_in(text, part) {
        let (before, after) = choose|before: Seq<char>, after: Seq<char>|
            text == #[trigger] (before + part + after);
        assert(text.subrange(before.len() as int, (before.len() + part.len()) as int) =~= part);
        assert(occurs_at(text, part, before.len() as int));
    }
}

/// A search finds what the text can be put together around, and nothing else.
pub proof fn law_search_finds_what_is_there(haystack: &str, needle: &str, found: bool)
    requires
        call_ensures(contains, (haystack, needle), found),
    ensures
        found <==> stands_in(haystack@, needle@),
{
    law_occurrence_is_a_split(haystack@, needle@);
}

/// Whether a text begins with another one, which some text completes.
pub proof fn law_prefix_can_be_completed(text: &str, prefix: &str, found: bool)
    requires
        call_ensures(starts_with, (text, prefix), found),
    ensures
        found <==> exists|after: Seq<char>| text@ == #[trigger] (prefix@ + after),
{
    if found {
        assert(text@ =~= prefix@ + text@.skip(prefix@.len() as int));
    }
    if exists|after: Seq<char>| text@ == #[trigger] (prefix@ + after) {
        let after = choose|after: Seq<char>| text@ == #[trigger] (prefix@ + after);
        assert(text@.subrange(0, prefix@.len() as int) =~= prefix@);
    }
}

/// Lowering changes the ASCII capital letters alone, each to the letter 32 places on.
pub proof fn law_lowering_changes_capitals_alone(text: Seq<char>)
    ensures
        lowered(text).len() == text.len(),
        forall|i: int|
            0 <= i < text.len() ==> if 'A' <= text[i] <= 'Z' {
                (#[trigger] lowered(text)[i]) as u32 == text[i] as u32 + 32
            } else {
                lowered(text)[i] == text[i]
            },
{
    assert forall|i: int| 0 <= i < text.len() && 'A' <= text[i] <= 'Z' implies (
    #[trigger] lowered(text)[i]) as u32 == text[i] as u32 + 32 by {
        let c = text[i];
        assert(lowered(text)[i] == lower_char(c));
        assert(65 <= c as u32 <= 90);
    }
}

/// The lowered text has the characters that [`law_lowering_changes_capitals_alone`] tells.
pub proof fn law_lowered_text(text: &str, out: String)
    requires
        call_ensures(to_ascii_lowercase, (text,), out),
    ensures
        out@.len() == text@.len(),
        forall|i: int|
            0 <= i < text@.len() ==> if 'A' <= text@[i] <= 'Z' {
                (#[trigger] out@[i]) as u32 == text@[i] as u32 + 32
            } else {
                out@[i] == text@[i]
            },
{
    law_lowering_changes_capitals_alone(text@);
}

/// Nothing but white space stands in `s`.
pub open spec fn blank(s: Seq<char>) -> bool {
    forall|i: int| 0 <= i < s.len() ==> is_white(#[trigger] s[i])
}

/// `inner` is `text` without the white space around it.
pub open spec fn is_trim_of(text: Seq<char>, inner: Seq<char>) -> bool {
    &&& exists|front: Seq<char>, back: Seq<char>|
        blank(front) && blank(back) && text == #[trigger] (front + inner + back)
    &&& inner.len() > 0 ==> !is_white(inner[0]) && !is_white(inner.last())
}

proof fn lemma_trimmed_start(s: Seq<char>)
    ensures
        blank(s.take(s.len() - trimmed_start(s).len())),
        trimmed_start(s).len() <= s.len(),
        s.skip(s.len() - trimmed_start(s).len()) == trimmed_start(s),
        trimmed_start(s).len() > 0 ==> !is_white(trimmed_start(s)[0]),
    decreases s.len(),
{
    if s.len() > 0 && is_white(s[0]) {
        let rest = s.skip(1);
        lemma_trimmed_start(rest);
        let n = s.len() - trimmed_start(s).len();
        assert forall|i: int| 0 <= i < n implies is_white(#[trigger] s.take(n)[i]) by {
            if i > 0 {
                assert(rest.take(n - 1)[i - 1] == s[i]);
            }
        }
        assert(s.skip(n) =~= rest.skip(n - 1));
    } else {
        assert(s.skip(0) =~= s);
    }
}

proof fn lemma_trimmed_end(s: Seq<char>)
    ensures
        trimmed_end(s).len() <= s.len(),
        blank(s.skip(trimmed_end(s).len() as int)),
        s.take(trimmed_end(s).len() as int) == trimmed_end(s),
        trimmed_end(s).len() > 0 ==> !is_white(trimmed_end(s).last()),
    decreases s.len(),
{
    if s.len() > 0 && is_white(s.last()) {
        let rest = s.drop_last();
        lemma_trimmed_end(rest);
        let n = trimmed_end(s).len() as int;
        assert forall|i: int| 0 <= i < s.len() - n implies is_white(#[trigger] s.skip(n)[i]) by {
            if i < rest.len() - n {
                assert(rest.skip(n)[i] == s[n + i]);
            }
        }
        assert(s.take(n) =~= rest.take(n));
    } else {
        assert(s.take(s.len() as int) =~= s);
    }
}

/// Trimming takes off the white space around a text, all of it and nothing else.
pub proof fn law_trimming_takes_off_white_space(text: Seq<char>)
    ensures
        is_trim_of(text, trimmed(text)),
{
    let inner = trimmed_start(text);
    let out = trimmed(text);
    lemma_trimmed_start(text);
    lemma_trimmed_end(inner);
    let front = text.take(text.len() - inner.len());
    let back = inner.skip(out.len() as int);
    assert(inner =~= out + back);
    assert(text =~= front + out + back);
    if out.len() > 0 {
        assert(out[0] == inner[0]);
    }
}

/// What is not white space stands within the trim.
proof fn lemma_within(head: Seq<char>, inner: Seq<char>, tail: Seq<char>, at: int)
    requires
        blank(head),
        blank(tail),
        0 <= at < (head + inner + tail).len(),
        !is_white((head + inner + tail)[at]),
    ensures
        head.len() <= at < head.len() + inner.len(),
{
    let text = head + inner + tail;
    if at < head.len() {
        assert(text[at] == head[at]);
    }
    if at >= head.len() + inner.len() {
        assert(text[at] == tail[at - (head.len() + inner.len())]);
    }
}

/// A text has one trim only.
pub proof fn law_trim_is_unique(text: Seq<char>, inner: Seq<char>, other: Seq<char>)
    requires
        is_trim_of(text, inner),
        is_trim_of(text, other),
    ensures
        inner == other,
{
    let (front, back) = choose|front: Seq<char>, back: Seq<char>|
        blank(front) && blank(back) && text == #[trigger] (front + inner + back);
    let (head, tail) = choose|head: Seq<char>, tail: Seq<char>|
        blank(head) && blank(tail) && text == #[trigger] (head + other + tail);
    if inner.len() > 0 {
        assert(text[front.len() as int] == inner[0]);
        assert(text[front.len() + inner.len() - 1] == inner.last());
        lemma_within(head, other, tail, front.len() as int);
        lemma_within(head, other, tail, front.len() + inner.len() - 1);
    }
    if other.len() > 0 {
        assert(text[head.len() as int] == other[0]);
        assert(text[head.len() + other.len() - 1] == other.last());
        lemma_within(front, inner, back, head.len() as int);
        lemma_within(front, inner, back, head.len() + other.len() - 1);
    }
    assert(inner.len() == other.len());
    assert forall|i: int| 0 <= i < inner.len() implies inner[i] == other[i] by {
        assert(text[front.len() + i] == inner[i]);
        assert(text[head.len() + i] == other[i]);
    }
    assert(inner =~= other);
}

/// The trimmed text is the trim of the text.
pub proof fn law_trimmed_text(text: &str, out: &str)
    requires
        call_ensures(trim, (text,), out),
    ensures
        is_trim_of(text@, out@),
{
    law_trimming_takes_off_white_space(text@);
}

/// `part` as often as told.
pub open spec fn repeated(part: Seq<char>, times: nat) -> Seq<char>
    decreases times,
{
    if times == 0 {
        Seq::empty()
    } else {
        part + repeated(part, (times - 1) as nat)
    }
}

/// Stripping takes a prefix off as often as it stands there.
pub proof fn law_stripping_takes_off_every_prefix(text: Seq<char>, prefix: Seq<char>)
    requires
        prefix.len() > 0,
    ensures
        exists|times: nat| text == #[trigger] repeated(prefix, times) + stripped(text, prefix),
        !exists|after: Seq<char>| stripped(text, prefix) == #[trigger] (prefix + after),
    decreases text.len(),
{
    if occurs_at(text, prefix, 0) {
        let rest = text.skip(prefix.len() as int);
        law_stripping_takes_off_every_prefix(rest, prefix);
        let times = choose|times: nat|
            rest == #[trigger] repeated(prefix, times) + stripped(rest, prefix);
        assert(text =~= prefix + rest);
        assert(text =~= repeated(prefix, times + 1) + stripped(text, prefix));
    } else {
        assert(text =~= repeated(prefix, 0) + text);
        if exists|after: Seq<char>| text == #[trigger] (prefix + after) {
            let after = choose|after: Seq<char>| text == #[trigger] (prefix + after);
            assert(text.subrange(0, prefix.len() as int) =~= prefix);
        }
    }
}

/// The stripped text is what is left when the prefix has been taken off as often as it stands there.
pub proof fn law_stripped_text(text: &str, prefix: &str, out: &str)
    requires
        call_ensures(trim_start_matches, (text, prefix), out),
        prefix@.len() > 0,
    ensures
        exists|times: nat| text@ == #[trigger] repeated(prefix@, times) + out@,
        !exists|after: Seq<char>| out@ == #[trigger] (prefix@ + after),
{
    law_stripping_takes_off_every_prefix(text@, prefix@);
}

/// The number that decimal digits stand for.
pub open spec fn value_of(digits: Seq<char>) -> int
    decreases digits.len(),
{
    if digits.len() == 0 {
        0
    } else {
        10 * value_of(digits.drop_last()) + (digits.last() as u32 - 48)
    }
}

/// `s` is a numeral of `n`: digits alone, without a leading zero unless it is the only one.
pub open spec fn is_numeral_of(s: Seq<char>, n: nat) -> bool {
    &&& s.len() > 0
    &&& forall|i: int| 0 <= i < s.len() ==> '0' <= #[trigger] s[i] <= '9'
    &&& s.len() > 1 ==> s[0] != '0'
    &&& value_of(s) == n
}

/// A decimal numeral stands for its number.
pub proof fn law_numeral_stands_for_its_number(n: nat)
    ensures
        is_numeral_of(decimal(n), n),
        n > 0 ==> decimal(n)[0] != '0',
    decreases n,
{
    let s = decimal(n);
    if n < 10 {
        assert(digit(n) as u32 == 48 + n);
        assert(s.drop_last() =~= Seq::<char>::empty());
        assert(value_of(s.drop_last()) == 0);
        assert(s.last() == digit(n));
    } else {
        let front = decimal(n / 10);
        law_numeral_stands_for_its_number(n / 10);
        assert(digit(n % 10) as u32 == 48 + n % 10);
        assert(s.drop_last() =~= front);
        assert forall|i: int| 0 <= i < s.len() implies '0' <= #[trigger] s[i] <= '9' by {
            if i < front.len() {
                assert(s[i] == front[i]);
            }
        }
        assert(s[0] == front[0]);
    }
}

/// What is written for a number stands for it.
pub proof fn law_written_number(n: u64, out: String)
    requires
        call_ensures(decimal_of, (n,), out),
    ensures
        is_numeral_of(out@, n as nat),
{
    law_numeral_stands_for_its_number(n as nat);
}

/// The code points of the characters with the Unicode property White_Space.
pub open spec fn white_codes() -> Set<int> {
    set![
        9,
        10,
        11,
        12,
        13,
        32,
        133,
        160,
        5760,
        8192,
        8193,
        8194,
        8195,
        8196,
        8197,
        8198,
        8199,
        8200,
        8201,
        8202,
        8232,
        8233,
        8239,
        8287,
        12288,
    ]
}

/// A single character is trimmed away exactly if it is one of the characters with the Unicode property
/// White_Space.
pub proof fn law_white_space_is_trimmed(text: &str, c: char, out: &str)
    requires
        call_ensures(trim, (text,), out),
        text@ == seq![c],
    ensures
        white_codes().contains(c as int) ==> out@.len() == 0,
        !white_codes().contains(c as int) ==> out@ == text@,
{
    law_trimming_takes_off_white_space(text@);
    let one = seq![c];
    assert(one.skip(1) =~= Seq::<char>::empty());
    assert(one.drop_last() =~= Seq::<char>::empty());
    assert(one[0] == c && one.last() == c);
    let none = Seq::<char>::empty();
    assert(trimmed_start(none) == none && trimmed_end(none) == none);
}

/// A character is found where it first stands, or last stands; where it does not stand, it is not
/// found. Two texts are the same exactly if they hold the same characters.
pub proof fn law_characters_are_found(
    text: &str,
    c: char,
    other: &str,
    first: Option<usize>,
    last: Option<usize>,
    equal: bool,
    chars: Vec<char>,
)
    requires
        call_ensures(find, (text, c), first),
        call_ensures(rfind, (text, c), last),
        call_ensures(same, (text, other), equal),
        call_ensures(chars_of, (text,), chars),
    ensures
        first matches Some(i) ==> i < text@.len() && text@[i as int] == c && forall|j: int|
            0 <= j < i ==> #[trigger] text@[j] != c,
        last matches Some(i) ==> i < text@.len() && text@[i as int] == c && forall|j: int|
            i < j < text@.len() ==> #[trigger] text@[j] != c,
        first is None ==> forall|j: int| 0 <= j < text@.len() ==> #[trigger] text@[j] != c,
        last is None <==> first is None,
        equal <==> text@ == other@,
        chars@ == text@,
{
    if let Some(i) = first {
        assert forall|j: int| 0 <= j < i implies #[trigger] text@[j] != c by {
            assert(text@.take(i as int)[j] == text@[j]);
            if text@[j] == c {
                assert(text@.take(i as int).contains(c));
            }
        }
    }
    if let Some(i) = last {
        assert forall|j: int| i < j < text@.len() implies #[trigger] text@[j] != c by {
            assert(text@.skip(i + 1)[j - i - 1] == text@[j]);
            if text@[j] == c {
                assert(text@.skip(i + 1).contains(c));
            }
        }
    }
    if first is None {
        assert forall|j: int| 0 <= j < text@.len() implies #[trigger] text@[j] != c by {
            assert(text@.contains(text@[j]));
        }
    }
}

} // verus!
