//! Text: white space, decimal numbers, UTF-8.

use vstd::prelude::*;
use vstd::utf8::{decode_utf8, encode_utf8, valid_utf8};

verus! {

/// The characters with the Unicode property `White_Space`.
pub open spec fn is_white_space(c: char) -> bool {
    ||| '\u{9}' <= c <= '\u{d}'
    ||| c == '\u{20}'
    ||| c == '\u{85}'
    ||| c == '\u{a0}'
    ||| c == '\u{1680}'
    ||| '\u{2000}' <= c <= '\u{200a}'
    ||| c == '\u{2028}'
    ||| c == '\u{2029}'
    ||| c == '\u{202f}'
    ||| c == '\u{205f}'
    ||| c == '\u{3000}'
}

/// `text` without the white space that it starts with.
pub open spec fn trimmed_start(text: Seq<char>) -> Seq<char>
    decreases text.len(),
{
    if text.len() > 0 && is_white_space(text[0]) {
        trimmed_start(text.drop_first())
    } else {
        text
    }
}

/// `text` without the white space that it ends with.
pub open spec fn trimmed_end(text: Seq<char>) -> Seq<char>
    decreases text.len(),
{
    if text.len() > 0 && is_white_space(text.last()) {
        trimmed_end(text.drop_last())
    } else {
        text
    }
}

/// `text` without the white space around it.
pub open spec fn trimmed(text: Seq<char>) -> Seq<char> {
    trimmed_end(trimmed_start(text))
}

/// `str::trim` removes leading and trailing white space: the characters with the Unicode property
/// `White_Space`.
pub assume_specification[ str::trim ](text: &str) -> (trimmed_text: &str)
    ensures
        trimmed_text@ == trimmed(text@),
;

/// What `String::from_utf8_lossy` makes of a byte string.
pub uninterp spec fn utf8_lossy(bytes: Seq<u8>) -> Seq<char>;

/// `String::from_utf8_lossy`: the text depends on the bytes alone, and valid UTF-8 is decoded as
/// it stands.
#[verifier::external_body]
pub(crate) fn decode_lossy(bytes: &[u8]) -> (text: String)
    ensures
        text@ == utf8_lossy(bytes@),
        valid_utf8(bytes@) ==> text@ == decode_utf8(bytes@),
{
    String::from_utf8_lossy(bytes).into_owned()
}

/// What the `Debug` formatting of an optional text is.
pub uninterp spec fn debug_form(text: Option<Seq<char>>) -> Seq<char>;

/// The text inside an optional string.
pub open spec fn option_view(text: Option<String>) -> Option<Seq<char>> {
    match text {
        Some(inner) => Some(inner@),
        None => None,
    }
}

/// A text of ASCII letters and digits.
pub open spec fn is_alphanumeric(text: Seq<char>) -> bool {
    forall|i: int|
        0 <= i < text.len() ==> {
            ||| '0' <= #[trigger] text[i] <= '9'
            ||| 'A' <= text[i] <= 'Z'
            ||| 'a' <= text[i] <= 'z'
        }
}

/// An absent text is written `None`, and one of letters and digits in quotes inside `Some`.
pub open spec fn debug_form_is_plain(text: Option<Seq<char>>) -> bool {
    match text {
        None => debug_form(text) == "None"@,
        Some(inner) => is_alphanumeric(inner) ==> debug_form(text) == "Some(\""@ + inner + "\")"@,
    }
}

/// The `Debug` formatting of `Option<String>`: it depends on the text alone; an absent text is
/// written `None`, and a text of ASCII letters and digits in quotes inside `Some`. How other
/// characters are escaped is left unsaid.
#[verifier::external_body]
pub(crate) fn debug_option(text: &Option<String>) -> (formatted: String)
    ensures
        formatted@ == debug_form(option_view(*text)),
        match *text {
            None => formatted@ == "None"@,
            Some(inner) => is_alphanumeric(inner@) ==> formatted@ == "Some(\""@ + inner@
                + "\")"@,
        },
{
    format!("{text:?}")
}

/// The decimal digits of `n`.
pub open spec fn decimal_digits(n: nat) -> Seq<char>
    decreases n,
{
    if n < 10 {
        seq![('0' as u32 + n) as char]
    } else {
        decimal_digits(n / 10).push(('0' as u32 + n % 10) as char)
    }
}

/// The decimal digit of a number below ten.
fn digit(n: usize) -> (text: &'static str)
    requires
        n < 10,
    ensures
        text@ == seq![('0' as u32 + n) as char],
{
    proof {
        reveal_strlit("0");
        reveal_strlit("1");
        reveal_strlit("2");
        reveal_strlit("3");
        reveal_strlit("4");
        reveal_strlit("5");
        reveal_strlit("6");
        reveal_strlit("7");
        reveal_strlit("8");
        reveal_strlit("9");
    }
    match n {
        0 => "0",
        1 => "1",
        2 => "2",
        3 => "3",
        4 => "4",
        5 => "5",
        6 => "6",
        7 => "7",
        8 => "8",
        _ => "9",
    }
}

/// The decimal digits of `n`.
pub(crate) fn decimal(n: usize) -> (text: String)
    ensures
        text@ == decimal_digits(n as nat),
    decreases n,
{
    if n < 10 {
        digit(n).to_owned()
    } else {
        let mut text = decimal(n / 10);
        text.append(digit(n % 10));
        assert(text@ =~= decimal_digits(n as nat));
        text
    }
}

/// Two texts, end to end.
pub(crate) fn join2(first: &str, second: &str) -> (text: String)
    ensures
        text@ == first@ + second@,
{
    let mut text = first.to_owned();
    text.append(second);
    text
}

/// Three texts, end to end.
pub(crate) fn join3(first: &str, second: &str, third: &str) -> (text: String)
    ensures
        text@ == first@ + second@ + third@,
{
    let mut text = first.to_owned();
    text.append(second);
    text.append(third);
    text
}

/// The UTF-8 bytes of two texts end to end are the bytes of the one and then of the other.
pub proof fn lemma_utf8_concat(first: Seq<char>, second: Seq<char>)
    ensures
        encode_utf8(first + second) == encode_utf8(first) + encode_utf8(second),
    decreases first.len(),
{
    if first.len() == 0 {
        assert(first + second =~= second);
        assert(encode_utf8(first) + encode_utf8(second) =~= encode_utf8(second));
    } else {
        lemma_utf8_concat(first.drop_first(), second);
        assert((first + second).drop_first() =~= first.drop_first() + second);
        assert(encode_utf8(first + second) =~= encode_utf8(first) + encode_utf8(second));
    }
}

/// White space is what Unicode calls so: 25 characters, given here by their numbers.
pub proof fn law_white_space(c: char)
    ensures
        is_white_space(c) <==> {
            let n = c as u32;
            ||| 9 <= n <= 13
            ||| n == 0x20 || n == 0x85 || n == 0xa0 || n == 0x1680
            ||| 0x2000 <= n <= 0x200a
            ||| n == 0x2028 || n == 0x2029 || n == 0x202f || n == 0x205f || n == 0x3000
        },
{
}

proof fn lemma_trimmed_start(text: Seq<char>)
    ensures
        exists|n: int|
            0 <= n <= text.len() && trimmed_start(text) == #[trigger] text.skip(n) && forall|i: int|
                0 <= i < n ==> is_white_space(#[trigger] text[i]),
        trimmed_start(text).len() > 0 ==> !is_white_space(trimmed_start(text)[0]),
    decreases text.len(),
{
    if text.len() > 0 && is_white_space(text[0]) {
        let rest = text.drop_first();
        lemma_trimmed_start(rest);
        let n = choose|n: int|
            0 <= n <= rest.len() && trimmed_start(rest) == #[trigger] rest.skip(n) && forall|i: int|
                0 <= i < n ==> is_white_space(#[trigger] rest[i]);
        assert(rest.skip(n) =~= text.skip(n + 1));
        assert forall|i: int| 0 <= i < n + 1 implies is_white_space(#[trigger] text[i]) by {
            if i > 0 {
                assert(text[i] == rest[i - 1]);
            }
        }
    } else {
        assert(text.skip(0) =~= text);
    }
}

proof fn lemma_trimmed_end(text: Seq<char>)
    ensures
        exists|n: int|
            0 <= n <= text.len() && trimmed_end(text) == #[trigger] text.take(n) && forall|i: int|
                n <= i < text.len() ==> is_white_space(#[trigger] text[i]),
        trimmed_end(text).len() > 0 ==> !is_white_space(trimmed_end(text).last()),
    decreases text.len(),
{
    if text.len() > 0 && is_white_space(text.last()) {
        let rest = text.drop_last();
        lemma_trimmed_end(rest);
        let n = choose|n: int|
            0 <= n <= rest.len() && trimmed_end(rest) == #[trigger] rest.take(n) && forall|i: int|
                n <= i < rest.len() ==> is_white_space(#[trigger] rest[i]);
        assert(rest.take(n) =~= text.take(n));
        assert forall|i: int| n <= i < text.len() implies is_white_space(#[trigger] text[i]) by {
            if i < rest.len() {
                assert(text[i] == rest[i]);
            }
        }
    } else {
        assert(text.take(text.len() as int) =~= text);
    }
}

/// Trimming takes white space off both ends, all of it, and nothing else.
pub proof fn law_trim(text: Seq<char>)
    ensures
        exists|from: int, to: int|
            0 <= from <= to <= text.len() && trimmed(text) == #[trigger] text.subrange(from, to)
                && (forall|i: int|
                0 <= i < text.len() && (i < from || to <= i) ==> is_white_space(
                    #[trigger] text[i],
                )),
        trimmed(text).len() > 0 ==> !is_white_space(trimmed(text)[0]) && !is_white_space(
            trimmed(text).last(),
        ),
{
    let started = trimmed_start(text);
    lemma_trimmed_start(text);
    lemma_trimmed_end(started);
    let from = choose|n: int|
        0 <= n <= text.len() && started == #[trigger] text.skip(n) && forall|i: int|
            0 <= i < n ==> is_white_space(#[trigger] text[i]);
    let kept = choose|n: int|
        0 <= n <= started.len() && trimmed_end(started) == #[trigger] started.take(n) && forall|
            i: int,
        |
            n <= i < started.len() ==> is_white_space(#[trigger] started[i]);
    let to = from + kept;
    assert(started.take(kept) =~= text.subrange(from, to));
    assert forall|i: int| 0 <= i < text.len() && (i < from || to <= i) implies is_white_space(
        #[trigger] text[i],
    ) by {
        if i >= to {
            assert(text[i] == started[i - from]);
        }
    }
    if trimmed(text).len() > 0 {
        assert(trimmed(text)[0] == started[0]);
    }
}

/// Decimal notation: a number below ten is its digit, and ten times a number and a digit more is
/// the notation of that number and then the digit.
pub proof fn law_decimal_notation(n: nat, digit: nat)
    requires
        digit < 10,
    ensures
        decimal_digits(digit) == seq![('0' as u32 + digit) as char],
        n > 0 ==> decimal_digits(10 * n + digit) == decimal_digits(n) + decimal_digits(digit),
{
    if n > 0 {
        assert((10 * n + digit) / 10 == n);
        assert(decimal_digits(10 * n + digit) =~= decimal_digits(n) + decimal_digits(digit));
    }
}

/// The view of an optional text is the text, where there is one.
pub proof fn law_option_view(text: Option<String>, inner: String)
    ensures
        option_view(Some(inner)) == Some(inner@),
        option_view(None) == None::<Seq<char>>,
{
}

/// A status that is not there is written `None`, and one that is made of digits, as every gRPC
/// status is, in quotes inside `Some`.
pub proof fn law_plain_debug_form(text: Seq<char>)
    ensures
        debug_form_is_plain(None) ==> debug_form(None) == "None"@,
        debug_form_is_plain(Some(text)) && (forall|i: int|
            0 <= i < text.len() ==> '0' <= #[trigger] text[i] <= '9') ==> debug_form(Some(text))
            == "Some(\""@ + text + "\")"@,
        debug_form_is_plain(Some(text)) && (forall|i: int|
            0 <= i < text.len() ==> 'a' <= #[trigger] text[i] <= 'z' || 'A' <= text[i] <= 'Z')
            ==> debug_form(Some(text)) == "Some(\""@ + text + "\")"@,
{
}

} // verus!
