//! Text helpers shared by the other modules.
//!
//! A string is modelled by the sequence of its characters.

use vstd::prelude::*;
use vstd::string::*;
use vstd::utf8::*;

verus! {

/// `String::push` appends one character to the end of the string.
pub assume_specification[ String::push ](s: &mut String, c: char)
    ensures
        final(s)@ == old(s)@.push(c),
;

/// `str::trim` removes the white space at both ends and nothing else. White
/// space is what Unicode's `White_Space` property names.
pub assume_specification[ str::trim ](s: &str) -> (trimmed: &str)
    ensures
        trimmed@ == trim_text(s@),
;

/// The characters that have the Unicode property `White_Space`.
pub open spec fn is_white_space(c: char) -> bool {
    ||| '\u{9}' <= c <= '\u{d}'
    ||| c == '\u{20}'
    ||| c == '\u{85}'
    ||| c == '\u{a0}'
    ||| c == '\u{1680}'
    ||| '\u{2000}' <= c <= '\u{200a}'
    ||| c == '\u{2028}'
    ||| c == '\u{2029}'
    ||| c == '\u{202f}'
    ||| c == '\u{205f}'
    ||| c == '\u{3000}'
}

/// `text` without the white space that it starts with.
pub open spec fn trim_start_text(text: Seq<char>) -> Seq<char>
    decreases text.len(),
{
    if text.len() > 0 && is_white_space(text.first()) {
        trim_start_text(text.drop_first())
    } else {
        text
    }
}

/// `text` without the white space that it ends with.
pub open spec fn trim_end_text(text: Seq<char>) -> Seq<char>
    decreases text.len(),
{
    if text.len() > 0 && is_white_space(text.last()) {
        trim_end_text(text.drop_last())
    } else {
        text
    }
}

/// `text` without the white space at its ends.
pub open spec fn trim_text(text: Seq<char>) -> Seq<char> {
    trim_end_text(trim_start_text(text))
}

/// A text that neither starts nor ends with white space is left as it is.
pub proof fn trim_keeps_tight_text(text: Seq<char>)
    requires
        text.len() > 0 ==> !is_white_space(text.first()) && !is_white_space(text.last()),
    ensures
        trim_text(text) == text,
{
}

/// Two texts are the same if their UTF-8 encodings are.
pub proof fn encoding_is_injective(a: Seq<char>, b: Seq<char>)
    ensures
        (encode_utf8(a) == encode_utf8(b)) == (a == b),
{
    encode_utf8_decode_utf8(a);
    encode_utf8_decode_utf8(b);
}

/// Whether two byte slices hold the same bytes.
pub(crate) fn bytes_eq(a: &[u8], b: &[u8]) -> (same: bool)
    ensures
        same == (a@ == b@),
{
    if a.len() != b.len() {
        return false;
    }
    let mut i: usize = 0;
    while i < a.len()
        invariant
            i <= a.len(),
            a.len() == b.len(),
            forall|j: int| 0 <= j < i ==> a@[j] == b@[j],
        decreases a.len() - i,
    {
        if a[i] != b[i] {
            return false;
        }
        i += 1;
    }
    assert(a@ =~= b@);
    true
}

/// Whether two strings hold the same characters.
pub(crate) fn text_eq(a: &str, b: &str) -> (same: bool)
    ensures
        same == (a@ == b@),
{
    proof {
        encoding_is_injective(a@, b@);
    }
    bytes_eq(a.as_bytes(), b.as_bytes())
}

/// The characters of a string.
pub(crate) fn chars_of(text: &str) -> (chars: Vec<char>)
    ensures
        chars@ == text@,
{
    let mut chars: Vec<char> = Vec::new();
    for c in it: text.chars()
        invariant
            it.seq() == text@,
            chars@ == it.seq().take(it.index()),
    {
        chars.push(c);
    }
    chars
}

/// What is left of `text` behind `prefix`, if `text` starts with it.
pub(crate) fn strip_prefix<'a>(text: &'a str, prefix: &str) -> (rest: Option<&'a str>)
    ensures
        match rest {
            Some(rest) => prefix@.is_prefix_of(text@) && rest@ == text@.skip(prefix@.len() as int),
            None => !prefix@.is_prefix_of(text@),
        },
{
    let n: usize = prefix.unicode_len();
    let total: usize = text.unicode_len();
    if n > total {
        return None;
    }
    let head = text.substring_char(0, n);
    if text_eq(head, prefix) {
        assert(text@.skip(n as int) =~= text@.subrange(n as int, total as int));
        Some(text.substring_char(n, total))
    } else {
        assert(prefix@.is_prefix_of(text@) ==> head@ =~= prefix@);
        None
    }
}

/// The digit of `value`, which is below sixteen, in lower case hexadecimal.
pub open spec fn hex_digit(value: int) -> char {
    if value < 10 {
        (value + '0' as int) as char
    } else {
        (value - 10 + 'a' as int) as char
    }
}

/// The digit of `value` in lower case hexadecimal.
pub(crate) fn hex_digit_of(value: u8) -> (digit: char)
    requires
        value < 16,
    ensures
        digit == hex_digit(value as int),
{
    if value < 10 {
        (value + '0' as u8) as char
    } else {
        (value - 10 + 'a' as u8) as char
    }
}

/// The decimal digits of `value`, without leading zeros.
pub open spec fn decimal_text(value: nat) -> Seq<char>
    decreases value,
{
    if value < 10 {
        seq![hex_digit(value as int)]
    } else {
        decimal_text(value / 10).push(hex_digit((value % 10) as int))
    }
}

/// Writes `value` in decimal.
pub(crate) fn decimal(value: usize) -> (text: String)
    ensures
        text@ == decimal_text(value as nat),
    decreases value,
{
    if value < 10 {
        let mut text = String::new();
        text.push(hex_digit_of(value as u8));
        assert(text@ =~= decimal_text(value as nat));
        text
    } else {
        let mut text = decimal(value / 10);
        text.push(hex_digit_of((value % 10) as u8));
        text
    }
}

/// White space is exactly these twenty-five characters.
pub proof fn white_space_is_listed(c: char)
    ensures
        is_white_space(c) <==> "\t\n\u{b}\u{c}\r \u{85}\u{a0}\u{1680}\u{2000}\u{2001}\u{2002}\u{2003}\u{2004}\u{2005}\u{2006}\u{2007}\u{2008}\u{2009}\u{200a}\u{2028}\u{2029}\u{202f}\u{205f}\u{3000}"@.contains(
            c,
        ),
{
    reveal_strlit(
        "\t\n\u{b}\u{c}\r \u{85}\u{a0}\u{1680}\u{2000}\u{2001}\u{2002}\u{2003}\u{2004}\u{2005}\u{2006}\u{2007}\u{2008}\u{2009}\u{200a}\u{2028}\u{2029}\u{202f}\u{205f}\u{3000}",
    );
    let listed =
        "\t\n\u{b}\u{c}\r \u{85}\u{a0}\u{1680}\u{2000}\u{2001}\u{2002}\u{2003}\u{2004}\u{2005}\u{2006}\u{2007}\u{2008}\u{2009}\u{200a}\u{2028}\u{2029}\u{202f}\u{205f}\u{3000}"@;
    if is_white_space(c) {
        let at = if c <= '\u{d}' {
            c as int - 9
        } else if c == '\u{20}' {
            5
        } else if c == '\u{85}' {
            6
        } else if c == '\u{a0}' {
            7
        } else if c == '\u{1680}' {
            8
        } else if c <= '\u{200a}' {
            c as int - 0x2000 + 9
        } else if c == '\u{2028}' {
            20
        } else if c == '\u{2029}' {
            21
        } else if c == '\u{202f}' {
            22
        } else if c == '\u{205f}' {
            23
        } else {
            24
        };
        assert(listed[at] == c);
    }
}

proof fn trim_start_finds(text: Seq<char>, start: int)
    requires
        0 <= start <= text.len(),
        forall|i: int| 0 <= i < start ==> is_white_space(#[trigger] text[i]),
        start < text.len() ==> !is_white_space(text[start]),
    ensures
        trim_start_text(text) == text.skip(start),
    decreases text.len(),
{
    if start > 0 {
        let rest = text.drop_first();
        assert forall|i: int| 0 <= i < start - 1 implies is_white_space(#[trigger] rest[i]) by {
            assert(is_white_space(text[i + 1]));
        }
        trim_start_finds(rest, start - 1);
        assert(rest.skip(start - 1) =~= text.skip(start));
    } else {
        assert(text.skip(0) =~= text);
    }
}

proof fn trim_end_finds(text: Seq<char>, end: int)
    requires
        0 <= end <= text.len(),
        forall|i: int| end <= i < text.len() ==> is_white_space(#[trigger] text[i]),
        end > 0 ==> !is_white_space(text[end - 1]),
    ensures
        trim_end_text(text) == text.take(end),
    decreases text.len(),
{
    if end < text.len() {
        let rest = text.drop_last();
        assert forall|i: int| end <= i < rest.len() implies is_white_space(#[trigger] rest[i]) by {
            assert(is_white_space(text[i]));
        }
        trim_end_finds(rest, end);
        assert(rest.take(end) =~= text.take(end));
    } else {
        assert(text.take(end) =~= text);
    }
}

/// Trimming takes off all the white space around a text, and nothing of the text.
pub proof fn trim_takes_off_what_surrounds(before: Seq<char>, text: Seq<char>, after: Seq<char>)
    requires
        forall|i: int| 0 <= i < before.len() ==> is_white_space(#[trigger] before[i]),
        forall|i: int| 0 <= i < after.len() ==> is_white_space(#[trigger] after[i]),
        text.len() > 0 ==> !is_white_space(text.first()) && !is_white_space(text.last()),
    ensures
        trim_text(before + text + after) == text,
{
    let whole = before + text + after;
    if text.len() > 0 {
        trim_start_finds(whole, before.len() as int);
        let rest = whole.skip(before.len() as int);
        assert(rest =~= text + after);
        trim_end_finds(rest, text.len() as int);
        assert(rest.take(text.len() as int) =~= text);
    } else {
        assert forall|i: int| 0 <= i < whole.len() implies is_white_space(#[trigger] whole[i]) by {
            if i < before.len() {
                assert(whole[i] == before[i]);
            } else {
                assert(whole[i] == after[i - before.len()]);
            }
        }
        trim_start_finds(whole, whole.len() as int);
        assert(whole.skip(whole.len() as int) =~= text);
        trim_end_finds(text, 0);
        assert(text.take(0) =~= text);
    }
}

/// How many characters of white space `text` starts with.
spec fn leading(text: Seq<char>) -> int
    decreases text.len(),
{
    if text.len() > 0 && is_white_space(text.first()) {
        1 + leading(text.drop_first())
    } else {
        0
    }
}

proof fn leading_is_white_space(text: Seq<char>)
    ensures
        0 <= leading(text) <= text.len(),
        forall|i: int| 0 <= i < leading(text) ==> is_white_space(#[trigger] text[i]),
        leading(text) < text.len() ==> !is_white_space(text[leading(text)]),
    decreases text.len(),
{
    if text.len() > 0 && is_white_space(text.first()) {
        let rest = text.drop_first();
        leading_is_white_space(rest);
        assert forall|i: int| 0 <= i < leading(text) implies is_white_space(#[trigger] text[i]) by {
            if i > 0 {
                assert(is_white_space(rest[i - 1]));
            }
        }
    }
}

/// How many characters are left of `text` without the white space at its end.
spec fn kept(text: Seq<char>) -> int
    decreases text.len(),
{
    if text.len() > 0 && is_white_space(text.last()) {
        kept(text.drop_last())
    } else {
        text.len() as int
    }
}

proof fn rest_is_white_space(text: Seq<char>)
    ensures
        0 <= kept(text) <= text.len(),
        forall|i: int| kept(text) <= i < text.len() ==> is_white_space(#[trigger] text[i]),
        kept(text) > 0 ==> !is_white_space(text[kept(text) - 1]),
    decreases text.len(),
{
    if text.len() > 0 && is_white_space(text.last()) {
        let rest = text.drop_last();
        rest_is_white_space(rest);
        assert forall|i: int| kept(text) <= i < text.len() implies is_white_space(
            #[trigger] text[i],
        ) by {
            if i < rest.len() {
                assert(is_white_space(rest[i]));
            }
        }
    }
}

/// Every text is white space, then a tight text, then white space.
pub proof fn every_text_has_a_tight_middle(text: Seq<char>) -> (parts: (
    Seq<char>,
    Seq<char>,
    Seq<char>,
))
    ensures
        text == parts.0 + parts.1 + parts.2,
        forall|i: int| 0 <= i < parts.0.len() ==> is_white_space(#[trigger] parts.0[i]),
        forall|i: int| 0 <= i < parts.2.len() ==> is_white_space(#[trigger] parts.2[i]),
        parts.1.len() > 0 ==> !is_white_space(parts.1.first()) && !is_white_space(parts.1.last()),
{
    leading_is_white_space(text);
    let before = text.take(leading(text));
    let rest = text.skip(leading(text));
    rest_is_white_space(rest);
    let middle = rest.take(kept(rest));
    let after = rest.skip(kept(rest));
    assert(before + middle + after =~= text);
    (before, middle, after)
}

/// A hexadecimal digit is the one at its place in the table of digits.
pub proof fn hex_digits_are_tabled(value: int)
    requires
        0 <= value < 16,
    ensures
        hex_digit(value) == "0123456789abcdef"@[value],
{
    reveal_strlit("0123456789abcdef");
}

/// A number is written by its last digit behind what its other digits write, and
/// a number with one digit by that digit.
pub proof fn decimal_text_ends_with_the_last_digit(tens: nat, digit: nat)
    requires
        digit < 10,
    ensures
        decimal_text(digit) == seq!["0123456789"@[digit as int]],
        tens > 0 ==> decimal_text(10 * tens + digit) == decimal_text(tens).push(
            "0123456789"@[digit as int],
        ),
{
    reveal_strlit("0123456789");
    assert((10 * tens + digit) / 10 == tens && (10 * tens + digit) % 10 == digit);
}

} // verus!
