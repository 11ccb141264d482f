//! SHA-256 fingerprints and their hexadecimal form.

use crate::error::ExecServerTlsError;
use crate::text;
use sha2::Digest;
use sha2::Sha256;
use vstd::prelude::*;
use vstd::string::*;
use vstd::utf8::*;

verus! {

/// The SHA-256 digest of `data`.
pub uninterp spec fn sha256_digest(data: Seq<u8>) -> Seq<u8>;

/// `sha2::Sha256::digest` computes the SHA-256 digest of its argument, which is
/// a function of the bytes alone.
#[verifier::external_body]
pub(crate) fn sha256(data: &[u8]) -> (digest: [u8; 32])
    ensures
        digest@ == sha256_digest(data@),
{
    Sha256::digest(data).into()
}

/// What the `Debug` implementation of `char` writes for `c`.
pub uninterp spec fn char_debug(c: char) -> Seq<char>;

/// `Debug` of `char` writes the character between single quotes, escaped where
/// it is not printable, a quote or a backslash. What it writes depends on the
/// character alone; it is spelled out for the printable characters of ASCII that
/// need no escape.
#[verifier::external_body]
fn debug_char(c: char) -> (written: String)
    ensures
        written@ == char_debug(c),
        ' ' <= c <= '~' && c != '\'' && c != '"' && c != '\\' ==> written@ == seq!['\'', c, '\''],
{
    format!("{:?}", c)
}

/// The value of a hexadecimal digit in either case, given as a byte.
pub open spec fn hex_value(c: u8) -> Option<int> {
    if '0' as int <= c <= '9' as int {
        Some(c - '0' as int)
    } else if 'a' as int <= c <= 'f' as int {
        Some(c - 'a' as int + 10)
    } else if 'A' as int <= c <= 'F' as int {
        Some(c - 'A' as int + 10)
    } else {
        None
    }
}

/// What is said of a byte that is no hexadecimal digit.
pub open spec fn bad_digit_message(c: u8) -> Seq<char> {
    "invalid hex character: "@ + char_debug(c as char)
}

/// What is said of a text with the wrong number of digits.
pub open spec fn bad_length_message(found: nat) -> Seq<char> {
    "expected 64 hex characters, got "@ + text::decimal_text(found)
}

/// The value of the hexadecimal digit `c`.
pub fn hex_val(c: u8) -> (value: Result<u8, ExecServerTlsError>)
    ensures
        match value {
            Ok(value) => hex_value(c) == Some(value as int),
            Err(ExecServerTlsError::InvalidFingerprint(message)) => {
                &&& hex_value(c) is None
                &&& message@ == bad_digit_message(c)
                &&& message@ == "invalid hex character: "@ + char_debug(c as char)
                &&& ' ' as int <= c <= '~' as int && c != '\'' as int && c != '"' as int && c
                    != '\\' as int ==> message@ == "invalid hex character: '"@ + seq![c as char, '\'']
            },
            Err(_) => false,
        },
{
    if '0' as u8 <= c && c <= '9' as u8 {
        Ok(c - '0' as u8)
    } else if 'a' as u8 <= c && c <= 'f' as u8 {
        Ok(c - 'a' as u8 + 10)
    } else if 'A' as u8 <= c && c <= 'F' as u8 {
        Ok(c - 'A' as u8 + 10)
    } else {
        let mut message = "invalid hex character: ".to_string();
        message.append(debug_char(c as char).as_str());
        proof {
            reveal_strlit("invalid hex character: ");
            reveal_strlit("invalid hex character: '");
            assert("invalid hex character: "@ + seq!['\'', c as char, '\'']
                =~= "invalid hex character: '"@ + seq![c as char, '\'']);
        }
        Err(ExecServerTlsError::InvalidFingerprint(message))
    }
}

/// `bytes` in lower case hexadecimal, two digits for each byte.
pub open spec fn hex_text(bytes: Seq<u8>) -> Seq<char> {
    Seq::new(
        2 * bytes.len(),
        |i: int|
            text::hex_digit(
                if i % 2 == 0 {
                    bytes[i / 2] as int / 16
                } else {
                    bytes[i / 2] as int % 16
                },
            ),
    )
}

/// Writes `bytes` in lower case hexadecimal, without separators.
pub fn hex_encode(bytes: &[u8]) -> (hex: String)
    ensures
        hex@ == hex_text(bytes@),
{
    let mut hex = String::new();
    let mut i: usize = 0;
    while i < bytes.len()
        invariant
            i <= bytes.len(),
            hex@ == hex_text(bytes@.take(i as int)),
        decreases bytes.len() - i,
    {
        let b: u8 = bytes[i];
        assert(b >> 4 == b / 16 && b & 0x0f == b % 16) by (bit_vector);
        hex.push(text::hex_digit_of(b >> 4));
        hex.push(text::hex_digit_of(b & 0x0f));
        i += 1;
        assert(hex@ =~= hex_text(bytes@.take(i as int)));
    }
    assert(bytes@.take(i as int) =~= bytes@);
    hex
}

/// Whether two fingerprints are the same, in a time that does not depend on
/// where they differ.
pub fn constant_time_eq(a: &[u8; 32], b: &[u8; 32]) -> (same: bool)
    ensures
        same == (a@ == b@),
{
    let mut diff: u8 = 0;
    let mut i: usize = 0;
    while i < 32
        invariant
            i <= 32,
            (diff == 0) == (forall|j: int| 0 <= j < i ==> a@[j] == b@[j]),
        decreases 32 - i,
    {
        let x: u8 = a[i];
        let y: u8 = b[i];
        assert((diff | (x ^ y)) == 0 <==> diff == 0 && x == y) by (bit_vector);
        diff = diff | (x ^ y);
        i += 1;
    }
    assert((forall|j: int| 0 <= j < 32 ==> a@[j] == b@[j]) ==> a@ =~= b@);
    diff == 0
}

/// The characters that may stand between the digits of a fingerprint.
pub open spec fn is_separator(c: char) -> bool {
    c == ':' || c == ' ' || c == '-'
}

/// `value` without separators.
pub open spec fn cleaned_text(value: Seq<char>) -> Seq<char> {
    value.filter(|c: char| !is_separator(c))
}

/// Whether every byte is a hexadecimal digit.
pub open spec fn all_hex(bytes: Seq<u8>) -> bool {
    forall|i: int| 0 <= i < bytes.len() ==> hex_value(#[trigger] bytes[i]) is Some
}

/// The bytes that pairs of hexadecimal digits write.
pub open spec fn decode_pairs(digits: Seq<u8>) -> Seq<u8> {
    Seq::new(
        digits.len() / 2,
        |i: int| (hex_value(digits[2 * i])->0 * 16 + hex_value(digits[2 * i + 1])->0) as u8,
    )
}

/// The fingerprint that `value` writes: sixty-four hexadecimal digits, in
/// either case, with any separators.
pub open spec fn fingerprint_value(value: Seq<char>) -> Option<Seq<u8>> {
    let digits = encode_utf8(cleaned_text(value));
    if digits.len() == 64 && all_hex(digits) {
        Some(decode_pairs(digits))
    } else {
        None
    }
}

/// The first byte that is no hexadecimal digit.
pub open spec fn first_bad_digit(bytes: Seq<u8>) -> u8
    recommends
        !all_hex(bytes),
    decreases bytes.len(),
{
    if bytes.len() == 0 {
        0
    } else if hex_value(bytes.first()) is None {
        bytes.first()
    } else {
        first_bad_digit(bytes.drop_first())
    }
}

/// What is said of a text that writes no fingerprint.
pub open spec fn fingerprint_fault(value: Seq<char>) -> Seq<char> {
    let digits = encode_utf8(cleaned_text(value));
    if digits.len() != 64 {
        bad_length_message(digits.len())
    } else {
        bad_digit_message(first_bad_digit(digits))
    }
}

proof fn first_bad_digit_at(bytes: Seq<u8>, i: int)
    requires
        0 <= i < bytes.len(),
        hex_value(bytes[i]) is None,
        forall|j: int| 0 <= j < i ==> hex_value(#[trigger] bytes[j]) is Some,
    ensures
        first_bad_digit(bytes) == bytes[i],
    decreases i,
{
    if i > 0 {
        let rest = bytes.drop_first();
        assert forall|j: int| 0 <= j < i - 1 implies hex_value(#[trigger] rest[j]) is Some by {
            assert(hex_value(bytes[j + 1]) is Some);
        }
        first_bad_digit_at(rest, i - 1);
    }
}

/// `value` without the separators `:`, space and `-`.
fn clean(value: &str) -> (cleaned: String)
    ensures
        cleaned@ == cleaned_text(value@),
{
    let chars = text::chars_of(value);
    let mut cleaned = String::new();
    let mut i: usize = 0;
    proof {
        reveal(Seq::filter);
    }
    while i < chars.len()
        invariant
            i <= chars.len(),
            chars@ == value@,
            cleaned@ == cleaned_text(value@.take(i as int)),
        decreases chars.len() - i,
    {
        let c = chars[i];
        proof {
            reveal(Seq::filter);
            assert(value@.take(i + 1).drop_last() =~= value@.take(i as int));
        }
        if !(c == ':' || c == ' ' || c == '-') {
            cleaned.push(c);
        }
        i += 1;
    }
    assert(value@.take(i as int) =~= value@);
    cleaned
}

/// Parses a SHA-256 fingerprint: sixty-four hexadecimal digits in either case,
/// with any `:`, space or `-` between them.
pub fn parse_fingerprint_hex(value: &str) -> (fingerprint: Result<[u8; 32], ExecServerTlsError>)
    ensures
        match fingerprint {
            Ok(fingerprint) => fingerprint_value(value@) == Some(fingerprint@),
            Err(ExecServerTlsError::InvalidFingerprint(message)) => fingerprint_value(
                value@,
            ) is None && message@ == fingerprint_fault(value@),
            Err(_) => false,
        },
{
    let cleaned = clean(value);
    let digits = cleaned.as_str().as_bytes();
    if digits.len() != 64 {
        let mut message = "expected 64 hex characters, got ".to_string();
        message.append(text::decimal(digits.len()).as_str());
        return Err(ExecServerTlsError::InvalidFingerprint(message));
    }
    let mut out: [u8; 32] = [0; 32];
    let mut i: usize = 0;
    while i < 32
        invariant
            i <= 32,
            digits@ == encode_utf8(cleaned_text(value@)),
            digits@.len() == 64,
            forall|j: int| 0 <= j < 2 * i ==> hex_value(#[trigger] digits@[j]) is Some,
            forall|j: int| 0 <= j < i ==> #[trigger] out@[j] == decode_pairs(digits@)[j],
        decreases 32 - i,
    {
        let hi: u8 = match hex_val(digits[2 * i]) {
            Ok(hi) => hi,
            Err(error) => {
                proof {
                    first_bad_digit_at(digits@, 2 * i);
                }
                return Err(error);
            },
        };
        let lo: u8 = match hex_val(digits[2 * i + 1]) {
            Ok(lo) => lo,
            Err(error) => {
                proof {
                    first_bad_digit_at(digits@, 2 * i + 1);
                }
                return Err(error);
            },
        };
        assert(hi < 16 && lo < 16 ==> (hi << 4) | lo == hi * 16 + lo) by (bit_vector);
        out[i] = (hi << 4) | lo;
        i += 1;
    }
    assert(out@ =~= decode_pairs(digits@));
    Ok(out)
}

proof fn hex_digit_has_value(value: int)
    requires
        0 <= value < 16,
    ensures
        text::hex_digit(value) <= '\u{7f}',
        !is_separator(text::hex_digit(value)),
        hex_value(text::hex_digit(value) as u8) == Some(value),
{
}

/// What a text keeps of its characters if none of them is a separator.
proof fn cleaned_text_without_separators(value: Seq<char>)
    requires
        forall|i: int| 0 <= i < value.len() ==> !is_separator(#[trigger] value[i]),
    ensures
        cleaned_text(value) == value,
    decreases value.len(),
{
    reveal(Seq::filter);
    if value.len() > 0 {
        cleaned_text_without_separators(value.drop_last());
        assert(value.drop_last().push(value.last()) =~= value);
    }
}

/// A fingerprint is written with sixty-four lower case hexadecimal digits.
pub proof fn fingerprint_text_is_canonical(fingerprint: Seq<u8>)
    requires
        fingerprint.len() == 32,
    ensures
        hex_text(fingerprint).len() == 64,
        forall|i: int|
            0 <= i < 64 ==> {
                ||| '0' <= #[trigger] hex_text(fingerprint)[i] <= '9'
                ||| 'a' <= hex_text(fingerprint)[i] <= 'f'
            },
{
}

/// Parsing gives back the fingerprint that was written.
pub proof fn fingerprint_round_trip(fingerprint: Seq<u8>)
    requires
        fingerprint.len() == 32,
    ensures
        fingerprint_value(hex_text(fingerprint)) == Some(fingerprint),
{
    let written = hex_text(fingerprint);
    assert forall|i: int| 0 <= i < written.len() implies {
        &&& #[trigger] written[i] <= '\u{7f}'
        &&& !is_separator(written[i])
        &&& hex_value(written[i] as u8) == Some(
            if i % 2 == 0 {
                fingerprint[i / 2] as int / 16
            } else {
                fingerprint[i / 2] as int % 16
            },
        )
    } by {
        hex_digit_has_value(fingerprint[i / 2] as int / 16);
        hex_digit_has_value(fingerprint[i / 2] as int % 16);
    }
    cleaned_text_without_separators(written);
    assert(is_ascii_chars(written));
    is_ascii_chars_encode_utf8(written);
    let digits = encode_utf8(written);
    assert forall|i: int| 0 <= i < digits.len() implies hex_value(#[trigger] digits[i]) is Some by {
        assert(written[i] as u8 == digits[i]);
    }
    assert forall|i: int| 0 <= i < 32 implies #[trigger] decode_pairs(digits)[i]
        == fingerprint[i] by {
        assert(written[2 * i] as u8 == digits[2 * i]);
        assert(written[2 * i + 1] as u8 == digits[2 * i + 1]);
    }
    assert(decode_pairs(digits) =~= fingerprint);
}

/// A separator changes nothing, wherever it stands.
pub proof fn separators_are_ignored(before: Seq<char>, separator: char, after: Seq<char>)
    requires
        is_separator(separator),
    ensures
        fingerprint_value(before + seq![separator] + after) == fingerprint_value(before + after),
        fingerprint_fault(before + seq![separator] + after) == fingerprint_fault(before + after),
{
    let keep = |c: char| !is_separator(c);
    let middle = seq![separator];
    Seq::filter_distributes_over_add(before + middle, after, keep);
    Seq::filter_distributes_over_add(before, middle, keep);
    Seq::filter_distributes_over_add(before, after, keep);
    reveal_with_fuel(Seq::filter, 2);
    assert(middle.drop_last() =~= Seq::<char>::empty());
    assert(before.filter(keep) + middle.filter(keep) =~= before.filter(keep));
}

/// `c` in lower case, if it is an upper case ASCII letter.
pub open spec fn ascii_lower(c: char) -> char {
    if 'A' <= c <= 'Z' {
        (c as int - 'A' as int + 'a' as int) as char
    } else {
        c
    }
}

proof fn encoding_of_lowered_text(value: Seq<char>)
    ensures
        ({
            let lowered = encode_utf8(value.map_values(|c: char| ascii_lower(c)));
            let kept = encode_utf8(value);
            &&& lowered.len() == kept.len()
            &&& forall|i: int|
                0 <= i < kept.len() ==> hex_value(#[trigger] lowered[i]) == hex_value(kept[i])
        }),
    decreases value.len(),
{
    let lower = |c: char| ascii_lower(c);
    let lowered = value.map_values(lower);
    if value.len() > 0 {
        encoding_of_lowered_text(value.drop_first());
        assert(lowered.drop_first() =~= value.drop_first().map_values(lower));
        let c = value[0];
        if c <= '\u{7f}' {
            is_ascii_chars_encode_utf8(seq![c]);
            is_ascii_chars_encode_utf8(seq![ascii_lower(c)]);
        }
        assert(lowered[0] == ascii_lower(c));
    } else {
        assert(lowered =~= value);
    }
}

/// The case of the digits makes no difference.
pub proof fn case_is_ignored(value: Seq<char>)
    ensures
        fingerprint_value(value.map_values(|c: char| ascii_lower(c))) == fingerprint_value(value),
{
    let lower = |c: char| ascii_lower(c);
    cleaned_text_of_lowered(value);
    encoding_of_lowered_text(cleaned_text(value));
    let lowered = encode_utf8(cleaned_text(value.map_values(lower)));
    let kept = encode_utf8(cleaned_text(value));
    if all_hex(kept) {
        assert(all_hex(lowered));
    }
    if all_hex(lowered) {
        assert forall|i: int| 0 <= i < kept.len() implies hex_value(#[trigger] kept[i]) is Some by {
            assert(hex_value(lowered[i]) is Some);
        }
    }
    assert(decode_pairs(lowered) =~= decode_pairs(kept));
}

proof fn cleaned_text_of_lowered(value: Seq<char>)
    ensures
        cleaned_text(value.map_values(|c: char| ascii_lower(c))) == cleaned_text(value).map_values(
            |c: char| ascii_lower(c),
        ),
    decreases value.len(),
{
    reveal(Seq::filter);
    let lower = |c: char| ascii_lower(c);
    let lowered = value.map_values(lower);
    if value.len() > 0 {
        cleaned_text_of_lowered(value.drop_last());
        assert(lowered.drop_last() =~= value.drop_last().map_values(lower));
    }
    assert(cleaned_text(lowered) =~= cleaned_text(value).map_values(lower));
}

/// A byte is a hexadecimal digit of a value exactly if it is at that place of the
/// table of lower or of upper case digits.
pub proof fn hex_values_are_tabled(c: u8, value: int)
    ensures
        hex_value(c) == Some(value) <==> 0 <= value < 16 && (c as int
            == "0123456789abcdef"@[value] as int || c as int == "0123456789ABCDEF"@[value] as int),
        hex_value(c) is None <==> !(48 <= c <= 57 || 65 <= c <= 70 || 97 <= c <= 102),
{
    reveal_strlit("0123456789abcdef");
    reveal_strlit("0123456789ABCDEF");
}

/// Each byte is written by two digits of the table, the high one first.
pub proof fn hex_text_writes_each_byte(bytes: Seq<u8>)
    ensures
        hex_text(bytes).len() == 2 * bytes.len(),
        forall|i: int|
            0 <= i < bytes.len() ==> {
                &&& hex_text(bytes)[2 * i] == "0123456789abcdef"@[#[trigger] bytes[i] as int / 16]
                &&& hex_text(bytes)[2 * i + 1] == "0123456789abcdef"@[bytes[i] as int % 16]
            },
{
    assert forall|i: int| 0 <= i < bytes.len() implies {
        &&& hex_text(bytes)[2 * i] == "0123456789abcdef"@[#[trigger] bytes[i] as int / 16]
        &&& hex_text(bytes)[2 * i + 1] == "0123456789abcdef"@[bytes[i] as int % 16]
    } by {
        text::hex_digits_are_tabled(bytes[i] as int / 16);
        text::hex_digits_are_tabled(bytes[i] as int % 16);
        assert((2 * i) / 2 == i && (2 * i + 1) / 2 == i);
    }
}

proof fn low_bytes_write_ascii(chars: Seq<char>)
    requires
        forall|i: int| 0 <= i < encode_utf8(chars).len() ==> #[trigger] encode_utf8(chars)[i] <= 0x7f,
    ensures
        is_ascii_chars(chars),
    decreases chars.len(),
{
    if chars.len() > 0 {
        let bytes = encode_utf8(chars);
        encode_utf8_first_scalar(chars);
        let lead = bytes[0];
        assert(lead <= 0x7f);
        assert((lead & 0x7f) <= 0x7f) by (bit_vector);
        char_u32_cast(chars[0], chars[0] as u32);
        assert(chars[0] <= '\u{7f}');
        let rest = encode_utf8(chars.drop_first());
        let head = encode_scalar(chars[0] as u32);
        assert forall|i: int| 0 <= i < rest.len() implies #[trigger] rest[i] <= 0x7f by {
            assert(bytes[head.len() + i] == rest[i]);
        }
        low_bytes_write_ascii(chars.drop_first());
        assert forall|i: int| 0 <= i < chars.len() implies '\0' <= #[trigger] chars[i]
            <= '\u{7f}' by {
            if i > 0 {
                assert(chars.drop_first()[i - 1] == chars[i]);
            }
        }
    }
}

/// Whether `c` is the digit `digit`, in lower or in upper case.
spec fn writes_digit(c: char, digit: char) -> bool {
    c == digit || ('A' <= c <= 'F' && c as int + 32 == digit as int)
}

proof fn digit_has_value(c: char, value: int)
    requires
        0 <= value < 16,
    ensures
        c <= '\u{7f}' && hex_value(c as u8) == Some(value) <==> writes_digit(
            c,
            text::hex_digit(value),
        ),
{
}

proof fn parsed_text_is_written(digits: Seq<char>)
    requires
        encode_utf8(digits).len() == 64,
        all_hex(encode_utf8(digits)),
    ensures
        digits.len() == 64,
        forall|i: int|
            0 <= i < 64 ==> writes_digit(
                #[trigger] digits[i],
                hex_text(decode_pairs(encode_utf8(digits)))[i],
            ),
{
    let bytes = encode_utf8(digits);
    let fingerprint = decode_pairs(bytes);
    assert forall|i: int| 0 <= i < bytes.len() implies #[trigger] bytes[i] <= 0x7f by {
        assert(hex_value(bytes[i]) is Some);
    }
    low_bytes_write_ascii(digits);
    is_ascii_chars_encode_utf8(digits);
    assert forall|i: int| 0 <= i < 64 implies writes_digit(
        #[trigger] digits[i],
        hex_text(fingerprint)[i],
    ) by {
        let k = i / 2;
        assert(hex_value(bytes[2 * k]) is Some && hex_value(bytes[2 * k + 1]) is Some);
        let hi = hex_value(bytes[2 * k])->0;
        let lo = hex_value(bytes[2 * k + 1])->0;
        assert(fingerprint[k] as int == hi * 16 + lo);
        assert(fingerprint[k] as int / 16 == hi && fingerprint[k] as int % 16 == lo);
        assert(digits[i] as u8 == bytes[i]);
        if i % 2 == 0 {
            assert(i == 2 * k);
            digit_has_value(digits[i], hi);
        } else {
            assert(i == 2 * k + 1);
            digit_has_value(digits[i], lo);
        }
    }
}

proof fn written_text_parses(digits: Seq<char>, fingerprint: Seq<u8>)
    requires
        fingerprint.len() == 32,
        digits.len() == 64,
        forall|i: int|
            0 <= i < 64 ==> writes_digit(#[trigger] digits[i], hex_text(fingerprint)[i]),
    ensures
        encode_utf8(digits).len() == 64,
        all_hex(encode_utf8(digits)),
        decode_pairs(encode_utf8(digits)) == fingerprint,
{
    assert forall|i: int| 0 <= i < 64 implies '\0' <= #[trigger] digits[i] <= '\u{7f}'
        && hex_value(digits[i] as u8) == Some(
        if i % 2 == 0 {
            fingerprint[i / 2] as int / 16
        } else {
            fingerprint[i / 2] as int % 16
        },
    ) by {
        digit_has_value(digits[i], fingerprint[i / 2] as int / 16);
        digit_has_value(digits[i], fingerprint[i / 2] as int % 16);
    }
    assert(is_ascii_chars(digits));
    is_ascii_chars_encode_utf8(digits);
    let bytes = encode_utf8(digits);
    assert forall|i: int| 0 <= i < 64 implies hex_value(#[trigger] bytes[i]) is Some by {
        assert(digits[i] as u8 == bytes[i]);
    }
    assert forall|k: int| 0 <= k < 32 implies #[trigger] decode_pairs(bytes)[k]
        == fingerprint[k] by {
        assert(digits[2 * k] as u8 == bytes[2 * k]);
        assert(digits[2 * k + 1] as u8 == bytes[2 * k + 1]);
        assert((2 * k) % 2 == 0 && (2 * k) / 2 == k && (2 * k + 1) % 2 == 1 && (2 * k + 1) / 2
            == k);
    }
    assert(decode_pairs(bytes) =~= fingerprint);
}

/// A text parses as a fingerprint exactly if, without its colons, spaces and
/// hyphens, it has sixty-four characters and each is the digit that the
/// fingerprint is written with, in lower or in upper case. So a text with any
/// other number of digits is refused, and so is one with any other character.
pub proof fn parses_exactly_what_is_written(value: Seq<char>, fingerprint: Seq<u8>)
    ensures
        fingerprint_value(value) == Some(fingerprint) <==> {
            let digits = value.filter(|c: char| !(c == ':' || c == ' ' || c == '-'));
            let written = hex_text(fingerprint);
            &&& fingerprint.len() == 32
            &&& digits.len() == 64
            &&& forall|i: int|
                0 <= i < 64 ==> (#[trigger] digits[i] == written[i] || ('A' <= digits[i] <= 'F'
                    && digits[i] as int + 32 == written[i] as int))
        },
{
    let keep = |c: char| !(c == ':' || c == ' ' || c == '-');
    let digits = value.filter(keep);
    assert(keep =~= (|c: char| !is_separator(c)));
    assert(digits == cleaned_text(value));
    let written = hex_text(fingerprint);
    if fingerprint_value(value) == Some(fingerprint) {
        parsed_text_is_written(digits);
        assert forall|i: int| 0 <= i < 64 implies (#[trigger] digits[i] == written[i] || ('A'
            <= digits[i] <= 'F' && digits[i] as int + 32 == written[i] as int)) by {
            assert(writes_digit(digits[i], written[i]));
        }
    }
    if fingerprint.len() == 32 && digits.len() == 64 && forall|i: int|
        0 <= i < 64 ==> (#[trigger] digits[i] == written[i] || ('A' <= digits[i] <= 'F'
            && digits[i] as int + 32 == written[i] as int)) {
        written_text_parses(digits, fingerprint);
    }
}

/// A text that is refused is answered with the number of its bytes, if that is
/// not sixty-four, and else with the first byte that is no hexadecimal digit.
/// Colons, spaces and hyphens do not count.
pub proof fn refusals_name_the_first_fault(value: Seq<char>, at: int)
    ensures
        ({
            let bytes = encode_utf8(value.filter(|c: char| !(c == ':' || c == ' ' || c == '-')));
            &&& bytes.len() != 64 ==> fingerprint_value(value) is None && fingerprint_fault(value)
                == "expected 64 hex characters, got "@ + text::decimal_text(bytes.len())
            &&& bytes.len() == 64 && 0 <= at < 64 && !(48 <= bytes[at] <= 57 || 65 <= bytes[at]
                <= 70 || 97 <= bytes[at] <= 102) && (forall|i: int|
                0 <= i < at ==> (48 <= #[trigger] bytes[i] <= 57 || 65 <= bytes[i] <= 70 || 97
                    <= bytes[i] <= 102)) ==> fingerprint_value(value) is None
                && fingerprint_fault(value) == "invalid hex character: "@ + char_debug(
                bytes[at] as char,
            )
        }),
{
    let keep = |c: char| !(c == ':' || c == ' ' || c == '-');
    assert(keep =~= (|c: char| !is_separator(c)));
    let bytes = encode_utf8(value.filter(keep));
    if bytes.len() == 64 && 0 <= at < 64 && !(48 <= bytes[at] <= 57 || 65 <= bytes[at] <= 70 || 97
        <= bytes[at] <= 102) && (forall|i: int|
        0 <= i < at ==> (48 <= #[trigger] bytes[i] <= 57 || 65 <= bytes[i] <= 70 || 97 <= bytes[i]
            <= 102)) {
        assert(hex_value(bytes[at]) is None);
        first_bad_digit_at(bytes, at);
    }
}

} // verus!
