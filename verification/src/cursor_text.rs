//! Text form of chain-event cursors: URL-safe base64 without padding.

use base64::Engine;
use vstd::prelude::*;

verus! {

/// Character of one six-bit group.
pub open spec fn base64_char(group: int) -> char {
    if group < 26 {
        (65 + group) as char
    } else if group < 52 {
        (71 + group) as char
    } else if group < 62 {
        (group - 4) as char
    } else if group == 62 {
        '-'
    } else {
        '_'
    }
}

/// One byte of a string that is followed by zeros.
pub open spec fn byte_or_zero(bytes: Seq<u8>, position: int) -> int {
    if 0 <= position < bytes.len() {
        bytes[position] as int
    } else {
        0
    }
}

/// Six-bit group at one position, four groups for every three bytes.
pub open spec fn six_bits(bytes: Seq<u8>, position: int) -> int {
    let start = 3 * (position / 4);
    let first = byte_or_zero(bytes, start);
    let second = byte_or_zero(bytes, start + 1);
    let third = byte_or_zero(bytes, start + 2);
    if position % 4 == 0 {
        first / 4
    } else if position % 4 == 1 {
        (first % 4) * 16 + second / 16
    } else if position % 4 == 2 {
        (second % 16) * 4 + third / 64
    } else {
        third % 64
    }
}

/// Text of a cursor: one character for every six-bit group that holds a bit
/// of it, and no padding.
pub open spec fn cursor_text(bytes: Seq<u8>) -> Seq<char> {
    Seq::new(
        ((4 * bytes.len() + 2) / 3) as nat,
        |position: int| base64_char(six_bits(bytes, position)),
    )
}

/// Encodes a cursor with `base64`'s `URL_SAFE_NO_PAD` engine (`Engine::encode`).
///
/// Believed: the text holds the bytes six bits at a time, the more
/// significant bits first, in the URL-safe alphabet and without padding. The
/// bound keeps the text within what a string can hold.
#[verifier::external_body]
pub(crate) fn encode_cursor(bytes: &[u8]) -> (text: String)
    requires
        bytes@.len() <= usize::MAX / 4,
    ensures
        text@ == cursor_text(bytes@),
{
    base64::engine::general_purpose::URL_SAFE_NO_PAD.encode(bytes)
}

/// Decodes a cursor with `base64`'s `URL_SAFE_NO_PAD` engine (`Engine::decode`).
///
/// Believed: exactly the texts that encoding gives are accepted, so neither
/// padding nor stray trailing bits are, and the bytes are those whose
/// encoding the text is. Which refusal `base64` reports is dropped.
#[verifier::external_body]
pub(crate) fn decode_cursor(text: &str) -> (decoded: Option<Vec<u8>>)
    ensures
        match decoded {
            Some(bytes) => cursor_text(bytes@) == text@,
            None => forall|bytes: Seq<u8>| #[trigger] cursor_text(bytes) != text@,
        },
{
    base64::engine::general_purpose::URL_SAFE_NO_PAD.decode(text).ok()
}

/// Whether a text is that of some cursor.
pub open spec fn is_cursor_text(text: Seq<char>) -> bool {
    exists|bytes: Seq<u8>| #[trigger] cursor_text(bytes) == text
}

proof fn lemma_base64_chars_differ(left: int, right: int)
    requires
        0 <= left < 64,
        0 <= right < 64,
        base64_char(left) == base64_char(right),
    ensures
        left == right,
{
}

proof fn lemma_six_bits_in_range(bytes: Seq<u8>, position: int)
    requires
        0 <= position,
    ensures
        0 <= six_bits(bytes, position) < 64,
{
}

/// Two cursors with one text are the same cursor, so reading back a written
/// cursor gives that cursor.
pub proof fn law_cursor_text_reads_back(left: Seq<u8>, right: Seq<u8>)
    requires
        cursor_text(left) == cursor_text(right),
    ensures
        left == right,
{
    let text = cursor_text(left);
    assert(text.len() == (4 * left.len() + 2) / 3);
    assert(text.len() == cursor_text(right).len() == (4 * right.len() + 2) / 3);
    assert(left.len() == right.len());
    assert forall|position: int| 0 <= position < text.len() implies #[trigger] six_bits(
        left,
        position,
    ) == six_bits(right, position) by {
        assert(cursor_text(left)[position] == cursor_text(right)[position]);
        lemma_six_bits_in_range(left, position);
        lemma_six_bits_in_range(right, position);
        lemma_base64_chars_differ(six_bits(left, position), six_bits(right, position));
    }
    assert forall|i: int| 0 <= i < left.len() implies left[i] == right[i] by {
        let k = i / 3;
        assert(i == 3 * k + i % 3);
        if i % 3 == 0 {
            assert(six_bits(left, 4 * k) == six_bits(right, 4 * k));
            assert(six_bits(left, 4 * k + 1) == six_bits(right, 4 * k + 1));
        } else if i % 3 == 1 {
            assert(six_bits(left, 4 * k + 1) == six_bits(right, 4 * k + 1));
            assert(six_bits(left, 4 * k + 2) == six_bits(right, 4 * k + 2));
        } else {
            assert(six_bits(left, 4 * k + 2) == six_bits(right, 4 * k + 2));
            assert(six_bits(left, 4 * k + 3) == six_bits(right, 4 * k + 3));
        }
    }
    assert(left =~= right);
}

/// Number that a character of the cursor alphabet stands for: letters, digits,
/// the hyphen and the underscore, in this order.
pub open spec fn base64_value(character: char) -> int {
    if 'A' <= character <= 'Z' {
        character as int - 'A' as int
    } else if 'a' <= character <= 'z' {
        26 + character as int - 'a' as int
    } else if '0' <= character <= '9' {
        52 + character as int - '0' as int
    } else if character == '-' {
        62
    } else {
        63
    }
}

/// Four characters of a cursor text hold three bytes, the highest bits first.
pub proof fn law_four_characters_hold_three_bytes(bytes: Seq<u8>, k: int)
    requires
        0 <= k,
        3 * k + 2 < bytes.len(),
    ensures
        4 * k + 3 < cursor_text(bytes).len(),
        262144 * base64_value(cursor_text(bytes)[4 * k]) + 4096 * base64_value(
            cursor_text(bytes)[4 * k + 1],
        ) + 64 * base64_value(cursor_text(bytes)[4 * k + 2]) + base64_value(
            cursor_text(bytes)[4 * k + 3],
        ) == 65536 * bytes[3 * k] + 256 * bytes[3 * k + 1] + bytes[3 * k + 2],
{
    let text = cursor_text(bytes);
    assert((4 * k) / 4 == k && (4 * k + 1) / 4 == k && (4 * k + 2) / 4 == k && (4 * k + 3) / 4
        == k);
    assert((4 * k) % 4 == 0 && (4 * k + 1) % 4 == 1 && (4 * k + 2) % 4 == 2 && (4 * k + 3) % 4
        == 3);
    assert(base64_value(text[4 * k]) == six_bits(bytes, 4 * k));
    assert(base64_value(text[4 * k + 1]) == six_bits(bytes, 4 * k + 1));
    assert(base64_value(text[4 * k + 2]) == six_bits(bytes, 4 * k + 2));
    assert(base64_value(text[4 * k + 3]) == six_bits(bytes, 4 * k + 3));
}

/// A cursor text has four characters for every three bytes, and two or three for
/// the one or two that are left over.
pub proof fn law_cursor_text_has_no_padding(bytes: Seq<u8>, k: int)
    ensures
        bytes.len() == 3 * k ==> cursor_text(bytes).len() == 4 * k,
        bytes.len() == 3 * k + 1 ==> cursor_text(bytes).len() == 4 * k + 2,
        bytes.len() == 3 * k + 2 ==> cursor_text(bytes).len() == 4 * k + 3,
{
}

} // verus!
