//! Decimal and hexadecimal text.

use crate::ids::BlockHash;
use vstd::prelude::*;

verus! {

/// Character of one decimal digit.
pub open spec fn digit_char(digit: int) -> char {
    (48 + digit) as char
}

/// Decimal text of a number, without leading zeros.
pub open spec fn decimal(number: nat) -> Seq<char>
    decreases number,
{
    if number < 10 {
        seq![digit_char(number as int)]
    } else {
        decimal(number / 10).push(digit_char((number % 10) as int))
    }
}

fn digit_text(digit: u64) -> (text: &'static str)
    requires
        digit < 10,
    ensures
        text@ == seq![digit_char(digit as int)],
{
    proof {
        reveal_strlit("0");
        reveal_strlit("1");
        reveal_strlit("2");
        reveal_strlit("3");
        reveal_strlit("4");
        reveal_strlit("5");
        reveal_strlit("6");
        reveal_strlit("7");
        reveal_strlit("8");
        reveal_strlit("9");
    }
    let text = match digit {
        0 => "0",
        1 => "1",
        2 => "2",
        3 => "3",
        4 => "4",
        5 => "5",
        6 => "6",
        7 => "7",
        8 => "8",
        _ => "9",
    };
    assert(text@ =~= seq![digit_char(digit as int)]);
    text
}

/// Writes a number in decimal.
pub fn decimal_text(number: u64) -> (text: String)
    ensures
        text@ == decimal(number as nat),
    decreases number,
{
    if number < 10 {
        digit_text(number).to_owned()
    } else {
        let mut text = decimal_text(number / 10);
        text.append(digit_text(number % 10));
        assert(text@ =~= decimal(number as nat));
        text
    }
}

/// Joins a leading text, a number in decimal and a trailing text.
pub fn number_in_text(leading: &str, number: u64, trailing: &str) -> (text: String)
    ensures
        text@ == leading@ + decimal(number as nat) + trailing@,
{
    let mut text = leading.to_owned();
    let digits = decimal_text(number);
    text.append(digits.as_str());
    text.append(trailing);
    text
}

/// Returns whether two texts hold the same characters.
pub fn same_text(left: &str, right: &str) -> (same: bool)
    ensures
        same == (left@ == right@),
{
    left.to_owned() == right.to_owned()
}

/// Joins two numbers in decimal with the text before, between and after them.
pub fn two_numbers_in_text(
    leading: &str,
    first: u64,
    middle: &str,
    second: u64,
    trailing: &str,
) -> (text: String)
    ensures
        text@ == leading@ + decimal(first as nat) + middle@ + decimal(second as nat) + trailing@,
{
    let mut text = number_in_text(leading, first, middle);
    let digits = decimal_text(second);
    text.append(digits.as_str());
    text.append(trailing);
    text
}

/// Character of one hexadecimal digit, in lower case.
pub open spec fn hex_char(digit: int) -> char {
    if digit < 10 {
        (48 + digit) as char
    } else {
        (87 + digit) as char
    }
}

/// Value of a hexadecimal digit of either case, where the character is one.
pub open spec fn hex_value(character: char) -> Option<int> {
    if '0' <= character && character <= '9' {
        Some(character as int - 48)
    } else if 'a' <= character && character <= 'f' {
        Some(character as int - 87)
    } else if 'A' <= character && character <= 'F' {
        Some(character as int - 55)
    } else {
        None
    }
}

/// Hexadecimal text of some bytes, two digits per byte, most significant first.
pub open spec fn hex_text(bytes: Seq<u8>) -> Seq<char> {
    Seq::new(
        2 * bytes.len(),
        |i: int|
            hex_char(
                if i % 2 == 0 {
                    bytes[i / 2] as int / 16
                } else {
                    bytes[i / 2] as int % 16
                },
            ),
    )
}

/// Whether every character of a text is a hexadecimal digit and the digits pair up.
pub open spec fn is_hex_text(text: Seq<char>) -> bool {
    &&& text.len() % 2 == 0
    &&& forall|i: int| 0 <= i < text.len() ==> hex_value(#[trigger] text[i]) is Some
}

/// The bytes that a hexadecimal text spells.
pub open spec fn hex_bytes(text: Seq<char>) -> Seq<u8> {
    Seq::new(
        text.len() / 2,
        |i: int| (16 * hex_value(text[2 * i])->0 + hex_value(text[2 * i + 1])->0) as u8,
    )
}

/// Encodes bytes with `hex::encode`.
///
/// Believed: the text holds two lower-case digits per byte, in order, the
/// more significant digit first. The bound keeps the text within what a
/// string can hold.
#[verifier::external_body]
fn encode_hex(bytes: &[u8]) -> (text: String)
    requires
        bytes@.len() <= usize::MAX / 4,
    ensures
        text@ == hex_text(bytes@),
{
    hex::encode(bytes)
}

/// Decodes text with `hex::decode`.
///
/// Believed: it succeeds exactly on an even number of hexadecimal digits of
/// either case, and gives the bytes they spell. Which refusal `hex` reports
/// is dropped.
#[verifier::external_body]
fn decode_hex(text: &str) -> (decoded: Option<Vec<u8>>)
    ensures
        decoded is Some <==> is_hex_text(text@),
        decoded matches Some(bytes) ==> bytes@ == hex_bytes(text@),
{
    hex::decode(text).ok()
}

/// Display text of a block hash: its bytes in reverse order, in hexadecimal.
pub open spec fn rpc_block_hash_text(hash: BlockHash) -> Seq<char> {
    hex_text(hash.0@.reverse())
}

/// The hash that a display text spells, where it spells one.
pub open spec fn rpc_block_hash_value(text: Seq<char>) -> Option<Seq<u8>> {
    if text.len() == 64 && is_hex_text(text) {
        Some(hex_bytes(text).reverse())
    } else {
        None
    }
}

/// Writes a block hash the way node RPC does: bytes reversed, in hexadecimal.
pub fn encode_rpc_block_hash_hex(hash: BlockHash) -> (text: String)
    ensures
        text@ == rpc_block_hash_text(hash),
{
    let mut reversed: Vec<u8> = Vec::new();
    let mut i: usize = 0;
    while i < 32
        invariant
            0 <= i <= 32,
            reversed@.len() == i,
            forall|j: int| 0 <= j < i ==> reversed@[j] == hash.0@[31 - j],
        decreases 32 - i,
    {
        reversed.push(hash.0[31 - i]);
        i += 1;
    }
    assert(reversed@ =~= hash.0@.reverse());
    encode_hex(reversed.as_slice())
}

/// Reads a block hash written the way node RPC does.
pub fn decode_rpc_block_hash_hex(text: &str) -> (hash: Option<BlockHash>)
    ensures
        match hash {
            Some(hash) => rpc_block_hash_value(text@) == Some(hash.0@),
            None => rpc_block_hash_value(text@) is None,
        },
{
    let decoded = match decode_hex(text) {
        Some(decoded) => decoded,
        None => {
            return None;
        },
    };
    if decoded.len() != 32 {
        return None;
    }
    let mut bytes: [u8; 32] = [0;32];
    let mut i: usize = 0;
    while i < 32
        invariant
            0 <= i <= 32,
            decoded@.len() == 32,
            forall|j: int| 0 <= j < i ==> bytes@[j] == decoded@[31 - j],
        decreases 32 - i,
    {
        bytes[i] = decoded[31 - i];
        i += 1;
    }
    assert(bytes@ =~= decoded@.reverse());
    Some(BlockHash(bytes))
}

proof fn lemma_hex_char_value(digit: int)
    requires
        0 <= digit < 16,
    ensures
        hex_value(hex_char(digit)) == Some(digit),
{
}

/// Reading back the display text of a block hash gives that hash.
pub proof fn law_rpc_block_hash_text_reads_back(hash: BlockHash)
    ensures
        rpc_block_hash_value(rpc_block_hash_text(hash)) == Some(hash.0@),
{
    let reversed = hash.0@.reverse();
    let text = rpc_block_hash_text(hash);
    assert(text.len() == 64);
    assert forall|i: int| 0 <= i < text.len() implies hex_value(#[trigger] text[i]) is Some by {
        lemma_hex_char_value(reversed[i / 2] as int / 16);
        lemma_hex_char_value(reversed[i / 2] as int % 16);
    }
    assert forall|i: int| 0 <= i < 32 implies hex_bytes(text)[i] == reversed[i] by {
        lemma_hex_char_value(reversed[i] as int / 16);
        lemma_hex_char_value(reversed[i] as int % 16);
        assert(text[2 * i] == hex_char(reversed[i] as int / 16));
        assert(text[2 * i + 1] == hex_char(reversed[i] as int % 16));
    }
    assert(hex_bytes(text) =~= reversed);
    assert(reversed.reverse() =~= hash.0@);
}

/// Number that a run of decimal digits stands for.
pub open spec fn decimal_value(text: Seq<char>) -> int
    decreases text.len(),
{
    if text.len() == 0 {
        0
    } else {
        10 * decimal_value(text.drop_last()) + (text.last() as int - '0' as int)
    }
}

/// The decimal text of a number reads back as that number, is made of digits
/// alone and starts with a zero only where the number is zero.
pub proof fn law_decimal_text_reads_back(number: nat)
    ensures
        decimal_value(decimal(number)) == number,
        decimal(number).len() > 0,
        forall|i: int|
            0 <= i < decimal(number).len() ==> '0' <= #[trigger] decimal(number)[i] <= '9',
        number > 0 ==> decimal(number)[0] != '0',
    decreases number,
{
    if number < 10 {
        let text = decimal(number);
        assert(text.drop_last() =~= Seq::<char>::empty());
        assert(decimal_value(text.drop_last()) == 0);
    } else {
        law_decimal_text_reads_back(number / 10);
        let text = decimal(number);
        assert(text.drop_last() =~= decimal(number / 10));
        assert(text[0] == decimal(number / 10)[0]);
        assert forall|i: int| 0 <= i < text.len() implies '0' <= #[trigger] text[i] <= '9' by {
            if i < text.len() - 1 {
                assert(text[i] == decimal(number / 10)[i]);
            }
        }
    }
}

/// Whether a character is the lower-case digit for a number below sixteen.
pub open spec fn writes_hex_digit(character: char, digit: int) -> bool {
    ||| 0 <= digit < 10 && character as int == '0' as int + digit
    ||| 10 <= digit < 16 && character as int == 'a' as int + digit - 10
}

/// A block hash is written with its last byte first, two lower-case digits to a
/// byte, the higher one first.
pub proof fn law_block_hash_text_runs_backwards(hash: BlockHash, i: int)
    requires
        0 <= i < 32,
    ensures
        rpc_block_hash_text(hash).len() == 64,
        writes_hex_digit(rpc_block_hash_text(hash)[2 * i], hash.0@[31 - i] as int / 16),
        writes_hex_digit(rpc_block_hash_text(hash)[2 * i + 1], hash.0@[31 - i] as int % 16),
{
    let bytes = hash.0@.reverse();
    assert(bytes.len() == 32);
    assert(bytes[i] == hash.0@[31 - i]);
    assert((2 * i) / 2 == i && (2 * i) % 2 == 0);
    assert((2 * i + 1) / 2 == i && (2 * i + 1) % 2 == 1);
}

/// A block hash is read from exactly 64 hexadecimal digits of either case, the
/// last byte first.
pub proof fn law_block_hash_is_read_backwards(text: Seq<char>)
    ensures
        rpc_block_hash_value(text) is Some <==> {
            &&& text.len() == 64
            &&& forall|i: int|
                0 <= i < 64 ==> {
                    ||| '0' <= #[trigger] text[i] <= '9'
                    ||| 'a' <= text[i] <= 'f'
                    ||| 'A' <= text[i] <= 'F'
                }
        },
        rpc_block_hash_value(text) matches Some(bytes) ==> bytes.len() == 32 && forall|i: int|
            0 <= i < 32 ==> #[trigger] bytes[i] == 16 * hex_value(text[62 - 2 * i])->0 + hex_value(
                text[63 - 2 * i],
            )->0,
{
    if rpc_block_hash_value(text) is Some {
        assert forall|i: int| 0 <= i < 64 implies {
            ||| '0' <= #[trigger] text[i] <= '9'
            ||| 'a' <= text[i] <= 'f'
            ||| 'A' <= text[i] <= 'F'
        } by {
            assert(hex_value(text[i]) is Some);
        }
        let read = hex_bytes(text);
        let bytes = read.reverse();
        assert forall|i: int| 0 <= i < 32 implies #[trigger] bytes[i] == 16 * hex_value(
            text[62 - 2 * i],
        )->0 + hex_value(text[63 - 2 * i])->0 by {
            assert(bytes[i] == read[31 - i]);
            assert(hex_value(text[62 - 2 * i]) is Some);
            assert(hex_value(text[63 - 2 * i]) is Some);
        }
    }
    if text.len() == 64 && forall|i: int|
        0 <= i < 64 ==> {
            ||| '0' <= #[trigger] text[i] <= '9'
            ||| 'a' <= text[i] <= 'f'
            ||| 'A' <= text[i] <= 'F'
        } {
        assert forall|i: int| 0 <= i < text.len() implies hex_value(
            #[trigger] text[i],
        ) is Some by {}
    }
}

/// A hexadecimal digit reads as its number, in either case.
pub proof fn law_hex_digit_reads_as_its_number(character: char)
    ensures
        '0' <= character <= '9' ==> hex_value(character) == Some(character as int - '0' as int),
        'a' <= character <= 'f' ==> hex_value(character) == Some(
            10 + character as int - 'a' as int,
        ),
        'A' <= character <= 'F' ==> hex_value(character) == Some(
            10 + character as int - 'A' as int,
        ),
{
}

} // verus!
