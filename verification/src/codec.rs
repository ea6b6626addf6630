//! Byte-level encodings the sequencer relies on: prefixed lowercase hex,
//! hex decoding, Keccak-256 and the RLP decoding of Ethereum transactions.

use vstd::prelude::*;
use sha3::Digest;
use vstd::string::StringSliceAdditionalSpecFns;

verus! {

/// The lowercase hexadecimal digit of a value below 16.
pub open spec fn hex_digit(value: int) -> char {
    if value < 10 {
        (48 + value) as char
    } else {
        (87 + value) as char
    }
}

/// Two lowercase hex digits per byte, high nibble first.
pub open spec fn hex_encode(bytes: Seq<u8>) -> Seq<char> {
    Seq::new(
        (2 * bytes.len()) as nat,
        |i: int|
            if i % 2 == 0 {
                hex_digit((bytes[i / 2] / 16) as int)
            } else {
                hex_digit((bytes[i / 2] % 16) as int)
            },
    )
}

/// `0x` followed by the lowercase hex encoding of `bytes`.
pub open spec fn prefixed_hex(bytes: Seq<u8>) -> Seq<char> {
    seq!['0', 'x'] + hex_encode(bytes)
}

/// The value of one ASCII hex digit (either case), if `c` is one.
pub open spec fn hex_value(c: u8) -> Option<u8> {
    if 48 <= c <= 57 {
        Some((c - 48) as u8)
    } else if 97 <= c <= 102 {
        Some((c - 87) as u8)
    } else if 65 <= c <= 70 {
        Some((c - 55) as u8)
    } else {
        None
    }
}

/// The input with a leading `0x` or `0X` removed, if it has one.
pub open spec fn strip_hex_prefix(input: Seq<u8>) -> Seq<u8> {
    if input.len() >= 2 && input[0] == 48 && (input[1] == 120 || input[1] == 88) {
        input.skip(2)
    } else {
        input
    }
}

pub open spec fn all_hex_digits(digits: Seq<u8>) -> bool {
    forall|i: int| 0 <= i < digits.len() ==> (#[trigger] hex_value(digits[i])) is Some
}

/// The bytes that an even run of hex digits spells.
pub open spec fn hex_decode_digits(digits: Seq<u8>) -> Seq<u8> {
    Seq::new(
        digits.len() / 2,
        |i: int|
            (hex_value(digits[2 * i]).unwrap() * 16 + hex_value(digits[2 * i + 1]).unwrap()) as u8,
    )
}

/// Why a hex string could not be decoded.
#[derive(Clone, Copy, Debug, PartialEq, Eq, Structural)]
pub enum HexDecodeError {
    InvalidHexCharacter { c: char, index: usize },
    OddLength,
    InvalidStringLength,
}

/// What decoding `input` (the UTF-8 bytes of a string) gives: its bytes when the
/// input has even length and, after an optional `0x`, holds only hex digits.
pub open spec fn hex_decode(input: Seq<u8>) -> Option<Seq<u8>> {
    let digits = strip_hex_prefix(input);
    if input.len() % 2 == 0 && all_hex_digits(digits) {
        Some(hex_decode_digits(digits))
    } else {
        None
    }
}

/// `const_hex::encode_prefixed`: `0x` followed by two lowercase hex digits per
/// byte.
#[verifier::external_body]
pub(crate) fn encode_prefixed(data: &[u8]) -> (encoded: String)
    ensures
        encoded@ == prefixed_hex(data@),
{
    const_hex::encode_prefixed(data)
}

/// `const_hex::decode_to_array::<_, 32>`: the input's length must be even, after
/// an optional `0x`/`0X` it must hold exactly 64 hex digits (either case), and
/// the result is the 32 bytes they spell. The contract states which error comes
/// for odd length and for a wrong digit count; for a bad character it states the
/// variant only, not the reported character and position.
#[verifier::external_body]
pub(crate) fn decode_to_array_32(input: &str) -> (decoded: Result<[u8; 32], HexDecodeError>)
    ensures
        input.spec_bytes().len() % 2 != 0 ==> (decoded matches Err(HexDecodeError::OddLength)),
        input.spec_bytes().len() % 2 == 0 && strip_hex_prefix(input.spec_bytes()).len() != 64
            ==> (decoded matches Err(HexDecodeError::InvalidStringLength)),
        input.spec_bytes().len() % 2 == 0 && strip_hex_prefix(input.spec_bytes()).len() == 64
            ==> (decoded is Ok <==> all_hex_digits(strip_hex_prefix(input.spec_bytes()))),
        decoded matches Ok(a) ==> a@ == hex_decode_digits(strip_hex_prefix(input.spec_bytes())),
        input.spec_bytes().len() % 2 == 0 && strip_hex_prefix(input.spec_bytes()).len() == 64
            && decoded is Err ==> (decoded matches Err(HexDecodeError::InvalidHexCharacter { .. })),
{
    match const_hex::decode_to_array::<&str, 32>(input) {
        Ok(array) => Ok(array),
        Err(const_hex::FromHexError::InvalidHexCharacter { c, index }) => Err(
            HexDecodeError::InvalidHexCharacter { c, index },
        ),
        Err(const_hex::FromHexError::OddLength) => Err(HexDecodeError::OddLength),
        Err(const_hex::FromHexError::InvalidStringLength) => Err(
            HexDecodeError::InvalidStringLength,
        ),
    }
}

/// `const_hex::decode`: succeeds exactly when the input has even length and,
/// after an optional `0x`/`0X`, holds only hex digits; gives the bytes they spell.
#[verifier::external_body]
pub(crate) fn decode_hex(input: &str) -> (decoded: Option<Vec<u8>>)
    ensures
        match decoded {
            Some(bytes) => hex_decode(input.spec_bytes()) == Some(bytes@),
            None => hex_decode(input.spec_bytes()) is None,
        },
{
    const_hex::decode(input).ok()
}

/// Keccak-256 of a byte string, as `sha3::Keccak256` computes it.
pub uninterp spec fn keccak256(data: Seq<u8>) -> Seq<u8>;

/// `<sha3::Keccak256 as Digest>::digest`: the Keccak-256 hash of `data`; the
/// contract names the result and says nothing more of it.
#[verifier::external_body]
pub(crate) fn keccak256_digest(data: &[u8]) -> (digest: [u8; 32])
    ensures
        digest@ == keccak256(data@),
{
    sha3::Keccak256::digest(data).into()
}

/// What decoding `bytes` as an RLP-encoded Ethereum transaction gives: the
/// transaction hash and the gas limit as four little-endian 64-bit limbs, or
/// nothing when the bytes do not decode.
pub uninterp spec fn rlp_transaction(bytes: Seq<u8>) -> Option<(Seq<u8>, Seq<u64>)>;

/// `ethers_core::utils::rlp::decode::<ethers_core::types::Transaction>`: the
/// decoded transaction's `hash` and `gas` (its four limbs) when the bytes decode.
#[verifier::external_body]
pub(crate) fn rlp_decode_transaction(bytes: &[u8]) -> (decoded: Option<([u8; 32], [u64; 4])>)
    ensures
        match decoded {
            Some((hash, gas)) => rlp_transaction(bytes@) == Some((hash@, gas@)),
            None => rlp_transaction(bytes@) is None,
        },
{
    match ethers_core::utils::rlp::decode::<ethers_core::types::Transaction>(bytes) {
        Ok(transaction) => Some((transaction.hash.0, transaction.gas.0)),
        Err(_) => None,
    }
}

/// How `serde_json` writes one character inside a JSON string: a quote and a
/// backslash after a backslash; backspace, tab, line feed, form feed and
/// carriage return as `\b`, `\t`, `\n`, `\f`, `\r`; any other control
/// character below 0x20 as `\u00` and two lowercase hex digits; every other
/// character as itself.
pub open spec fn json_escaped_char(c: char) -> Seq<char> {
    let code = c as int;
    if c == '"' {
        seq!['\\', '"']
    } else if c == '\\' {
        seq!['\\', '\\']
    } else if code == 8 {
        seq!['\\', 'b']
    } else if code == 9 {
        seq!['\\', 't']
    } else if code == 10 {
        seq!['\\', 'n']
    } else if code == 12 {
        seq!['\\', 'f']
    } else if code == 13 {
        seq!['\\', 'r']
    } else if code < 32 {
        seq!['\\', 'u', '0', '0', hex_digit(code / 16), hex_digit(code % 16)]
    } else {
        seq![c]
    }
}

/// The JSON text that `serde_json` writes for a string: the string between
/// double quotes, each character escaped as `json_escaped_char` says.
pub open spec fn json_string_text(value: Seq<char>) -> Seq<char> {
    seq!['"'] + value.map_values(|c: char| json_escaped_char(c)).flatten() + seq!['"']
}

/// `serde_json::to_string` on a `String`: the JSON text of the string. Writing a
/// `String` cannot fail, so the wrapper unwraps. Reading the text back gives the
/// string: the reader undoes the writer's escaping of quotes, backslashes and
/// control characters.
#[verifier::external_body]
pub(crate) fn json_to_string(value: &String) -> (text: String)
    ensures
        text@ == json_string_text(value@),
        json_string_value(text@) == Some(value@),
{
    serde_json::to_string(value).unwrap()
}

/// The string that `serde_json` reads from a JSON text, if it holds one.
pub uninterp spec fn json_string_value(text: Seq<char>) -> Option<Seq<char>>;

/// `serde_json::from_str::<String>`: the string that the JSON text holds.
#[verifier::external_body]
pub(crate) fn json_from_str(text: &str) -> (value: Option<String>)
    ensures
        match value {
            Some(v) => json_string_value(text@) == Some(v@),
            None => json_string_value(text@) is None,
        },
{
    serde_json::from_str::<String>(text).ok()
}


/// The byte of a hex digit reads back as its value, and the digit is ASCII.
proof fn lemma_hex_digit_value(value: int)
    requires
        0 <= value < 16,
    ensures
        '\0' <= hex_digit(value) <= '\u{7f}',
        hex_value(hex_digit(value) as u8) == Some(value as u8),
{
}

/// Decoding the prefixed hex encoding of some bytes gives the bytes back; the
/// digits after the prefix are two per byte.
pub proof fn lemma_prefixed_hex_round_trip(bytes: Seq<u8>)
    ensures
        hex_decode(vstd::utf8::encode_utf8(prefixed_hex(bytes))) == Some(bytes),
        strip_hex_prefix(vstd::utf8::encode_utf8(prefixed_hex(bytes))).len() == 2 * bytes.len(),
{
    let chars = prefixed_hex(bytes);
    let hex = hex_encode(bytes);
    assert forall|j: int| 0 <= j < hex.len() implies '\0' <= #[trigger] hex[j] <= '\u{7f}'
        && hex_value(hex[j] as u8) == Some(
        (if j % 2 == 0 {
            bytes[j / 2] / 16
        } else {
            bytes[j / 2] % 16
        }) as u8,
    ) by {
        if j % 2 == 0 {
            lemma_hex_digit_value((bytes[j / 2] / 16) as int);
        } else {
            lemma_hex_digit_value((bytes[j / 2] % 16) as int);
        }
    }
    assert forall|i: int| 0 <= i < chars.len() implies '\0' <= #[trigger] chars[i] <= '\u{7f}' by {
        if i >= 2 {
            assert(chars[i] == hex[i - 2]);
        }
    }
    vstd::utf8::is_ascii_chars_encode_utf8(chars);
    let encoded = vstd::utf8::encode_utf8(chars);
    assert(encoded[0] == chars[0] as u8);
    assert(encoded[1] == chars[1] as u8);
    let digits = strip_hex_prefix(encoded);
    assert(digits =~= encoded.skip(2));
    assert forall|j: int| 0 <= j < digits.len() implies #[trigger] hex_value(digits[j]) == Some(
        (if j % 2 == 0 {
            bytes[j / 2] / 16
        } else {
            bytes[j / 2] % 16
        }) as u8,
    ) by {
        assert(digits[j] == encoded[j + 2]);
        assert(encoded[j + 2] == chars[j + 2] as u8);
        assert(chars[j + 2] == hex[j]);
    }
    assert(all_hex_digits(digits));
    assert forall|i: int| 0 <= i < bytes.len() implies #[trigger] hex_decode_digits(digits)[i]
        == bytes[i] by {
        assert(hex_value(digits[2 * i]) == Some((bytes[i] / 16) as u8));
        assert(hex_value(digits[2 * i + 1]) == Some((bytes[i] % 16) as u8));
    }
    assert(hex_decode_digits(digits) =~= bytes);
}

} // verus!
