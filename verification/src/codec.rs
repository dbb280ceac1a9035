//! Percent-encoding and decoding of text.
//!
//! The model works on bytes: a string stands for its UTF-8 encoding, every
//! byte outside the unreserved set becomes `%` and two upper-case hex digits,
//! and decoding reverses exactly that, refusing any `%` that does not start a
//! complete escape.

use vstd::prelude::*;
use vstd::utf8::*;

verus! {

/// The byte `%`.
pub const PERCENT: u8 = 0x25;

/// Why a string could not be percent-decoded.
#[derive(Clone, Copy, Debug, PartialEq, Eq, Structural)]
pub enum DecodeError {
    /// Some `%` is not followed by two hexadecimal digits.
    MalformedEscape,
    /// Every escape is complete, but the decoded bytes are not UTF-8.
    InvalidUtf8,
}

impl DecodeError {
    /// A sentence for the user that says why decoding failed.
    pub fn message(&self) -> (message: &'static str)
        ensures
            message@ == match *self {
                DecodeError::MalformedEscape =>
                    "malformed escape: '%' must be followed by two hexadecimal digits"@,
                DecodeError::InvalidUtf8 => "the decoded bytes are not valid UTF-8"@,
            },
    {
        match self {
            DecodeError::MalformedEscape =>
                "malformed escape: '%' must be followed by two hexadecimal digits",
            DecodeError::InvalidUtf8 => "the decoded bytes are not valid UTF-8",
        }
    }
}

/// ASCII letters, digits, `-`, `.`, `_` and `~`: the bytes that encoding
/// leaves as they are.
pub open spec fn is_unreserved(b: u8) -> bool {
    ||| 0x30 <= b <= 0x39
    ||| 0x41 <= b <= 0x5a
    ||| 0x61 <= b <= 0x7a
    ||| b == 0x2d
    ||| b == 0x2e
    ||| b == 0x5f
    ||| b == 0x7e
}

/// The upper-case hexadecimal digit for a value below 16.
pub open spec fn hex_digit(value: u8) -> u8
    recommends
        value < 16,
{
    if value < 10 {
        (0x30 + value) as u8
    } else {
        (0x41 + (value - 10)) as u8
    }
}

/// The value of a hexadecimal digit of either case, if `digit` is one.
pub open spec fn hex_value(digit: u8) -> Option<u8> {
    if 0x30 <= digit <= 0x39 {
        Some((digit - 0x30) as u8)
    } else if 0x41 <= digit <= 0x46 {
        Some((digit - 0x41 + 10) as u8)
    } else if 0x61 <= digit <= 0x66 {
        Some((digit - 0x61 + 10) as u8)
    } else {
        None
    }
}

/// What one byte is encoded as.
pub open spec fn encode_byte(b: u8) -> Seq<u8> {
    if is_unreserved(b) {
        seq![b]
    } else {
        seq![PERCENT, hex_digit(b / 16), hex_digit(b % 16)]
    }
}

/// The percent-encoding of a byte sequence.
pub open spec fn percent_encode(bytes: Seq<u8>) -> Seq<u8>
    decreases bytes.len(),
{
    if bytes.len() == 0 {
        seq![]
    } else {
        encode_byte(bytes[0]) + percent_encode(bytes.drop_first())
    }
}

/// `bytes` starts with a complete escape: `%` and two hexadecimal digits.
pub open spec fn starts_with_escape(bytes: Seq<u8>) -> bool {
    &&& bytes.len() >= 3
    &&& bytes[0] == PERCENT
    &&& hex_value(bytes[1]) is Some
    &&& hex_value(bytes[2]) is Some
}

/// The byte that the escape at the start of `bytes` stands for.
pub open spec fn escape_value(bytes: Seq<u8>) -> u8
    recommends
        starts_with_escape(bytes),
{
    (hex_value(bytes[1])->0 * 16 + hex_value(bytes[2])->0) as u8
}

/// The bytes that `bytes` decodes to, or `None` where some `%` does not
/// start a complete escape. Every other byte, `+` included, stands for itself.
pub open spec fn percent_decode(bytes: Seq<u8>) -> Option<Seq<u8>>
    decreases bytes.len(),
{
    if bytes.len() == 0 {
        Some(seq![])
    } else if bytes[0] == PERCENT {
        if starts_with_escape(bytes) {
            match percent_decode(bytes.skip(3)) {
                Some(rest) => Some(seq![escape_value(bytes)] + rest),
                None => None,
            }
        } else {
            None
        }
    } else {
        match percent_decode(bytes.drop_first()) {
            Some(rest) => Some(seq![bytes[0]] + rest),
            None => None,
        }
    }
}

/// Each byte read as the character with that code point.
pub open spec fn bytes_as_chars(bytes: Seq<u8>) -> Seq<char> {
    Seq::new(bytes.len(), |i: int| bytes[i] as char)
}

/// The percent-encoding of a string: that of its UTF-8 bytes, as text.
pub open spec fn urlencode_spec(text: Seq<char>) -> Seq<char> {
    bytes_as_chars(percent_encode(encode_utf8(text)))
}

/// What a string decodes to: its escapes are resolved on its UTF-8 bytes, and
/// the resulting bytes are read back as UTF-8.
pub open spec fn urldecode_spec(text: Seq<char>) -> Result<Seq<char>, DecodeError> {
    match percent_decode(encode_utf8(text)) {
        None => Err(DecodeError::MalformedEscape),
        Some(raw) => if valid_utf8(raw) {
            Ok(decode_utf8(raw))
        } else {
            Err(DecodeError::InvalidUtf8)
        },
    }
}

/// A byte that may appear in encoded text: unreserved, or `%`.
pub open spec fn is_encoded_byte(b: u8) -> bool {
    is_unreserved(b) || b == PERCENT
}

/// ASCII letters, digits, `-`, `.`, `_` and `~`, as characters.
pub open spec fn is_unreserved_char(c: char) -> bool {
    ||| '0' <= c <= '9'
    ||| 'A' <= c <= 'Z'
    ||| 'a' <= c <= 'z'
    ||| c == '-'
    ||| c == '.'
    ||| c == '_'
    ||| c == '~'
}

/// A character that may appear in encoded text: unreserved, or `%`.
pub open spec fn is_encoded_char(c: char) -> bool {
    is_unreserved_char(c) || c == '%'
}

/// Decoding undoes encoding, byte for byte.
pub proof fn lemma_percent_round_trip(bytes: Seq<u8>)
    ensures
        percent_decode(percent_encode(bytes)) == Some(bytes),
    decreases bytes.len(),
{
    if bytes.len() > 0 {
        let b = bytes[0];
        let rest = bytes.drop_first();
        let encoded = percent_encode(bytes);
        lemma_percent_round_trip(rest);
        if is_unreserved(b) {
            assert(encoded.drop_first() =~= percent_encode(rest));
        } else {
            assert(hex_value(hex_digit(b / 16)) == Some(b / 16));
            assert(hex_value(hex_digit(b % 16)) == Some(b % 16));
            assert(encoded.skip(3) =~= percent_encode(rest));
            assert(escape_value(encoded) == b);
        }
        assert(seq![b] + rest =~= bytes);
    }
}

/// Encoded bytes are unreserved bytes and `%`, nothing else.
pub proof fn lemma_percent_encode_alphabet(bytes: Seq<u8>)
    ensures
        forall|i: int|
            0 <= i < percent_encode(bytes).len() ==> is_encoded_byte(
                #[trigger] percent_encode(bytes)[i],
            ),
    decreases bytes.len(),
{
    if bytes.len() > 0 {
        let head = encode_byte(bytes[0]);
        let tail = percent_encode(bytes.drop_first());
        lemma_percent_encode_alphabet(bytes.drop_first());
        assert forall|i: int| 0 <= i < percent_encode(bytes).len() implies is_encoded_byte(
            #[trigger] percent_encode(bytes)[i],
        ) by {
            if i < head.len() {
                assert(percent_encode(bytes)[i] == head[i]);
            } else {
                assert(percent_encode(bytes)[i] == tail[i - head.len()]);
            }
        }
    }
}

/// Bytes that are all unreserved encode to themselves.
pub proof fn lemma_percent_encode_unreserved(bytes: Seq<u8>)
    requires
        forall|i: int| 0 <= i < bytes.len() ==> is_unreserved(#[trigger] bytes[i]),
    ensures
        percent_encode(bytes) == bytes,
    decreases bytes.len(),
{
    if bytes.len() > 0 {
        let rest = bytes.drop_first();
        assert forall|i: int| 0 <= i < rest.len() implies is_unreserved(#[trigger] rest[i]) by {
            assert(rest[i] == bytes[i + 1]);
        }
        lemma_percent_encode_unreserved(rest);
        assert(seq![bytes[0]] + rest =~= bytes);
    }
}

/// Text made of encoded bytes has exactly those bytes as its UTF-8 encoding.
pub proof fn lemma_encoded_text_bytes(bytes: Seq<u8>)
    requires
        forall|i: int| 0 <= i < bytes.len() ==> is_encoded_byte(#[trigger] bytes[i]),
    ensures
        encode_utf8(bytes_as_chars(bytes)) == bytes,
        forall|i: int|
            0 <= i < bytes.len() ==> is_encoded_char(#[trigger] bytes_as_chars(bytes)[i]),
{
    let chars = bytes_as_chars(bytes);
    assert forall|i: int| 0 <= i < chars.len() implies '\0' <= #[trigger] chars[i] <= '\u{7f}'
        && chars[i] as u8 == bytes[i] by {
        assert(is_encoded_byte(bytes[i]));
    }
    assert(is_ascii_chars(chars));
    is_ascii_chars_encode_utf8(chars);
    assert(encode_utf8(chars) =~= bytes);
}

/// Calls `urlencoding::encode`. The crate documents that it percent-encodes
/// every byte of the UTF-8 input except ASCII letters, digits, `-`, `_`, `.`
/// and `~`; its source writes each other byte as `%` and two upper-case hex
/// digits, high nibble first. The contract states this of the result's bytes.
#[verifier::external_body]
fn encode_text(data: &str) -> (out: String)
    ensures
        encode_utf8(out@) == percent_encode(encode_utf8(data@)),
{
    urlencoding::encode(data).into_owned()
}

/// Calls `urlencoding::decode`, on input whose every `%` starts a complete
/// escape. There the crate replaces each escape by the byte it names, keeps
/// every other byte, and hands the bytes to `String::from_utf8`, which
/// succeeds exactly on valid UTF-8. What the crate does with an incomplete
/// escape is not claimed: such input is left out.
#[verifier::external_body]
fn decode_text(data: &str) -> (out: Option<String>)
    requires
        percent_decode(encode_utf8(data@)) is Some,
    ensures
        out is Some <==> valid_utf8(percent_decode(encode_utf8(data@))->0),
        out matches Some(text) ==> text@ == decode_utf8(percent_decode(encode_utf8(data@))->0),
{
    match urlencoding::decode(data) {
        Ok(text) => Some(text.into_owned()),
        Err(_) => None,
    }
}

/// Percent-encodes `input`: every byte of its UTF-8 encoding outside the
/// unreserved set becomes `%` and two upper-case hexadecimal digits.
pub fn urlencode(input: &str) -> (encoded: String)
    ensures
        encoded@ == urlencode_spec(input@),
        forall|i: int| 0 <= i < encoded@.len() ==> is_encoded_char(#[trigger] encoded@[i]),
{
    let encoded = encode_text(input);
    proof {
        let bytes = percent_encode(encode_utf8(input@));
        lemma_percent_encode_alphabet(encode_utf8(input@));
        lemma_encoded_text_bytes(bytes);
        encode_utf8_decode_utf8(encoded@);
        encode_utf8_decode_utf8(bytes_as_chars(bytes));
    }
    encoded
}

/// Whether every `%` in `bytes` is followed by two hexadecimal digits.
pub fn escapes_complete(bytes: &[u8]) -> (complete: bool)
    ensures
        complete == percent_decode(bytes@) is Some,
{
    let n = bytes.len();
    let mut i: usize = 0;
    assert(bytes@.skip(0) =~= bytes@);
    while i < n
        invariant
            n == bytes@.len(),
            i <= n,
            percent_decode(bytes@) is Some <==> percent_decode(bytes@.skip(i as int)) is Some,
        decreases n - i,
    {
        let ghost tail = bytes@.skip(i as int);
        if bytes[i] == PERCENT {
            if n - i < 3 || !is_hex_digit(bytes[i + 1]) || !is_hex_digit(bytes[i + 2]) {
                assert(!starts_with_escape(tail));
                return false;
            }
            assert(starts_with_escape(tail));
            assert(tail.skip(3) =~= bytes@.skip(i + 3));
            i += 3;
        } else {
            assert(tail.drop_first() =~= bytes@.skip(i + 1));
            i += 1;
        }
    }
    assert(bytes@.skip(n as int) =~= Seq::<u8>::empty());
    true
}

/// Whether `digit` is a hexadecimal digit of either case.
pub fn is_hex_digit(digit: u8) -> (hex: bool)
    ensures
        hex == hex_value(digit) is Some,
{
    (0x30 <= digit && digit <= 0x39) || (0x41 <= digit && digit <= 0x46) || (0x61 <= digit
        && digit <= 0x66)
}

/// Reverses percent-encoding. Fails with `MalformedEscape` where some `%` is
/// not followed by two hexadecimal digits, and with `InvalidUtf8` where the
/// escapes are complete but the bytes they yield are not UTF-8.
pub fn urldecode(input: &str) -> (decoded: Result<String, DecodeError>)
    ensures
        urldecode_spec(input@) == match decoded {
            Ok(text) => Ok::<Seq<char>, DecodeError>(text@),
            Err(error) => Err(error),
        },
{
    if !escapes_complete(input.as_bytes()) {
        return Err(DecodeError::MalformedEscape);
    }
    match decode_text(input) {
        Some(text) => Ok(text),
        None => Err(DecodeError::InvalidUtf8),
    }
}

/// Decoding what encoding produced gives the text back, whatever the text.
pub proof fn lemma_urldecode_urlencode(text: Seq<char>)
    ensures
        urldecode_spec(urlencode_spec(text)) == Ok::<Seq<char>, DecodeError>(text),
{
    let bytes = encode_utf8(text);
    lemma_percent_encode_alphabet(bytes);
    lemma_encoded_text_bytes(percent_encode(bytes));
    lemma_percent_round_trip(bytes);
    encode_utf8_valid_utf8(text);
    encode_utf8_decode_utf8(text);
}

/// Encoded text holds only ASCII letters, digits, `-`, `_`, `.`, `~` and `%`.
pub proof fn lemma_urlencode_alphabet(text: Seq<char>)
    ensures
        forall|i: int|
            0 <= i < urlencode_spec(text).len() ==> is_encoded_char(
                #[trigger] urlencode_spec(text)[i],
            ),
{
    lemma_percent_encode_alphabet(encode_utf8(text));
    lemma_encoded_text_bytes(percent_encode(encode_utf8(text)));
}

/// Text made only of unreserved characters is its own encoding.
pub proof fn lemma_urlencode_unreserved(text: Seq<char>)
    requires
        forall|i: int| 0 <= i < text.len() ==> is_unreserved_char(#[trigger] text[i]),
    ensures
        urlencode_spec(text) == text,
{
    assert forall|i: int| 0 <= i < text.len() implies '\0' <= #[trigger] text[i] <= '\u{7f}' by {
        assert(is_unreserved_char(text[i]));
    }
    assert(is_ascii_chars(text));
    is_ascii_chars_encode_utf8(text);
    let bytes = encode_utf8(text);
    assert forall|i: int| 0 <= i < bytes.len() implies is_unreserved(#[trigger] bytes[i]) by {
        assert(is_unreserved_char(text[i]));
        assert(text[i] as u8 == bytes[i]);
    }
    lemma_percent_encode_unreserved(bytes);
    assert(bytes_as_chars(bytes) =~= text);
}

} // verus!
