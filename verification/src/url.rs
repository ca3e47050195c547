//! Percent-encoding of payloads.

use vstd::prelude::*;
use vstd::utf8::{encode_utf8, valid_utf8};

verus! {

/// Whether a byte stands for itself: letters, digits and four marks.
pub open spec fn unreserved(byte: u8) -> bool {
    ||| 0x30 <= byte <= 0x39
    ||| 0x41 <= byte <= 0x5a
    ||| 0x61 <= byte <= 0x7a
    ||| byte == 0x2d
    ||| byte == 0x2e
    ||| byte == 0x5f
    ||| byte == 0x7e
}

/// A hexadecimal digit in upper case.
pub open spec fn upper_digit(value: u8) -> u8 {
    (if value < 10 {
        0x30 + value
    } else {
        0x37 + value
    }) as u8
}

/// Bytes with all but the unreserved ones written as a percent sign and two
/// digits.
pub open spec fn escaped(bytes: Seq<u8>) -> Seq<u8>
    decreases bytes.len(),
{
    if bytes.len() == 0 {
        Seq::empty()
    } else {
        (if unreserved(bytes[0]) {
            seq![bytes[0]]
        } else {
            seq![0x25u8, upper_digit(bytes[0] / 16), upper_digit(bytes[0] % 16)]
        }) + escaped(bytes.drop_first())
    }
}

/// The value of a hexadecimal digit of either case.
pub open spec fn digit_value(byte: u8) -> Option<u8> {
    if 0x30 <= byte <= 0x39 {
        Some((byte - 0x30) as u8)
    } else if 0x41 <= byte <= 0x46 {
        Some((byte - 0x37) as u8)
    } else if 0x61 <= byte <= 0x66 {
        Some((byte - 0x57) as u8)
    } else {
        None
    }
}

/// Bytes with every percent sign and two digits read as one byte; any other
/// byte, a percent sign without digits among them, stands for itself.
pub open spec fn unescaped(bytes: Seq<u8>) -> Seq<u8>
    decreases bytes.len(),
{
    if bytes.len() == 0 {
        Seq::empty()
    } else if bytes[0] == 0x25 && bytes.len() >= 3 && digit_value(bytes[1]) is Some && digit_value(
        bytes[2],
    ) is Some {
        seq![(16 * digit_value(bytes[1])->0 + digit_value(bytes[2])->0) as u8] + unescaped(
            bytes.skip(3),
        )
    } else {
        seq![bytes[0]] + unescaped(bytes.drop_first())
    }
}

/// `urlencoding::encode`: escapes the text's bytes.
#[verifier::external_body]
fn encode(text: &str) -> (encoded: String)
    ensures
        encode_utf8(encoded@) == escaped(encode_utf8(text@)),
{
    urlencoding::encode(text).into_owned()
}

/// `urlencoding::decode`: unescapes the text's bytes; none where they are no
/// text.
#[verifier::external_body]
fn decode(text: &str) -> (decoded: Option<String>)
    ensures
        match decoded {
            Some(decoded) => encode_utf8(decoded@) == unescaped(encode_utf8(text@)),
            None => !valid_utf8(unescaped(encode_utf8(text@))),
        },
{
    urlencoding::decode(text).ok().map(|decoded| decoded.into_owned())
}

/// The text that has certain bytes.
pub open spec fn text_of(bytes: Seq<u8>) -> Seq<char> {
    vstd::utf8::decode_utf8(bytes)
}

/// A payload as it is written.
pub open spec fn url_encoded(text: Seq<char>) -> Seq<char> {
    text_of(escaped(encode_utf8(text)))
}

/// A payload as it is read; none where its bytes are no text.
pub open spec fn url_decoded(text: Seq<char>) -> Option<Seq<char>> {
    if valid_utf8(unescaped(encode_utf8(text))) {
        Some(text_of(unescaped(encode_utf8(text))))
    } else {
        None
    }
}

/// Writes a payload.
pub fn url_encode(text: &str) -> (encoded: String)
    ensures
        encoded@ == url_encoded(text@),
{
    let encoded = encode(text);
    proof {
        vstd::utf8::encode_utf8_decode_utf8(encoded@);
    }
    encoded
}

/// Reads a payload.
pub fn url_decode(text: &str) -> (decoded: Option<String>)
    ensures
        match decoded {
            Some(decoded) => url_decoded(text@) == Some(decoded@),
            None => url_decoded(text@) is None,
        },
{
    let decoded = decode(text);
    proof {
        if decoded is Some {
            vstd::utf8::encode_utf8_valid_utf8(decoded->0@);
            vstd::utf8::encode_utf8_decode_utf8(decoded->0@);
        }
    }
    decoded
}

proof fn lemma_digits(value: u8)
    requires
        value < 16,
    ensures
        digit_value(upper_digit(value)) == Some(value),
{
}

proof fn lemma_unescape_escaped(bytes: Seq<u8>)
    ensures
        unescaped(escaped(bytes)) == bytes,
    decreases bytes.len(),
{
    if bytes.len() > 0 {
        let rest = bytes.drop_first();
        lemma_unescape_escaped(rest);
        let all = escaped(bytes);
        if unreserved(bytes[0]) {
            assert(all.drop_first() =~= escaped(rest));
        } else {
            lemma_digits((bytes[0] / 16) as u8);
            lemma_digits((bytes[0] % 16) as u8);
            assert(all.skip(3) =~= escaped(rest));
        }
        assert(unescaped(all) =~= bytes);
    }
}

proof fn lemma_escaped_is_ascii(bytes: Seq<u8>)
    ensures
        forall|i: int| 0 <= i < escaped(bytes).len() ==> (#[trigger] escaped(bytes)[i]) < 0x80,
    decreases bytes.len(),
{
    if bytes.len() > 0 {
        let rest = escaped(bytes.drop_first());
        lemma_escaped_is_ascii(bytes.drop_first());
        let all = escaped(bytes);
        let own = all.len() - rest.len();
        assert forall|i: int| 0 <= i < all.len() implies (#[trigger] all[i]) < 0x80 by {
            if i >= own {
                assert(all[i] == rest[i - own]);
            }
        }
    }
}

proof fn lemma_ascii_is_valid(bytes: Seq<u8>)
    requires
        forall|i: int| 0 <= i < bytes.len() ==> (#[trigger] bytes[i]) < 0x80,
    ensures
        valid_utf8(bytes),
    decreases bytes.len(),
{
    if bytes.len() > 0 {
        let first = bytes[0];
        assert(first < 0x80 ==> vstd::utf8::is_leading_byte_width_1(first)) by {
            assert(first < 0x80 ==> (first & 0x80) == 0) by (bit_vector);
        }
        assert(vstd::utf8::codepoint_width_1(first) < 0x80) by {
            assert(first < 0x80 ==> ((first & 0x7f) as u32) < 0x80) by (bit_vector);
        }
        let rest = vstd::utf8::pop_first_scalar(bytes);
        assert forall|i: int| 0 <= i < rest.len() implies (#[trigger] rest[i]) < 0x80 by {
            assert(rest[i] == bytes[i + 1]);
        }
        lemma_ascii_is_valid(rest);
    }
}

/// What is written reads back.
pub proof fn law_payloads_read_back(text: Seq<char>)
    ensures
        url_decoded(url_encoded(text)) == Some(text),
{
    let bytes = encode_utf8(text);
    lemma_escaped_is_ascii(bytes);
    lemma_ascii_is_valid(escaped(bytes));
    vstd::utf8::decode_utf8_encode_utf8(escaped(bytes));
    lemma_unescape_escaped(bytes);
    vstd::utf8::encode_utf8_valid_utf8(text);
    vstd::utf8::encode_utf8_decode_utf8(text);
}

} // verus!
