//! Percent-encoding of one path segment.
//!
//! A segment is encoded byte by byte over its UTF-8 form. Letters, digits
//! and the four marks `-`, `.`, `_`, `~` stand for themselves; every other
//! byte becomes `%` and its two upper-case hexadecimal digits. So no
//! delimiter of a URL (`/`, `?`, `#`, ...) survives inside a segment.

use vstd::prelude::*;
use vstd::utf8::{
    encode_utf8, encode_utf8_decode_utf8, is_ascii_chars, is_ascii_chars_encode_utf8,
};
use crate::text::{decimal, lemma_decimal_shape, lemma_occurrences_none, occurrences};

verus! {

/// The bytes that stand for themselves in a path segment.
pub open spec fn is_unreserved(b: u8) -> bool {
    ||| 0x41 <= b <= 0x5A
    ||| 0x61 <= b <= 0x7A
    ||| 0x30 <= b <= 0x39
    ||| b == 0x2D
    ||| b == 0x2E
    ||| b == 0x5F
    ||| b == 0x7E
}

/// The upper-case hexadecimal digit for a value below sixteen.
pub open spec fn hex_digit(n: u8) -> char
    recommends
        n < 16,
{
    if n < 10 {
        (0x30 + n) as char
    } else {
        (0x37 + n) as char
    }
}

/// `%` and the two hexadecimal digits of a byte.
pub open spec fn escape(b: u8) -> Seq<char> {
    seq!['%', hex_digit(b / 16), hex_digit(b % 16)]
}

/// What one byte of a segment becomes.
pub open spec fn encode_byte(b: u8) -> Seq<char> {
    if is_unreserved(b) {
        seq![b as char]
    } else {
        escape(b)
    }
}

/// The percent-encoding of a byte string: its bytes' encodings, in order.
pub open spec fn percent_encode(bytes: Seq<u8>) -> Seq<char>
    decreases bytes.len(),
{
    if bytes.len() == 0 {
        Seq::empty()
    } else {
        percent_encode(bytes.drop_last()) + encode_byte(bytes.last())
    }
}

/// The percent-encoding of a text, taken over its UTF-8 bytes.
pub open spec fn encode_segment(segment: Seq<char>) -> Seq<char> {
    percent_encode(encode_utf8(segment))
}

/// The characters that an encoded segment is made of.
pub open spec fn is_segment_char(c: char) -> bool {
    ||| 'A' <= c <= 'Z'
    ||| 'a' <= c <= 'z'
    ||| '0' <= c <= '9'
    ||| c == '-'
    ||| c == '.'
    ||| c == '_'
    ||| c == '~'
    ||| c == '%'
}

fn unreserved(b: u8) -> (r: bool)
    ensures
        r == is_unreserved(b),
{
    (0x41 <= b && b <= 0x5A) || (0x61 <= b && b <= 0x7A) || (0x30 <= b && b <= 0x39) || b == 0x2D
        || b == 0x2E || b == 0x5F || b == 0x7E
}

fn hex(n: u8) -> (c: char)
    requires
        n < 16,
    ensures
        c == hex_digit(n),
{
    if n < 10 {
        (0x30 + n) as char
    } else {
        (0x37 + n) as char
    }
}

/// Appends the percent-encoding of `bytes` to `out`.
pub fn push_encoded(out: &mut String, bytes: &[u8])
    ensures
        final(out)@ == old(out)@ + percent_encode(bytes@),
{
    let mut i: usize = 0;
    while i < bytes.len()
        invariant
            i <= bytes.len(),
            out@ == old(out)@ + percent_encode(bytes@.take(i as int)),
        decreases bytes.len() - i,
    {
        let b = bytes[i];
        let ghost before = out@;
        if unreserved(b) {
            out.push(b as char);
        } else {
            out.push('%');
            out.push(hex(b / 16));
            out.push(hex(b % 16));
        }
        proof {
            assert(out@ == before + encode_byte(b));
            assert(bytes@.take(i + 1).drop_last() == bytes@.take(i as int));
        }
        i += 1;
    }
    proof {
        assert(bytes@.take(i as int) == bytes@);
    }
}

/// Percent-encodes one path segment.
pub fn encode_path(segment: &str) -> (encoded: String)
    ensures
        encoded@ == encode_segment(segment@),
{
    let mut encoded = String::new();
    push_encoded(&mut encoded, segment.as_bytes());
    encoded
}

/// What one byte becomes is one character that stands for itself, or `%`
/// and two hexadecimal digits.
pub proof fn lemma_encoded_byte_chars(b: u8)
    ensures
        encode_byte(b).len() == (if is_unreserved(b) { 1int } else { 3int }),
        forall|i: int|
            0 <= i < encode_byte(b).len() ==> is_segment_char(#[trigger] encode_byte(b)[i]),
{
    let high: u8 = b / 16;
    let low: u8 = b % 16;
    assert(high < 16 && low < 16);
    assert('0' <= hex_digit(high) <= '9' || 'A' <= hex_digit(high) <= 'F');
    assert('0' <= hex_digit(low) <= '9' || 'A' <= hex_digit(low) <= 'F');
    if is_unreserved(b) {
        assert(is_segment_char(b as char));
    }
}

/// Every character of an encoded byte string is a letter, a digit, one of
/// the four marks or `%`: no `/`, `?` or `#` is among them, whatever the
/// input held.
pub proof fn lemma_encoded_chars(bytes: Seq<u8>)
    ensures
        forall|i: int|
            0 <= i < percent_encode(bytes).len() ==> is_segment_char(
                #[trigger] percent_encode(bytes)[i],
            ),
    decreases bytes.len(),
{
    if bytes.len() > 0 {
        let front = percent_encode(bytes.drop_last());
        let tail = encode_byte(bytes.last());
        lemma_encoded_chars(bytes.drop_last());
        lemma_encoded_byte_chars(bytes.last());
        assert forall|i: int| 0 <= i < percent_encode(bytes).len() implies is_segment_char(
            #[trigger] percent_encode(bytes)[i],
        ) by {
            if i < front.len() {
                assert(percent_encode(bytes)[i] == front[i]);
            } else {
                assert(percent_encode(bytes)[i] == tail[i - front.len()]);
            }
        }
    }
}

/// An encoded segment holds none of the delimiters `/`, `?` and `#`.
pub proof fn lemma_segment_has_no_delimiter(segment: Seq<char>)
    ensures
        !encode_segment(segment).contains('/'),
        !encode_segment(segment).contains('?'),
        !encode_segment(segment).contains('#'),
{
    lemma_encoded_chars(encode_utf8(segment));
}

/// A character that no encoded segment is made of stands in none: whatever
/// an identifier holds, its encoding brings no such character into a path.
pub proof fn lemma_segment_brings_none(segment: Seq<char>, c: char)
    requires
        !is_segment_char(c),
    ensures
        occurrences(encode_segment(segment), c) == 0,
{
    lemma_encoded_chars(encode_utf8(segment));
    lemma_occurrences_none(encode_segment(segment), c);
}

/// The characters that stand for themselves in a segment.
pub open spec fn is_plain_char(c: char) -> bool {
    is_segment_char(c) && c != '%'
}

/// A byte string of unreserved bytes is encoded as these bytes, one
/// character for each.
pub proof fn lemma_plain_bytes(bytes: Seq<u8>)
    requires
        forall|i: int| 0 <= i < bytes.len() ==> is_unreserved(#[trigger] bytes[i]),
    ensures
        percent_encode(bytes).len() == bytes.len(),
        forall|i: int|
            0 <= i < bytes.len() ==> #[trigger] percent_encode(bytes)[i] == bytes[i] as char,
    decreases bytes.len(),
{
    if bytes.len() > 0 {
        lemma_plain_bytes(bytes.drop_last());
    }
}

/// An identifier made of letters, digits and the four marks alone is its own
/// encoding: the path holds it as it was given.
pub proof fn lemma_plain_segment(segment: Seq<char>)
    requires
        forall|i: int| 0 <= i < segment.len() ==> is_plain_char(#[trigger] segment[i]),
    ensures
        encode_segment(segment) == segment,
{
    let bytes = encode_utf8(segment);
    assert(is_ascii_chars(segment));
    is_ascii_chars_encode_utf8(segment);
    assert forall|i: int| 0 <= i < bytes.len() implies is_unreserved(#[trigger] bytes[i]) by {
        assert(is_plain_char(segment[i]));
        assert(bytes[i] == segment[i] as u8);
    }
    lemma_plain_bytes(bytes);
    assert forall|i: int| 0 <= i < segment.len() implies encode_segment(segment)[i]
        == segment[i] by {
        assert(is_plain_char(segment[i]));
        assert(bytes[i] == segment[i] as u8);
        assert(percent_encode(bytes)[i] == bytes[i] as char);
    }
    assert(encode_segment(segment) =~= segment);
}

/// A number stands in a path as its decimal numeral.
pub proof fn lemma_number_segment(n: int)
    ensures
        encode_segment(decimal(n)) == decimal(n),
{
    lemma_decimal_shape(n);
    lemma_plain_segment(decimal(n));
}

/// The value of an upper-case hexadecimal digit, and sixteen for any other
/// character.
pub open spec fn hex_value(c: char) -> u8 {
    if '0' <= c <= '9' {
        (c as u8 - 0x30) as u8
    } else if 'A' <= c <= 'F' {
        (c as u8 - 0x37) as u8
    } else {
        16
    }
}

/// Reads an encoded text back, from its end: `%` and two digits give the
/// byte they write, any other character gives its own byte.
pub open spec fn percent_decode(text: Seq<char>) -> Seq<u8>
    decreases text.len(),
{
    if text.len() == 0 {
        Seq::empty()
    } else if text.len() >= 3 && text[text.len() - 3] == '%' {
        percent_decode(text.take(text.len() - 3)).push(
            (hex_value(text[text.len() - 2]) * 16 + hex_value(text[text.len() - 1])) as u8,
        )
    } else {
        percent_decode(text.drop_last()).push(text.last() as u8)
    }
}

/// Neither of the last two characters of an encoded byte string is `%`.
pub proof fn lemma_encoded_end(bytes: Seq<u8>)
    ensures
        ({
            let text = percent_encode(bytes);
            &&& text.len() >= 1 ==> text[text.len() - 1] != '%'
            &&& text.len() >= 2 ==> text[text.len() - 2] != '%'
        }),
    decreases bytes.len(),
{
    if bytes.len() > 0 {
        let b = bytes.last();
        lemma_encoded_end(bytes.drop_last());
        lemma_hex_digit_value(b / 16);
        lemma_hex_digit_value(b % 16);
    }
}

/// A hexadecimal digit is a digit or a letter from `A` to `F`, and has the
/// value it was written for.
pub proof fn lemma_hex_digit_value(n: u8)
    requires
        n < 16,
    ensures
        hex_value(hex_digit(n)) == n,
        hex_digit(n) != '%',
        is_segment_char(hex_digit(n)),
{
}

/// Decoding undoes encoding: two byte strings with the same encoding are the
/// same, so an encoded segment stands for one identifier only.
pub proof fn lemma_decode_encode(bytes: Seq<u8>)
    ensures
        percent_decode(percent_encode(bytes)) == bytes,
    decreases bytes.len(),
{
    if bytes.len() > 0 {
        let front = bytes.drop_last();
        let b = bytes.last();
        let head = percent_encode(front);
        let text = percent_encode(bytes);
        lemma_decode_encode(front);
        lemma_encoded_end(front);
        lemma_hex_digit_value(b / 16);
        lemma_hex_digit_value(b % 16);
        if is_unreserved(b) {
            assert(text == head.push(b as char));
            assert(text.drop_last() == head);
            assert(text.last() as u8 == b);
            if text.len() >= 3 {
                assert(text[text.len() - 3] == head[head.len() - 2]);
            }
        } else {
            assert(text.len() == head.len() + 3);
            assert(text[text.len() - 3] == '%');
            assert(text.take(text.len() - 3) == head);
            assert(text[text.len() - 2] == hex_digit(b / 16));
            assert(text[text.len() - 1] == hex_digit(b % 16));
            assert((b / 16) * 16 + b % 16 == b);
        }
        assert(percent_decode(text) == front.push(b));
        assert(front.push(b) == bytes);
    }
}

/// Two identifiers with the same encoding are the same identifier: no two
/// resources share a path.
pub proof fn lemma_segments_differ(first: Seq<char>, second: Seq<char>)
    requires
        encode_segment(first) == encode_segment(second),
    ensures
        first == second,
{
    lemma_decode_encode(encode_utf8(first));
    lemma_decode_encode(encode_utf8(second));
    encode_utf8_decode_utf8(first);
    encode_utf8_decode_utf8(second);
}

} // verus!
