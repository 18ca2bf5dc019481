//! Texts of binary digits: which texts stand for a vector, and what bytes they store.

use crate::error::BitVecError;
use vstd::prelude::*;
use vstd::utf8::encode_scalar;
use vstd::utf8::encode_utf8;
use vstd::utf8::has_width_1_encoding;
use vstd::utf8::is_ascii_chars;
use vstd::utf8::is_ascii_chars_encode_utf8;

verus! {

/// Whether `c` is one of the two characters that a binary vector is written with.
pub open spec fn is_digit(c: char) -> bool {
    c == '0' || c == '1'
}

/// Whether every character of `text` is `'0'` or `'1'`.
pub open spec fn all_digits(text: Seq<char>) -> bool {
    forall|i: int| 0 <= i < text.len() ==> is_digit(#[trigger] text[i])
}

/// The number of bytes that `text` takes up as a string.
pub open spec fn byte_len(text: Seq<char>) -> nat {
    encode_utf8(text).len()
}

/// The code points of `text`, position by position, each cut to a byte.
pub open spec fn codes(text: Seq<char>) -> Seq<u8> {
    Seq::new(text.len(), |i: int| text[i] as u8)
}

/// The ASCII code of `'0'`.
pub const DIGIT_ZERO: u8 = 48;

/// The ASCII code of `'1'`.
pub const DIGIT_ONE: u8 = 49;

/// Whether `b` is the ASCII code of `'0'` or of `'1'`.
pub open spec fn is_digit_code(b: u8) -> bool {
    b == DIGIT_ZERO || b == DIGIT_ONE
}

/// Whether every byte of `bytes` is the ASCII code of `'0'` or of `'1'`.
pub open spec fn all_digit_codes(bytes: Seq<u8>) -> bool {
    forall|i: int| 0 <= i < bytes.len() ==> is_digit_code(#[trigger] bytes[i])
}

/// What parsing `text` as a vector of `n` positions gives: the stored bytes, or the
/// reason for which the text is refused. The length is judged first, and in bytes.
pub open spec fn parsed(text: Seq<char>, n: nat) -> Result<Seq<u8>, BitVecError> {
    if byte_len(text) != n {
        Err(BitVecError::InvalidLength)
    } else if !all_digits(text) {
        Err(BitVecError::InvalidValue)
    } else {
        Ok(codes(text))
    }
}

/// A character whose code is under 128 is an ASCII character.
proof fn lemma_small_code_is_ascii(c: char)
    requires
        c as u32 <= 0x7F,
    ensures
        '\0' <= c <= '\u{7f}',
{
}

/// A text whose bytes all stand for one character each is an ASCII text.
proof fn lemma_small_bytes_are_ascii(text: Seq<char>)
    requires
        forall|i: int| 0 <= i < encode_utf8(text).len() ==> #[trigger] encode_utf8(text)[i] < 0x80,
    ensures
        is_ascii_chars(text),
    decreases text.len(),
{
    if text.len() > 0 {
        let c = text[0] as u32;
        let rest = text.drop_first();
        let head = encode_scalar(c);
        let bytes = encode_utf8(text);
        assert(bytes == head + encode_utf8(rest));
        assert(bytes[0] == head[0]);
        assert(has_width_1_encoding(c)) by {
            assert(forall|x: u8| 0xC0u8 | x >= 0x80) by (bit_vector);
            assert(forall|x: u8| 0xE0u8 | x >= 0x80) by (bit_vector);
            assert(forall|x: u8| 0xF0u8 | x >= 0x80) by (bit_vector);
        }
        assert forall|i: int| 0 <= i < encode_utf8(rest).len() implies #[trigger] encode_utf8(
            rest,
        )[i] < 0x80 by {
            assert(encode_utf8(rest)[i] == bytes[i + 1]);
        }
        lemma_small_bytes_are_ascii(rest);
        assert forall|i: int| 0 <= i < text.len() implies '\0' <= #[trigger] text[i]
            <= '\u{7f}' by {
            if i > 0 {
                assert(text[i] == rest[i - 1]);
            } else {
                lemma_small_code_is_ascii(text[0]);
            }
        }
    }
}

/// A text is made of `'0'` and `'1'` exactly if its bytes all are the codes of these
/// two, and then it takes one byte for each character: the character's code.
pub proof fn lemma_digits_in_bytes(text: Seq<char>)
    ensures
        all_digits(text) <==> all_digit_codes(encode_utf8(text)),
        all_digits(text) ==> encode_utf8(text) == codes(text) && byte_len(text) == text.len(),
{
    let bytes = encode_utf8(text);
    if all_digits(text) {
        assert forall|i: int| 0 <= i < text.len() implies '\0' <= #[trigger] text[i]
            <= '\u{7f}' by {
            assert(is_digit(text[i]));
        }
        is_ascii_chars_encode_utf8(text);
        assert forall|i: int| 0 <= i < bytes.len() implies is_digit_code(#[trigger] bytes[i]) by {
            assert(is_digit(text[i]));
        }
        assert(bytes =~= codes(text));
    }
    if all_digit_codes(bytes) {
        assert forall|i: int| 0 <= i < bytes.len() implies #[trigger] bytes[i] < 0x80 by {
            assert(is_digit_code(bytes[i]));
        }
        lemma_small_bytes_are_ascii(text);
        is_ascii_chars_encode_utf8(text);
        assert forall|i: int| 0 <= i < text.len() implies is_digit(#[trigger] text[i]) by {
            assert(is_digit_code(bytes[i]));
            assert(text[i] as u8 == bytes[i]);
        }
    }
}

} // verus!
