//! Text at the edge of the codec: UTF-8 decoding of payloads and the decimal
//! rendering used by the human-readable summaries.

use vstd::prelude::*;

verus! {

use vstd::utf8::{valid_utf8, decode_utf8, is_ascii_chars};

/// Relies on std's `String::from_utf8`: it returns `Ok` exactly when the
/// bytes are valid UTF-8, and the resulting string then holds their decoding.
#[verifier::external_body]
pub(crate) fn utf8_to_string(bytes: &[u8]) -> (r: Option<String>)
    ensures
        r is Some <==> valid_utf8(bytes@),
        r matches Some(s) ==> s@ == decode_utf8(bytes@),
{
    String::from_utf8(bytes.to_vec()).ok()
}

/// The ASCII character of a single decimal digit.
pub open spec fn spec_digit_char(d: nat) -> char
    recommends
        d < 10,
{
    ((0x30 + (d % 10)) as u8) as char
}

/// The decimal digits of `n`, most significant first, with no sign and no
/// leading zeros (a single `0` for zero itself).
pub open spec fn spec_dec_digits(n: nat) -> Seq<char>
    decreases n,
{
    if n < 10 {
        seq![spec_digit_char(n)]
    } else {
        spec_dec_digits(n / 10).push(spec_digit_char(n % 10))
    }
}

/// Relies on std's `format!` with the `Display` impl for `u32`: a number is
/// rendered as its decimal digits, without sign, padding or separators.
#[verifier::external_body]
pub(crate) fn format_summary(length: u32, type_text: &str, crc: u32) -> (r: String)
    ensures
        r@ == spec_dec_digits(length as nat) + " - "@ + type_text@ + " - "@ + spec_dec_digits(
            crc as nat,
        ),
{
    format!("{} - {} - {}", length, type_text, crc)
}

/// ASCII bytes are valid UTF-8 and decode to themselves, character by
/// character.
pub proof fn lemma_ascii_bytes_decode(bytes: Seq<u8>)
    requires
        forall|i: int| 0 <= i < bytes.len() ==> bytes[i] < 0x80,
    ensures
        valid_utf8(bytes),
        decode_utf8(bytes) == bytes.map_values(|b: u8| b as char),
{
    let chars = bytes.map_values(|b: u8| b as char);
    assert forall|i: int| 0 <= i < chars.len() implies '\0' <= #[trigger] chars[i] <= '\u{7f}' by {
        let b = bytes[i];
        assert(b < 0x80 ==> '\0' <= (b as char) <= '\u{7f}');
    }
    assert(is_ascii_chars(chars));
    vstd::utf8::is_ascii_chars_encode_utf8(chars);
    assert forall|i: int| 0 <= i < chars.len() implies #[trigger] vstd::utf8::encode_utf8(chars)[i]
        == bytes[i] by {
        let b = bytes[i];
        assert((b as char) as u8 == b);
    }
    assert(vstd::utf8::encode_utf8(chars) =~= bytes);
    vstd::utf8::encode_utf8_valid_utf8(chars);
    vstd::utf8::encode_utf8_decode_utf8(chars);
}

} // verus!
