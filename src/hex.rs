//! Lower-case hexadecimal text of byte strings.
use vstd::prelude::*;
use vstd::utf8::{encode_utf8, encode_utf8_decode_utf8, encode_utf8_valid_utf8, is_ascii_chars, is_ascii_chars_encode_utf8};

use crate::cipher::string_from_utf8;

verus! {

/// The ASCII code of the lower-case hex digit for `v` (below 16).
pub open spec fn hex_digit(v: int) -> u8 {
    if v < 10 {
        (48 + v) as u8
    } else {
        (87 + v) as u8
    }
}

/// Two ASCII hex digits per byte, high nibble first.
pub open spec fn hex_ascii(bytes: Seq<u8>) -> Seq<u8> {
    Seq::new(
        2 * bytes.len(),
        |i: int|
            if i % 2 == 0 {
                hex_digit(bytes[i / 2] as int / 16)
            } else {
                hex_digit(bytes[i / 2] as int % 16)
            },
    )
}

/// The lower-case hex text of `bytes`.
pub open spec fn hex_text(bytes: Seq<u8>) -> Seq<char> {
    hex_ascii(bytes).map_values(|b: u8| b as char)
}

fn digit(v: u8) -> (r: u8)
    requires
        v < 16,
    ensures
        r == hex_digit(v as int),
{
    if v < 10 {
        48 + v
    } else {
        87 + v
    }
}

/// Formats `bytes` as lower-case hexadecimal, two digits per byte.
pub fn lower_hex(bytes: &[u8]) -> (r: String)
    ensures
        r@ == hex_text(bytes@),
{
    let mut out: Vec<u8> = Vec::new();
    let mut i: usize = 0;
    while i < bytes.len()
        invariant
            i <= bytes@.len(),
            out@.len() == 2 * i,
            forall|j: int|
                0 <= j < i ==> out@[2 * j] == hex_digit(bytes@[j] as int / 16) && out@[2 * j + 1]
                    == hex_digit(bytes@[j] as int % 16),
        decreases bytes@.len() - i,
    {
        let b = bytes[i];
        out.push(digit(b / 16));
        out.push(digit(b % 16));
        i = i + 1;
    }
    let ghost chars = hex_text(bytes@);
    proof {
        assert forall|k: int| 0 <= k < out@.len() implies out@[k] == hex_ascii(bytes@)[k] by {
            let j = k / 2;
            assert(k == 2 * j || k == 2 * j + 1);
        }
        assert(out@ =~= hex_ascii(bytes@));
        assert forall|k: int| 0 <= k < chars.len() implies '\0' <= #[trigger] chars[k] <= '\u{7f}' by {
            assert(hex_ascii(bytes@)[k] < 128);
        }
        assert(is_ascii_chars(chars));
        is_ascii_chars_encode_utf8(chars);
        assert(encode_utf8(chars) =~= out@);
        encode_utf8_valid_utf8(chars);
        encode_utf8_decode_utf8(chars);
    }
    match string_from_utf8(out) {
        Some(s) => s,
        None => {
            assert(false);
            String::new()
        },
    }
}

} // verus!
