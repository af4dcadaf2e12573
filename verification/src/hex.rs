//! Hexadecimal request nonces.

use vstd::prelude::*;
use vstd::string::StringSliceAdditionalSpecFns;

verus! {

/// Raw bytes in a request nonce.
pub const NONCE_BYTES: usize = 16;

/// Length of a request nonce in hexadecimal digits.
pub const NONCE_HEX_LEN: usize = 32;

/// The value of one ASCII hexadecimal digit (either case), if it is one.
pub open spec fn hex_digit_value(b: u8) -> Option<u8> {
    if 48 <= b <= 57 {
        Some((b - 48) as u8)
    } else if 97 <= b <= 102 {
        Some((b - 97 + 10) as u8)
    } else if 65 <= b <= 70 {
        Some((b - 65 + 10) as u8)
    } else {
        None
    }
}

/// Whether every byte of `text` is an ASCII hexadecimal digit.
pub open spec fn all_hex_digits(text: Seq<u8>) -> bool {
    forall|i: int| 0 <= i < text.len() ==> (#[trigger] hex_digit_value(text[i])) is Some
}

/// The byte spelled by the two digits at `2 * i` and `2 * i + 1`.
pub open spec fn hex_pair_value(text: Seq<u8>, i: int) -> u8 {
    (hex_digit_value(text[2 * i])->0 * 16 + hex_digit_value(text[2 * i + 1])->0) as u8
}

/// The nonce spelled by `text`: exactly 32 hexadecimal digits, read in pairs,
/// high digit first.
pub open spec fn nonce_of_text(text: Seq<u8>) -> Option<Seq<u8>> {
    if text.len() == NONCE_HEX_LEN && all_hex_digits(text) {
        Some(Seq::new(NONCE_BYTES as nat, |i: int| hex_pair_value(text, i)))
    } else {
        None
    }
}

/// The lower-case ASCII hexadecimal digit for a value below 16.
pub open spec fn lower_hex_digit(v: int) -> u8 {
    if v < 10 {
        (48 + v) as u8
    } else {
        (97 + v - 10) as u8
    }
}

/// Lower-case hexadecimal spelling of `bytes`, two digits per byte, high
/// digit first (what a browser builds with `toString(16)` and zero padding).
pub open spec fn lower_hex(bytes: Seq<u8>) -> Seq<u8> {
    Seq::new(
        2 * bytes.len(),
        |i: int|
            if i % 2 == 0 {
                lower_hex_digit(bytes[i / 2] as int / 16)
            } else {
                lower_hex_digit(bytes[i / 2] as int % 16)
            },
    )
}

/// Returns the value of an ASCII hexadecimal digit, or `None` for any other byte.
pub fn hex_value(value: u8) -> (r: Option<u8>)
    ensures
        r == hex_digit_value(value),
        r matches Some(v) ==> v < 16,
{
    if 48 <= value && value <= 57 {
        Some(value - 48)
    } else if 97 <= value && value <= 102 {
        Some(value - 97 + 10)
    } else if 65 <= value && value <= 70 {
        Some(value - 65 + 10)
    } else {
        None
    }
}

/// The error text for a nonce that is not 32 hexadecimal digits.
pub open spec fn malformed_nonce_message() -> Seq<char> {
    "CLIPBOARD_NONCE_INVALID: malformed nonce"@
}

fn malformed_nonce() -> (s: String)
    ensures
        s@ == malformed_nonce_message(),
{
    String::from_str("CLIPBOARD_NONCE_INVALID: malformed nonce")
}

/// Decodes a request nonce from its 32-digit hexadecimal spelling.
pub fn decode_nonce(value: &str) -> (r: Result<[u8; NONCE_BYTES], String>)
    ensures
        nonce_of_text(value.spec_bytes()) is None <==> r is Err,
        r matches Ok(n) ==> Some(n@) == nonce_of_text(value.spec_bytes()),
        r matches Err(e) ==> e@ == malformed_nonce_message(),
{
    let bytes = value.as_bytes();
    let ghost text = value.spec_bytes();
    if bytes.len() != NONCE_HEX_LEN {
        return Err(malformed_nonce());
    }
    let mut nonce = [0u8; NONCE_BYTES];
    let mut index: usize = 0;
    while index < NONCE_BYTES
        invariant
            bytes@ == text,
            text == value.spec_bytes(),
            text.len() == NONCE_HEX_LEN,
            0 <= index <= NONCE_BYTES,
            nonce@.len() == NONCE_BYTES,
            forall|k: int| 0 <= k < 2 * index ==> (#[trigger] hex_digit_value(text[k])) is Some,
            forall|k: int| 0 <= k < index ==> nonce@[k] == hex_pair_value(text, k),
        decreases NONCE_BYTES - index,
    {
        let high = match hex_value(bytes[index * 2]) {
            Some(v) => v,
            None => {
                assert(hex_digit_value(text[2 * index as int]) is None);
                assert(!all_hex_digits(text));
                return Err(malformed_nonce());
            },
        };
        let low = match hex_value(bytes[index * 2 + 1]) {
            Some(v) => v,
            None => {
                assert(hex_digit_value(text[2 * index + 1]) is None);
                assert(!all_hex_digits(text));
                return Err(malformed_nonce());
            },
        };
        assert((high << 4u8) | low == high * 16 + low) by (bit_vector)
            requires
                high < 16,
                low < 16,
        ;
        nonce[index] = (high << 4) | low;
        index = index + 1;
    }
    assert(all_hex_digits(text));
    assert(nonce@ =~= Seq::new(NONCE_BYTES as nat, |i: int| hex_pair_value(text, i)));
    Ok(nonce)
}

/// Decoding the lower-case hexadecimal spelling of any 16 bytes gives back
/// exactly those bytes.
pub proof fn lemma_nonce_hex_round_trip(bytes: Seq<u8>)
    requires
        bytes.len() == NONCE_BYTES,
    ensures
        nonce_of_text(lower_hex(bytes)) == Some(bytes),
{
    let text = lower_hex(bytes);
    assert forall|i: int| 0 <= i < text.len() implies (#[trigger] hex_digit_value(text[i])) is Some by {
        let b = bytes[i / 2];
        assert(b / 16 < 16 && b % 16 < 16);
    }
    assert forall|i: int| 0 <= i < NONCE_BYTES implies #[trigger] hex_pair_value(text, i) == bytes[i] by {
        let b = bytes[i];
        assert((2 * i) / 2 == i && (2 * i + 1) / 2 == i);
        assert((2 * i) % 2 == 0 && (2 * i + 1) % 2 == 1);
        assert(b == (b / 16) * 16 + b % 16);
    }
    assert(Seq::new(NONCE_BYTES as nat, |i: int| hex_pair_value(text, i)) =~= bytes);
}

} // verus!
