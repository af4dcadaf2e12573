//! The calls this library makes into std and into outside crates, each with
//! the contract that the rest of the crate relies on.

use base64::engine::general_purpose::STANDARD;
use base64::Engine;
use hmac::{Hmac, Mac};
use sha2::Sha256;
use std::io::Cursor;
use std::time::{Duration, Instant, SystemTime, SystemTimeError, UNIX_EPOCH};
use vstd::prelude::*;

verus! {

/// The standard (RFC 4648, padded) base64 encoding of `bytes`.
pub uninterp spec fn base64_standard_encoding(bytes: Seq<u8>) -> Seq<char>;

/// The characters of the standard base64 alphabet and its padding: letters,
/// digits, `+`, `/`, `=`.
pub open spec fn base64_char(c: char) -> bool {
    ||| 'A' <= c <= 'Z'
    ||| 'a' <= c <= 'z'
    ||| '0' <= c <= '9'
    ||| c == '+'
    ||| c == '/'
    ||| c == '='
}

/// The bytes that standard padded base64 decoding reads from `text`, or `None`
/// when `text` is not valid standard base64.
pub uninterp spec fn base64_standard_decoding(text: Seq<char>) -> Option<Seq<u8>>;

/// The HMAC-SHA256 tag of `message` under `key`.
pub uninterp spec fn hmac_sha256(key: Seq<u8>, message: Seq<u8>) -> Seq<u8>;

/// The PNG file that the `image` crate writes for an RGBA8 image of the given
/// size whose pixel buffer is `rgba`, or `None` when its encoder reports an
/// error for that image.
pub uninterp spec fn png_encoding(width: u32, height: u32, rgba: Seq<u8>) -> Option<Seq<u8>>;

/// The lower-case hexadecimal digit for a value below 16.
pub open spec fn lower_hex_char(v: u32) -> char {
    if v < 10 {
        (48 + v) as char
    } else {
        (97 + v - 10) as char
    }
}

/// How `serde_json` writes one character inside a string literal: quote and
/// backslash are escaped with a backslash, the control characters below 0x20
/// as `\b` `\t` `\n` `\f` `\r` or `\u00XX` (lower-case hex), and every
/// other character as itself.
pub open spec fn json_escape_char(c: char) -> Seq<char> {
    let u = c as u32;
    if c == '"' {
        seq!['\\', '"']
    } else if c == '\\' {
        seq!['\\', '\\']
    } else if u == 0x08 {
        seq!['\\', 'b']
    } else if u == 0x09 {
        seq!['\\', 't']
    } else if u == 0x0A {
        seq!['\\', 'n']
    } else if u == 0x0C {
        seq!['\\', 'f']
    } else if u == 0x0D {
        seq!['\\', 'r']
    } else if u < 0x20 {
        seq!['\\', 'u', '0', '0', lower_hex_char(u / 16), lower_hex_char(u % 16)]
    } else {
        seq![c]
    }
}

/// The escaped characters of `text`, in order.
pub open spec fn json_escaped(text: Seq<char>) -> Seq<char>
    decreases text.len(),
{
    if text.len() == 0 {
        seq![]
    } else {
        json_escaped(text.drop_last()) + json_escape_char(text.last())
    }
}

/// The JSON string literal that `serde_json` writes for `text`: a quote, the
/// escaped characters, a quote.
pub open spec fn json_string_literal(text: Seq<char>) -> Seq<char> {
    seq!['"'] + json_escaped(text) + seq!['"']
}

#[verifier::external_type_specification]
#[verifier::external_body]
pub struct ExGetrandomError(getrandom::Error);

#[verifier::external_type_specification]
#[verifier::external_body]
pub struct ExImageError(image::ImageError);

#[verifier::external_type_specification]
#[verifier::external_body]
pub struct ExSystemTime(SystemTime);

#[verifier::external_type_specification]
#[verifier::external_body]
pub struct ExSystemTimeError(SystemTimeError);

#[verifier::external_type_specification]
#[verifier::external_body]
pub struct ExInstant(Instant);

/// `base64::engine::general_purpose::STANDARD.encode`. Claims that the text is
/// the named standard encoding, that standard decoding reads the same bytes
/// back, that the text has the padded length `encoded_len` computes (four
/// ASCII characters per started group of three bytes), and that it is made of
/// the `STANDARD` alphabet and the `=` padding. `encode` panics only
/// when the encoded length overflows `usize`, which a slice (at most
/// `isize::MAX` bytes) cannot reach.
#[verifier::external_body]
pub fn base64_encode(bytes: &[u8]) -> (text: String)
    ensures
        text@ == base64_standard_encoding(bytes@),
        base64_standard_decoding(text@) == Some(bytes@),
        text@.len() == 4 * ((bytes@.len() + 2) / 3),
        forall|i: int| 0 <= i < text@.len() ==> base64_char(#[trigger] text@[i]),
{
    STANDARD.encode(bytes)
}

/// `base64::engine::general_purpose::STANDARD.decode` on the UTF-8 bytes of
/// `text`. Claims `Some` exactly when decoding succeeds, holding the named bytes.
#[verifier::external_body]
pub fn base64_decode(text: &str) -> (bytes: Option<Vec<u8>>)
    ensures
        match bytes {
            Some(b) => base64_standard_decoding(text@) == Some(b@),
            None => base64_standard_decoding(text@) is None,
        },
{
    STANDARD.decode(text).ok()
}

/// `Hmac::<Sha256>::new_from_slice(key)`, one `update(message)`, `finalize()`.
/// Claims the 32-byte tag is the named HMAC-SHA256. `new_from_slice` accepts
/// keys of every length for this MAC, so its error arm is never taken.
#[verifier::external_body]
pub fn hmac_sha256_tag(key: &[u8], message: &[u8]) -> (tag: [u8; 32])
    ensures
        tag@ == hmac_sha256(key@, message@),
{
    let mut mac = match Hmac::<Sha256>::new_from_slice(key) {
        Ok(mac) => mac,
        Err(_) => return [0u8; 32],
    };
    mac.update(message);
    let mut tag = [0u8; 32];
    tag.copy_from_slice(&mac.finalize().into_bytes());
    tag
}

/// `getrandom::fill` on a fresh 32-byte buffer. Nothing is claimed of the bytes.
#[verifier::external_body]
pub fn random_key() -> (r: Result<[u8; 32], getrandom::Error>) {
    let mut key = [0u8; 32];
    getrandom::fill(&mut key)?;
    Ok(key)
}

/// The `Display` text of a `getrandom::Error`; nothing is claimed of it.
#[verifier::external_body]
pub fn random_error_text(error: &getrandom::Error) -> String {
    format!("{error}")
}

/// `image::RgbaImage::from_raw(width, height, rgba)`, then
/// `DynamicImage::ImageRgba8(..).write_to(.., ImageFormat::Png)` into a
/// `Vec`. Required: a non-empty image whose buffer holds exactly
/// `4 * width * height` bytes; the PNG encoder asserts that length (a longer
/// buffer, which `from_raw` accepts, panics there). Under that requirement
/// `from_raw` accepts the buffer, so the result is `Some`; claims that the
/// written bytes are the named PNG encoding, and that the encoder reports an
/// error exactly when the name has no encoding for the image.
#[verifier::external_body]
pub fn encode_rgba_png(width: u32, height: u32, rgba: Vec<u8>) -> (r: Option<Result<Vec<u8>, image::ImageError>>)
    requires
        width > 0,
        height > 0,
        rgba@.len() == 4 * (width as int) * (height as int),
    ensures
        r is Some,
        r matches Some(Ok(png)) ==> png_encoding(width, height, rgba@) == Some(png@),
        r matches Some(Err(_)) ==> png_encoding(width, height, rgba@) is None,
{
    let image = image::RgbaImage::from_raw(width, height, rgba)?;
    let mut cursor = Cursor::new(Vec::new());
    match image::DynamicImage::ImageRgba8(image).write_to(&mut cursor, image::ImageFormat::Png) {
        Ok(()) => Some(Ok(cursor.into_inner())),
        Err(error) => Some(Err(error)),
    }
}

/// The `Display` text of an `image::ImageError`; nothing is claimed of it.
#[verifier::external_body]
pub fn image_error_text(error: &image::ImageError) -> String {
    format!("{error}")
}

/// `serde_json::to_string` on a string. Claims the result is the JSON string
/// literal spelled out by `json_string_literal` (its `format_escaped_str` and
/// `ESCAPE` table); serialising a `str` into a `Vec` writer cannot fail in
/// `serde_json`'s source, so the error arm is never taken.
#[verifier::external_body]
pub fn json_string(text: &str) -> (literal: String)
    ensures
        literal@ == json_string_literal(text@),
{
    match serde_json::to_string(text) {
        Ok(literal) => literal,
        Err(_) => String::new(),
    }
}

/// `SystemTime::now()`; nothing is claimed.
#[verifier::external_body]
pub fn system_time_now() -> SystemTime {
    SystemTime::now()
}

/// `SystemTime::duration_since(UNIX_EPOCH)`; nothing is claimed.
#[verifier::external_body]
pub fn since_unix_epoch(time: &SystemTime) -> Result<Duration, SystemTimeError> {
    time.duration_since(UNIX_EPOCH)
}

/// `Duration::as_millis`; nothing is claimed.
#[verifier::external_body]
pub fn duration_millis(duration: &Duration) -> u128 {
    duration.as_millis()
}

/// `Duration::as_secs`; nothing is claimed.
#[verifier::external_body]
pub fn duration_secs(duration: &Duration) -> u64 {
    duration.as_secs()
}

/// `Duration::as_nanos`; nothing is claimed.
#[verifier::external_body]
pub fn duration_nanos(duration: &Duration) -> u128 {
    duration.as_nanos()
}

/// `Instant::now()`; nothing is claimed.
#[verifier::external_body]
pub fn instant_now() -> Instant {
    Instant::now()
}

/// `Instant::elapsed`; nothing is claimed.
#[verifier::external_body]
pub fn instant_elapsed(start: &Instant) -> Duration {
    start.elapsed()
}

} // verus!
