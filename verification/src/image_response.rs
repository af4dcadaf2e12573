//! Shaping of the clipboard image handed back to the paste script: size
//! limits, PNG encoding, and the `data:` URL.

use crate::clipboard::{starts_with, MAX_PIXELS};
use crate::decimal::{decimal_chars, push_decimal};
use crate::trusted::{
    base64_encode, base64_standard_encoding, encode_rgba_png, image_error_text, png_encoding,
};
use vstd::prelude::*;

verus! {

/// A clipboard image as a self-contained PNG `data:` URL.
pub struct ClipboardImageResponse {
    /// `data:image/png;base64,...`
    pub data_url: String,
    pub mime: String,
    pub filename: String,
}

/// The `data:` URL of a PNG file.
pub open spec fn png_data_url(png: Seq<u8>) -> Seq<char> {
    "data:image/png;base64,"@ + base64_standard_encoding(png)
}

/// The response that carries a PNG file.
pub open spec fn carries_png(response: ClipboardImageResponse, png: Seq<u8>) -> bool {
    &&& response.data_url@ == png_data_url(png)
    &&& response.mime@ == "image/png"@
    &&& response.filename@ == "clipboard-image.png"@
}

/// Error text for an image above the pixel limit.
pub open spec fn too_large_message(width: nat, height: nat) -> Seq<char> {
    "CLIPBOARD_IMAGE_TOO_LARGE: "@ + decimal_chars(width) + "x"@ + decimal_chars(height) + " ("@
        + decimal_chars(width * height) + " px)"@
}

/// Error text for a pixel buffer shorter than the image.
pub open spec fn invalid_buffer_message() -> Seq<char> {
    "CLIPBOARD_IMAGE_DECODE: invalid rgba buffer"@
}

/// The beginning of the error text when the PNG encoder fails.
pub open spec fn encode_error_prefix() -> Seq<char> {
    "CLIPBOARD_IMAGE_ENCODE: "@
}

/// Wraps PNG bytes in the response handed to the paste script.
pub fn image_response_from_png(png: &[u8]) -> (response: ClipboardImageResponse)
    ensures
        carries_png(response, png@),
{
    let mut data_url = String::from_str("data:image/png;base64,");
    data_url.append(base64_encode(png).as_str());
    ClipboardImageResponse {
        data_url,
        mime: String::from_str("image/png"),
        filename: String::from_str("clipboard-image.png"),
    }
}

/// Turns the RGBA8 pixels read from the clipboard into a response: `None` for
/// an empty image, an error above `MAX_PIXELS` or for a buffer shorter than
/// four bytes per pixel, and otherwise the PNG encoding as a `data:` URL.
/// A buffer longer than the image is left out: the PNG encoder asserts the
/// exact length and panics on it, so the caller must not hand one over.
pub fn clipboard_image_response(width: usize, height: usize, rgba: Vec<u8>) -> (r: Result<
    Option<ClipboardImageResponse>,
    String,
>)
    requires
        width * height <= u64::MAX,
        width > 0 && height > 0 && width * height <= MAX_PIXELS ==> rgba@.len() <= 4 * width
            * height,
    ensures
        width == 0 || height == 0 ==> r matches Ok(None),
        width > 0 && height > 0 && width * height > MAX_PIXELS ==> r is Err && r->Err_0@
            == too_large_message(width as nat, height as nat),
        width > 0 && height > 0 && width * height <= MAX_PIXELS && rgba@.len() < 4 * width
            * height ==> r is Err && r->Err_0@ == invalid_buffer_message(),
        width > 0 && height > 0 && width * height <= MAX_PIXELS && rgba@.len() == 4 * width
            * height ==> match r {
            Ok(Some(response)) => png_encoding(width as u32, height as u32, rgba@) is Some
                && carries_png(response, png_encoding(width as u32, height as u32, rgba@)->0),
            Ok(None) => false,
            Err(e) => png_encoding(width as u32, height as u32, rgba@) is None && starts_with(
                e@,
                encode_error_prefix(),
            ),
        },
{
    if width == 0 || height == 0 {
        return Ok(None);
    }
    let pixel_count = (width as u64) * (height as u64);
    if pixel_count > MAX_PIXELS {
        let mut text = String::from_str("CLIPBOARD_IMAGE_TOO_LARGE: ");
        push_decimal(&mut text, width as u128);
        text.append("x");
        push_decimal(&mut text, height as u128);
        text.append(" (");
        push_decimal(&mut text, pixel_count as u128);
        text.append(" px)");
        assert(text@ =~= too_large_message(width as nat, height as nat));
        return Err(text);
    }
    assert(width <= MAX_PIXELS && height <= MAX_PIXELS) by (nonlinear_arith)
        requires
            width * height <= MAX_PIXELS,
            width >= 1,
            height >= 1,
    ;
    assert(4 * (pixel_count as int) == 4 * (width as int) * (height as int)) by (nonlinear_arith)
        requires
            pixel_count == width * height,
    ;
    if (rgba.len() as u64) < 4 * pixel_count {
        return Err(String::from_str("CLIPBOARD_IMAGE_DECODE: invalid rgba buffer"));
    }
    let w = width as u32;
    let h = height as u32;
    match encode_rgba_png(w, h, rgba) {
        None => Err(String::from_str("CLIPBOARD_IMAGE_DECODE: invalid rgba buffer")),
        Some(Err(error)) => {
            let mut text = String::from_str("CLIPBOARD_IMAGE_ENCODE: ");
            let ghost prefix = text@;
            text.append(image_error_text(&error).as_str());
            assert(text@.subrange(0, prefix.len() as int) =~= prefix);
            Err(text)
        },
        Some(Ok(png)) => Ok(Some(image_response_from_png(png.as_slice()))),
    }
}

} // verus!
