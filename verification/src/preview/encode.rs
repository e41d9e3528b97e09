//! JPEG encoding of camera frames for preview.

use vstd::prelude::*;
use vstd::slice::slice_subrange;
use vstd::string::StringExecFns;
use crate::types::CameraFrame;

verus! {

broadcast use vstd::string::to_string_from_display_ensures_for_str;

#[verifier::external_type_specification]
#[verifier::external_body]
pub struct ExImageError(image::ImageError);

/// The baseline JPEG stream the `image` crate's encoder writes for an RGB8
/// picture of `width` x `height` pixels at the given quality.
pub uninterp spec fn jpeg_rgb8(pixels: Seq<u8>, width: u32, height: u32, quality: u8) -> Seq<u8>;

/// Whether a JPEG stream can hold a picture of this size: both sides between
/// 1 and 65535 pixels.
pub open spec fn jpeg_size_ok(width: u32, height: u32) -> bool {
    1 <= width <= 65535 && 1 <= height <= 65535
}

/// `image::codecs::jpeg::JpegEncoder::new_with_quality(&mut buf, quality)`
/// followed by `encode(pixels, width, height, ExtendedColorType::Rgb8)`,
/// returning the bytes written to `buf`. The encoder asserts that `pixels`
/// holds exactly `3 * width * height` bytes (the precondition), fails with
/// `EncoderError::InvalidSize` unless both sides are in 1..=65535, and
/// otherwise writes the JPEG stream (to a `Vec`, which cannot fail). The
/// stream itself is named, not stated.
#[verifier::external_body]
fn encode_rgb8_jpeg(pixels: &[u8], width: u32, height: u32, quality: u8) -> (r: Result<
    Vec<u8>,
    image::ImageError,
>)
    requires
        pixels@.len() == 3 * width * height,
    ensures
        r is Ok <==> jpeg_size_ok(width, height),
        r matches Ok(bytes) ==> bytes@ == jpeg_rgb8(pixels@, width, height, quality),
{
    let mut buf: Vec<u8> = Vec::new();
    let mut encoder = image::codecs::jpeg::JpegEncoder::new_with_quality(&mut buf, quality);
    encoder.encode(pixels, width, height, image::ExtendedColorType::Rgb8)?;
    Ok(buf)
}

/// The `Display` text of an image error. Not stated.
#[verifier::external_body]
fn image_error_text(e: &image::ImageError) -> (s: String) {
    e.to_string()
}

/// The message of a frame whose buffer is too short for its size.
pub open spec fn short_buffer_message() -> Seq<char> {
    "Failed to create image from frame data"@
}

/// The prefix of the message of a frame the encoder refuses.
pub open spec fn encode_failed_prefix() -> Seq<char> {
    "JPEG encode failed: "@
}

/// Encode a `CameraFrame` (RGB8) to JPEG in-memory. The first
/// `3 * width * height` bytes of the frame are its pixels; a shorter buffer is
/// refused.
pub fn encode_frame_jpeg(frame: &CameraFrame, quality: u8) -> (r: Result<Vec<u8>, String>)
    ensures
        3 * frame.width * frame.height > frame.data@.len() ==> (r matches Err(m) && m@
            == short_buffer_message()),
        3 * frame.width * frame.height <= frame.data@.len() && jpeg_size_ok(
            frame.width,
            frame.height,
        ) ==> (r matches Ok(bytes) && bytes@ == jpeg_rgb8(
            frame.data@.take(3 * frame.width * frame.height),
            frame.width,
            frame.height,
            quality,
        )),
        3 * frame.width * frame.height <= frame.data@.len() && !jpeg_size_ok(
            frame.width,
            frame.height,
        ) ==> (r matches Err(m) && m@.len() >= encode_failed_prefix().len() && m@.take(
            encode_failed_prefix().len() as int,
        ) == encode_failed_prefix()),
{
    let w = frame.width as u128;
    let h = frame.height as u128;
    assert(3 * w * h <= 3 * 0xffff_ffff * 0xffff_ffff) by (nonlinear_arith)
        requires
            w <= 0xffff_ffff,
            h <= 0xffff_ffff,
    ;
    let needed: u128 = 3u128 * w * h;
    if needed > frame.data.len() as u128 {
        return Err("Failed to create image from frame data".to_string());
    }
    let n = needed as usize;
    let pixels = slice_subrange(frame.data.as_slice(), 0, n);
    assert(pixels@ == frame.data@.take(n as int));
    match encode_rgb8_jpeg(pixels, frame.width, frame.height, quality) {
        Ok(bytes) => Ok(bytes),
        Err(e) => {
            let detail = image_error_text(&e);
            let msg = "JPEG encode failed: ".to_string().concat(detail.as_str());
            assert(msg@.take("JPEG encode failed: "@.len() as int) =~= "JPEG encode failed: "@);
            Err(msg)
        },
    }
}

} // verus!
