//! Downscaling of preview frames with the `image` crate's triangle filter.

use vstd::prelude::*;
use vstd::slice::slice_subrange;
use crate::preview::encode::short_buffer_message;
use crate::types::{CameraFrame, is_hyphenated_uuid, rgb8_name};

verus! {

broadcast use vstd::string::to_string_from_display_ensures_for_str;

/// The RGB8 pixels the `image` crate's triangle (bilinear) filter gives for
/// a `width` x `height` RGB8 picture resized to `new_width` x `new_height`.
pub uninterp spec fn resized_rgb8(
    pixels: Seq<u8>,
    width: u32,
    height: u32,
    new_width: u32,
    new_height: u32,
) -> Seq<u8>;

/// `image::RgbImage::from_vec(width, height, pixels)`, which holds the
/// picture because `pixels` has exactly its length, then
/// `image::imageops::resize(.., new_width, new_height, FilterType::Triangle)`
/// and `into_raw`. The result is a new buffer of `new_width` x `new_height`
/// RGB8 pixels (allocating it panics when its length overflows `usize`,
/// which the precondition rules out); its contents are named, not stated.
#[verifier::external_body]
fn resize_rgb8_triangle(
    pixels: &[u8],
    width: u32,
    height: u32,
    new_width: u32,
    new_height: u32,
) -> (r: Vec<u8>)
    requires
        pixels@.len() == 3 * width * height,
        3 * new_width * new_height <= usize::MAX,
    ensures
        r@ == resized_rgb8(pixels@, width, height, new_width, new_height),
        r@.len() == 3 * new_width * new_height,
{
    let img = image::RgbImage::from_vec(width, height, pixels.to_vec())
        .expect("the buffer holds the picture");
    image::imageops::resize(&img, new_width, new_height, image::imageops::FilterType::Triangle)
        .into_raw()
}

/// Resize a `CameraFrame` (RGB8) for preview with bilinear filtering: a new
/// frame of the given size from the same device, holding the resized first
/// `3 * width * height` bytes of the frame. A shorter buffer is refused.
pub fn resize_frame(frame: &CameraFrame, new_width: u32, new_height: u32) -> (r: Result<
    CameraFrame,
    String,
>)
    requires
        3 * new_width * new_height <= usize::MAX,
    ensures
        3 * frame.width * frame.height > frame.data@.len() ==> (r matches Err(m) && m@
            == short_buffer_message()),
        3 * frame.width * frame.height <= frame.data@.len() ==> (r matches Ok(f) && {
            &&& f.width == new_width
            &&& f.height == new_height
            &&& f.data@ == resized_rgb8(
                frame.data@.take(3 * frame.width * frame.height),
                frame.width,
                frame.height,
                new_width,
                new_height,
            )
            &&& f.data@.len() == 3 * new_width * new_height
            &&& f.size_bytes == f.data@.len()
            &&& f.device_id@ == frame.device_id@
            &&& f.format@ == rgb8_name()
            &&& is_hyphenated_uuid(f.id@)
        }),
{
    let w = frame.width as u128;
    let h = frame.height as u128;
    assert(3 * w * h <= 3 * 0xffff_ffff * 0xffff_ffff) by (nonlinear_arith)
        requires
            w <= 0xffff_ffff,
            h <= 0xffff_ffff,
    ;
    let needed: u128 = 3u128 * w * h;
    if needed > frame.data.len() as u128 {
        return Err("Failed to create image from frame data".to_string());
    }
    let n = needed as usize;
    let pixels = slice_subrange(frame.data.as_slice(), 0, n);
    assert(pixels@ == frame.data@.take(n as int));
    let data = resize_rgb8_triangle(pixels, frame.width, frame.height, new_width, new_height);
    Ok(CameraFrame::new(data, new_width, new_height, frame.device_id.clone()))
}

} // verus!
