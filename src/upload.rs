//! Geometry of a texture upload: the image is tightly packed rows of
//! four-byte pixels.

use vstd::prelude::*;

verus! {

/// Bytes per pixel of the texture format.
pub const BYTES_PER_PIXEL: u32 = 4;

/// Row pitch and layer pitch that the buffer-to-texture copy is given, both
/// four times the image's extent in that direction.
#[derive(Clone, Copy, Debug, PartialEq, Eq, Structural)]
pub struct UploadLayout {
    pub bytes_per_row: u32,
    pub rows_per_image: u32,
}

/// An image of `image_len` bytes can be uploaded as a `width` by `height`
/// texture: its length is exactly that many pixels, and the copy's pitches fit
/// in 32 bits.
pub open spec fn upload_ok(image_len: int, width: int, height: int) -> bool {
    &&& image_len == width * height * BYTES_PER_PIXEL
    &&& width * BYTES_PER_PIXEL <= u32::MAX
    &&& height * BYTES_PER_PIXEL <= u32::MAX
}

/// The copy layout for uploading an image of `image_len` bytes as a `width` by
/// `height` texture, or `None` when the length does not match the size.
pub fn upload_layout(image_len: usize, width: u32, height: u32) -> (r: Option<UploadLayout>)
    ensures
        r is Some == upload_ok(image_len as int, width as int, height as int),
        r is Some ==> r->Some_0.bytes_per_row == width * BYTES_PER_PIXEL,
        r is Some ==> r->Some_0.rows_per_image == height * BYTES_PER_PIXEL,
{
    if width > u32::MAX / BYTES_PER_PIXEL || height > u32::MAX / BYTES_PER_PIXEL {
        return None;
    }
    let bytes_per_row = width * BYTES_PER_PIXEL;
    let rows_per_image = height * BYTES_PER_PIXEL;
    assert((bytes_per_row as int) * (height as int) <= (u32::MAX as int) * (u32::MAX as int))
        by (nonlinear_arith)
        requires
            bytes_per_row <= u32::MAX,
            height <= u32::MAX,
    ;
    let size = bytes_per_row as u64 * height as u64;
    assert(size == width * height * BYTES_PER_PIXEL) by (nonlinear_arith)
        requires
            size == bytes_per_row * height,
            bytes_per_row == width * 4,
    ;
    if image_len as u64 != size {
        return None;
    }
    Some(UploadLayout { bytes_per_row, rows_per_image })
}

} // verus!
