//! The image stage of a request: decode fetched bytes in the selected
//! format, scale the image to fit within 100 x 100, and hash the RGBA
//! pixels into a placeholder hash. Decoding, scaling and hashing are done by
//! the `image` and `thumbhash` crates behind trusted wrappers; the dispatch,
//! the validation of the pixel buffer, and the error mapping are verified.
use vstd::prelude::*;
use crate::formats::ImageFormat;

verus! {

#[verifier::external_type_specification]
#[verifier::external_body]
pub struct ExImageError(image::ImageError);

/// What decoding `bytes` in format `fmt` and scaling the result to fit
/// within `max_w` x `max_h` yields: the thumbnail's width, height and RGBA
/// bytes, or `None` where the bytes do not decode. The decoders are integer
/// algorithms and the scaling uses exactly-specified float operations, so
/// the result is a function of these arguments alone. The placeholder hash
/// of the pixels gets no such name: its bytes go through `f32` trigonometry
/// whose exact values may differ between platforms.
pub uninterp spec fn thumb_rgba_of(bytes: Seq<u8>, fmt: ImageFormat, max_w: nat, max_h: nat) -> Option<(nat, nat, Seq<u8>)>;

/// Why the service could not turn fetched bytes into a placeholder hash.
#[derive(Clone, Copy, PartialEq, Eq, Structural, Debug)]
pub enum HashError {
    /// The bytes were not a readable image in the declared format.
    Decode,
    /// The decoded thumbnail did not fit the hashable bounds.
    Dimensions,
}

/// Whether a width, a height and an RGBA buffer length fit what the hash
/// accepts: dimensions of at most 100 and four bytes for every pixel.
pub open spec fn hashable(w: nat, h: nat, len: nat) -> bool {
    w <= 100 && h <= 100 && len == 4 * w * h
}

/// Relies on `image::load_from_memory_with_format`, `DynamicImage::thumbnail`
/// and the RGBA buffer's accessors: decodes an in-memory buffer as the given
/// format, scales it to fit within the bounds preserving aspect ratio (each
/// result dimension clamped to at least 1 — hence the lower bounds required
/// here — and to at most its bound), and hands out the pixels row by row,
/// four bytes each. Decode errors are returned, never panicked.
#[verifier::external_body]
fn decode_thumb_rgba(bytes: &[u8], fmt: ImageFormat, max_w: u32, max_h: u32) -> (r: Result<
    (u32, u32, Vec<u8>),
    image::ImageError,
>)
    requires
        1 <= max_w,
        1 <= max_h,
    ensures
        match r {
            Ok((w, h, p)) => thumb_rgba_of(bytes@, fmt, max_w as nat, max_h as nat) == Some(
                (w as nat, h as nat, p@),
            ) && w <= max_w && h <= max_h && p@.len() == 4 * w * h,
            Err(_) => thumb_rgba_of(bytes@, fmt, max_w as nat, max_h as nat) is None,
        },
{
    let f = match fmt {
        ImageFormat::Png => image::ImageFormat::Png,
        ImageFormat::Jpeg => image::ImageFormat::Jpeg,
        ImageFormat::Gif => image::ImageFormat::Gif,
        ImageFormat::WebP => image::ImageFormat::WebP,
    };
    let img = image::load_from_memory_with_format(bytes, f)?;
    let buf = img.thumbnail(max_w, max_h).to_rgba8();
    Ok((buf.width(), buf.height(), buf.into_raw()))
}

/// Relies on `thumbhash::rgba_to_thumb_hash`: a placeholder hash of an RGBA
/// image. The preconditions it asserts (dimensions of at most 100, a full
/// pixel buffer) are required here, so the call cannot panic. Only the
/// hash's length is stated — five header bytes, one alpha byte for an image
/// with transparency, and two four-bit coefficients to a byte (at most 37
/// coefficients without an alpha byte, at most 38 with one), so five to
/// twenty-five bytes; the bytes themselves depend on platform float
/// behaviour and are left unspecified.
#[verifier::external_body]
fn thumb_hash_exec(w: usize, h: usize, rgba: &[u8]) -> (r: Vec<u8>)
    requires
        w <= 100,
        h <= 100,
        rgba@.len() == 4 * w * h,
    ensures
        5 <= r@.len() <= 25,
{
    thumbhash::rgba_to_thumb_hash(w, h, rgba)
}

/// The placeholder hash of one decoded RGBA thumbnail. Exactly the buffers
/// within the hashable bounds are hashed; anything else is rejected.
pub fn hash_rgba(w: u32, h: u32, rgba: &Vec<u8>) -> (r: Result<Vec<u8>, HashError>)
    ensures
        match r {
            Ok(hash) => hashable(w as nat, h as nat, rgba@.len()) && 5 <= hash@.len() <= 25,
            Err(e) => e == HashError::Dimensions && !hashable(w as nat, h as nat, rgba@.len()),
        },
{
    if w > 100 || h > 100 {
        return Err(HashError::Dimensions);
    }
    proof {
        assert(4 * (w as int) * (h as int) <= 40000) by (nonlinear_arith)
            requires
                w <= 100,
                h <= 100,
        ;
    }
    let expected: usize = 4 * (w as usize) * (h as usize);
    if rgba.len() != expected {
        return Err(HashError::Dimensions);
    }
    Ok(thumb_hash_exec(w as usize, h as usize, rgba.as_slice()))
}

/// The full image stage: decode the fetched bytes in the selected format,
/// scale to fit within 100 x 100, and hash the pixels. It succeeds exactly
/// where the bytes decode and the thumbnail exists, and every hash handed
/// out is five to twenty-five bytes.
pub fn hash_image(bytes: &Vec<u8>, fmt: ImageFormat) -> (r: Result<Vec<u8>, HashError>)
    ensures
        match r {
            Ok(hash) => thumb_rgba_of(bytes@, fmt, 100, 100) is Some && 5 <= hash@.len() <= 25,
            Err(e) => e == HashError::Decode && thumb_rgba_of(bytes@, fmt, 100, 100) is None,
        },
{
    let (w, h, pixels) = match decode_thumb_rgba(bytes.as_slice(), fmt, 100, 100) {
        Ok(t) => t,
        Err(_) => {
            return Err(HashError::Decode);
        },
    };
    Ok(thumb_hash_exec(w as usize, h as usize, pixels.as_slice()))
}

} // verus!

