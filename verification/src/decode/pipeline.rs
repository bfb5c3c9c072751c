//! Turning a page's compressed image bytes into RGBA pixels: size checks
//! before anything is allocated, cancellation between stages, shrinking to
//! the requested size and to what a texture can hold, and rotation.
use std::io::Cursor;
use vstd::prelude::*;

use crate::decode::{CancellationToken, DecodeError, Rotation};

verus! {

/// Pages with more source pixels than this are refused before decoding.
pub const MAX_DECODED_PIXELS: u64 = 100_000_000;

/// The longest source side the decoder accepts.
pub const MAX_SOURCE_DIMENSION: u32 = 65_536;

/// The most scratch memory one decode may allocate.
pub const MAX_DECODE_ALLOC_BYTES: u64 = 268_435_456;

/// The longest side handed to the GPU; larger pages are shrunk first.
pub const MAX_TEXTURE_DIMENSION: u32 = 8192;

/// The size the image crate reads from the header of `bytes`, when it
/// recognises the format and the header fits the limits.
pub uninterp spec fn probed_size(bytes: Seq<u8>, max_side: u32, max_alloc: u64) -> Option<(u32, u32)>;

/// The header size of `bytes` under the decoder's limits.
pub open spec fn source_size(bytes: Seq<u8>) -> Option<(u32, u32)> {
    probed_size(bytes, MAX_SOURCE_DIMENSION, MAX_DECODE_ALLOC_BYTES)
}

/// The header width of `bytes` (0 when unreadable).
pub open spec fn source_width(bytes: Seq<u8>) -> u32 {
    match source_size(bytes) {
        Some(size) => size.0,
        None => 0,
    }
}

/// The header height of `bytes` (0 when unreadable).
pub open spec fn source_height(bytes: Seq<u8>) -> u32 {
    match source_size(bytes) {
        Some(size) => size.1,
        None => 0,
    }
}

/// A decoded picture: its RGBA bytes, four per pixel, row by row, and its
/// size. The decoding functions of the library make one always with four
/// bytes for each pixel of its size.
pub struct Picture {
    pub rgba: Vec<u8>,
    pub width: u32,
    pub height: u32,
}

impl Picture {
    /// Four bytes for each pixel.
    pub open spec fn wf(&self) -> bool {
        self.rgba@.len() == 4 * (self.width as int) * (self.height as int)
    }
}

/// Decoded RGBA pixels, four bytes per pixel, row by row.
#[derive(Debug, Clone, PartialEq, Eq)]
pub struct DecodedPage {
    pub width: u32,
    pub height: u32,
    pub rgba: Vec<u8>,
}

/// `ImageReader::with_guessed_format` and `into_dimensions` under the given
/// limits: the size recorded in the header, without decoding the pixels.
#[verifier::external_body]
fn probe_size(bytes: &[u8], max_side: u32, max_alloc: u64) -> (r: Result<(u32, u32), String>)
    ensures
        match r {
            Ok(size) => probed_size(bytes@, max_side, max_alloc) == Some(size),
            Err(_) => probed_size(bytes@, max_side, max_alloc) is None,
        },
{
    let mut reader = image::ImageReader::new(Cursor::new(bytes)).with_guessed_format().map_err(|e| e.to_string())?;
    let mut limits = image::Limits::default();
    limits.max_image_width = Some(max_side);
    limits.max_image_height = Some(max_side);
    limits.max_alloc = Some(max_alloc);
    reader.limits(limits);
    reader.into_dimensions().map_err(|e| e.to_string())
}

/// The pixels the image crate decodes from `bytes` under the given limits,
/// as RGBA bytes (`DynamicImage::into_rgba8`), or `None` when it cannot
/// decode them. Decoding depends on the bytes and the limits alone.
pub uninterp spec fn decoded_rgba(bytes: Seq<u8>, max_side: u32, max_alloc: u64) -> Option<Seq<u8>>;

/// The pixels of `bytes` as the decoder reads them under its limits.
pub open spec fn source_rgba(bytes: Seq<u8>) -> Option<Seq<u8>> {
    decoded_rgba(bytes, MAX_SOURCE_DIMENSION, MAX_DECODE_ALLOC_BYTES)
}

/// The RGBA pixels of a `width` by `height` page turned clockwise by
/// `rotation`: the pixel at column `a`, row `b` of the turned page is the
/// source pixel that turning moves there.
pub open spec fn turned_rgba(src: Seq<u8>, width: int, height: int, rotation: Rotation) -> Seq<u8> {
    let out_width = if rotation == Rotation::Cw90 || rotation == Rotation::Cw270 {
        height
    } else {
        width
    };
    if rotation == Rotation::Upright {
        src
    } else {
        Seq::new(
        src.len(),
        |i: int|
            {
                let a = (i / 4) % out_width;
                let b = (i / 4) / out_width;
                let (x, y) = match rotation {
                    Rotation::Upright => (a, b),
                    Rotation::Cw90 => (b, height - 1 - a),
                    Rotation::Cw180 => (width - 1 - a, height - 1 - b),
                    Rotation::Cw270 => (width - 1 - b, a),
                };
                src[4 * (y * width + x) + i % 4]
            },
        )
    }
}

/// `ImageReader::decode` under the given limits, as RGBA bytes. The image is
/// built from the same decoder `into_dimensions` reads, so it has the
/// header's size; it succeeds exactly when the bytes decode under the
/// limits.
#[verifier::external_body]
pub(crate) fn decode_picture(bytes: &[u8], max_side: u32, max_alloc: u64) -> (r: Result<Picture, String>)
    ensures
        r is Ok <==> decoded_rgba(bytes@, max_side, max_alloc) is Some,
        r matches Ok(p) ==> {
            &&& probed_size(bytes@, max_side, max_alloc) == Some((p.width, p.height))
            &&& decoded_rgba(bytes@, max_side, max_alloc) == Some(p.rgba@)
            &&& p.wf()
        },
{
    let mut reader = image::ImageReader::new(Cursor::new(bytes)).with_guessed_format().map_err(|e| e.to_string())?;
    let mut limits = image::Limits::default();
    limits.max_image_width = Some(max_side);
    limits.max_image_height = Some(max_side);
    limits.max_alloc = Some(max_alloc);
    reader.limits(limits);
    let image = reader.decode().map_err(|e| e.to_string())?;
    let (width, height) = (image.width(), image.height());
    Ok(Picture { rgba: image.into_rgba8().into_raw(), width, height })
}

/// The size `DynamicImage::resize` gives a `width` by `height` image asked
/// to fit `bound_width` by `bound_height`: both sides scaled by the smaller
/// of the two ratios and rounded, each at least one pixel.
pub uninterp spec fn resized_size(width: u32, height: u32, bound_width: u32, bound_height: u32) -> (u32, u32);

/// The RGBA bytes of a `width` by `height` RGBA image after
/// `DynamicImage::resize` with Lanczos filtering to fit `bound_width` by
/// `bound_height`.
pub uninterp spec fn resized_rgba(rgba: Seq<u8>, width: u32, height: u32, bound_width: u32, bound_height: u32) -> Seq<
    u8,
>;

/// `DynamicImage::resize` with Lanczos filtering, on the RGBA image: the
/// largest size with the same proportions that fits within `width` by
/// `height`, each side at least one pixel; a picture larger than the bounds
/// only shrinks. Both sides are scaled by one ratio and rounded (or raised
/// to one pixel), so the proportions are kept to within a pixel on each
/// side.
#[verifier::external_body]
pub(crate) fn resize_picture(p: Picture, width: u32, height: u32) -> (r: Picture)
    requires
        width > 0,
        height > 0,
        p.wf(),
    ensures
        r.wf(),
        (r.width, r.height) == resized_size(p.width, p.height, width, height),
        r.rgba@ == resized_rgba(p.rgba@, p.width, p.height, width, height),
        r.width <= width,
        r.height <= height,
        p.width > 0 && p.height > 0 ==> -(p.width + p.height) <= r.width * p.height - r.height * p.width
            <= p.width + p.height,
        p.width > width || p.height > height ==> r.width <= (if p.width > 0 {
            p.width
        } else {
            1
        }) && r.height <= (if p.height > 0 {
            p.height
        } else {
            1
        }),
{
    let buffer = image::RgbaImage::from_raw(p.width, p.height, p.rgba).expect("four bytes per pixel");
    let image = image::DynamicImage::ImageRgba8(buffer).resize(width, height, image::imageops::FilterType::Lanczos3);
    let (width, height) = (image.width(), image.height());
    Picture { rgba: image.into_rgba8().into_raw(), width, height }
}

/// `imageops::rotate90`: a quarter turn clockwise, which swaps the sides and
/// moves the source pixel at column `x`, row `y` to column `height - 1 - y`,
/// row `x`.
#[verifier::external_body]
fn rotate90_picture(p: Picture) -> (r: Picture)
    requires
        p.wf(),
    ensures
        r.wf(),
        r.width == p.height,
        r.height == p.width,
        r.rgba@ == turned_rgba(p.rgba@, p.width as int, p.height as int, Rotation::Cw90),
{
    let buffer = image::RgbaImage::from_raw(p.width, p.height, p.rgba).expect("four bytes per pixel");
    let turned = image::imageops::rotate90(&buffer);
    Picture { width: turned.width(), height: turned.height(), rgba: turned.into_raw() }
}

/// `imageops::rotate180`: a half turn, which keeps the sides and moves the
/// pixel at column `x`, row `y` to column `width - 1 - x`, row
/// `height - 1 - y`.
#[verifier::external_body]
fn rotate180_picture(p: Picture) -> (r: Picture)
    requires
        p.wf(),
    ensures
        r.wf(),
        r.width == p.width,
        r.height == p.height,
        r.rgba@ == turned_rgba(p.rgba@, p.width as int, p.height as int, Rotation::Cw180),
{
    let buffer = image::RgbaImage::from_raw(p.width, p.height, p.rgba).expect("four bytes per pixel");
    let turned = image::imageops::rotate180(&buffer);
    Picture { width: turned.width(), height: turned.height(), rgba: turned.into_raw() }
}

/// `imageops::rotate270`: three quarter turns clockwise, which swaps the
/// sides and moves the pixel at column `x`, row `y` to column `y`, row
/// `width - 1 - x`.
#[verifier::external_body]
fn rotate270_picture(p: Picture) -> (r: Picture)
    requires
        p.wf(),
    ensures
        r.wf(),
        r.width == p.height,
        r.height == p.width,
        r.rgba@ == turned_rgba(p.rgba@, p.width as int, p.height as int, Rotation::Cw270),
{
    let buffer = image::RgbaImage::from_raw(p.width, p.height, p.rgba).expect("four bytes per pixel");
    let turned = image::imageops::rotate270(&buffer);
    Picture { width: turned.width(), height: turned.height(), rgba: turned.into_raw() }
}

/// The text of the error a cancelled decode stops with.
pub open spec fn cancelled_text() -> Seq<char> {
    "decode request cancelled"@
}

/// What a decode stage does once it has read the cancellation flag: a set
/// flag stops the decode with an `Image` error that says it was cancelled.
pub fn cancellation_outcome(cancelled: bool) -> (r: Result<(), DecodeError>)
    ensures
        cancelled ==> (r matches Err(DecodeError::Image(m)) && m@ == cancelled_text()),
        !cancelled ==> r is Ok,
{
    if cancelled {
        Err(DecodeError::Image(crate::text::owned("decode request cancelled")))
    } else {
        Ok(())
    }
}

/// Stops with an `Image` error that says the request was cancelled, once the
/// token, if any, is cancelled. Without a token it always goes on; with one
/// it reads the token's shared flag, which another thread may set at any
/// time, and hands it to `cancellation_outcome`.
pub fn abort_if_cancelled(cancel: Option<&CancellationToken>) -> (r: Result<(), DecodeError>)
    ensures
        cancel is None ==> r is Ok,
        r matches Err(e) ==> e matches DecodeError::Image(m) && m@ == cancelled_text(),
{
    match cancel {
        Some(token) => cancellation_outcome(token.is_cancelled()),
        None => Ok(()),
    }
}

/// The sides a decoded page may have after a rotation: within `width` by
/// `height` as requested, turned with the page.
pub open spec fn fits_turned(page: DecodedPage, rotation: Rotation, width: u32, height: u32) -> bool {
    if rotation == Rotation::Cw90 || rotation == Rotation::Cw270 {
        page.width <= height && page.height <= width
    } else {
        page.width <= width && page.height <= height
    }
}

/// The size after shrinking a `width` by `height` page to the target, when
/// a target with both sides positive is given and the page exceeds it.
pub open spec fn shrunk_to_target(width: u32, height: u32, target_size: Option<[u32; 2]>) -> (u32, u32) {
    match target_size {
        Some(t) => if t[0] > 0 && t[1] > 0 && (width > t[0] || height > t[1]) {
            resized_size(width, height, t[0], t[1])
        } else {
            (width, height)
        },
        None => (width, height),
    }
}

/// A size turned with the page: quarter turns swap the sides.
pub open spec fn turned(size: (u32, u32), rotation: Rotation) -> (u32, u32) {
    if rotation == Rotation::Cw90 || rotation == Rotation::Cw270 {
        (size.1, size.0)
    } else {
        size
    }
}

/// A size shrunk, when a side exceeds it, to the texture limit.
pub open spec fn within_texture(size: (u32, u32)) -> (u32, u32) {
    if size.0 > MAX_TEXTURE_DIMENSION || size.1 > MAX_TEXTURE_DIMENSION {
        resized_size(size.0, size.1, MAX_TEXTURE_DIMENSION, MAX_TEXTURE_DIMENSION)
    } else {
        size
    }
}

/// The size of the decoded page of `bytes`: the header size shrunk to the
/// target, turned, then shrunk to the texture limit.
pub open spec fn decoded_size(bytes: Seq<u8>, target_size: Option<[u32; 2]>, rotation: Rotation) -> (u32, u32) {
    within_texture(turned(shrunk_to_target(source_width(bytes), source_height(bytes), target_size), rotation))
}

/// The bounds a `width` by `height` page is shrunk to for the requested
/// target: the target when both its sides are positive and the page exceeds
/// it, none otherwise.
pub fn target_bounds(width: u32, height: u32, target_size: Option<[u32; 2]>) -> (r: Option<(u32, u32)>)
    ensures
        r == (match target_size {
            Some(t) => if t[0] > 0 && t[1] > 0 && (width > t[0] || height > t[1]) {
                Some((t[0], t[1]))
            } else {
                None
            },
            None => None,
        }),
        r matches Some(b) ==> shrunk_to_target(width, height, target_size) == resized_size(width, height, b.0, b.1),
        r is None ==> shrunk_to_target(width, height, target_size) == (width, height),
{
    match target_size {
        Some(t) => {
            let target_width = t[0];
            let target_height = t[1];
            if target_width > 0 && target_height > 0 && (width > target_width || height > target_height) {
                Some((target_width, target_height))
            } else {
                None
            }
        },
        None => None,
    }
}

/// The pixels of a `width` by `height` page shrunk to the requested target
/// (when both its sides are positive and the page exceeds it).
pub open spec fn shrunk_rgba(rgba: Seq<u8>, width: u32, height: u32, target_size: Option<[u32; 2]>) -> Seq<u8> {
    match target_size {
        Some(t) => if t[0] > 0 && t[1] > 0 && (width > t[0] || height > t[1]) {
            resized_rgba(rgba, width, height, t[0], t[1])
        } else {
            rgba
        },
        None => rgba,
    }
}

/// The pixels of a page of `size` shrunk, when a side exceeds it, to the
/// texture limit.
pub open spec fn texture_rgba(rgba: Seq<u8>, size: (u32, u32)) -> Seq<u8> {
    if size.0 > MAX_TEXTURE_DIMENSION || size.1 > MAX_TEXTURE_DIMENSION {
        resized_rgba(rgba, size.0, size.1, MAX_TEXTURE_DIMENSION, MAX_TEXTURE_DIMENSION)
    } else {
        rgba
    }
}

/// The pixels of the decoded page of `bytes`: the source pixels shrunk to
/// the target, turned, then shrunk to the texture limit, each stage on the
/// size the stage before gave.
pub open spec fn decoded_pixels(bytes: Seq<u8>, target_size: Option<[u32; 2]>, rotation: Rotation) -> Seq<u8> {
    let source = match source_rgba(bytes) {
        Some(p) => p,
        None => Seq::empty(),
    };
    let shrunk = shrunk_to_target(source_width(bytes), source_height(bytes), target_size);
    let shrunk_pixels = shrunk_rgba(source, source_width(bytes), source_height(bytes), target_size);
    texture_rgba(turned_rgba(shrunk_pixels, shrunk.0 as int, shrunk.1 as int, rotation), turned(shrunk, rotation))
}

/// Whether a side of a `width` by `height` page exceeds what a texture holds.
pub fn exceeds_texture(width: u32, height: u32) -> (r: bool)
    ensures
        r == (width > MAX_TEXTURE_DIMENSION || height > MAX_TEXTURE_DIMENSION),
{
    width > MAX_TEXTURE_DIMENSION || height > MAX_TEXTURE_DIMENSION
}

/// Decodes a page: refuses empty input, an unreadable header and pages of
/// more than `MAX_DECODED_PIXELS` pixels before decoding; shrinks the page to
/// the requested size, rotates it, and shrinks it again to fit a texture;
/// and stops between stages once cancelled.
pub fn decode_bytes(
    bytes: &[u8],
    target_size: Option<[u32; 2]>,
    rotation: Rotation,
    cancel: Option<&CancellationToken>,
) -> (r: Result<DecodedPage, DecodeError>)
    ensures
        bytes@.len() == 0 ==> r == Err::<DecodedPage, DecodeError>(DecodeError::EmptyBytes),
        bytes@.len() > 0 && source_size(bytes@) is None ==> r matches Err(DecodeError::Image(_)),
        bytes@.len() > 0 && source_size(bytes@) is Some && source_width(bytes@) * source_height(bytes@)
            > MAX_DECODED_PIXELS ==> r == Err::<DecodedPage, DecodeError>(
            DecodeError::ImageTooLarge { width: source_width(bytes@), height: source_height(bytes@) },
        ),
        bytes@.len() > 0 && source_size(bytes@) is Some && source_width(bytes@) * source_height(bytes@)
            <= MAX_DECODED_PIXELS && source_rgba(bytes@) is Some && cancel is None ==> r is Ok,
        r matches Ok(page) ==> {
            &&& bytes@.len() > 0
            &&& source_size(bytes@) is Some
            &&& source_rgba(bytes@) is Some
            &&& page.rgba@ == decoded_pixels(bytes@, target_size, rotation)
            &&& source_width(bytes@) * source_height(bytes@) <= MAX_DECODED_PIXELS
            &&& page.width <= MAX_TEXTURE_DIMENSION && page.height <= MAX_TEXTURE_DIMENSION
            &&& (page.width, page.height) == decoded_size(bytes@, target_size, rotation)
            &&& page.rgba@.len() == 4 * (page.width as int) * (page.height as int)
            &&& (target_size matches Some(t) && t[0] > 0 && t[1] > 0) ==> fits_turned(page, rotation, target_size->0[0], target_size->0[1])
        },
{
    if bytes.len() == 0 {
        return Err(DecodeError::EmptyBytes);
    }
    let (source_width, source_height) = match probe_size(bytes, MAX_SOURCE_DIMENSION, MAX_DECODE_ALLOC_BYTES) {
        Ok(size) => size,
        Err(message) => {
            return Err(DecodeError::Image(message));
        },
    };
    let w = source_width as u64;
    let h = source_height as u64;
    assert(w * h <= 0xffff_ffffu64 * 0xffff_ffffu64) by (nonlinear_arith)
        requires
            w <= 0xffff_ffff,
            h <= 0xffff_ffff,
    ;
    let pixels = w * h;
    if pixels > MAX_DECODED_PIXELS {
        return Err(DecodeError::ImageTooLarge { width: source_width, height: source_height });
    }
    abort_if_cancelled(cancel)?;
    let picture = match decode_picture(bytes, MAX_SOURCE_DIMENSION, MAX_DECODE_ALLOC_BYTES) {
        Ok(p) => p,
        Err(message) => {
            return Err(DecodeError::Image(message));
        },
    };
    abort_if_cancelled(cancel)?;
    let picture = match target_bounds(picture.width, picture.height, target_size) {
        Some((target_width, target_height)) => resize_picture(picture, target_width, target_height),
        None => picture,
    };
    abort_if_cancelled(cancel)?;
    let picture = match rotation {
        Rotation::Upright => picture,
        Rotation::Cw90 => rotate90_picture(picture),
        Rotation::Cw180 => rotate180_picture(picture),
        Rotation::Cw270 => rotate270_picture(picture),
    };
    let picture = if exceeds_texture(picture.width, picture.height) {
        resize_picture(picture, MAX_TEXTURE_DIMENSION, MAX_TEXTURE_DIMENSION)
    } else {
        picture
    };
    abort_if_cancelled(cancel)?;
    Ok(DecodedPage { width: picture.width, height: picture.height, rgba: picture.rgba })
}

} // verus!
