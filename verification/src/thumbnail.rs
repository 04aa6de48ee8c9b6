//! Thumbnails: the size of a thumbnail, and its making from image bytes.

use crate::error::ErrorKind;
use vstd::prelude::*;

verus! {

/// The longest side of a thumbnail, in pixels.
pub const THUMBNAIL_MAX: u32 = 256;

/// `side` scaled by `to / from` and cut down to whole pixels; zero where
/// `from` is zero.
pub open spec fn scaled(side: u32, to: u32, from: u32) -> int {
    if from == 0 {
        0
    } else {
        (side * to) / (from as int)
    }
}

/// The lesser of a side and the longest side of a thumbnail.
pub open spec fn capped(side: u32) -> u32 {
    if side <= THUMBNAIL_MAX {
        side
    } else {
        THUMBNAIL_MAX
    }
}

/// The size of the thumbnail of an image of `width` by `height` pixels: the
/// longer side is brought down to `THUMBNAIL_MAX` where it is longer, and
/// the other side is scaled by the same ratio and cut down to whole pixels.
pub open spec fn thumbnail_size_of(width: u32, height: u32) -> (int, int) {
    if width > height {
        (capped(width) as int, scaled(height, capped(width), width))
    } else {
        (scaled(width, capped(height), height), capped(height) as int)
    }
}

/// The size of the thumbnail of an image of `width` by `height` pixels. It
/// fits a square of `THUMBNAIL_MAX` pixels, is no larger than the image,
/// and keeps the aspect ratio to within one pixel of the shorter side.
pub fn thumbnail_size(width: u32, height: u32) -> (size: (u32, u32))
    ensures
        (size.0 as int, size.1 as int) == thumbnail_size_of(width, height),
        size.0 <= THUMBNAIL_MAX && size.1 <= THUMBNAIL_MAX,
        size.0 <= width && size.1 <= height,
        width > height ==> size.0 == capped(width) && size.1 * width <= height * size.0 < (size.1
            + 1) * width,
        width <= height && height > 0 ==> size.1 == capped(height) && size.0 * height <= width
            * size.1 < (size.0 + 1) * height,
{
    if width > height {
        let new_width = if width <= THUMBNAIL_MAX {
            width
        } else {
            THUMBNAIL_MAX
        };
        assert(height * new_width <= 0xffff_ffff * 256) by (nonlinear_arith)
            requires
                height <= 0xffff_ffff,
                new_width <= 256,
        ;
        let product: u64 = (height as u64) * (new_width as u64);
        let new_height = product / (width as u64);
        proof {
            lemma_scaled(height, new_width, width);
        }
        (new_width, new_height as u32)
    } else if height == 0 {
        (0, 0)
    } else {
        let new_height = if height <= THUMBNAIL_MAX {
            height
        } else {
            THUMBNAIL_MAX
        };
        assert(width * new_height <= 0xffff_ffff * 256) by (nonlinear_arith)
            requires
                width <= 0xffff_ffff,
                new_height <= 256,
        ;
        let product: u64 = (width as u64) * (new_height as u64);
        let new_width = product / (height as u64);
        proof {
            lemma_scaled(width, new_height, height);
        }
        (new_width as u32, new_height)
    }
}

/// A side scaled down by a ratio of at most one, from a side that is at
/// least as long, is no longer than either and within one pixel of the exact
/// ratio.
pub proof fn lemma_scaled(side: u32, to: u32, from: u32)
    requires
        0 < from,
        side <= from,
        to <= from,
    ensures
        0 <= scaled(side, to, from) <= to,
        scaled(side, to, from) <= side,
        scaled(side, to, from) * from <= side * to < (scaled(side, to, from) + 1) * from,
{
    let s = side as int;
    let t = to as int;
    let f = from as int;
    let q = (s * t) / f;
    assert(q * f <= s * t < (q + 1) * f && 0 <= q) by (nonlinear_arith)
        requires
            q == (s * t) / f,
            0 < f,
            0 <= s * t,
    ;
    assert(s * t <= t * f && s * t <= s * f) by (nonlinear_arith)
        requires
            0 <= s <= f,
            0 <= t <= f,
    ;
    assert(q <= t) by (nonlinear_arith)
        requires
            q * f <= s * t,
            s * t <= t * f,
            0 < f,
    ;
    assert(q <= s) by (nonlinear_arith)
        requires
            q * f <= s * t,
            s * t <= s * f,
            0 < f,
    ;
}

/// The width and height of the image that the `image` crate decodes from
/// `data`; `None` where it decodes none.
pub uninterp spec fn image_size_of(data: Seq<u8>) -> Option<(u32, u32)>;

/// The PNG file that the `image` crate encodes of the image in `data`
/// resized to `width` by `height` pixels; `None` where it decodes or
/// encodes none.
pub uninterp spec fn resized_png_of(data: Seq<u8>, width: u32, height: u32) -> Option<Seq<u8>>;

/// Calls `image::load_from_memory` and `GenericImageView::dimensions`.
/// Trusted: whether the bytes decode, and the size of the image, depend on
/// the bytes alone.
#[verifier::external_body]
fn image_size(data: &[u8]) -> (size: Option<(u32, u32)>)
    ensures
        size == image_size_of(data@),
{
    match image::load_from_memory(data) {
        Ok(decoded) => Some(image::GenericImageView::dimensions(&decoded)),
        Err(_) => None,
    }
}

/// Calls `image::load_from_memory`, `DynamicImage::resize_exact` with the
/// Lanczos filter of three lobes, and `DynamicImage::write_to` for PNG.
/// Trusted, for a size within that of a thumbnail: the outcome depends on
/// the bytes and the size alone, and a PNG file that was encoded for a size
/// that is not empty decodes to an image of that size.
#[verifier::external_body]
fn resized_png(data: &[u8], width: u32, height: u32) -> (png: Option<Vec<u8>>)
    requires
        width <= THUMBNAIL_MAX,
        height <= THUMBNAIL_MAX,
    ensures
        match png {
            Some(bytes) => resized_png_of(data@, width, height) == Some(bytes@),
            None => resized_png_of(data@, width, height) is None,
        },
        png matches Some(bytes) ==> (width > 0 && height > 0 ==> image_size_of(bytes@) == Some(
            (width, height),
        )),
{
    let decoded = image::load_from_memory(data).ok()?;
    let small = decoded.resize_exact(width, height, image::imageops::FilterType::Lanczos3);
    let mut out = std::io::Cursor::new(Vec::new());
    small.write_to(&mut out, image::ImageFormat::Png).ok()?;
    Some(out.into_inner())
}

/// The thumbnail of the image in `data`, as a PNG file; `None` where the
/// image cannot be decoded or the thumbnail cannot be encoded.
pub open spec fn thumbnail_of(data: Seq<u8>) -> Option<Seq<u8>> {
    match image_size_of(data) {
        None => None,
        Some((width, height)) => resized_png_of(
            data,
            thumbnail_size_of(width, height).0 as u32,
            thumbnail_size_of(width, height).1 as u32,
        ),
    }
}

/// Whether a thumbnail of size `small` has the size that belongs to an
/// image of size `full`. Nothing is said of a thumbnail with an empty side.
pub open spec fn has_thumbnail_size(full: Option<(u32, u32)>, small: Option<(u32, u32)>) -> bool {
    match full {
        None => false,
        Some((width, height)) => {
            let size = thumbnail_size_of(width, height);
            size.0 > 0 && size.1 > 0 ==> small == Some((size.0 as u32, size.1 as u32))
        },
    }
}

/// Makes the thumbnail of the image in `data`: a PNG file of the size that
/// `thumbnail_size` gives, resampled with a high-quality filter. Fails with
/// `ArtifactFailure` where the image cannot be decoded or the thumbnail
/// cannot be encoded.
pub fn generate_thumbnail(data: &[u8]) -> (result: Result<Vec<u8>, ErrorKind>)
    ensures
        match result {
            Ok(png) => thumbnail_of(data@) == Some(png@),
            Err(kind) => kind == ErrorKind::ArtifactFailure && thumbnail_of(data@) is None,
        },
        result matches Ok(png) ==> has_thumbnail_size(image_size_of(data@), image_size_of(png@)),
{
    let (width, height) = match image_size(data) {
        Some(size) => size,
        None => {
            return Err(ErrorKind::ArtifactFailure);
        },
    };
    let (new_width, new_height) = thumbnail_size(width, height);
    match resized_png(data, new_width, new_height) {
        Some(png) => Ok(png),
        None => Err(ErrorKind::ArtifactFailure),
    }
}

} // verus!
