//! Raster images and pixmaps from the imaging crates, as the library sees
//! them: their pixels as sequences and maps of plain values, and the calls
//! the library makes on them.

use image::{DynamicImage, GenericImageView, Rgba, RgbaImage};
use resvg::tiny_skia::Pixmap;
use vstd::prelude::*;

verus! {

#[verifier::external_type_specification]
#[verifier::external_body]
pub struct ExDynamicImage(DynamicImage);

/// An 8-bit RGBA pixel buffer (`image::RgbaImage`), held opaquely; the
/// names `rgba_pixels` and `rgba_size` say what it holds.
#[verifier::external_body]
pub struct RgbaBuffer {
    inner: RgbaImage,
}

#[verifier::external_type_specification]
#[verifier::external_body]
pub struct ExPixmap(Pixmap);


/// The raw samples of an image, row by row (what `DynamicImage::as_bytes` gives).
pub uninterp spec fn image_samples(image: DynamicImage) -> Seq<u8>;

/// The kinds of pixel a `DynamicImage` holds, one per variant.
#[derive(Debug, Clone, Copy, PartialEq, Eq, Structural)]
pub enum ColorKind {
    L8,
    La8,
    Rgb8,
    Rgba8,
    L16,
    La16,
    Rgb16,
    Rgba16,
    Rgb32F,
    Rgba32F,
}

/// The width, height and pixel kind an image was made with.
pub uninterp spec fn image_shape(image: DynamicImage) -> (u32, u32, ColorKind);

/// The width and height of an image.
pub open spec fn image_size(image: DynamicImage) -> (u32, u32) {
    (image_shape(image).0, image_shape(image).1)
}

/// The pixel kind of an image.
pub open spec fn image_color(image: DynamicImage) -> ColorKind {
    image_shape(image).2
}

/// Kinds whose samples are single bytes, so that the raw samples are the
/// sample values on every machine.
pub open spec fn is_byte_kind(color: ColorKind) -> bool {
    color == ColorKind::L8 || color == ColorKind::La8 || color == ColorKind::Rgb8 || color
        == ColorKind::Rgba8
}

/// What `DynamicImage::resize` with the nearest-neighbour filter gives an
/// image of byte samples: the size and raw samples of the result, from the
/// pixel kind, size and samples of the source and the bounds.
pub uninterp spec fn nearest_resize(
    color: ColorKind,
    size: (u32, u32),
    samples: Seq<u8>,
    width: u32,
    height: u32,
) -> ((u32, u32), Seq<u8>);

/// The pixels of an RGBA buffer, keyed by `(x, y)`; the keys are exactly the
/// coordinates inside the buffer.
pub uninterp spec fn rgba_pixels(image: RgbaBuffer) -> Map<
    (u32, u32),
    (u8, u8, u8, u8),
>;

/// The width and height an RGBA buffer was made with.
pub uninterp spec fn rgba_size(image: RgbaBuffer) -> (u32, u32);

/// The bytes a pixmap holds (what `Pixmap::data` gives): premultiplied
/// RGBA, four bytes a pixel, row by row. The buffer may be longer than the
/// pixmap's width times height pixels.
pub uninterp spec fn pixmap_data(pixmap: Pixmap) -> Seq<u8>;

/// The width and height a pixmap was made with.
pub uninterp spec fn pixmap_size(pixmap: Pixmap) -> (u32, u32);

/// Channel `c` (0 red, 1 green, 2 blue, 3 alpha) of an RGBA pixel.
pub open spec fn channel(p: (u8, u8, u8, u8), c: int) -> u8 {
    if c == 0 {
        p.0
    } else if c == 1 {
        p.1
    } else if c == 2 {
        p.2
    } else {
        p.3
    }
}

/// Pixel `p` of a buffer of premultiplied RGBA bytes.
pub open spec fn pixel_at(data: Seq<u8>, p: int) -> (u8, u8, u8, u8) {
    (data[4 * p], data[4 * p + 1], data[4 * p + 2], data[4 * p + 3])
}

/// `(x, y)` lies inside an image of the given size.
pub open spec fn in_bounds(size: (u32, u32), k: (u32, u32)) -> bool {
    k.0 < size.0 && k.1 < size.1
}

/// The raw samples of an RGBA pixel map of the given size, row by row.
pub open spec fn rgba_samples(pixels: Map<(u32, u32), (u8, u8, u8, u8)>, size: (u32, u32)) -> Seq<
    u8,
> {
    Seq::new(
        (size.0 * size.1 * 4) as nat,
        |i: int|
            channel(pixels[(((i / 4) % (size.0 as int)) as u32, ((i / 4) / (size.0 as int)) as u32)], i % 4),
    )
}

/// A bound of zero counts as one pixel.
pub open spec fn at_least_one(n: u32) -> int {
    if n == 0 {
        1
    } else {
        n as int
    }
}

/// A size that fits within `width` by `height`: each side at least one
/// pixel and at most its bound (one, for a zero bound).
pub open spec fn fits_within(size: (u32, u32), width: u32, height: u32) -> bool {
    &&& 1 <= size.0 <= at_least_one(width)
    &&& 1 <= size.1 <= at_least_one(height)
}

/// `result` is `side * bound / limit` rounded to a whole pixel (within one
/// pixel, as floating-point rounding leaves it), or one pixel where that
/// rounds to nothing.
pub open spec fn scaled_side(result: u32, side: u32, bound: u32, limit: u32) -> bool {
    result == 1 || (result * limit - side * bound < limit && side * bound - result * limit < limit)
}

/// The size `DynamicImage::resize` gives an image of size `source` for the
/// bounds `width` by `height` when they differ from its size: the aspect
/// ratio is kept and the image is scaled to the largest size that fits, so
/// the tighter bound is met exactly and the other side is scaled by the same
/// ratio. An empty source only gets a size that fits.
pub open spec fn fitted_size(source: (u32, u32), result: (u32, u32), width: u32, height: u32) -> bool {
    &&& fits_within(result, width, height)
    &&& (source.0 > 0 && source.1 > 0 && width * source.1 <= height * source.0) ==> {
        &&& result.0 == at_least_one(width)
        &&& scaled_side(result.1, source.1, width, source.0)
    }
    &&& (source.0 > 0 && source.1 > 0 && width * source.1 > height * source.0) ==> {
        &&& result.1 == at_least_one(height)
        &&& scaled_side(result.0, source.0, height, source.1)
    }
}

/// What `DynamicImage::resize` promises of its result: the same pixel kind;
/// a copy when the bounds equal the image's size, else the fitted size; and,
/// for byte samples, the result `nearest_resize` names.
pub open spec fn resized_within(source: DynamicImage, result: DynamicImage, width: u32, height: u32) -> bool {
    &&& image_color(result) == image_color(source)
    &&& if (width, height) == image_size(source) {
        image_size(result) == image_size(source) && image_samples(result) == image_samples(source)
    } else {
        fitted_size(image_size(source), image_size(result), width, height)
    }
    &&& is_byte_kind(image_color(source)) ==> (image_size(result), image_samples(result))
        == nearest_resize(image_color(source), image_size(source), image_samples(source), width, height)
}

/// Specifies `Clone::clone` of `DynamicImage` (written by hand in `image`:
/// it clones the inner buffer of the same variant): the copy has the same
/// size, pixel kind and raw samples.
pub assume_specification[ <DynamicImage as Clone>::clone ](image: &DynamicImage) -> (res: DynamicImage)
    ensures
        image_shape(res) == image_shape(*image),
        image_samples(res) == image_samples(*image),
;

/// Calls `tiny_skia::Pixmap::new`, which allocates `width * height * 4`
/// zero bytes (hence the bound). Claims: a pixmap exactly when both sides are
/// non-zero and a row of `width` pixels fits in `i32` bytes; it has the given
/// size and only zero bytes, exactly four per pixel.
#[verifier::external_body]
pub(crate) fn pixmap_new(width: u32, height: u32) -> (pixmap: Option<Pixmap>)
    requires
        width * height * 4 <= isize::MAX,
    ensures
        pixmap is Some <==> (width > 0 && height > 0 && width * 4 <= i32::MAX),
        pixmap matches Some(p) ==> {
            &&& pixmap_size(p) == (width, height)
            &&& pixmap_data(p) == Seq::new((width * height * 4) as nat, |i: int| 0u8)
        },
{
    Pixmap::new(width, height)
}

/// Calls `tiny_skia::Pixmap::width`. Claims: the result is the width the
/// pixmap was made with, and a pixmap is never zero pixels wide.
#[verifier::external_body]
pub(crate) fn pixmap_width(pixmap: &Pixmap) -> (w: u32)
    ensures
        w == pixmap_size(*pixmap).0,
        w > 0,
{
    pixmap.width()
}

/// Calls `tiny_skia::Pixmap::height`. Claims: the result is the height the
/// pixmap was made with; a pixmap is never zero pixels high, its buffer
/// holds at least width times height pixels (four bytes each), and the
/// buffer fits in one allocation.
#[verifier::external_body]
pub(crate) fn pixmap_height(pixmap: &Pixmap) -> (h: u32)
    ensures
        h == pixmap_size(*pixmap).1,
        h > 0,
        pixmap_size(*pixmap).0 * h * 4 <= pixmap_data(*pixmap).len() <= isize::MAX,
{
    pixmap.height()
}

/// Calls `tiny_skia::Pixmap::data` and takes the length of the bytes.
/// Claims: the length of `pixmap_data`.
#[verifier::external_body]
pub(crate) fn pixmap_byte_len(pixmap: &Pixmap) -> (n: usize)
    ensures
        n == pixmap_data(*pixmap).len(),
{
    pixmap.data().len()
}

/// Calls `tiny_skia::Pixmap::pixel` and reads the four channels of the
/// premultiplied colour it returns. `pixel` views the bytes as whole pixels
/// and panics where their count is not a multiple of four. Claims: pixel
/// `width * y + x` of the buffer, or `None` where that index overflows `u32`
/// or lies past the buffer's last whole pixel.
#[verifier::external_body]
pub(crate) fn pixmap_pixel(pixmap: &Pixmap, x: u32, y: u32) -> (px: Option<(u8, u8, u8, u8)>)
    requires
        pixmap_data(*pixmap).len() % 4 == 0,
    ensures
        px == (if pixmap_size(*pixmap).0 * y + x <= u32::MAX && pixmap_size(*pixmap).0 * y + x
            < pixmap_data(*pixmap).len() / 4 {
            Some(pixel_at(pixmap_data(*pixmap), pixmap_size(*pixmap).0 * y + x))
        } else {
            None
        }),
{
    match pixmap.pixel(x, y) {
        Some(c) => Some((c.red(), c.green(), c.blue(), c.alpha())),
        None => None,
    }
}

/// Calls `image::RgbaImage::new` (`ImageBuffer::new`), which panics where
/// the sample count overflows `usize` or the allocation exceeds `isize::MAX`
/// bytes. Claims: a buffer of the given size
/// whose pixels are all zero.
#[verifier::external_body]
pub(crate) fn rgba_image_new(width: u32, height: u32) -> (img: RgbaBuffer)
    requires
        width * height * 4 <= isize::MAX,
    ensures
        rgba_size(img) == (width, height),
        rgba_pixels(img) == Map::new(
            |k: (u32, u32)| in_bounds((width, height), k),
            |k: (u32, u32)| (0u8, 0u8, 0u8, 0u8),
        ),
{
    RgbaBuffer { inner: RgbaImage::new(width, height) }
}

/// Calls `ImageBuffer::put_pixel`, which panics outside the buffer.
/// Claims: the pixel at `(x, y)` becomes `px`; nothing else changes.
#[verifier::external_body]
pub(crate) fn rgba_put_pixel(
    img: &mut RgbaBuffer,
    x: u32,
    y: u32,
    px: (u8, u8, u8, u8),
)
    requires
        in_bounds(rgba_size(*old(img)), (x, y)),
    ensures
        rgba_size(*final(img)) == rgba_size(*old(img)),
        rgba_pixels(*final(img)) == rgba_pixels(*old(img)).insert((x, y), px),
{
    img.inner.put_pixel(x, y, Rgba([px.0, px.1, px.2, px.3]))
}

/// Moves the buffer into `DynamicImage::ImageRgba8`. Claims: the image
/// is an RGBA8 image of the buffer's size, and its raw samples are the buffer's pixels row by
/// row, four channels each.
#[verifier::external_body]
pub(crate) fn rgba_into_dynamic(img: RgbaBuffer) -> (res: DynamicImage)
    ensures
        image_size(res) == rgba_size(img),
        image_color(res) == ColorKind::Rgba8,
        image_samples(res) == rgba_samples(rgba_pixels(img), rgba_size(img)),
{
    DynamicImage::ImageRgba8(img.inner)
}

/// Calls `DynamicImage::resize` with the nearest-neighbour filter. Claims:
/// what `resized_within` says: the same pixel kind (the resize maps each
/// variant to itself); a copy for equal bounds, else the documented
/// aspect-preserving largest fit, where the scaled side is known to within
/// one pixel (the crate rounds it in floating point); and for byte samples
/// the size and samples `nearest_resize` names, a function of the kind, size
/// and samples (the sampling ignores the colour-space data). For 16-bit and
/// float images the samples are in the machine's byte order and the filter
/// averages values, so no name over the bytes would hold on every machine:
/// their resampled samples are not stated.
#[verifier::external_body]
pub(crate) fn resize_nearest(image: &DynamicImage, width: u32, height: u32) -> (res: DynamicImage)
    ensures
        resized_within(*image, res, width, height),
        is_byte_kind(image_color(*image)) ==> (image_size(res), image_samples(res))
            == nearest_resize(
            image_color(*image),
            image_size(*image),
            image_samples(*image),
            width,
            height,
        ),
{
    image.resize(width, height, image::imageops::FilterType::Nearest)
}

/// Calls `DynamicImage::dimensions`. Claims: the image's size.
#[verifier::external_body]
pub(crate) fn image_dimensions(image: &DynamicImage) -> (size: (u32, u32))
    ensures
        size == image_size(*image),
{
    image.dimensions()
}

/// Calls `DynamicImage::as_bytes`. Claims: the image's raw samples.
#[verifier::external_body]
pub(crate) fn image_bytes(image: &DynamicImage) -> (bytes: &[u8])
    ensures
        bytes@ == image_samples(*image),
{
    image.as_bytes()
}

} // verus!
