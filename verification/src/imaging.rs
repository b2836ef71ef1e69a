//! The `image` crate as this library sees it.
//!
//! The functions of this file that call into the crate are trusted: Verus
//! believes their contracts and reads none of the code behind them. A decoded
//! image is opaque here. What the pipeline reads of one has a name (its
//! extent, its pixels as RGBA, the kind of its samples), and so has what each
//! call returns that is a function of its arguments alone.
use vstd::prelude::*;

verus! {

/// Declares `image::DynamicImage`, a decoded image, as an opaque type.
#[verifier::external_type_specification]
#[verifier::external_body]
pub struct ExDynamicImage(image::DynamicImage);

/// Declares `image::ImageError`, the error of the codecs, as an opaque type.
#[verifier::external_type_specification]
#[verifier::external_body]
pub struct ExImageError(image::ImageError);

/// Width and height of `img`: what `dimensions()` returns.
pub uninterp spec fn image_extent(img: image::DynamicImage) -> (int, int);

/// The pixels of `img` by column and row, each as red, green, blue and
/// alpha: what `get_pixel(x, y)` returns within the extent.
pub uninterp spec fn image_pixels(img: image::DynamicImage) -> Map<(int, int), (u8, u8, u8, u8)>;

/// Whether `img` is the variant that stores 8-bit RGBA.
pub uninterp spec fn holds_rgba8(img: image::DynamicImage) -> bool;

/// Whether the samples of `img` are floating-point numbers.
pub uninterp spec fn float_samples(img: image::DynamicImage) -> bool;

/// The image that `bytes` decode to, with the format guessed from the bytes
/// themselves; `None` where they decode to none.
pub uninterp spec fn decoded(bytes: Seq<u8>) -> Option<image::DynamicImage>;

/// The PNG encoding of `img`; `None` where the encoder refuses it.
pub uninterp spec fn png_encoded(img: image::DynamicImage) -> Option<Seq<u8>>;

/// `img` in shades of grey.
pub uninterp spec fn grayscale_of(img: image::DynamicImage) -> image::DynamicImage;

/// `img` with `value` added to every colour sample.
pub uninterp spec fn brightened(img: image::DynamicImage, value: i32) -> image::DynamicImage;

/// `img` mirrored left to right.
pub uninterp spec fn flipped_horizontal(img: image::DynamicImage) -> image::DynamicImage;

/// `img` mirrored top to bottom.
pub uninterp spec fn flipped_vertical(img: image::DynamicImage) -> image::DynamicImage;

/// `img` turned clockwise by a quarter.
pub uninterp spec fn rotated_90(img: image::DynamicImage) -> image::DynamicImage;

/// `img` turned by a half.
pub uninterp spec fn rotated_180(img: image::DynamicImage) -> image::DynamicImage;

/// `img` turned clockwise by three quarters.
pub uninterp spec fn rotated_270(img: image::DynamicImage) -> image::DynamicImage;

/// `img` resampled to `width` by `height` with the triangle filter.
pub uninterp spec fn resized(img: image::DynamicImage, width: u32, height: u32) -> image::DynamicImage;

/// The part of `img` that the rectangle at `(x, y)` of `width` by `height`
/// covers.
pub uninterp spec fn cropped(
    img: image::DynamicImage,
    x: u32,
    y: u32,
    width: u32,
    height: u32,
) -> image::DynamicImage;

/// The pixel of `img` in column `x` and row `y`.
pub open spec fn pixel_at(img: image::DynamicImage, x: int, y: int) -> (u8, u8, u8, u8) {
    image_pixels(img)[(x, y)]
}

/// Whether `out` is `source` mirrored left to right.
pub open spec fn mirrored_horizontally(source: image::DynamicImage, out: image::DynamicImage) -> bool {
    let (w, h) = image_extent(source);
    &&& image_extent(out) == (w, h)
    &&& forall|x: int, y: int|
        0 <= x < w && 0 <= y < h ==> #[trigger] pixel_at(out, x, y) == pixel_at(
            source,
            w - 1 - x,
            y,
        )
}

/// Whether `out` is `source` mirrored top to bottom.
pub open spec fn mirrored_vertically(source: image::DynamicImage, out: image::DynamicImage) -> bool {
    let (w, h) = image_extent(source);
    &&& image_extent(out) == (w, h)
    &&& forall|x: int, y: int|
        0 <= x < w && 0 <= y < h ==> #[trigger] pixel_at(out, x, y) == pixel_at(
            source,
            x,
            h - 1 - y,
        )
}

/// Whether `out` is `source` turned clockwise by a quarter: the left column
/// of `source`, read upwards, is the top row of `out`.
pub open spec fn turned_90(source: image::DynamicImage, out: image::DynamicImage) -> bool {
    let (w, h) = image_extent(source);
    &&& image_extent(out) == (h, w)
    &&& forall|x: int, y: int|
        0 <= x < h && 0 <= y < w ==> #[trigger] pixel_at(out, x, y) == pixel_at(
            source,
            y,
            h - 1 - x,
        )
}

/// Whether `out` is `source` turned by a half.
pub open spec fn turned_180(source: image::DynamicImage, out: image::DynamicImage) -> bool {
    let (w, h) = image_extent(source);
    &&& image_extent(out) == (w, h)
    &&& forall|x: int, y: int|
        0 <= x < w && 0 <= y < h ==> #[trigger] pixel_at(out, x, y) == pixel_at(
            source,
            w - 1 - x,
            h - 1 - y,
        )
}

/// Whether `out` is `source` turned clockwise by three quarters: the top
/// row of `source`, read backwards, is the left column of `out`.
pub open spec fn turned_270(source: image::DynamicImage, out: image::DynamicImage) -> bool {
    let (w, h) = image_extent(source);
    &&& image_extent(out) == (h, w)
    &&& forall|x: int, y: int|
        0 <= x < h && 0 <= y < w ==> #[trigger] pixel_at(out, x, y) == pixel_at(
            source,
            w - 1 - y,
            x,
        )
}

/// The smaller of two numbers.
pub open spec fn least(a: int, b: int) -> int {
    if a <= b {
        a
    } else {
        b
    }
}

/// Whether `out` is the part of `source` under the rectangle at `(x, y)` of
/// `width` by `height`, after the rectangle is clipped to `source`: a corner
/// beyond an edge moves onto it, and a side keeps what is left up to the far
/// edge.
pub open spec fn cut_out(
    source: image::DynamicImage,
    x: u32,
    y: u32,
    width: u32,
    height: u32,
    out: image::DynamicImage,
) -> bool {
    let (w, h) = image_extent(source);
    let left = least(x as int, w);
    let top = least(y as int, h);
    let across = least(width as int, w - left);
    let down = least(height as int, h - top);
    &&& image_extent(out) == (across, down)
    &&& forall|i: int, j: int|
        0 <= i < across && 0 <= j < down ==> #[trigger] pixel_at(out, i, j) == pixel_at(
            source,
            left + i,
            top + j,
        )
}

/// The eight bytes that every PNG file begins with.
pub open spec fn png_signature() -> Seq<u8> {
    seq![137u8, 80u8, 78u8, 71u8, 13u8, 10u8, 26u8, 10u8]
}

/// Whether `bytes` begin with the PNG signature.
pub open spec fn begins_png(bytes: Seq<u8>) -> bool {
    bytes.len() >= 8 && bytes.subrange(0, 8) == png_signature()
}

/// What is known of the PNG encoding of `img` where it has one: it begins
/// with the signature, and `img` has at least one pixel.
pub open spec fn encoding_is_png(img: image::DynamicImage) -> bool {
    png_encoded(img) matches Some(bytes) ==> begins_png(bytes) && image_extent(img).0 >= 1
        && image_extent(img).1 >= 1
}

/// Whether a buffer of `width` by `height` pixels of `bytes_each` bytes can
/// be allocated at all: no allocation is larger than `isize::MAX` bytes.
pub open spec fn allocatable(width: int, height: int, bytes_each: int) -> bool {
    width * height * bytes_each <= isize::MAX
}

/// The largest side of an image that `resize` samples from reliably: it
/// places pixels with single-precision numbers, which get too coarse beyond.
pub const MAX_SAMPLED_SIDE: u32 = 0x10_0000;

/// Whether `img` can be resampled to `width` by `height`: the source is not
/// too long for single-precision coordinates, and the result and the
/// intermediate buffer of four floats a pixel can both be allocated.
pub open spec fn resizable(img: image::DynamicImage, width: u32, height: u32) -> bool {
    &&& image_extent(img).0 <= MAX_SAMPLED_SIDE
    &&& image_extent(img).1 <= MAX_SAMPLED_SIDE
    &&& allocatable(image_extent(img).0, height as int, 16)
    &&& allocatable(width as int, height as int, 16)
}

/// Whether `value` can be added to the samples of `img`: they are integers
/// of at most 16 bits, and the sum stays an `i32`.
pub open spec fn brightenable(img: image::DynamicImage, value: i32) -> bool {
    !float_samples(img) && value + 0xffff <= i32::MAX
}

/// Decodes an image, guessing its format from the bytes.
///
/// Trusted: calls `ImageReader::new(..).with_guessed_format()` and then
/// `ImageReader::decode`, on a cursor over `bytes`. Claims that the outcome
/// depends on the bytes alone. That holds while no hook for formats of its
/// own is registered with the crate; this library registers none.
#[verifier::external_body]
pub(crate) fn decode(bytes: &[u8]) -> (r: Result<image::DynamicImage, image::ImageError>)
    ensures
        match r {
            Ok(img) => decoded(bytes@) == Some(img),
            Err(_) => decoded(bytes@) is None,
        },
{
    image::ImageReader::new(std::io::Cursor::new(bytes)).with_guessed_format()?.decode()
}

/// Encodes an image as PNG.
///
/// Trusted: calls `DynamicImage::write_to` with `ImageFormat::Png`, on a
/// cursor over an empty vector. Claims that the outcome depends on the image
/// alone. The encoder refuses an image without width or height before it
/// writes anything, and writes the signature first: so an encoding, where
/// there is one, begins with the signature and is of an image with pixels.
/// Nothing is claimed of when the encoder accepts.
#[verifier::external_body]
pub(crate) fn encode_png(img: &image::DynamicImage) -> (r: Result<Vec<u8>, image::ImageError>)
    ensures
        match r {
            Ok(bytes) => png_encoded(*img) == Some(bytes@),
            Err(_) => png_encoded(*img) is None,
        },
        r matches Ok(bytes) ==> begins_png(bytes@) && image_extent(*img).0 >= 1 && image_extent(
            *img,
        ).1 >= 1,
{
    let mut buffer = Vec::new();
    img.write_to(&mut std::io::Cursor::new(&mut buffer), image::ImageFormat::Png)?;
    Ok(buffer)
}

/// Width and height of an image.
///
/// Trusted: calls `GenericImageView::dimensions`.
#[verifier::external_body]
pub(crate) fn extent(img: &image::DynamicImage) -> (r: (u32, u32))
    ensures
        image_extent(*img) == (r.0 as int, r.1 as int),
{
    image::GenericImageView::dimensions(img)
}

/// One pixel of an image as RGBA.
///
/// Trusted: calls `GenericImageView::get_pixel`, which panics outside the
/// extent.
#[verifier::external_body]
pub(crate) fn pixel(img: &image::DynamicImage, x: u32, y: u32) -> (r: (u8, u8, u8, u8))
    requires
        x < image_extent(*img).0,
        y < image_extent(*img).1,
    ensures
        r == pixel_at(*img, x as int, y as int),
{
    let p = image::GenericImageView::get_pixel(img, x, y);
    (p.0[0], p.0[1], p.0[2], p.0[3])
}

/// Whether the samples of an image are floating-point numbers.
///
/// Trusted: calls `DynamicImage::as_flat_samples_f32`, which returns a view
/// for the two variants of 32-bit floats and `None` for the others.
#[verifier::external_body]
pub(crate) fn has_float_samples(img: &image::DynamicImage) -> (r: bool)
    ensures
        r == float_samples(*img),
{
    img.as_flat_samples_f32().is_some()
}

/// A new image of 8-bit RGBA.
///
/// Trusted: calls `DynamicImage::new_rgba8`, which panics where the buffer
/// cannot be allocated. Nothing is claimed of the pixels.
#[verifier::external_body]
pub(crate) fn blank_rgba8(width: u32, height: u32) -> (r: image::DynamicImage)
    requires
        allocatable(width as int, height as int, 4),
    ensures
        image_extent(r) == (width as int, height as int),
        holds_rgba8(r),
{
    image::DynamicImage::new_rgba8(width, height)
}

/// Sets one pixel of an image of 8-bit RGBA.
///
/// Trusted: calls `GenericImage::put_pixel`, which panics outside the extent
/// and, in the RGBA variant, stores the pixel as it is. Claims that
/// the other pixels, the extent and the variant stay.
#[verifier::external_body]
pub(crate) fn put_pixel(img: &mut image::DynamicImage, x: u32, y: u32, color: (u8, u8, u8, u8))
    requires
        holds_rgba8(*old(img)),
        x < image_extent(*old(img)).0,
        y < image_extent(*old(img)).1,
    ensures
        image_extent(*final(img)) == image_extent(*old(img)),
        holds_rgba8(*final(img)),
        image_pixels(*final(img)) == image_pixels(*old(img)).insert((x as int, y as int), color),
{
    image::GenericImage::put_pixel(img, x, y, image::Rgba([color.0, color.1, color.2, color.3]))
}

/// Trusted: calls `DynamicImage::grayscale`, which gives an image of the
/// same extent.
#[verifier::external_body]
pub(crate) fn grayscale(img: &image::DynamicImage) -> (r: image::DynamicImage)
    ensures
        r == grayscale_of(*img),
        image_extent(r) == image_extent(*img),
{
    img.grayscale()
}

/// Trusted: calls `DynamicImage::brighten`, which turns every sample into an
/// `i32` and adds `value` to it: that fails for a float that is no `i32`,
/// and overflows where the sum is none. The result has the same extent.
#[verifier::external_body]
pub(crate) fn brighten(img: &image::DynamicImage, value: i32) -> (r: image::DynamicImage)
    requires
        brightenable(*img, value),
    ensures
        r == brightened(*img, value),
        image_extent(r) == image_extent(*img),
{
    img.brighten(value)
}

/// Trusted: calls `DynamicImage::huerotate`. It goes through the sine and
/// cosine of the platform, so the pixels of the result get no name. What is
/// claimed is what the source fixes: the result has the extent of the image
/// and is the same variant.
#[verifier::external_body]
pub(crate) fn huerotate(img: &image::DynamicImage, value: i32) -> (r: image::DynamicImage)
    ensures
        image_extent(r) == image_extent(*img),
        holds_rgba8(r) == holds_rgba8(*img),
        float_samples(r) == float_samples(*img),
{
    img.huerotate(value)
}

/// Trusted: calls `DynamicImage::fliph`, which puts the pixel of column `x`
/// into column `width - 1 - x`.
#[verifier::external_body]
pub(crate) fn fliph(img: &image::DynamicImage) -> (r: image::DynamicImage)
    ensures
        r == flipped_horizontal(*img),
        mirrored_horizontally(*img, r),
{
    img.fliph()
}

/// Trusted: calls `DynamicImage::flipv`, which puts the pixel of row `y`
/// into row `height - 1 - y`.
#[verifier::external_body]
pub(crate) fn flipv(img: &image::DynamicImage) -> (r: image::DynamicImage)
    ensures
        r == flipped_vertical(*img),
        mirrored_vertically(*img, r),
{
    img.flipv()
}

/// Trusted: calls `DynamicImage::rotate90`, which puts the pixel at
/// `(x, y)` to `(height - 1 - y, x)` of an image of `height` by `width`.
#[verifier::external_body]
pub(crate) fn rotate90(img: &image::DynamicImage) -> (r: image::DynamicImage)
    ensures
        r == rotated_90(*img),
        turned_90(*img, r),
{
    img.rotate90()
}

/// Trusted: calls `DynamicImage::rotate180`, which puts the pixel at
/// `(x, y)` to `(width - 1 - x, height - 1 - y)`.
#[verifier::external_body]
pub(crate) fn rotate180(img: &image::DynamicImage) -> (r: image::DynamicImage)
    ensures
        r == rotated_180(*img),
        turned_180(*img, r),
{
    img.rotate180()
}

/// Trusted: calls `DynamicImage::rotate270`, which puts the pixel at
/// `(x, y)` to `(y, width - 1 - x)` of an image of `height` by `width`.
#[verifier::external_body]
pub(crate) fn rotate270(img: &image::DynamicImage) -> (r: image::DynamicImage)
    ensures
        r == rotated_270(*img),
        turned_270(*img, r),
{
    img.rotate270()
}

/// Trusted: calls `DynamicImage::resize_exact` with `FilterType::Triangle`,
/// which allocates the result and, between its two passes, a buffer of four
/// floats a pixel, and panics where either cannot be allocated. Claims that
/// the result has the extent asked for.
#[verifier::external_body]
pub(crate) fn resize_exact(img: &image::DynamicImage, width: u32, height: u32) -> (r:
    image::DynamicImage)
    requires
        resizable(*img, width, height),
    ensures
        r == resized(*img, width, height),
        image_extent(r) == (width as int, height as int),
{
    img.resize_exact(width, height, image::imageops::FilterType::Triangle)
}

/// Trusted: calls `DynamicImage::crop`, which clips the rectangle to the
/// image, copies what is under it, and leaves the image as it was.
#[verifier::external_body]
pub(crate) fn crop(img: &mut image::DynamicImage, x: u32, y: u32, width: u32, height: u32) -> (r:
    image::DynamicImage)
    ensures
        *final(img) == *old(img),
        r == cropped(*old(img), x, y, width, height),
        cut_out(*old(img), x, y, width, height, r),
{
    img.crop(x, y, width, height)
}

} // verus!
