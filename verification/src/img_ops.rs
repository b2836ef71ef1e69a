//! The transforms that this library carries out itself: the frame of one
//! colour around an image, pixel by pixel, and the calls into the `image`
//! crate that need nothing from outside.
use vstd::prelude::*;
use crate::imaging::{
    allocatable, blank_rgba8, brighten, brightenable, brightened, extent, fliph,
    flipped_horizontal, flipped_vertical, flipv, float_samples, grayscale, grayscale_of,
    has_float_samples, holds_rgba8, huerotate, image_extent, image_pixels, mirrored_horizontally,
    mirrored_vertically, pixel, pixel_at, put_pixel, resizable, resize_exact, resized, rotate180,
    rotate270, rotate90, rotated_180, rotated_270, rotated_90, turned_180, turned_270, turned_90,
    MAX_SAMPLED_SIDE,
};
use crate::operation::{Filter, Operation, UNSHARPEN_THRESHOLD};
use crate::request::{OperationRequest, RequestModel};
use crate::text::{
    all_digits, digit_in, digits_value, hex_u32, leading, parse_hex_after_hashes, without_leading,
};

verus! {

/// The colour of a frame whose colour does not parse: red.
pub const FALLBACK_COLOR: u32 = 0xFF0000;

/// The colour that `text` writes: hexadecimal digits, red first, after any
/// `#`s. Of a number beyond 24 bits the low 24 count. Text that is no such
/// number stands for red.
pub open spec fn border_rgb(text: Seq<char>) -> (u8, u8, u8) {
    let v: u32 = match hex_u32(without_leading(text, '#')) {
        Some(v) => v,
        None => FALLBACK_COLOR,
    };
    (((v / 0x1_0000) % 0x100) as u8, ((v / 0x100) % 0x100) as u8, (v % 0x100) as u8)
}

/// Whether a frame of `border_width` fits around an image of `extent`: the
/// sides of the result are `u32`s, and its buffer can be allocated.
pub open spec fn border_fits(extent: (int, int), border_width: u32) -> bool {
    &&& extent.0 + 2 * border_width <= u32::MAX
    &&& extent.1 + 2 * border_width <= u32::MAX
    &&& allocatable(extent.0 + 2 * border_width, extent.1 + 2 * border_width, 4)
}

/// Whether `out` is `source` with a frame of `border_width` pixels of `color`
/// on every side: an image of 8-bit RGBA, wider and higher by twice the
/// frame, that holds the pixels of `source` unchanged from
/// `(border_width, border_width)` on and the opaque colour everywhere else.
pub open spec fn framed(
    source: image::DynamicImage,
    border_width: u32,
    color: (u8, u8, u8),
    out: image::DynamicImage,
) -> bool {
    let (w, h) = image_extent(source);
    let b = border_width as int;
    &&& holds_rgba8(out)
    &&& image_extent(out) == (w + 2 * b, h + 2 * b)
    &&& forall|x: int, y: int|
        0 <= x < w + 2 * b && 0 <= y < h + 2 * b ==> #[trigger] pixel_at(out, x, y) == if b <= x
            < b + w && b <= y < b + h {
            pixel_at(source, x - b, y - b)
        } else {
            (color.0, color.1, color.2, 255u8)
        }
}

/// Setting one pixel leaves every other pixel as it was.
proof fn lemma_one_pixel_set(
    before: image::DynamicImage,
    after: image::DynamicImage,
    x: int,
    y: int,
    color: (u8, u8, u8, u8),
)
    requires
        image_pixels(after) == image_pixels(before).insert((x, y), color),
    ensures
        forall|i: int, j: int|
            #[trigger] pixel_at(after, i, j) == if i == x && j == y {
                color
            } else {
                pixel_at(before, i, j)
            },
{
}

/// Reads the colour of a frame.
pub fn parse_border_color(text: &str) -> (r: (u8, u8, u8))
    ensures
        r == border_rgb(text@),
{
    let v: u32 = match parse_hex_after_hashes(text) {
        Some(v) => v,
        None => FALLBACK_COLOR,
    };
    assert((v >> 16) & 0xFF == (v / 0x1_0000) % 0x100) by (bit_vector);
    assert((v >> 8) & 0xFF == (v / 0x100) % 0x100) by (bit_vector);
    assert(v & 0xFF == v % 0x100) by (bit_vector);
    (((v >> 16) & 0xFF) as u8, ((v >> 8) & 0xFF) as u8, (v & 0xFF) as u8)
}

/// Whether a frame of `border_width` fits around an image of `width` by
/// `height`.
pub fn border_fits_around(width: u32, height: u32, border_width: u32) -> (r: bool)
    ensures
        r == border_fits((width as int, height as int), border_width),
{
    let w: u128 = width as u128 + 2 * (border_width as u128);
    let h: u128 = height as u128 + 2 * (border_width as u128);
    if w > u32::MAX as u128 || h > u32::MAX as u128 {
        return false;
    }
    assert(w * h <= 0xffff_ffff * 0xffff_ffff) by (nonlinear_arith)
        requires
            0 <= w <= 0xffff_ffff,
            0 <= h <= 0xffff_ffff,
    ;
    w * h * 4 <= isize::MAX as u128
}

/// Puts a frame of `border_width` pixels around `image`. The colour is
/// `border_color` read as by [`border_rgb`], fully opaque. The result is an
/// image of 8-bit RGBA whatever `image` stores. A frame of width 0 is none:
/// the result then has the extent and the pixels of `image`.
pub fn add_border(image: image::DynamicImage, border_width: u32, border_color: String) -> (out:
    image::DynamicImage)
    requires
        border_fits(image_extent(image), border_width),
    ensures
        framed(image, border_width, border_rgb(border_color@), out),
        image_extent(out) == (
            image_extent(image).0 + 2 * border_width,
            image_extent(image).1 + 2 * border_width,
        ),
        border_width == 0 ==> forall|x: int, y: int|
            0 <= x < image_extent(image).0 && 0 <= y < image_extent(image).1
                ==> #[trigger] pixel_at(out, x, y) == pixel_at(image, x, y),
{
    let (width, height) = extent(&image);
    let new_width: u32 = width + border_width * 2;
    let new_height: u32 = height + border_width * 2;
    let (r, g, b) = parse_border_color(border_color.as_str());
    let paint: (u8, u8, u8, u8) = (r, g, b, 255);
    let mut new_image = blank_rgba8(new_width, new_height);

    let mut x: u32 = 0;
    while x < new_width
        invariant
            x <= new_width,
            holds_rgba8(new_image),
            image_extent(new_image) == (new_width as int, new_height as int),
            forall|i: int, j: int|
                0 <= i < x && 0 <= j < new_height ==> #[trigger] pixel_at(new_image, i, j)
                    == paint,
        decreases new_width - x,
    {
        let mut y: u32 = 0;
        while y < new_height
            invariant
                x < new_width,
                y <= new_height,
                holds_rgba8(new_image),
                image_extent(new_image) == (new_width as int, new_height as int),
                forall|i: int, j: int|
                    0 <= i < x && 0 <= j < new_height ==> #[trigger] pixel_at(new_image, i, j)
                        == paint,
                forall|j: int| 0 <= j < y ==> #[trigger] pixel_at(new_image, x as int, j) == paint,
            decreases new_height - y,
        {
            let ghost before = new_image;
            put_pixel(&mut new_image, x, y, paint);
            proof {
                lemma_one_pixel_set(before, new_image, x as int, y as int, paint);
            }
            y = y + 1;
        }
        x = x + 1;
    }

    let mut x: u32 = 0;
    while x < width
        invariant
            x <= width,
            new_width == width + 2 * border_width,
            new_height == height + 2 * border_width,
            image_extent(image) == (width as int, height as int),
            holds_rgba8(new_image),
            image_extent(new_image) == (new_width as int, new_height as int),
            forall|i: int, j: int|
                0 <= i < new_width && 0 <= j < new_height ==> #[trigger] pixel_at(new_image, i, j)
                    == if border_width <= i < border_width + x && border_width <= j
                    < border_width + height {
                    pixel_at(image, i - border_width, j - border_width)
                } else {
                    paint
                },
        decreases width - x,
    {
        let mut y: u32 = 0;
        while y < height
            invariant
                x < width,
                y <= height,
                new_width == width + 2 * border_width,
                new_height == height + 2 * border_width,
                image_extent(image) == (width as int, height as int),
                holds_rgba8(new_image),
                image_extent(new_image) == (new_width as int, new_height as int),
                forall|i: int, j: int|
                    0 <= i < new_width && 0 <= j < new_height ==> #[trigger] pixel_at(
                        new_image,
                        i,
                        j,
                    ) == if border_width <= j < border_width + height && (border_width <= i
                        < border_width + x || (i == border_width + x && j < border_width + y)) {
                        pixel_at(image, i - border_width, j - border_width)
                    } else {
                        paint
                    },
            decreases height - y,
        {
            let p = pixel(&image, x, y);
            let ghost before = new_image;
            put_pixel(&mut new_image, x + border_width, y + border_width, p);
            proof {
                lemma_one_pixel_set(before, new_image, x + border_width, y + border_width, p);
            }
            y = y + 1;
        }
        x = x + 1;
    }
    new_image
}

/// Puts a frame around `image` as [`add_border`] does, where the frame fits;
/// returns `None`, and does nothing, where the sides of the result would be
/// no `u32`s or its buffer could not be allocated.
///
/// With a width of 5 and the colour `FF0000` the result is wider and higher
/// by 10, red and opaque within 5 pixels of every edge, and the image from
/// `(5, 5)` on. With a width of 0 it has the extent and the pixels of the
/// image, whatever the colour.
pub fn try_add_border(image: image::DynamicImage, border_width: u32, border_color: String) -> (r:
    Option<image::DynamicImage>)
    ensures
        r is Some <==> border_fits(image_extent(image), border_width),
        r matches Some(out) ==> {
            &&& framed(image, border_width, border_rgb(border_color@), out)
            &&& image_extent(out) == (
                image_extent(image).0 + 2 * border_width,
                image_extent(image).1 + 2 * border_width,
            )
            &&& border_width == 0 ==> forall|x: int, y: int|
                0 <= x < image_extent(image).0 && 0 <= y < image_extent(image).1
                    ==> #[trigger] pixel_at(out, x, y) == pixel_at(image, x, y)
        },
{
    let (width, height) = extent(&image);
    if border_fits_around(width, height, border_width) {
        Some(add_border(image, border_width, border_color))
    } else {
        None
    }
}

/// The filter that `operation` on `image` is left to the caller as, where it
/// is left to the caller: the three filters with a floating-point parameter
/// always, brightness where this library cannot add the value.
pub open spec fn handed_out(
    image: image::DynamicImage,
    operation: Operation,
    request: RequestModel,
) -> Option<Filter> {
    match operation {
        Operation::Brightness => if brightenable(image, request.value) {
            None
        } else {
            Some(Filter::Brightness)
        },
        _ => operation.filter(),
    }
}

/// Whether `operation` is carried out on the spot: it needs no rectangle
/// read and is not left to the caller.
pub open spec fn direct(
    image: image::DynamicImage,
    operation: Operation,
    request: RequestModel,
) -> bool {
    operation != Operation::Crop && handed_out(image, operation, request) is None
}

/// Whether `operation` can be carried out on `image` with the parameters of
/// `request` within the limits of the machine.
pub open spec fn in_range(
    image: image::DynamicImage,
    operation: Operation,
    request: RequestModel,
) -> bool {
    match operation {
        Operation::Resize => resizable(image, request.width, request.height),
        Operation::Border => border_fits(image_extent(image), request.border_width),
        _ => true,
    }
}

/// Whether `out` is what `operation` makes of `image` with the parameters
/// of `request`. Each operation reads its own parameters and no others.
pub open spec fn transformed(
    image: image::DynamicImage,
    operation: Operation,
    request: RequestModel,
    out: image::DynamicImage,
) -> bool {
    match operation {
        Operation::Grayscale => out == grayscale_of(image) && image_extent(out) == image_extent(
            image,
        ),
        Operation::Brightness => out == brightened(image, request.value) && image_extent(out)
            == image_extent(image),
        Operation::HueRotate => image_extent(out) == image_extent(image) && holds_rgba8(out)
            == holds_rgba8(image) && float_samples(out) == float_samples(image),
        Operation::FlipHorizontal => out == flipped_horizontal(image) && mirrored_horizontally(
            image,
            out,
        ),
        Operation::FlipVertical => out == flipped_vertical(image) && mirrored_vertically(
            image,
            out,
        ),
        Operation::Rotate90 => out == rotated_90(image) && turned_90(image, out),
        Operation::Rotate180 => out == rotated_180(image) && turned_180(image, out),
        Operation::Rotate270 => out == rotated_270(image) && turned_270(image, out),
        Operation::Resize => out == resized(image, request.width, request.height)
            && image_extent(out) == (request.width as int, request.height as int),
        Operation::Border => framed(
            image,
            request.border_width,
            border_rgb(request.border_color),
            out,
        ),
        Operation::Crop | Operation::Unsharpen | Operation::Blur | Operation::Contrast => false,
    }
}

/// Whether `image` can be resampled to `width` by `height`.
fn can_resize(image: &image::DynamicImage, width: u32, height: u32) -> (r: bool)
    ensures
        r == resizable(*image, width, height),
{
    let (w, h) = extent(image);
    if w > MAX_SAMPLED_SIDE || h > MAX_SAMPLED_SIDE {
        return false;
    }
    assert(w * height <= 0xffff_ffff * 0xffff_ffff && width * height <= 0xffff_ffff * 0xffff_ffff)
        by (nonlinear_arith)
        requires
            0 <= w <= 0xffff_ffff,
            0 <= width <= 0xffff_ffff,
            0 <= height <= 0xffff_ffff,
    ;
    let between: u128 = (w as u128) * (height as u128) * 16;
    let result: u128 = (width as u128) * (height as u128) * 16;
    between <= isize::MAX as u128 && result <= isize::MAX as u128
}

/// Tells whether `operation` on `image` is left to the caller, and as which
/// filter.
pub fn filter_for(
    image: &image::DynamicImage,
    operation: Operation,
    request: &OperationRequest,
) -> (r: Option<Filter>)
    ensures
        r == handed_out(*image, operation, request@),
{
    match operation {
        Operation::Unsharpen => Some(Filter::Unsharpen { threshold: UNSHARPEN_THRESHOLD }),
        Operation::Blur => Some(Filter::Blur),
        Operation::Contrast => Some(Filter::Contrast),
        Operation::Brightness => {
            if !has_float_samples(image) && request.value <= i32::MAX - 0xffff {
                None
            } else {
                Some(Filter::Brightness)
            }
        },
        _ => None,
    }
}

/// Carries out one of the operations that need nothing from outside.
/// Returns `None`, and does nothing, where the operation is none of those,
/// or with these parameters is beyond the limits of the machine.
pub fn transform(
    image: image::DynamicImage,
    operation: Operation,
    request: &OperationRequest,
) -> (r: Option<image::DynamicImage>)
    ensures
        match r {
            Some(out) => direct(image, operation, request@) && in_range(
                image,
                operation,
                request@,
            ) && transformed(image, operation, request@, out),
            None => !direct(image, operation, request@) || !in_range(image, operation, request@),
        },
{
    match operation {
        Operation::Grayscale => Some(grayscale(&image)),
        Operation::Brightness => {
            if !has_float_samples(&image) && request.value <= i32::MAX - 0xffff {
                Some(brighten(&image, request.value))
            } else {
                None
            }
        },
        Operation::HueRotate => Some(huerotate(&image, request.value)),
        Operation::FlipHorizontal => Some(fliph(&image)),
        Operation::FlipVertical => Some(flipv(&image)),
        Operation::Rotate90 => Some(rotate90(&image)),
        Operation::Rotate180 => Some(rotate180(&image)),
        Operation::Rotate270 => Some(rotate270(&image)),
        Operation::Resize => {
            if can_resize(&image, request.width, request.height) {
                Some(resize_exact(&image, request.width, request.height))
            } else {
                None
            }
        },
        Operation::Border => try_add_border(
            image,
            request.border_width,
            request.border_color.clone(),
        ),
        _ => None,
    }
}

/// The colour text `FF0000` is red.
pub proof fn lemma_ff0000_is_red()
    ensures
        border_rgb("FF0000"@) == (255u8, 0u8, 0u8),
{
    reveal_strlit("FF0000");
    let s = "FF0000"@;
    let s5 = s.drop_last();
    let s4 = s5.drop_last();
    let s3 = s4.drop_last();
    let s2 = s3.drop_last();
    let s1 = s2.drop_last();
    let s0 = s1.drop_last();
    assert(s.len() == 6 && s0.len() == 0);
    assert(s[0] == 'F' && s[1] == 'F' && s[2] == '0' && s[3] == '0' && s[4] == '0' && s[5] == '0');
    assert(digit_in('F', 16) == Some(15nat) && digit_in('0', 16) == Some(0nat));
    assert(digits_value(s0, 16) == 0);
    assert(s1.last() == 'F' && digits_value(s1, 16) == 15);
    assert(s2.last() == 'F' && digits_value(s2, 16) == 255);
    assert(s3.last() == '0' && digits_value(s3, 16) == 0xFF0);
    assert(s4.last() == '0' && digits_value(s4, 16) == 0xFF00);
    assert(s5.last() == '0' && digits_value(s5, 16) == 0xFF000);
    assert(s.last() == '0' && digits_value(s, 16) == 0xFF0000);
    assert(all_digits(s, 16));
    assert(leading(s, '#') == 0);
    assert(s.skip(0) =~= s);
    assert(hex_u32(without_leading(s, '#')) == Some(0xFF0000u32));
}

/// A frame of 5 pixels in the colour `FF0000` makes an image wider and
/// higher by 10, opaque red within 5 pixels of every edge, and the source,
/// unchanged in all four channels, from `(5, 5)` on.
pub proof fn lemma_red_frame_of_five(source: image::DynamicImage, out: image::DynamicImage)
    requires
        framed(source, 5, border_rgb("FF0000"@), out),
        image_extent(source).0 >= 0,
        image_extent(source).1 >= 0,
    ensures
        image_extent(out) == (image_extent(source).0 + 10, image_extent(source).1 + 10),
        forall|x: int, y: int|
            0 <= x < image_extent(out).0 && 0 <= y < image_extent(out).1 && (x < 5 || y < 5 || x
                >= image_extent(source).0 + 5 || y >= image_extent(source).1 + 5)
                ==> #[trigger] pixel_at(out, x, y) == (255u8, 0u8, 0u8, 255u8),
        forall|x: int, y: int|
            0 <= x < image_extent(source).0 && 0 <= y < image_extent(source).1 ==> pixel_at(
                out,
                x + 5,
                y + 5,
            ) == #[trigger] pixel_at(source, x, y),
{
    lemma_ff0000_is_red();
    assert forall|x: int, y: int|
        0 <= x < image_extent(source).0 && 0 <= y < image_extent(source).1 implies pixel_at(
        out,
        x + 5,
        y + 5,
    ) == #[trigger] pixel_at(source, x, y) by {
        let _ = pixel_at(out, x + 5, y + 5);
    }
}

/// A frame of width 0 changes nothing that can be seen: the result has the
/// extent of the source and, pixel for pixel, its content.
pub proof fn lemma_no_border(
    source: image::DynamicImage,
    color: (u8, u8, u8),
    out: image::DynamicImage,
)
    requires
        framed(source, 0, color, out),
    ensures
        image_extent(out) == image_extent(source),
        forall|x: int, y: int|
            0 <= x < image_extent(source).0 && 0 <= y < image_extent(source).1
                ==> #[trigger] pixel_at(out, x, y) == pixel_at(source, x, y),
{
}

/// Around an image of `w` by `h` a frame of `b` pixels gives an image of
/// `w + 2b` by `h + 2b`; all of it within `b` pixels of an edge has the
/// colour, opaque, and the rest is the source moved by `(b, b)`.
pub proof fn lemma_frame(
    source: image::DynamicImage,
    border_width: u32,
    color: (u8, u8, u8),
    out: image::DynamicImage,
    x: int,
    y: int,
)
    requires
        framed(source, border_width, color, out),
        0 <= x < image_extent(out).0,
        0 <= y < image_extent(out).1,
        image_extent(source).0 >= 0,
        image_extent(source).1 >= 0,
    ensures
        image_extent(out).0 == image_extent(source).0 + 2 * border_width,
        image_extent(out).1 == image_extent(source).1 + 2 * border_width,
        (x < border_width || y < border_width || x >= image_extent(out).0 - border_width || y
            >= image_extent(out).1 - border_width) ==> pixel_at(out, x, y) == (
            color.0,
            color.1,
            color.2,
            255u8,
        ),
        (border_width <= x < image_extent(out).0 - border_width && border_width <= y
            < image_extent(out).1 - border_width) ==> pixel_at(out, x, y) == pixel_at(
            source,
            x - border_width,
            y - border_width,
        ),
{
    let _ = pixel_at(out, x, y);
}

} // verus!
