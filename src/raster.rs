use vstd::prelude::*;
use image::RgbImage;
use crate::color::{color_of, red_of};
use crate::config::RenderConfig;
use vstd::slice::slice_subrange;

verus! {

/// An RGB image of the `image` crate, held for the render.
#[verifier::external_body]
pub struct Canvas {
    image: RgbImage,
}

/// The subpixel bytes that an RGB image holds: row by row, left to right, three per pixel.
pub uninterp spec fn image_samples(img: Canvas) -> Seq<u8>;

/// The width and height that an RGB image was made with.
pub uninterp spec fn image_size(img: Canvas) -> (u32, u32);

/// Position of the first byte of pixel `(x, y)` in a row-major RGB buffer.
pub open spec fn pixel_start(width: nat, x: nat, y: nat) -> int {
    (3 * (y * width + x)) as int
}

/// The three bytes of pixel `(x, y)`.
pub open spec fn pixel_at(samples: Seq<u8>, width: nat, x: nat, y: nat) -> Seq<u8> {
    samples.subrange(pixel_start(width, x, y), pixel_start(width, x, y) + 3)
}

/// The colour of an escape count, as a sequence of channels.
pub open spec fn color_seq(b: u8) -> Seq<u8> {
    seq![red_of(b), b, b]
}

/// An image of `width` by `height` pixels whose buffer holds exactly those pixels.
pub open spec fn image_wf(img: Canvas, width: nat, height: nat) -> bool {
    &&& image_size(img).0 == width
    &&& image_size(img).1 == height
    &&& image_samples(img).len() == 3 * width * height
}

/// Relies on image::ImageBuffer::new: a zeroed buffer of three bytes per pixel.
/// It panics when `3 * width`, or that times `height`, overflows `usize`.
#[verifier::external_body]
fn new_image(width: u32, height: u32) -> (r: Canvas)
    requires
        3 * (width as nat) <= usize::MAX,
        3 * (width as nat) * (height as nat) <= usize::MAX,
    ensures
        image_size(r) == (width, height),
        image_samples(r) == Seq::new((3 * (width as nat) * (height as nat)) as nat, |_i: int| 0u8),
{
    Canvas { image: RgbImage::new(width, height) }
}

/// Relies on image::ImageBuffer::into_raw: the buffer itself, handed over.
#[verifier::external_body]
fn raw_samples(img: Canvas) -> (r: Vec<u8>)
    ensures
        r@ == image_samples(img),
{
    img.image.into_raw()
}

/// Relies on image::ImageBuffer::put_pixel: it writes the three channels at
/// `3 * (y * width + x)` and panics outside the image.
#[verifier::external_body]
fn put_rgb(img: &mut Canvas, x: u32, y: u32, rgb: [u8; 3])
    requires
        x < image_size(*old(img)).0,
        y < image_size(*old(img)).1,
    ensures
        image_size(*final(img)) == image_size(*old(img)),
        image_samples(*final(img)) == image_samples(*old(img)).update(
            pixel_start(image_size(*old(img)).0 as nat, x as nat, y as nat),
            rgb[0],
        ).update(pixel_start(image_size(*old(img)).0 as nat, x as nat, y as nat) + 1, rgb[1]).update(
            pixel_start(image_size(*old(img)).0 as nat, x as nat, y as nat) + 2,
            rgb[2],
        ),
{
    img.image.put_pixel(x, y, image::Rgb(rgb))
}

/// Every pixel of a `width` by `height` image lies inside its buffer.
pub proof fn lemma_pixel_in_bounds(width: nat, height: nat, x: nat, y: nat)
    requires
        x < width,
        y < height,
    ensures
        pixel_start(width, x, y) + 3 <= 3 * width * height,
{
    assert(3 * (y * width + x) + 3 <= 3 * width * height) by (nonlinear_arith)
        requires
            x < width,
            y < height,
    ;
}

/// Two different pixels of one row width own disjoint bytes.
pub proof fn lemma_pixels_disjoint(width: nat, x1: nat, y1: nat, x2: nat, y2: nat)
    requires
        x1 < width,
        x2 < width,
        x1 != x2 || y1 != y2,
    ensures
        pixel_start(width, x1, y1) + 3 <= pixel_start(width, x2, y2) || pixel_start(width, x2, y2)
            + 3 <= pixel_start(width, x1, y1),
{
    assert(y1 * width + x1 != y2 * width + x2) by (nonlinear_arith)
        requires
            x1 < width,
            x2 < width,
            x1 != x2 || y1 != y2,
    ;
}

/// Every byte of a `width` by `height` raster belongs to a pixel of the image, and
/// by `lemma_pixels_disjoint` to no other: the raster is exactly its pixels.
pub proof fn lemma_sample_owned_by_pixel(width: nat, height: nat, s: nat)
    requires
        s < 3 * width * height,
    ensures
        (s / 3) % width < width,
        (s / 3) / width < height,
        pixel_start(width, (s / 3) % width, (s / 3) / width) <= s < pixel_start(
            width,
            (s / 3) % width,
            (s / 3) / width,
        ) + 3,
{
    let p = s / 3;
    assert(width > 0) by (nonlinear_arith)
        requires
            s < 3 * width * height,
    ;
    assert(p < width * height) by (nonlinear_arith)
        requires
            s < 3 * width * height,
            p == s / 3,
    ;
    assert(p == (p / width) * width + p % width) by (nonlinear_arith)
        requires
            width > 0,
    ;
    assert(p / width < height) by (nonlinear_arith)
        requires
            p < width * height,
            width > 0,
    ;
}

/// Paints column `x` of the image: pixel `(x, y)` takes the colour of `counts[y]`.
/// Every other pixel keeps its bytes.
pub fn fill_column(img: &mut Canvas, x: u32, counts: &[u8])
    requires
        image_wf(*old(img), image_size(*old(img)).0 as nat, image_size(*old(img)).1 as nat),
        x < image_size(*old(img)).0,
        counts.len() == image_size(*old(img)).1,
    ensures
        image_size(*final(img)) == image_size(*old(img)),
        image_samples(*final(img)).len() == image_samples(*old(img)).len(),
        forall|px: nat, py: nat|
            px < image_size(*old(img)).0 && py < image_size(*old(img)).1 ==> #[trigger] pixel_at(
                image_samples(*final(img)),
                image_size(*old(img)).0 as nat,
                px,
                py,
            ) == if px == x {
                color_seq(counts@[py as int])
            } else {
                pixel_at(image_samples(*old(img)), image_size(*old(img)).0 as nat, px, py)
            },
{
    let ghost w = image_size(*old(img)).0 as nat;
    let ghost h = image_size(*old(img)).1 as nat;
    let ghost start = image_samples(*old(img));
    let mut y: u32 = 0;
    while (y as usize) < counts.len()
        invariant
            image_size(*img) == image_size(*old(img)),
            w == image_size(*img).0,
            h == image_size(*img).1,
            x < w,
            counts.len() == h,
            y <= h,
            image_samples(*img).len() == 3 * w * h,
            forall|px: nat, py: nat|
                px < w && py < h ==> #[trigger] pixel_at(image_samples(*img), w, px, py) == if px
                    == x && py < y {
                    color_seq(counts@[py as int])
                } else {
                    pixel_at(start, w, px, py)
                },
        decreases h - y,
    {
        let ghost before = image_samples(*img);
        let rgb = color_of(counts[y as usize]);
        put_rgb(img, x, y, rgb);
        proof {
            let after = image_samples(*img);
            let s = pixel_start(w, x as nat, y as nat);
            lemma_pixel_in_bounds(w, h, x as nat, y as nat);
            assert forall|px: nat, py: nat| px < w && py < h implies #[trigger] pixel_at(
                after,
                w,
                px,
                py,
            ) == if px == x && py < y + 1 {
                color_seq(counts@[py as int])
            } else {
                pixel_at(start, w, px, py)
            } by {
                lemma_pixel_in_bounds(w, h, px, py);
                if px == x && py == y {
                    assert(pixel_at(after, w, px, py) =~= color_seq(counts@[py as int]));
                } else {
                    lemma_pixels_disjoint(w, px, py, x as nat, y as nat);
                    assert(pixel_at(after, w, px, py) =~= pixel_at(before, w, px, py));
                }
            }
        }
        y = y + 1;
    }
}

/// An all-black image of the configured size.
pub fn blank_canvas(config: &RenderConfig) -> (r: Canvas)
    requires
        config.wf(),
    ensures
        image_wf(r, config.spec_width(), config.spec_height()),
        forall|i: int| 0 <= i < image_samples(r).len() ==> #[trigger] image_samples(r)[i] == 0,
{
    proof {
        config.lemma_wf();
    }
    new_image(config.width(), config.height())
}

/// The raw raster of an image: its bytes, row by row, three per pixel.
pub fn into_samples(img: Canvas) -> (r: Vec<u8>)
    ensures
        r@ == image_samples(img),
{
    raw_samples(img)
}

/// Renders an image from the escape counts of its pixels, given column by column:
/// `counts[x * height + y]` belongs to pixel `(x, y)`. Every pixel of the result has
/// the colour of its own count, and the buffer holds those pixels and nothing else.
pub fn render(config: &RenderConfig, counts: &Vec<u8>) -> (r: Canvas)
    requires
        config.wf(),
        counts.len() == config.spec_width() * config.spec_height(),
    ensures
        image_wf(r, config.spec_width(), config.spec_height()),
        forall|x: nat, y: nat|
            x < config.spec_width() && y < config.spec_height() ==> #[trigger] pixel_at(
                image_samples(r),
                config.spec_width(),
                x,
                y,
            ) == color_seq(counts@[(x * config.spec_height() + y) as int]),
{
    let ghost w = config.spec_width();
    let ghost h = config.spec_height();
    proof {
        config.lemma_wf();
    }
    let mut img = new_image(config.width(), config.height());
    let height: usize = config.height() as usize;
    let mut x: u32 = 0;
    while x < config.width()
        invariant
            config.wf(),
            w == config.spec_width(),
            h == config.spec_height(),
            height == h,
            x <= w,
            counts.len() == w * h,
            image_wf(img, w, h),
            forall|px: nat, py: nat|
                px < x && py < h ==> #[trigger] pixel_at(image_samples(img), w, px, py) == color_seq(
                    counts@[(px * h + py) as int],
                ),
        decreases w - x,
    {
        proof {
            assert((x as nat + 1) * h <= w * h) by (nonlinear_arith)
                requires
                    x < w,
            ;
            assert((x as nat + 1) * h == x as nat * h + h) by (nonlinear_arith);
        }
        let first: usize = x as usize * height;
        let column = slice_subrange(counts.as_slice(), first, first + height);
        let ghost before = image_samples(img);
        fill_column(&mut img, x, column);
        proof {
            assert forall|px: nat, py: nat| px < x + 1 && py < h implies #[trigger] pixel_at(
                image_samples(img),
                w,
                px,
                py,
            ) == color_seq(counts@[(px * h + py) as int]) by {
                if px < x {
                    assert(pixel_at(before, w, px, py) == color_seq(counts@[(px * h + py) as int]));
                }
            }
        }
        x = x + 1;
    }
    img
}

} // verus!
