//! The two image buffers this crate produces, and what it assumes of them.
//!
//! Both keep their pixels in an `image::ImageBuffer` over a `Vec<u8>`. Verus
//! cannot look inside that buffer, nor declare its type, which is bounded by
//! the `image::Pixel` trait. So each image is a struct that hides the buffer
//! from the verifier, the buffer's size and samples are named here, and each
//! operation the crate needs is given a contract over those names.
//! Everything else in the crate is proved against these contracts.

use vstd::prelude::*;

verus! {

/// What an image is to the contracts: its size and its samples in storage
/// order (row after row, pixel after pixel, channel after channel).
pub struct Raster {
    pub width: nat,
    pub height: nat,
    pub samples: Seq<u8>,
}

impl Raster {
    /// Whether `(x, y)` is a pixel of the image.
    pub open spec fn in_bounds(self, x: int, y: int) -> bool {
        0 <= x < self.width && 0 <= y < self.height
    }

    /// Whether the image holds exactly `channels` samples for each pixel.
    pub open spec fn filled(self, channels: int) -> bool {
        self.samples.len() == self.width * self.height * channels
    }

    /// The sample of pixel `(x, y)` of a one-channel image.
    pub open spec fn gray_at(self, x: int, y: int) -> u8 {
        self.samples[sample_index(self.width as int, 1, x, y)]
    }

    /// The four samples of pixel `(x, y)` of a four-channel image.
    pub open spec fn rgba_at(self, x: int, y: int) -> Seq<u8> {
        let first = sample_index(self.width as int, 4, x, y);
        self.samples.subrange(first, first + 4)
    }
}

/// Index of the first sample of pixel `(x, y)` in an image `width` pixels wide
/// with `channels` samples per pixel.
pub open spec fn sample_index(width: int, channels: int, x: int, y: int) -> int {
    (y * width + x) * channels
}

/// The samples of a pixel inside the image lie inside the sample sequence.
pub proof fn lemma_sample_index_bounds(width: int, height: int, channels: int, x: int, y: int)
    requires
        0 <= x < width,
        0 <= y < height,
        0 < channels,
    ensures
        0 <= sample_index(width, channels, x, y),
        sample_index(width, channels, x, y) + channels <= width * height * channels,
{
    assert(0 <= y * width + x && (y * width + x) + 1 <= width * height) by (nonlinear_arith)
        requires
            0 <= x < width,
            0 <= y < height,
    ;
    assert(0 <= (y * width + x) * channels && ((y * width + x) + 1) * channels <= width * height
        * channels) by (nonlinear_arith)
        requires
            0 <= y * width + x,
            (y * width + x) + 1 <= width * height,
            0 < channels,
    ;
    assert(((y * width + x) + 1) * channels == (y * width + x) * channels + channels)
        by (nonlinear_arith);
}

/// The samples of two different pixels of one image do not overlap.
pub proof fn lemma_sample_index_injective(
    width: int,
    channels: int,
    x: int,
    y: int,
    a: int,
    b: int,
)
    requires
        0 <= x < width,
        0 <= a < width,
        0 < channels,
        x != a || y != b,
    ensures
        sample_index(width, channels, x, y) + channels <= sample_index(width, channels, a, b)
            || sample_index(width, channels, a, b) + channels <= sample_index(
            width,
            channels,
            x,
            y,
        ),
{
    let p = y * width + x;
    let q = b * width + a;
    assert(p != q) by (nonlinear_arith)
        requires
            0 <= x < width,
            0 <= a < width,
            x != a || y != b,
            p == y * width + x,
            q == b * width + a,
    ;
    assert(p < q ==> p * channels + channels <= q * channels) by (nonlinear_arith)
        requires
            0 < channels,
    ;
    assert(q < p ==> q * channels + channels <= p * channels) by (nonlinear_arith)
        requires
            0 < channels,
    ;
}

/// Every sample of a filled image belongs to exactly one channel of one
/// pixel inside it.
pub proof fn lemma_sample_index_split(width: int, height: int, channels: int, i: int)
    requires
        0 <= i < width * height * channels,
        0 <= width,
        0 <= height,
        0 < channels,
    ensures
        0 < width,
        0 <= (i / channels) % width < width,
        0 <= (i / channels) / width < height,
        0 <= i % channels < channels,
        sample_index(width, channels, (i / channels) % width, (i / channels) / width) + i
            % channels == i,
{
    assert(0 < width) by (nonlinear_arith)
        requires
            0 <= i < width * height * channels,
            0 <= width,
    ;
    let p = i / channels;
    vstd::arithmetic::div_mod::lemma_fundamental_div_mod(i, channels);
    vstd::arithmetic::div_mod::lemma_mod_bound(i, channels);
    assert(0 <= p < width * height) by (nonlinear_arith)
        requires
            i == channels * p + i % channels,
            0 <= i % channels < channels,
            0 <= i < width * height * channels,
    ;
    vstd::arithmetic::div_mod::lemma_fundamental_div_mod(p, width);
    vstd::arithmetic::div_mod::lemma_mod_bound(p, width);
    assert(0 <= p / width < height) by (nonlinear_arith)
        requires
            p == width * (p / width) + p % width,
            0 <= p % width < width,
            0 <= p < width * height,
    ;
    assert((p / width) * width + p % width == p) by (nonlinear_arith)
        requires
            p == width * (p / width) + p % width,
    ;
    assert(p * channels + i % channels == i) by (nonlinear_arith)
        requires
            i == channels * p + i % channels,
    ;
}

/// An 8-bit RGBA image: four samples per pixel, in the order red, green,
/// blue, alpha. Holds an `image::RgbaImage`, which the verifier does not
/// see.
#[verifier::external_body]
pub struct RgbaImage {
    pub(crate) buffer: image::RgbaImage,
}

/// An 8-bit grayscale image: one luma sample per pixel. Holds an
/// `image::GrayImage`, which the verifier does not see.
#[verifier::external_body]
pub struct GrayImage {
    pub(crate) buffer: image::GrayImage,
}

/// Width and height of an RGBA image, as `ImageBuffer::dimensions` reports them.
pub uninterp spec fn rgba_size(img: RgbaImage) -> (u32, u32);

/// The samples an RGBA image holds, as `ImageBuffer::as_raw` exposes them.
pub uninterp spec fn rgba_samples(img: RgbaImage) -> Seq<u8>;

/// Width and height of a grayscale image, as `ImageBuffer::dimensions` reports them.
pub uninterp spec fn gray_size(img: GrayImage) -> (u32, u32);

/// The samples a grayscale image holds, as `ImageBuffer::as_raw` exposes them.
pub uninterp spec fn gray_samples(img: GrayImage) -> Seq<u8>;

impl View for RgbaImage {
    type V = Raster;

    open spec fn view(&self) -> Raster {
        Raster {
            width: rgba_size(*self).0 as nat,
            height: rgba_size(*self).1 as nat,
            samples: rgba_samples(*self),
        }
    }
}

impl View for GrayImage {
    type V = Raster;

    open spec fn view(&self) -> Raster {
        Raster {
            width: gray_size(*self).0 as nat,
            height: gray_size(*self).1 as nat,
            samples: gray_samples(*self),
        }
    }
}

/// Calls `ImageBuffer::new` for an RGBA image. The crate allocates
/// `4 * width * height` zeroed samples. It panics when `4 * width` or that
/// count overflows `usize`, and the vector it allocates panics when the
/// count is more than `isize::MAX`; the precondition rules out all three.
#[verifier::external_body]
pub(crate) fn rgba_new(width: u32, height: u32) -> (img: RgbaImage)
    requires
        4 * width <= usize::MAX,
        4 * width * height <= isize::MAX,
    ensures
        rgba_size(img) == (width, height),
        rgba_samples(img) == Seq::new((4 * width * height) as nat, |i: int| 0u8),
{
    RgbaImage { buffer: image::RgbaImage::new(width, height) }
}

/// Calls `ImageBuffer::put_pixel` on an RGBA image. The crate overwrites the
/// four samples of pixel `(x, y)` and nothing else, and panics when `(x, y)`
/// lies outside the image, which the precondition rules out.
#[verifier::external_body]
pub(crate) fn rgba_put_pixel(img: &mut RgbaImage, x: u32, y: u32, pixel: [u8; 4])
    requires
        x < rgba_size(*old(img)).0,
        y < rgba_size(*old(img)).1,
    ensures
        rgba_size(*final(img)) == rgba_size(*old(img)),
        rgba_samples(*final(img)).len() == rgba_samples(*old(img)).len(),
        forall|i: int|
            0 <= i < rgba_samples(*old(img)).len() ==> #[trigger] rgba_samples(*final(img))[i] == {
                let k = i - sample_index(rgba_size(*old(img)).0 as int, 4, x as int, y as int);
                if 0 <= k < 4 {
                    pixel@[k]
                } else {
                    rgba_samples(*old(img))[i]
                }
            },
{
    img.buffer.put_pixel(x, y, image::Rgba(pixel));
}

/// Calls `ImageBuffer::dimensions` on an RGBA image.
#[verifier::external_body]
pub(crate) fn rgba_dimensions(img: &RgbaImage) -> (size: (u32, u32))
    ensures
        size == rgba_size(*img),
{
    img.buffer.dimensions()
}

/// Calls `ImageBuffer::into_raw` on an RGBA image, which hands out the
/// sample vector unchanged.
#[verifier::external_body]
pub(crate) fn rgba_into_raw(img: RgbaImage) -> (raw: Vec<u8>)
    ensures
        raw@ == rgba_samples(img),
{
    img.buffer.into_raw()
}

/// Calls `ImageBuffer::new` for a grayscale image. The crate allocates
/// `width * height` zeroed samples. It panics when that count overflows
/// `usize`, and the vector it allocates panics when the count is more than
/// `isize::MAX`; the precondition rules out both.
#[verifier::external_body]
pub(crate) fn gray_new(width: u32, height: u32) -> (img: GrayImage)
    requires
        width * height <= isize::MAX,
    ensures
        gray_size(img) == (width, height),
        gray_samples(img) == Seq::new((width * height) as nat, |i: int| 0u8),
{
    GrayImage { buffer: image::GrayImage::new(width, height) }
}

/// Calls `ImageBuffer::put_pixel` on a grayscale image. The crate overwrites
/// the one sample of pixel `(x, y)` and nothing else, and panics when `(x, y)`
/// lies outside the image, which the precondition rules out.
#[verifier::external_body]
pub(crate) fn gray_put_pixel(img: &mut GrayImage, x: u32, y: u32, luma: u8)
    requires
        x < gray_size(*old(img)).0,
        y < gray_size(*old(img)).1,
    ensures
        gray_size(*final(img)) == gray_size(*old(img)),
        gray_samples(*final(img)) == gray_samples(*old(img)).update(
            sample_index(gray_size(*old(img)).0 as int, 1, x as int, y as int),
            luma,
        ),
{
    img.buffer.put_pixel(x, y, image::Luma([luma]));
}

/// Calls `ImageBuffer::dimensions` on a grayscale image.
#[verifier::external_body]
pub(crate) fn gray_dimensions(img: &GrayImage) -> (size: (u32, u32))
    ensures
        size == gray_size(*img),
{
    img.buffer.dimensions()
}

/// Calls `len` on what `ImageBuffer::as_raw` gives for a grayscale image:
/// the number of samples held.
#[verifier::external_body]
pub(crate) fn gray_sample_count(img: &GrayImage) -> (count: usize)
    ensures
        count == gray_samples(*img).len(),
{
    img.buffer.as_raw().len()
}

/// Calls `ImageBuffer::into_raw` on a grayscale image, which hands out the
/// sample vector unchanged.
#[verifier::external_body]
pub(crate) fn gray_into_raw(img: GrayImage) -> (raw: Vec<u8>)
    ensures
        raw@ == gray_samples(img),
{
    img.buffer.into_raw()
}

/// Sets pixel `(x, y)` of a grayscale image and leaves every other pixel as
/// it was.
pub(crate) fn gray_set(img: &mut GrayImage, x: u32, y: u32, luma: u8)
    requires
        old(img)@.in_bounds(x as int, y as int),
        old(img)@.filled(1),
    ensures
        final(img)@.width == old(img)@.width,
        final(img)@.height == old(img)@.height,
        final(img)@.filled(1),
        final(img)@.gray_at(x as int, y as int) == luma,
        forall|a: int, b: int|
            old(img)@.in_bounds(a, b) && (a != x || b != y) ==> #[trigger] final(img)@.gray_at(a, b)
                == old(img)@.gray_at(a, b),
{
    let ghost before = img@;
    proof {
        lemma_sample_index_bounds(
            before.width as int,
            before.height as int,
            1,
            x as int,
            y as int,
        );
    }
    gray_put_pixel(img, x, y, luma);
    assert forall|a: int, b: int| before.in_bounds(a, b) && (a != x || b != y) implies #[trigger] img@.gray_at(
        a,
        b,
    ) == before.gray_at(a, b) by {
        lemma_sample_index_bounds(before.width as int, before.height as int, 1, a, b);
        lemma_sample_index_injective(before.width as int, 1, a, b, x as int, y as int);
    }
}

/// Sets pixel `(x, y)` of an RGBA image and leaves every other pixel as it
/// was.
pub(crate) fn rgba_set(img: &mut RgbaImage, x: u32, y: u32, pixel: [u8; 4])
    requires
        old(img)@.in_bounds(x as int, y as int),
        old(img)@.filled(4),
    ensures
        final(img)@.width == old(img)@.width,
        final(img)@.height == old(img)@.height,
        final(img)@.filled(4),
        final(img)@.rgba_at(x as int, y as int) == pixel@,
        forall|a: int, b: int|
            old(img)@.in_bounds(a, b) && (a != x || b != y) ==> #[trigger] final(img)@.rgba_at(a, b)
                == old(img)@.rgba_at(a, b),
{
    let ghost before = img@;
    proof {
        lemma_sample_index_bounds(
            before.width as int,
            before.height as int,
            4,
            x as int,
            y as int,
        );
    }
    rgba_put_pixel(img, x, y, pixel);
    assert(img@.rgba_at(x as int, y as int) =~= pixel@);
    assert forall|a: int, b: int| before.in_bounds(a, b) && (a != x || b != y) implies #[trigger] img@.rgba_at(
        a,
        b,
    ) == before.rgba_at(a, b) by {
        lemma_sample_index_bounds(before.width as int, before.height as int, 4, a, b);
        lemma_sample_index_injective(before.width as int, 4, a, b, x as int, y as int);
        assert(img@.rgba_at(a, b) =~= before.rgba_at(a, b));
    }
}

impl RgbaImage {
    /// Width in pixels.
    pub fn width(&self) -> (w: u32)
        ensures
            w == self@.width,
    {
        rgba_dimensions(self).0
    }

    /// Height in pixels.
    pub fn height(&self) -> (h: u32)
        ensures
            h == self@.height,
    {
        rgba_dimensions(self).1
    }

    /// Gives up the image for its samples in storage order.
    pub fn into_raw(self) -> (raw: Vec<u8>)
        ensures
            raw@ == self@.samples,
    {
        rgba_into_raw(self)
    }
}

impl GrayImage {
    /// Width in pixels.
    pub fn width(&self) -> (w: u32)
        ensures
            w == self@.width,
    {
        gray_dimensions(self).0
    }

    /// Height in pixels.
    pub fn height(&self) -> (h: u32)
        ensures
            h == self@.height,
    {
        gray_dimensions(self).1
    }

    /// Gives up the image for its samples in storage order.
    pub fn into_raw(self) -> (raw: Vec<u8>)
        ensures
            raw@ == self@.samples,
    {
        gray_into_raw(self)
    }
}

} // verus!
