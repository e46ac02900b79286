//! Unpacking one packed 4:2:2 plane into an RGBA image and a grayscale
//! image.
//!
//! A plane row is a run of four-byte groups `[U, Y0, V, Y1]`: two luma
//! samples that share one chroma pair. Each group becomes two neighbouring
//! pixels. A group that does not lie wholly inside the buffer is passed over
//! and its two pixels keep the value of a fresh image, all zero.

use crate::color::{rgb_of, yuv_to_rgb};
use crate::raster::{
    gray_new, gray_set, lemma_sample_index_bounds, lemma_sample_index_split, rgba_new, rgba_set,
    sample_index, GrayImage, Raster, RgbaImage,
};
use vstd::prelude::*;

verus! {

/// One plane of a captured frame, borrowed for the length of the capture
/// callback. `bytes` may be shorter than `stride * height`.
pub struct RawPlane<'a> {
    pub stride: u32,
    pub height: u32,
    pub bytes: &'a [u8],
}

/// What a plane is to the contracts.
pub struct Plane {
    pub stride: nat,
    pub height: nat,
    pub bytes: Seq<u8>,
}

impl<'a> View for RawPlane<'a> {
    type V = Plane;

    open spec fn view(&self) -> Plane {
        Plane { stride: self.stride as nat, height: self.height as nat, bytes: self.bytes@ }
    }
}

impl Plane {
    /// Width of the images made from this plane, in pixels: two bytes per
    /// pixel.
    pub open spec fn width(self) -> nat {
        self.stride / 2
    }

    /// Number of pixel pairs in one image row.
    pub open spec fn pairs(self) -> nat {
        self.width() / 2
    }

    /// Whether both images made from this plane can be held in memory: the
    /// samples of the larger one, four to a pixel, can be counted and make
    /// up no more than the largest allocation.
    pub open spec fn fits(self) -> bool {
        4 * self.width() <= usize::MAX && 4 * self.width() * self.height <= isize::MAX
    }

    /// The column of four-byte groups from which pair `pair` of an image row
    /// is read: the pair's own index, or with `mirror` the index reflected
    /// over the image width.
    pub open spec fn source_column(self, pair: int, mirror: bool) -> int {
        if mirror {
            self.width() - 1 - pair
        } else {
            pair
        }
    }

    /// Offset of the first byte of the group in column `column` of row `row`.
    pub open spec fn group_offset(self, row: int, column: int) -> int {
        row * self.stride + column * 4
    }

    /// Whether the four bytes of that group all lie inside the buffer.
    pub open spec fn has_group(self, row: int, column: int) -> bool {
        self.group_offset(row, column) + 3 < self.bytes.len()
    }

    /// The four bytes `[U, Y0, V, Y1]` of that group.
    pub open spec fn group(self, row: int, column: int) -> Seq<u8> {
        self.bytes.subrange(self.group_offset(row, column), self.group_offset(row, column) + 4)
    }

    /// Whether the conversion writes pixel `(x, y)`: it belongs to a pair of
    /// the image, and the pair's group lies inside the buffer.
    pub open spec fn writes(self, mirror: bool, x: int, y: int) -> bool {
        &&& 0 <= y < self.height
        &&& 0 <= x < 2 * self.pairs()
        &&& self.has_group(y, self.source_column(x / 2, mirror))
    }

    /// The group that pixel `(x, y)` is read from.
    pub open spec fn group_of(self, mirror: bool, x: int, y: int) -> Seq<u8> {
        self.group(y, self.source_column(x / 2, mirror))
    }

    /// The grayscale value of pixel `(x, y)`: the luma sample as it stands in
    /// the plane, `Y0` for the left pixel of a pair and `Y1` for the right
    /// one, or zero where nothing is written.
    pub open spec fn gray_pixel(self, mirror: bool, x: int, y: int) -> u8 {
        if self.writes(mirror, x, y) {
            self.group_of(mirror, x, y)[1 + 2 * (x % 2)]
        } else {
            0
        }
    }

    /// The RGBA value of pixel `(x, y)`: the colour of its luma sample with
    /// the chroma pair of its group and full alpha, or four zeros where
    /// nothing is written.
    pub open spec fn rgba_pixel(self, mirror: bool, x: int, y: int) -> Seq<u8> {
        if self.writes(mirror, x, y) {
            let group = self.group_of(mirror, x, y);
            rgb_of(group[1 + 2 * (x % 2)], group[0], group[2]).push(255)
        } else {
            seq![0u8, 0u8, 0u8, 0u8]
        }
    }

    /// The grayscale image of this plane.
    pub open spec fn gray_image(self, mirror: bool) -> Raster {
        Raster {
            width: self.width(),
            height: self.height,
            samples: Seq::new(
                self.width() * self.height,
                |i: int| self.gray_pixel(mirror, i % (self.width() as int), i / (self.width() as int)),
            ),
        }
    }

    /// The RGBA image of this plane.
    pub open spec fn rgba_image(self, mirror: bool) -> Raster {
        Raster {
            width: self.width(),
            height: self.height,
            samples: Seq::new(
                self.width() * self.height * 4,
                |i: int|
                    self.rgba_pixel(
                        mirror,
                        (i / 4) % (self.width() as int),
                        (i / 4) / (self.width() as int),
                    )[i % 4],
            ),
        }
    }
}

/// Reads the group in column `column` of row `row`, if the buffer holds all
/// four of its bytes.
fn read_group(plane: &RawPlane, row: u32, column: u32) -> (group: Option<[u8; 4]>)
    ensures
        group is Some == plane@.has_group(row as int, column as int),
        group is Some ==> group->0@ == plane@.group(row as int, column as int),
{
    let len: u64 = plane.bytes.len() as u64;
    assert(row * plane.stride <= 0xffff_ffff * 0xffff_ffff) by (nonlinear_arith)
        requires
            row <= 0xffff_ffff,
            plane.stride <= 0xffff_ffff,
    ;
    let base: u64 = row as u64 * plane.stride as u64;
    let within: u64 = column as u64 * 4;
    if base >= len || within + 3 >= len - base {
        return None;
    }
    let first: usize = (base + within) as usize;
    let group = [
        plane.bytes[first],
        plane.bytes[first + 1],
        plane.bytes[first + 2],
        plane.bytes[first + 3],
    ];
    assert(group@ =~= plane@.group(row as int, column as int));
    Some(group)
}

/// Whether the two images of a plane with this stride and height can be held
/// in memory.
pub fn plane_fits(stride: u32, height: u32) -> (fits: bool)
    ensures
        fits == (Plane { stride: stride as nat, height: height as nat, bytes: Seq::empty() }).fits(),
{
    let width: u64 = (stride / 2) as u64;
    assert(width * height <= 0x7fff_ffff * 0xffff_ffff) by (nonlinear_arith)
        requires
            width <= 0x7fff_ffff,
            height <= 0xffff_ffff,
    ;
    let pixels: u64 = width * height as u64;
    assert(4 * width * height == 4 * (width * height)) by (nonlinear_arith);
    4 * width <= usize::MAX as u64 && pixels <= (isize::MAX as u64) / 4
}

/// Whether pixel `(x, y)` lies before pair `pair` of row `row` in the order
/// in which the conversion visits the image.
spec fn visited(x: int, y: int, row: int, pair: int) -> bool {
    y < row || (y == row && x < 2 * pair)
}

/// Converts one plane. Both images are `stride / 2` pixels wide and `height`
/// pixels high. The images must fit in memory.
pub fn convert(plane: &RawPlane, mirror: bool) -> (out: (RgbaImage, GrayImage))
    requires
        plane@.fits(),
    ensures
        out.0@ == plane@.rgba_image(mirror),
        out.1@ == plane@.gray_image(mirror),
        out.0@.width == plane.stride / 2 && out.0@.height == plane.height,
        out.1@.width == plane.stride / 2 && out.1@.height == plane.height,
{
    let width: u32 = plane.stride / 2;
    let height: u32 = plane.height;
    let pairs: u32 = width / 2;
    let ghost p = plane@;
    assert(width * height <= 4 * width * height) by (nonlinear_arith);
    let mut rgba = rgba_new(width, height);
    let mut gray = gray_new(width, height);
    assert(rgba@.filled(4) && gray@.filled(1)) by (nonlinear_arith)
        requires
            rgba@.samples.len() == 4 * width * height,
            gray@.samples.len() == width * height,
            rgba@.width == width,
            rgba@.height == height,
            gray@.width == width,
            gray@.height == height,
    ;
    assert forall|x: int, y: int| rgba@.in_bounds(x, y) implies #[trigger] rgba@.rgba_at(x, y)
        == seq![0u8, 0u8, 0u8, 0u8] by {
        lemma_sample_index_bounds(width as int, height as int, 4, x, y);
        assert(rgba@.rgba_at(x, y) =~= seq![0u8, 0u8, 0u8, 0u8]);
    }
    assert forall|x: int, y: int| gray@.in_bounds(x, y) implies #[trigger] gray@.gray_at(x, y)
        == 0 by {
        lemma_sample_index_bounds(width as int, height as int, 1, x, y);
    }
    let mut row: u32 = 0;
    while row < height
        invariant
            p == plane@,
            width == plane.stride / 2,
            height == plane.height,
            pairs == width / 2,
            row <= height,
            rgba@.width == width && rgba@.height == height && rgba@.filled(4),
            gray@.width == width && gray@.height == height && gray@.filled(1),
            forall|x: int, y: int|
                rgba@.in_bounds(x, y) ==> #[trigger] rgba@.rgba_at(x, y) == (if visited(
                    x,
                    y,
                    row as int,
                    0,
                ) {
                    p.rgba_pixel(mirror, x, y)
                } else {
                    seq![0u8, 0u8, 0u8, 0u8]
                }),
            forall|x: int, y: int|
                gray@.in_bounds(x, y) ==> #[trigger] gray@.gray_at(x, y) == (if visited(
                    x,
                    y,
                    row as int,
                    0,
                ) {
                    p.gray_pixel(mirror, x, y)
                } else {
                    0
                }),
        decreases height - row,
    {
        let mut pair: u32 = 0;
        while pair < pairs
            invariant
                p == plane@,
                width == plane.stride / 2,
                height == plane.height,
                pairs == width / 2,
                row < height,
                pair <= pairs,
                rgba@.width == width && rgba@.height == height && rgba@.filled(4),
                gray@.width == width && gray@.height == height && gray@.filled(1),
                forall|x: int, y: int|
                    rgba@.in_bounds(x, y) ==> #[trigger] rgba@.rgba_at(x, y) == (if visited(
                        x,
                        y,
                        row as int,
                        pair as int,
                    ) {
                        p.rgba_pixel(mirror, x, y)
                    } else {
                        seq![0u8, 0u8, 0u8, 0u8]
                    }),
                forall|x: int, y: int|
                    gray@.in_bounds(x, y) ==> #[trigger] gray@.gray_at(x, y) == (if visited(
                        x,
                        y,
                        row as int,
                        pair as int,
                    ) {
                        p.gray_pixel(mirror, x, y)
                    } else {
                        0
                    }),
            decreases pairs - pair,
        {
            let column: u32 = if mirror {
                width - 1 - pair
            } else {
                pair
            };
            let left: u32 = 2 * pair;
            let right: u32 = 2 * pair + 1;
            let ghost rgba_before = rgba@;
            let ghost gray_before = gray@;
            assert(column == p.source_column(left as int / 2, mirror));
            assert(column == p.source_column(right as int / 2, mirror));
            match read_group(plane, row, column) {
                Some(group) => {
                    let first = yuv_to_rgb(group[1], group[0], group[2]);
                    let second = yuv_to_rgb(group[3], group[0], group[2]);
                    let first_pixel = [first[0], first[1], first[2], 255];
                    let second_pixel = [second[0], second[1], second[2], 255];
                    assert(first_pixel@ =~= p.rgba_pixel(mirror, left as int, row as int));
                    assert(second_pixel@ =~= p.rgba_pixel(mirror, right as int, row as int));
                    rgba_set(&mut rgba, left, row, first_pixel);
                    rgba_set(&mut rgba, right, row, second_pixel);
                    gray_set(&mut gray, left, row, group[1]);
                    gray_set(&mut gray, right, row, group[3]);
                },
                None => {
                    assert(!p.writes(mirror, left as int, row as int));
                    assert(!p.writes(mirror, right as int, row as int));
                },
            }
            pair += 1;
        }
        assert forall|x: int, y: int| rgba@.in_bounds(x, y) && visited(
            x,
            y,
            row as int + 1,
            0,
        ) && !visited(x, y, row as int, pairs as int) implies p.rgba_pixel(mirror, x, y)
            == seq![0u8, 0u8, 0u8, 0u8] && p.gray_pixel(mirror, x, y) == 0 by {
            assert(!p.writes(mirror, x, y));
        }
        row += 1;
    }
    assert(rgba@.samples =~= p.rgba_image(mirror).samples) by {
        assert(rgba@.samples.len() == p.rgba_image(mirror).samples.len());
        assert forall|i: int| 0 <= i < rgba@.samples.len() implies rgba@.samples[i]
            == p.rgba_image(mirror).samples[i] by {
            lemma_sample_index_split(width as int, height as int, 4, i);
            let x = (i / 4) % (width as int);
            let y = (i / 4) / (width as int);
            assert(rgba@.in_bounds(x, y));
            assert(rgba@.rgba_at(x, y)[i % 4] == rgba@.samples[sample_index(width as int, 4, x, y)
                + i % 4]);
        }
    }
    assert(gray@.samples =~= p.gray_image(mirror).samples) by {
        assert forall|i: int| 0 <= i < gray@.samples.len() implies gray@.samples[i]
            == p.gray_image(mirror).samples[i] by {
            lemma_sample_index_split(width as int, height as int, 1, i);
            let x = i % (width as int);
            let y = i / (width as int);
            assert(gray@.in_bounds(x, y));
            assert(gray@.gray_at(x, y) == gray@.samples[i]);
        }
    }
    (rgba, gray)
}

/// Converts one plane where its images can be held in memory, and declines
/// where they cannot.
pub fn try_convert(plane: &RawPlane, mirror: bool) -> (out: Option<(RgbaImage, GrayImage)>)
    ensures
        out is Some == plane@.fits(),
        out matches Some(images) ==> images.0@ == plane@.rgba_image(mirror) && images.1@
            == plane@.gray_image(mirror),
{
    if plane_fits(plane.stride, plane.height) {
        Some(convert(plane, mirror))
    } else {
        None
    }
}

/// Both images of a plane are `stride / 2` pixels wide and `height` pixels
/// high and hold every one of their samples, however short the buffer is.
pub proof fn lemma_image_size(plane: Plane, mirror: bool)
    ensures
        plane.rgba_image(mirror).width == plane.stride / 2,
        plane.rgba_image(mirror).height == plane.height,
        plane.rgba_image(mirror).filled(4),
        plane.gray_image(mirror).width == plane.stride / 2,
        plane.gray_image(mirror).height == plane.height,
        plane.gray_image(mirror).filled(1),
{
    assert(plane.width() * plane.height * 1 == plane.width() * plane.height) by (nonlinear_arith);
}

/// Each pixel of the two images has the value that [`Plane::rgba_pixel`] and
/// [`Plane::gray_pixel`] give for it.
pub proof fn lemma_image_pixels(plane: Plane, mirror: bool, x: int, y: int)
    requires
        0 <= x < plane.width(),
        0 <= y < plane.height,
    ensures
        plane.rgba_image(mirror).rgba_at(x, y) == plane.rgba_pixel(mirror, x, y),
        plane.gray_image(mirror).gray_at(x, y) == plane.gray_pixel(mirror, x, y),
{
    let width = plane.width() as int;
    let height = plane.height as int;
    let at = y * width + x;
    lemma_sample_index_bounds(width, height, 4, x, y);
    lemma_sample_index_bounds(width, height, 1, x, y);
    vstd::arithmetic::div_mod::lemma_fundamental_div_mod_converse(at, width, y, x);
    assert(plane.gray_image(mirror).gray_at(x, y) == plane.gray_pixel(mirror, x, y));
    let first = sample_index(width, 4, x, y);
    assert(first == at * 4);
    assert forall|k: int| 0 <= k < 4 implies #[trigger] plane.rgba_image(mirror).rgba_at(x, y)[k]
        == plane.rgba_pixel(mirror, x, y)[k] by {
        assert((first + k) / 4 == at && (first + k) % 4 == k);
        assert(plane.rgba_image(mirror).samples[first + k] == plane.rgba_pixel(
            mirror,
            ((first + k) / 4) % width,
            ((first + k) / 4) / width,
        )[(first + k) % 4]);
    }
    assert(plane.rgba_pixel(mirror, x, y).len() == 4);
    assert(plane.rgba_image(mirror).rgba_at(x, y) =~= plane.rgba_pixel(mirror, x, y));
}

/// A pixel is either written, and then opaque, or left as a fresh image
/// has it: all four samples zero, and zero in the grayscale image. A pixel
/// whose group does not lie wholly inside the buffer is of the second kind;
/// the conversion goes on past it.
pub proof fn lemma_missing_bytes_leave_pixels_blank(plane: Plane, mirror: bool, x: int, y: int)
    requires
        0 <= x < plane.width(),
        0 <= y < plane.height,
    ensures
        plane.writes(mirror, x, y) ==> plane.rgba_image(mirror).rgba_at(x, y)[3] == 255,
        !plane.writes(mirror, x, y) ==> plane.rgba_image(mirror).rgba_at(x, y)
            == seq![0u8, 0u8, 0u8, 0u8] && plane.gray_image(mirror).gray_at(x, y) == 0,
        !plane.has_group(y, plane.source_column(x / 2, mirror)) ==> !plane.writes(mirror, x, y),
{
    lemma_image_pixels(plane, mirror, x, y);
}

/// Cutting bytes off the end of a buffer blanks pixels and changes nothing
/// else: a pixel that the shorter plane still writes has the value it has
/// in the longer one.
pub proof fn lemma_truncation_only_blanks(
    whole: Plane,
    cut: Plane,
    mirror: bool,
    x: int,
    y: int,
)
    requires
        cut.stride == whole.stride,
        cut.height == whole.height,
        cut.bytes.len() <= whole.bytes.len(),
        cut.bytes == whole.bytes.take(cut.bytes.len() as int),
        0 <= x < whole.width(),
        0 <= y < whole.height,
        cut.writes(mirror, x, y),
    ensures
        whole.writes(mirror, x, y),
        cut.rgba_image(mirror).rgba_at(x, y) == whole.rgba_image(mirror).rgba_at(x, y),
        cut.gray_image(mirror).gray_at(x, y) == whole.gray_image(mirror).gray_at(x, y),
{
    lemma_image_pixels(whole, mirror, x, y);
    lemma_image_pixels(cut, mirror, x, y);
    let column = cut.source_column(x / 2, mirror);
    assert(0 <= cut.group_offset(y, column)) by (nonlinear_arith)
        requires
            0 <= y,
            0 <= column,
            cut.group_offset(y, column) == y * cut.stride + column * 4,
    ;
    assert(cut.group_of(mirror, x, y) =~= whole.group_of(mirror, x, y));
}

/// What mirroring does to a plane whose rows are whole groups. The source
/// column of a pair is reflected over the image width, which is twice the
/// number of groups in a row, so the mirrored image shows in row `row` the
/// pairs of row `row + 1` of the plain image in reverse order. The two
/// pixels of a pair keep their order and their values; only the pair's
/// place changes.
pub proof fn lemma_mirror_reverses_pairs(plane: Plane, row: int, pair: int, side: int)
    requires
        plane.stride % 4 == 0,
        0 <= row,
        row + 1 < plane.height,
        0 <= pair < plane.pairs(),
        0 <= side < 2,
    ensures
        plane.rgba_image(true).rgba_at(2 * pair + side, row) == plane.rgba_image(false).rgba_at(
            2 * (plane.pairs() - 1 - pair) + side,
            row + 1,
        ),
        plane.gray_image(true).gray_at(2 * pair + side, row) == plane.gray_image(false).gray_at(
            2 * (plane.pairs() - 1 - pair) + side,
            row + 1,
        ),
{
    let there = plane.pairs() - 1 - pair;
    lemma_image_pixels(plane, true, 2 * pair + side, row);
    lemma_image_pixels(plane, false, 2 * there + side, row + 1);
    assert((2 * pair + side) / 2 == pair && (2 * pair + side) % 2 == side);
    assert((2 * there + side) / 2 == there && (2 * there + side) % 2 == side);
    assert(plane.stride == 4 * plane.pairs());
    assert(plane.group_offset(row, plane.source_column(pair, true)) == plane.group_offset(
        row + 1,
        plane.source_column(there, false),
    )) by (nonlinear_arith)
        requires
            plane.stride == 4 * plane.pairs(),
            plane.width() == 2 * plane.pairs(),
            plane.source_column(pair, true) == plane.width() - 1 - pair,
            plane.source_column(there, false) == there,
            there == plane.pairs() - 1 - pair,
            plane.group_offset(row, plane.source_column(pair, true)) == row * plane.stride
                + plane.source_column(pair, true) * 4,
            plane.group_offset(row + 1, plane.source_column(there, false)) == (row + 1)
                * plane.stride + plane.source_column(there, false) * 4,
    ;
}

/// The last row of a mirrored image is blank where the buffer ends with the
/// plane: its pairs would be read from the row after the last.
pub proof fn lemma_mirror_blanks_last_row(plane: Plane, x: int)
    requires
        plane.bytes.len() <= plane.stride * plane.height,
        0 < plane.height,
        0 <= x < plane.width(),
    ensures
        plane.rgba_image(true).rgba_at(x, plane.height - 1) == seq![0u8, 0u8, 0u8, 0u8],
        plane.gray_image(true).gray_at(x, plane.height - 1) == 0,
{
    let row = plane.height - 1;
    lemma_image_pixels(plane, true, x, row);
    if 0 <= x < 2 * plane.pairs() {
        let column = plane.source_column(x / 2, true);
        assert(plane.group_offset(row, column) + 3 >= plane.stride * plane.height)
            by (nonlinear_arith)
            requires
                row == plane.height - 1,
                column == plane.width() - 1 - x / 2,
                0 <= x / 2 < plane.pairs(),
                plane.pairs() == plane.width() / 2,
                plane.width() == plane.stride / 2,
                plane.group_offset(row, column) == row * plane.stride + column * 4,
        ;
    }
}

} // verus!
