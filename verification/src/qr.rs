//! Decoded barcodes, and the one call into the barcode engine.

use crate::raster::{
    gray_dimensions, gray_sample_count, gray_samples, gray_size, GrayImage, Raster,
};
use vstd::prelude::*;

verus! {

/// A pixel position in the scanned image, as the engine reports it.
#[derive(Clone, Copy, Debug, PartialEq, Eq, Structural)]
pub struct Point {
    pub x: i32,
    pub y: i32,
}

/// One decoded barcode: its payload and the two extremal corners of the
/// region it was found in.
#[derive(Debug)]
pub struct QRCode {
    text: String,
    top_left: Point,
    bottom_right: Point,
}

/// What a decoded barcode is to the contracts.
pub struct Code {
    pub text: Seq<char>,
    pub top_left: Point,
    pub bottom_right: Point,
}

impl View for QRCode {
    type V = Code;

    closed spec fn view(&self) -> Code {
        Code { text: self.text@, top_left: self.top_left, bottom_right: self.bottom_right }
    }
}

impl DeepView for QRCode {
    type V = Code;

    open spec fn deep_view(&self) -> Code {
        self@
    }
}

impl QRCode {
    /// A barcode with payload `text` found between `top_left` and
    /// `bottom_right`.
    pub fn new(text: String, top_left: Point, bottom_right: Point) -> (code: Self)
        ensures
            code@ == (Code { text: text@, top_left, bottom_right }),
    {
        QRCode { text, top_left, bottom_right }
    }

    /// The decoded payload.
    pub fn text(&self) -> (text: &str)
        ensures
            text@ == self@.text,
    {
        self.text.as_str()
    }

    /// The top-left corner of the region.
    pub fn top_left(&self) -> (corner: Point)
        ensures
            corner == self@.top_left,
    {
        self.top_left
    }

    /// The bottom-right corner of the region.
    pub fn bottom_right(&self) -> (corner: Point)
        ensures
            corner == self@.bottom_right,
    {
        self.bottom_right
    }
}

/// The character of a decimal digit.
pub open spec fn digit(d: int) -> char {
    if d == 0 {
        '0'
    } else if d == 1 {
        '1'
    } else if d == 2 {
        '2'
    } else if d == 3 {
        '3'
    } else if d == 4 {
        '4'
    } else if d == 5 {
        '5'
    } else if d == 6 {
        '6'
    } else if d == 7 {
        '7'
    } else if d == 8 {
        '8'
    } else {
        '9'
    }
}

/// A natural number in decimal, without leading zeros.
pub open spec fn decimal(n: nat) -> Seq<char>
    decreases n,
{
    if n < 10 {
        seq![digit(n as int)]
    } else {
        decimal(n / 10).push(digit((n % 10) as int))
    }
}

/// An integer in decimal, with a minus sign where it is negative.
pub open spec fn signed_decimal(n: int) -> Seq<char> {
    if n < 0 {
        seq!['-'] + decimal((-n) as nat)
    } else {
        decimal(n as nat)
    }
}

/// A point as text: its coordinates in decimal with an `x` between them.
pub open spec fn point_text(point: Point) -> Seq<char> {
    signed_decimal(point.x as int) + seq!['x'] + signed_decimal(point.y as int)
}

/// A barcode as text: the payload, then ` at `, then the two corners with a
/// `/` between them.
pub open spec fn code_text(code: Code) -> Seq<char> {
    code.text + seq![' ', 'a', 't', ' '] + point_text(code.top_left) + seq!['/'] + point_text(
        code.bottom_right,
    )
}

/// Calls `String::push`, which appends one character.
#[verifier::external_body]
fn push_char(text: &mut String, c: char)
    ensures
        final(text)@ == old(text)@.push(c),
{
    text.push(c);
}

/// Calls `String::push_str`, which appends a string slice.
#[verifier::external_body]
fn push_text(text: &mut String, more: &str)
    ensures
        final(text)@ == old(text)@ + more@,
{
    text.push_str(more);
}

/// The character of the decimal digit `d`.
fn digit_char(d: u64) -> (c: char)
    requires
        d < 10,
    ensures
        c == digit(d as int),
{
    if d == 0 {
        '0'
    } else if d == 1 {
        '1'
    } else if d == 2 {
        '2'
    } else if d == 3 {
        '3'
    } else if d == 4 {
        '4'
    } else if d == 5 {
        '5'
    } else if d == 6 {
        '6'
    } else if d == 7 {
        '7'
    } else if d == 8 {
        '8'
    } else {
        '9'
    }
}

/// Appends `n` in decimal.
fn push_decimal(text: &mut String, n: u64)
    ensures
        final(text)@ == old(text)@ + decimal(n as nat),
    decreases n,
{
    if n >= 10 {
        push_decimal(text, n / 10);
    }
    push_char(text, digit_char(n % 10));
    assert(text@ =~= old(text)@ + decimal(n as nat));
}

/// Appends a point as text.
fn push_point(text: &mut String, point: Point)
    ensures
        final(text)@ == old(text)@ + point_text(point),
{
    push_signed(text, point.x);
    push_char(text, 'x');
    push_signed(text, point.y);
    assert(text@ =~= old(text)@ + point_text(point));
}

/// Appends `n` in decimal, with a minus sign where it is negative.
fn push_signed(text: &mut String, n: i32)
    ensures
        final(text)@ == old(text)@ + signed_decimal(n as int),
{
    let wide: i64 = n as i64;
    if wide < 0 {
        push_char(text, '-');
        push_decimal(text, (-wide) as u64);
    } else {
        push_decimal(text, wide as u64);
    }
    assert(text@ =~= old(text)@ + signed_decimal(n as int));
}

impl QRCode {
    /// The barcode as the text shown to the user: the payload, then ` at `,
    /// then the top-left and bottom-right corners, each as `XxY`, with a `/`
    /// between them.
    pub fn describe(&self) -> (text: String)
        ensures
            text@ == code_text(self@),
    {
        let mut text = String::new();
        push_text(&mut text, self.text.as_str());
        push_char(&mut text, ' ');
        push_char(&mut text, 'a');
        push_char(&mut text, 't');
        push_char(&mut text, ' ');
        push_point(&mut text, self.top_left);
        push_char(&mut text, '/');
        push_point(&mut text, self.bottom_right);
        assert(text@ =~= code_text(self@));
        text
    }
}

/// The error type of the barcode engine, `zxingcpp::Error`.
#[verifier::external_type_specification]
#[verifier::external_body]
pub struct ExEngineError(zxingcpp::Error);

/// Whether the engine can be given the image: it has at least one pixel, it
/// holds a sample for every pixel, and its sample count fits the engine's
/// 32-bit signed sizes.
pub open spec fn scannable(image: Raster) -> bool {
    &&& 0 < image.width
    &&& 0 < image.height
    &&& image.width * image.height <= image.samples.len()
    &&& image.samples.len() <= i32::MAX
}

/// The barcode kinds of the engine, `zxingcpp::BarcodeFormat`: an enum of
/// unit variants, declared with its variants so that the kind to look for
/// can be chosen in verified code.
#[verifier::external_type_specification]
pub struct ExBarcodeFormat(zxingcpp::BarcodeFormat);

/// What zxing-cpp's reader finds in a grayscale image of the given size and
/// samples when it looks for barcodes of kind `format` only, with or without
/// a pass over the inverted image: the barcodes in the order the engine
/// lists them, or `None` where the engine reports an error. The engine is
/// deterministic, so this is a function of these values alone.
pub uninterp spec fn barcode_scan(
    format: zxingcpp::BarcodeFormat,
    try_invert: bool,
    size: (u32, u32),
    samples: Seq<u8>,
) -> Option<Seq<Code>>;

/// Calls `zxingcpp::BarcodeReader::from` on the image, with a reader made by
/// `zxingcpp::read` whose `formats` and `try_invert` are set as given. Each
/// `Barcode` that comes back is copied into a [`QRCode`]: its `text()`, and
/// the `top_left` and `bottom_right` corners of its `position()`. Nothing is
/// claimed of the result beyond its being the engine's answer for this
/// image and these settings. The crate's conversion of the image to an
/// `ImageView` panics where a side is zero, where a side or the sample
/// count is no `c_int`, and where the samples are fewer than the pixels;
/// the precondition rules these out.
#[verifier::external_body]
fn read_barcodes(image: &GrayImage, format: zxingcpp::BarcodeFormat, try_invert: bool) -> (found:
    Result<Vec<QRCode>, zxingcpp::Error>)
    requires
        scannable(image@),
    ensures
        match found {
            Ok(codes) => barcode_scan(format, try_invert, gray_size(*image), gray_samples(*image))
                == Some(codes.deep_view()),
            Err(_) => barcode_scan(format, try_invert, gray_size(*image), gray_samples(*image))
                is None,
        },
{
    let reader = zxingcpp::read().formats(format).try_invert(try_invert);
    let barcodes = reader.from(&image.buffer)?;
    Ok(barcodes.iter().map(|barcode| {
        let position = barcode.position();
        QRCode {
            text: barcode.text(),
            top_left: Point { x: position.top_left.x, y: position.top_left.y },
            bottom_right: Point { x: position.bottom_right.x, y: position.bottom_right.y },
        }
    }).collect())
}

/// The batch published for an engine outcome: what the engine found, or
/// nothing where it failed.
pub open spec fn batch_of(outcome: Option<Seq<Code>>) -> Seq<Code> {
    match outcome {
        Some(codes) => codes,
        None => Seq::empty(),
    }
}

/// Turns an engine outcome into the batch to publish. A failure is not
/// passed on: it counts as a cycle that found nothing.
pub fn collect_batch<E>(outcome: Result<Vec<QRCode>, E>) -> (batch: Vec<QRCode>)
    ensures
        batch.deep_view() == batch_of(
            match outcome {
                Ok(codes) => Some(codes.deep_view()),
                Err(_) => None,
            },
        ),
{
    match outcome {
        Ok(codes) => codes,
        Err(_) => {
            let batch: Vec<QRCode> = Vec::new();
            assert(batch.deep_view() =~= Seq::<Code>::empty());
            batch
        },
    }
}

/// The batch that scanning an image gives: the QR codes that the engine
/// finds in it without a pass over the inverted image, and nothing where
/// the engine fails or cannot be given the image at all.
pub open spec fn decoded(image: GrayImage) -> Seq<Code> {
    if scannable(image@) {
        batch_of(
            barcode_scan(
                zxingcpp::BarcodeFormat::QRCode,
                false,
                gray_size(image),
                gray_samples(image),
            ),
        )
    } else {
        Seq::empty()
    }
}

/// Whether the engine can be given the image.
pub fn is_scannable(image: &GrayImage) -> (ok: bool)
    ensures
        ok == scannable(image@),
{
    let (width, height) = gray_dimensions(image);
    if width == 0 || height == 0 {
        return false;
    }
    assert(width * height <= 0xffff_ffff * 0xffff_ffff) by (nonlinear_arith)
        requires
            width <= 0xffff_ffff,
            height <= 0xffff_ffff,
    ;
    let pixels: u64 = width as u64 * height as u64;
    let samples: usize = gray_sample_count(image);
    samples <= 0x7fff_ffff && pixels <= samples as u64
}

/// Scans one grayscale image. The engine is told to look for QR codes and
/// for nothing else, and not to try the inverted image. An engine failure
/// yields an empty batch, and so does an image that the engine cannot be
/// given.
pub fn decode_image(image: &GrayImage) -> (batch: Vec<QRCode>)
    ensures
        batch.deep_view() == decoded(*image),
{
    if is_scannable(image) {
        collect_batch(read_barcodes(image, zxingcpp::BarcodeFormat::QRCode, false))
    } else {
        let batch: Vec<QRCode> = Vec::new();
        assert(batch.deep_view() =~= Seq::<Code>::empty());
        batch
    }
}

} // verus!
