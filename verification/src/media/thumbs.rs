//! Thumbnail JPEGs to RGBA for the chrome, and halving a still down to size.

use vstd::prelude::*;

verus! {

/// A decoded picture, tightly packed RGBA.
#[derive(Debug, Clone, PartialEq, Eq)]
pub struct Rgba {
    pub width: u32,
    pub height: u32,
    pub pixels: Vec<u8>,
}

/// A picture as values.
pub struct RgbaModel {
    pub width: nat,
    pub height: nat,
    pub pixels: Seq<u8>,
}

impl View for Rgba {
    type V = RgbaModel;

    open spec fn view(&self) -> RgbaModel {
        RgbaModel { width: self.width as nat, height: self.height as nat, pixels: self.pixels@ }
    }
}

impl Rgba {
    /// Four bytes for every pixel, row by row.
    pub open spec fn wf(&self) -> bool {
        self.pixels@.len() == self.width * self.height * 4
    }
}

/// What the JPEG decoder makes of `bytes`: the RGBA pixels with the width and height,
/// or the decoder's error in words.
pub uninterp spec fn jpeg_rgba(bytes: Seq<u8>) -> Result<(Seq<u8>, usize, usize), Seq<char>>;

/// Decodes `bytes` to RGBA with `zune_jpeg::JpegDecoder::decode`, with the output colour
/// space set to RGBA and the default limits, and reads `dimensions` after it. Claimed:
/// the result is the decoder's, a function of the bytes alone; after a successful decode
/// the dimensions are known and lie between 1 and 16384 (the decoder refuses a zero side
/// and, by default, a side over `1 << 14`), and the buffer holds four bytes per pixel, as
/// `decode` sizes it from `output_buffer_size`. Not stated: which bytes the decoder
/// refuses, or what its pixels are.
#[verifier::external_body]
fn decode_rgba(bytes: &[u8]) -> (res: Result<(Vec<u8>, Option<(usize, usize)>), String>)
    ensures
        match res {
            Ok((pixels, dimensions)) => dimensions matches Some((w, h)) && jpeg_rgba(bytes@) == Ok::<
                (Seq<u8>, usize, usize),
                Seq<char>,
            >((pixels@, w, h)) && 1 <= w <= 16384 && 1 <= h <= 16384 && pixels@.len() == w * h * 4,
            Err(reason) => jpeg_rgba(bytes@) == Err::<(Seq<u8>, usize, usize), Seq<char>>(
                reason@,
            ),
        },
{
    let options = zune_jpeg::zune_core::options::DecoderOptions::default().jpeg_set_out_colorspace(
        zune_jpeg::zune_core::colorspace::ColorSpace::RGBA,
    );
    let mut decoder = zune_jpeg::JpegDecoder::new_with_options(std::io::Cursor::new(bytes), options);
    match decoder.decode() {
        Ok(pixels) => Ok((pixels, decoder.dimensions())),
        Err(error) => Err(error.to_string()),
    }
}

/// Decodes a JPEG to tightly packed RGBA.
pub fn decode_jpeg(bytes: &[u8]) -> (res: Result<Rgba, String>)
    ensures
        match jpeg_rgba(bytes@) {
            Ok((pixels, w, h)) => res matches Ok(picture) && picture.pixels@ == pixels
                && picture.width == w && picture.height == h && picture.wf(),
            Err(reason) => res matches Err(message) && message@ == reason,
        },
{
    match decode_rgba(bytes) {
        Ok((pixels, dimensions)) => match dimensions {
            Some((width, height)) => Ok(Rgba { width: width as u32, height: height as u32, pixels }),
            None => Err(crate::text::owned("no dimensions")),
        },
        Err(reason) => Err(reason),
    }
}

/// One channel of the 2×2 block under output pixel `(x, y)`, averaged down.
pub open spec fn block_average(picture: RgbaModel, x: int, y: int, c: int) -> u8 {
    let at = |dx: int, dy: int| picture.pixels[((y * 2 + dy) * picture.width + x * 2 + dx) * 4 + c] as int;
    ((at(0, 0) + at(1, 0) + at(0, 1) + at(1, 1)) / 4) as u8
}

/// The picture at half size, each pixel the average of the 2×2 block it covers; an odd
/// last row or column is dropped.
pub open spec fn halved(picture: RgbaModel) -> RgbaModel {
    let w = picture.width / 2;
    let h = picture.height / 2;
    RgbaModel {
        width: w,
        height: h,
        pixels: Seq::new(
            w * h * 4,
            |i: int| block_average(picture, (i / 4) % (w as int), (i / 4) / (w as int), i % 4),
        ),
    }
}

/// Halved until no wider than `max_width`, or too small to halve.
pub open spec fn fitted(picture: RgbaModel, max_width: nat) -> RgbaModel
    decreases picture.width,
{
    if picture.width > max_width && picture.width >= 2 && picture.height >= 2 {
        fitted(halved(picture), max_width)
    } else {
        picture
    }
}

proof fn lemma_sample_in_bounds(w: int, h: int, row: int, col: int, c: int)
    requires
        0 <= row < h,
        0 <= col < w,
        0 <= c < 4,
    ensures
        0 <= row * w,
        row * w + col <= (row * w + col) * 4 + c,
        (row * w + col) * 4 + c < w * h * 4,
{
    assert(0 <= row * w) by (nonlinear_arith)
        requires
            0 <= row,
            0 <= w,
    ;
    assert(row * w + col < w * h) by (nonlinear_arith)
        requires
            row < h,
            col < w,
            0 <= row,
            0 <= col,
    ;
}

proof fn lemma_output_index(w: int, x: int, y: int, c: int)
    requires
        w > 0,
        0 <= x < w,
        0 <= y,
        0 <= c < 4,
    ensures
        ((y * w + x) * 4 + c) % 4 == c,
        ((y * w + x) * 4 + c) / 4 == y * w + x,
        (((y * w + x) * 4 + c) / 4) % w == x,
        (((y * w + x) * 4 + c) / 4) / w == y,
{
    assert(0 <= y * w) by (nonlinear_arith)
        requires
            0 <= y,
            w > 0,
    ;
    vstd::arithmetic::div_mod::lemma_fundamental_div_mod_converse(
        (y * w + x) * 4 + c,
        4,
        y * w + x,
        c,
    );
    vstd::arithmetic::div_mod::lemma_fundamental_div_mod_converse(y * w + x, w, y, x);
}

fn halve(current: &Rgba) -> (half: Rgba)
    requires
        current.wf(),
        current.width >= 2,
        current.height >= 2,
    ensures
        half.wf(),
        half@ == halved(current@),
{
    let width = current.width as usize;
    let w = current.width / 2;
    let h = current.height / 2;
    let ghost out_model = halved(current@);
    let mut pixels: Vec<u8> = Vec::new();
    let mut y: u32 = 0;
    while y < h
        invariant
            current.wf(),
            current.width >= 2,
            current.height >= 2,
            width == current.width,
            w == current.width / 2,
            h == current.height / 2,
            out_model == halved(current@),
            y <= h,
            pixels@ == out_model.pixels.subrange(0, y * w * 4),
        decreases h - y,
    {
        let mut x: u32 = 0;
        while x < w
            invariant
                current.wf(),
                current.width >= 2,
                current.height >= 2,
                width == current.width,
                w == current.width / 2,
                h == current.height / 2,
                out_model == halved(current@),
                y < h,
                x <= w,
                pixels@ == out_model.pixels.subrange(0, (y * w + x) * 4),
            decreases w - x,
        {
            let mut c: usize = 0;
            while c < 4
                invariant
                    current.wf(),
                    current.width >= 2,
                    current.height >= 2,
                    width == current.width,
                    w == current.width / 2,
                    h == current.height / 2,
                    out_model == halved(current@),
                    y < h,
                    x < w,
                    c <= 4,
                    pixels@ == out_model.pixels.subrange(0, (y * w + x) * 4 + c),
                decreases 4 - c,
            {
                let row0: usize = (y as usize) * 2;
                let row1: usize = row0 + 1;
                let col0: usize = (x as usize) * 2;
                let col1: usize = col0 + 1;
                let total: usize = current.pixels.len();
                proof {
                    let (wi, hi) = (current.width as int, current.height as int);
                    lemma_sample_in_bounds(wi, hi, row0 as int, col0 as int, c as int);
                    lemma_sample_in_bounds(wi, hi, row0 as int, col1 as int, c as int);
                    lemma_sample_in_bounds(wi, hi, row1 as int, col0 as int, c as int);
                    lemma_sample_in_bounds(wi, hi, row1 as int, col1 as int, c as int);
                }
                let a = current.pixels[(row0 * width + col0) * 4 + c] as u32;
                let b = current.pixels[(row0 * width + col1) * 4 + c] as u32;
                let d = current.pixels[(row1 * width + col0) * 4 + c] as u32;
                let e = current.pixels[(row1 * width + col1) * 4 + c] as u32;
                let average = ((a + b + d + e) / 4) as u8;
                let ghost k = (y * w + x) * 4 + c;
                proof {
                    lemma_output_index(w as int, x as int, y as int, c as int);
                    assert(k < w * h * 4) by (nonlinear_arith)
                        requires
                            k == (y * w + x) * 4 + c,
                            x < w,
                            y < h,
                            c < 4,
                    ;
                    assert(out_model.pixels[k] == average);
                }
                pixels.push(average);
                c = c + 1;
                proof {
                    assert(pixels@ =~= out_model.pixels.subrange(0, (y * w + x) * 4 + c));
                }
            }
            x = x + 1;
            proof {
                assert((y * w + (x - 1)) * 4 + 4 == (y * w + x) * 4) by (nonlinear_arith);
            }
        }
        y = y + 1;
        proof {
            assert(((y - 1) * w + w) * 4 == y * w * 4) by (nonlinear_arith);
        }
    }
    proof {
        assert(y * w * 4 == w * h * 4) by (nonlinear_arith)
            requires
                y == h,
        ;
        assert(pixels@ =~= out_model.pixels);
    }
    Rgba { width: w, height: h, pixels }
}

/// Halves a picture until it is no wider than `max_width`, averaging 2×2 blocks.
/// Thumbnails are small already; this only tames a full-size still.
pub fn fit(picture: Rgba, max_width: u32) -> (fitted_picture: Rgba)
    requires
        picture.wf(),
    ensures
        fitted_picture.wf(),
        fitted_picture@ == fitted(picture@, max_width as nat),
{
    let mut current = picture;
    while current.width > max_width && current.width >= 2 && current.height >= 2
        invariant
            current.wf(),
            fitted(current@, max_width as nat) == fitted(picture@, max_width as nat),
        decreases current.width,
    {
        current = halve(&current);
    }
    current
}

} // verus!
