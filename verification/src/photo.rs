//! Brings a downloaded photo within the limits of the chat service: width plus
//! height at most 10000 pixels, at most 10 MiB.
//!
//! A PNG deeper than 24 bits is reduced to 24-bit RGB, with alpha composited
//! onto white; gray stays gray. An image over the dimension limit is downscaled,
//! and a PNG that is still too large is sent as a JPEG.
use fast_image_resize as fir;
use vstd::prelude::*;

verus! {

/// The service rejects photos whose width and height add up to more.
pub const PHOTO_MAX_DIMENSION_SUM: u32 = 10000;

/// The sum a downscaled photo aims at, so that rounding cannot cross the limit.
pub const PHOTO_TARGET_DIMENSION_SUM: u32 = 9900;

/// The service rejects photo uploads of more bytes.
pub const MAX_UPLOAD_BYTES: u64 = 10485760;

/// A photo whose decoded pixels take more bytes is not processed.
pub const MAX_DECODE_BYTES: u64 = 536870912;

/// A photo of more bytes is not downloaded; its smaller variant goes out.
pub const MAX_PHOTO_DOWNLOAD_BYTES: u64 = 33554432;

/// The memory budget is handed out in units of this many bytes.
pub const MEMORY_UNIT_BYTES: u64 = 67108864;

/// The whole memory budget, in units.
pub const MEMORY_UNITS: u32 = 8;

/// Quality of the JPEG output, from 1 to 100.
pub const JPEG_QUALITY: u8 = 90;

// ---- the memory budget ----

/// The bytes that `w` by `h` pixels of `channels` bytes each take.
pub open spec fn pixel_bytes(w: int, h: int, channels: int) -> int {
    w * h * channels
}

/// The buffer that an image needs when it is decoded.
pub fn decode_bytes(w: u32, h: u32, channels: usize) -> (r: u128)
    ensures
        r == pixel_bytes(w as int, h as int, channels as int),
{
    assert(w * h <= 0xffff_ffff * 0xffff_ffff) by (nonlinear_arith)
        requires
            w <= 0xffff_ffff,
            h <= 0xffff_ffff,
    ;
    let area: u128 = (w as u128) * (h as u128);
    assert(area * channels <= (0xffff_ffff * 0xffff_ffff) * 0xffff_ffff_ffff_ffff)
        by (nonlinear_arith)
        requires
            area <= 0xffff_ffff * 0xffff_ffff,
            channels <= 0xffff_ffff_ffff_ffff,
    ;
    area * (channels as u128)
}

/// The units that a number of bytes is charged: rounded up, at least one, and
/// never more than there are.
pub open spec fn units_for(bytes: int) -> int {
    let units = (bytes + MEMORY_UNIT_BYTES - 1) / (MEMORY_UNIT_BYTES as int);
    if units < 1 {
        1
    } else if units > MEMORY_UNITS {
        MEMORY_UNITS as int
    } else {
        units
    }
}

pub fn memory_units(bytes: u64) -> (r: u32)
    ensures
        r == units_for(bytes as int),
{
    let whole: u64 = bytes / MEMORY_UNIT_BYTES;
    let units: u64 = if bytes % MEMORY_UNIT_BYTES == 0 { whole } else { whole + 1 };
    if units < 1 {
        1
    } else if units > MEMORY_UNITS as u64 {
        MEMORY_UNITS
    } else {
        units as u32
    }
}

/// A reservation is at least one unit and fits the budget, so no item waits for
/// memory that cannot exist.
pub proof fn law_reservation_fits_the_budget(bytes: u64)
    ensures
        1 <= units_for(bytes as int) <= MEMORY_UNITS,
        bytes <= MEMORY_UNITS * MEMORY_UNIT_BYTES ==> bytes <= units_for(bytes as int)
            * MEMORY_UNIT_BYTES,
        units_for(bytes as int) > 1 ==> bytes > (units_for(bytes as int) - 1) * MEMORY_UNIT_BYTES,
{
}

// ---- what the headers say ----

/// How a PNG stores its pixels.
#[derive(Clone, Copy, Debug, PartialEq, Eq, Structural)]
pub enum PngColor {
    Grayscale,
    Rgb,
    Indexed,
    GrayscaleAlpha,
    Rgba,
}

/// What the header of a PNG says.
#[derive(Clone, Copy, Debug, PartialEq, Eq, Structural)]
pub struct PngHeader {
    pub width: u32,
    pub height: u32,
    /// Bits per sample.
    pub depth: u8,
    pub color: PngColor,
    /// How many bytes the palette has, if there is one.
    pub palette: usize,
}

/// The header that the `png` crate reads out of a file, if it is a PNG.
pub uninterp spec fn png_header_of(bytes: Seq<u8>) -> Option<PngHeader>;

/// Reads everything up to the pixel data with `png::Decoder::read_info` and
/// takes width, height, depth, color and the length of the palette from
/// `png::Reader::info`. The result is named: where sizes have 64 bits it is a
/// function of the bytes alone.
#[verifier::external_body]
fn read_png_header(bytes: &[u8]) -> (r: Option<PngHeader>)
    ensures
        r == png_header_of(bytes@),
{
    let reader = png::Decoder::new(std::io::Cursor::new(bytes)).read_info().ok()?;
    let info = reader.info();
    let color = match info.color_type {
        png::ColorType::Grayscale => PngColor::Grayscale,
        png::ColorType::Rgb => PngColor::Rgb,
        png::ColorType::Indexed => PngColor::Indexed,
        png::ColorType::GrayscaleAlpha => PngColor::GrayscaleAlpha,
        png::ColorType::Rgba => PngColor::Rgba,
    };
    let palette = info.palette.as_ref().map_or(0, |p| p.len());
    let depth = info.bit_depth as u8;
    Some(PngHeader { width: info.width, height: info.height, depth, color, palette })
}

/// The PNG header of a file, without decoding any pixels.
pub fn parse_png_header(bytes: &[u8]) -> (r: Option<PngHeader>)
    ensures
        r == png_header_of(bytes@),
{
    read_png_header(bytes)
}

/// Bytes per pixel of a decoded frame: 16-bit samples count as 8-bit ones, a
/// palette as RGB.
pub open spec fn channels_of(color: PngColor) -> int {
    match color {
        PngColor::Grayscale => 1,
        PngColor::GrayscaleAlpha => 2,
        PngColor::Rgb => 3,
        PngColor::Indexed => 3,
        PngColor::Rgba => 4,
    }
}

pub fn output_channels(color: PngColor) -> (r: usize)
    ensures
        r == channels_of(color),
{
    match color {
        PngColor::Grayscale => 1,
        PngColor::GrayscaleAlpha => 2,
        PngColor::Rgb => 3,
        PngColor::Indexed => 3,
        PngColor::Rgba => 4,
    }
}

/// What the headers of a JPEG say.
#[derive(Clone, Copy, Debug, PartialEq, Eq, Structural)]
pub struct JpegHeader {
    pub width: u16,
    pub height: u16,
    /// Whether its colors are those of a printer's four inks behind a luma
    /// transform.
    pub ycck: bool,
}

/// What `zune_jpeg` reads out of the headers of a file: nothing where the headers
/// name no image, or the words of its error.
pub uninterp spec fn jpeg_header_of(bytes: Seq<u8>) -> Result<Option<JpegHeader>, Seq<char>>;

/// The text of an error that is carried as a string.
pub open spec fn err_text<T>(r: Result<T, String>) -> Result<T, Seq<char>> {
    match r {
        Ok(v) => Ok(v),
        Err(e) => Err(e@),
    }
}

/// Reads the headers with `zune_jpeg::JpegDecoder::decode_headers` and takes
/// the dimensions from `info` and the colors from `input_colorspace`. The result
/// is named: it is a function of the bytes alone.
#[verifier::external_body]
fn read_jpeg_header(bytes: &[u8]) -> (r: Result<Option<JpegHeader>, String>)
    ensures
        err_text(r) == jpeg_header_of(bytes@),
{
    let mut decoder = zune_jpeg::JpegDecoder::new(std::io::Cursor::new(bytes));
    decoder.decode_headers().map_err(|e| e.to_string())?;
    let ycck = match decoder.input_colorspace() {
        Some(zune_jpeg::zune_core::colorspace::ColorSpace::YCCK) => true,
        _ => false,
    };
    Ok(decoder.info().map(|info| JpegHeader { width: info.width, height: info.height, ycck }))
}

/// The dimensions that a JPEG's headers give, if they do.
pub open spec fn jpeg_dims_of(bytes: Seq<u8>) -> Option<(u32, u32)> {
    match jpeg_header_of(bytes) {
        Ok(Some(header)) => Some((header.width as u32, header.height as u32)),
        _ => None,
    }
}

/// JPEG dimensions from the headers, without decoding any pixels.
pub fn jpeg_dims(bytes: &[u8]) -> (r: Option<(u32, u32)>)
    ensures
        r == jpeg_dims_of(bytes@),
{
    match read_jpeg_header(bytes) {
        Ok(Some(header)) => Some((header.width as u32, header.height as u32)),
        _ => None,
    }
}

// ---- the decision ----

/// What is done with a photo, decided from its header alone.
#[derive(Clone, Copy, Debug, PartialEq, Eq, Structural)]
pub enum PhotoPlan {
    /// It is within the limits and goes out as it was downloaded.
    AsIs,
    /// It has to be processed, in a buffer of this many bytes.
    Decode(u64),
    /// Processing it would take too much memory.
    TooLarge,
}

pub open spec fn plan_of(w: u32, h: u32, len: int, channels: int) -> PhotoPlan {
    if w + h <= PHOTO_MAX_DIMENSION_SUM && len <= MAX_UPLOAD_BYTES {
        PhotoPlan::AsIs
    } else if pixel_bytes(w as int, h as int, channels) > MAX_DECODE_BYTES {
        PhotoPlan::TooLarge
    } else {
        PhotoPlan::Decode(pixel_bytes(w as int, h as int, channels) as u64)
    }
}

/// The plan for a photo of `len` bytes whose header says `w` by `h` pixels in
/// `channels` bytes each.
pub fn plan_photo(w: u32, h: u32, len: usize, channels: usize) -> (r: PhotoPlan)
    ensures
        r == plan_of(w, h, len as int, channels as int),
{
    if w as u64 + h as u64 <= PHOTO_MAX_DIMENSION_SUM as u64 && len as u64 <= MAX_UPLOAD_BYTES {
        return PhotoPlan::AsIs;
    }
    let bytes: u128 = decode_bytes(w, h, channels);
    if bytes > MAX_DECODE_BYTES as u128 {
        PhotoPlan::TooLarge
    } else {
        PhotoPlan::Decode(bytes as u64)
    }
}

/// The plan for a file: its PNG header decides, else its JPEG headers; anything
/// else is not decoded.
pub open spec fn file_plan_of(
    png: Option<PngHeader>,
    jpeg: Option<(u32, u32)>,
    len: int,
) -> PhotoPlan {
    match (png, jpeg) {
        (Some(header), _) => plan_of(
            header.width,
            header.height,
            len,
            channels_of(header.color),
        ),
        (None, Some(dims)) => plan_of(dims.0, dims.1, len, 3),
        (None, None) => PhotoPlan::AsIs,
    }
}

/// The plan for a file of `len` bytes with these headers.
pub fn header_plan(png: Option<PngHeader>, jpeg: Option<(u32, u32)>, len: usize) -> (r: PhotoPlan)
    ensures
        r == file_plan_of(png, jpeg, len as int),
{
    match png {
        Some(header) => plan_photo(header.width, header.height, len, output_channels(header.color)),
        None => match jpeg {
            Some((w, h)) => plan_photo(w, h, len, 3),
            None => PhotoPlan::AsIs,
        },
    }
}

pub fn photo_plan(bytes: &[u8]) -> (r: PhotoPlan)
    ensures
        r == file_plan_of(png_header_of(bytes@), jpeg_dims_of(bytes@), bytes@.len() as int),
{
    let png = parse_png_header(bytes);
    let jpeg = if png.is_some() { None } else { jpeg_dims(bytes) };
    header_plan(png, jpeg, bytes.len())
}

/// The buffer that a plan allocates.
pub open spec fn plan_bytes(plan: PhotoPlan) -> int {
    match plan {
        PhotoPlan::Decode(bytes) => bytes as int,
        _ => 0,
    }
}

/// The decode buffer that a downloaded photo will need: none where it goes out
/// as it is, none where it is not decoded at all.
pub fn decode_budget_bytes(bytes: &[u8]) -> (r: u64)
    ensures
        r == plan_bytes(
            file_plan_of(png_header_of(bytes@), jpeg_dims_of(bytes@), bytes@.len() as int),
        ),
{
    match photo_plan(bytes) {
        PhotoPlan::Decode(bytes) => bytes,
        PhotoPlan::AsIs => 0,
        PhotoPlan::TooLarge => 0,
    }
}

// ---- pixels ----

/// The channels of a pixel buffer.
#[derive(Clone, Copy, Debug, PartialEq, Eq, Structural)]
pub enum Layout {
    Gray,
    GrayAlpha,
    Rgb,
}

pub open spec fn layout_channels(layout: Layout) -> int {
    match layout {
        Layout::Gray => 1,
        Layout::GrayAlpha => 2,
        Layout::Rgb => 3,
    }
}

/// A decoded image buffer, tagged with its channels.
#[derive(Debug)]
pub enum PixBuf {
    Gray(Vec<u8>),
    GrayAlpha(Vec<u8>),
    Rgb(Vec<u8>),
}

impl PixBuf {
    pub open spec fn layout(&self) -> Layout {
        match self {
            PixBuf::Gray(_) => Layout::Gray,
            PixBuf::GrayAlpha(_) => Layout::GrayAlpha,
            PixBuf::Rgb(_) => Layout::Rgb,
        }
    }

    pub open spec fn data(&self) -> Seq<u8> {
        match self {
            PixBuf::Gray(v) => v@,
            PixBuf::GrayAlpha(v) => v@,
            PixBuf::Rgb(v) => v@,
        }
    }

    pub fn pixel_type(&self) -> (r: Layout)
        ensures
            r == self.layout(),
    {
        match self {
            PixBuf::Gray(_) => Layout::Gray,
            PixBuf::GrayAlpha(_) => Layout::GrayAlpha,
            PixBuf::Rgb(_) => Layout::Rgb,
        }
    }

    pub fn into_vec(self) -> (r: Vec<u8>)
        ensures
            r@ == self.data(),
    {
        match self {
            PixBuf::Gray(v) => v,
            PixBuf::GrayAlpha(v) => v,
            PixBuf::Rgb(v) => v,
        }
    }

    /// A buffer of these channels over this data.
    pub fn from_parts(layout: Layout, data: Vec<u8>) -> (r: PixBuf)
        ensures
            r.layout() == layout,
            r.data() == data@,
    {
        match layout {
            Layout::Gray => PixBuf::Gray(data),
            Layout::GrayAlpha => PixBuf::GrayAlpha(data),
            Layout::Rgb => PixBuf::Rgb(data),
        }
    }
}

/// A sample composited onto white with the given alpha.
pub open spec fn over_white(v: u8, alpha: u8) -> u8 {
    ((v * alpha + 255 * (255 - alpha)) / 255) as u8
}

fn blend_on_white(v: u8, alpha: u8) -> (r: u8)
    ensures
        r == over_white(v, alpha),
{
    assert(0 <= v * alpha <= 255 * alpha) by (nonlinear_arith)
        requires
            0 <= v <= 255,
            0 <= alpha <= 255,
    ;
    let sum: u32 = (v as u32) * (alpha as u32) + 255 * (255 - alpha as u32);
    (sum / 255) as u8
}

/// Compositing onto white keeps an opaque sample, turns a transparent one
/// white, and never darkens.
pub proof fn law_over_white(v: u8, alpha: u8)
    ensures
        over_white(v, 255) == v,
        over_white(v, 0) == 255,
        over_white(v, alpha) >= v,
{
    assert(v * 255 + 255 * 0 == 255 * v);
    assert(v * 0 == 0);
    assert(255 * v <= v * alpha + 255 * (255 - alpha) <= 255 * 255) by (nonlinear_arith)
        requires
            0 <= v <= 255,
            0 <= alpha <= 255,
    ;
}

/// RGBA pixels composited onto white, as RGB. Bytes beyond the last whole pixel
/// are dropped.
pub open spec fn flat_rgb(rgba: Seq<u8>) -> Seq<u8> {
    Seq::new(
        (rgba.len() / 4 * 3) as nat,
        |i: int| over_white(rgba[i / 3 * 4 + i % 3], rgba[i / 3 * 4 + 3]),
    )
}

pub fn flatten_rgba_to_rgb(rgba: &[u8]) -> (r: Vec<u8>)
    ensures
        r@ == flat_rgb(rgba@),
{
    let mut rgb: Vec<u8> = Vec::new();
    let pixels: usize = rgba.len() / 4;
    let mut p: usize = 0;
    while p < pixels
        invariant
            pixels == rgba@.len() / 4,
            rgba@.len() <= usize::MAX,
            p <= pixels,
            rgb@.len() == p * 3,
            forall|i: int|
                0 <= i < p * 3 ==> rgb@[i] == over_white(
                    rgba@[i / 3 * 4 + i % 3],
                    rgba@[i / 3 * 4 + 3],
                ),
        decreases pixels - p,
    {
        let at: usize = p * 4;
        let alpha: u8 = rgba[at + 3];
        rgb.push(blend_on_white(rgba[at], alpha));
        rgb.push(blend_on_white(rgba[at + 1], alpha));
        rgb.push(blend_on_white(rgba[at + 2], alpha));
        p = p + 1;
    }
    proof {
        assert(rgb@ =~= flat_rgb(rgba@));
    }
    rgb
}

/// Gray pixels with alpha composited onto white, as gray.
pub open spec fn flat_gray(data: Seq<u8>) -> Seq<u8> {
    Seq::new((data.len() / 2) as nat, |i: int| over_white(data[i * 2], data[i * 2 + 1]))
}

/// Flattening leaves every pixel at its own place: each of its samples is blended
/// with white by the pixel's own alpha, so an opaque pixel stays as it is and a
/// transparent one turns white. No other pixel has a part in it.
pub proof fn law_flattening_keeps_each_pixel_in_place(
    rgba: Seq<u8>,
    other: Seq<u8>,
    p: int,
    c: int,
)
    requires
        0 <= p,
        4 * p + 3 < rgba.len(),
        4 * p + 3 < other.len(),
        0 <= c < 3,
    ensures
        flat_rgb(rgba).len() == rgba.len() / 4 * 3,
        ({
            let (out, v, alpha) = (flat_rgb(rgba)[3 * p + c], rgba[4 * p + c], rgba[4 * p + 3]);
            255 * out <= v * alpha + 255 * (255 - alpha) < 255 * out + 255
        }),
        rgba[4 * p + 3] == 255 ==> flat_rgb(rgba)[3 * p + c] == rgba[4 * p + c],
        rgba[4 * p + 3] == 0 ==> flat_rgb(rgba)[3 * p + c] == 255,
        rgba[4 * p + c] == other[4 * p + c] && rgba[4 * p + 3] == other[4 * p + 3] ==> flat_rgb(
            rgba,
        )[3 * p + c] == flat_rgb(other)[3 * p + c],
{
    let i = 3 * p + c;
    assert(i / 3 == p && i % 3 == c);
    assert(i < rgba.len() / 4 * 3);
    assert(i < other.len() / 4 * 3);
    lemma_on_white(rgba[4 * p + c], rgba[4 * p + 3]);
    law_over_white(rgba[4 * p + c], rgba[4 * p + 3]);
}

proof fn lemma_on_white(v: u8, alpha: u8)
    ensures
        255 * over_white(v, alpha) <= v * alpha + 255 * (255 - alpha) < 255 * over_white(v, alpha)
            + 255,
{
    assert(0 <= v * alpha <= 255 * alpha) by (nonlinear_arith)
        requires
            0 <= v <= 255,
            0 <= alpha <= 255,
    ;
}

/// The same holds of gray pixels with alpha.
pub proof fn law_flattening_keeps_each_gray_pixel_in_place(
    data: Seq<u8>,
    other: Seq<u8>,
    p: int,
)
    requires
        0 <= p,
        2 * p + 1 < data.len(),
        2 * p + 1 < other.len(),
    ensures
        flat_gray(data).len() == data.len() / 2,
        ({
            let (out, v, alpha) = (flat_gray(data)[p], data[2 * p], data[2 * p + 1]);
            255 * out <= v * alpha + 255 * (255 - alpha) < 255 * out + 255
        }),
        data[2 * p + 1] == 255 ==> flat_gray(data)[p] == data[2 * p],
        data[2 * p + 1] == 0 ==> flat_gray(data)[p] == 255,
        data[2 * p] == other[2 * p] && data[2 * p + 1] == other[2 * p + 1] ==> flat_gray(data)[p]
            == flat_gray(other)[p],
{
    assert(p < data.len() / 2);
    assert(p < other.len() / 2);
    lemma_on_white(data[2 * p], data[2 * p + 1]);
    law_over_white(data[2 * p], data[2 * p + 1]);
}

pub fn flatten_gray_alpha(data: &Vec<u8>) -> (r: Vec<u8>)
    ensures
        r@ == flat_gray(data@),
{
    let mut gray: Vec<u8> = Vec::new();
    let pixels: usize = data.len() / 2;
    let mut p: usize = 0;
    while p < pixels
        invariant
            pixels == data@.len() / 2,
            data@.len() <= usize::MAX,
            p <= pixels,
            gray@.len() == p,
            forall|i: int|
                0 <= i < p ==> gray@[i] == over_white(data@[i * 2], data@[i * 2 + 1]),
        decreases pixels - p,
    {
        gray.push(blend_on_white(data[p * 2], data[p * 2 + 1]));
        p = p + 1;
    }
    proof {
        assert(gray@ =~= flat_gray(data@));
    }
    gray
}

// ---- downscaling ----

/// `side` scaled from a dimension sum of `sum` to the target sum, rounded to the
/// nearest pixel, halves up, and never zero.
pub open spec fn scaled_side(side: int, sum: int) -> int {
    let scaled = if sum == 0 {
        0
    } else {
        (2 * side * PHOTO_TARGET_DIMENSION_SUM + sum) / (2 * sum)
    };
    if scaled < 1 {
        1
    } else {
        scaled
    }
}

proof fn lemma_scaled_side(side: int, sum: int)
    requires
        0 <= side <= sum,
    ensures
        1 <= scaled_side(side, sum) <= PHOTO_TARGET_DIMENSION_SUM + 1,
        sum > 0 ==> scaled_side(side, sum) * (2 * sum) <= 2 * side * PHOTO_TARGET_DIMENSION_SUM
            + 3 * sum,
{
    if sum > 0 {
        let n = 2 * side * PHOTO_TARGET_DIMENSION_SUM + sum;
        let d = 2 * sum;
        assert(n == d * (n / d) + n % d) by (nonlinear_arith)
            requires
                d > 0,
        ;
        assert(0 <= n % d < d) by (nonlinear_arith)
            requires
                d > 0,
        ;
        let q = n / d;
        assert(q <= PHOTO_TARGET_DIMENSION_SUM) by (nonlinear_arith)
            requires
                d == 2 * sum,
                sum > 0,
                n == 2 * side * 9900 + sum,
                side <= sum,
                d * q <= n,
        ;
        assert(q * (2 * sum) == d * q) by (nonlinear_arith)
            requires
                d == 2 * sum,
        ;
    }
}

/// A downscaled photo is within the dimension limit, whatever it was before.
pub proof fn law_target_dims_fit(w: u32, h: u32)
    ensures
        scaled_side(w as int, w + h) + scaled_side(h as int, w + h) <= PHOTO_MAX_DIMENSION_SUM,
        scaled_side(w as int, w + h) >= 1,
        scaled_side(h as int, w + h) >= 1,
{
    let sum = w + h;
    lemma_scaled_side(w as int, sum);
    lemma_scaled_side(h as int, sum);
    if sum > 0 {
        let a = scaled_side(w as int, sum);
        let b = scaled_side(h as int, sum);
        assert(a + b <= 9903) by (nonlinear_arith)
            requires
                a * (2 * sum) <= 2 * w * 9900 + 3 * sum,
                b * (2 * sum) <= 2 * h * 9900 + 3 * sum,
                sum == w + h,
                sum > 0,
        ;
    }
}

/// Downscaling keeps the picture's proportions: each side is the one that a picture
/// of the target sum would have, to within half a pixel, unless that is less than
/// one pixel. The longer side stays the longer one, and a picture over the limit
/// grows in neither.
pub proof fn law_target_dims_keep_the_proportions(w: u32, h: u32)
    requires
        w + h > 0,
    ensures
        ({
            let sum = w + h;
            let nw = scaled_side(w as int, sum);
            let nh = scaled_side(h as int, sum);
            &&& nw == 1 || -sum <= 2 * (nw * sum - w * PHOTO_TARGET_DIMENSION_SUM) <= sum
            &&& nh == 1 || -sum <= 2 * (nh * sum - h * PHOTO_TARGET_DIMENSION_SUM) <= sum
            &&& 2 * w * PHOTO_TARGET_DIMENSION_SUM >= sum ==> -sum <= 2 * (nw * sum - w
                * PHOTO_TARGET_DIMENSION_SUM) <= sum
            &&& 2 * h * PHOTO_TARGET_DIMENSION_SUM >= sum ==> -sum <= 2 * (nh * sum - h
                * PHOTO_TARGET_DIMENSION_SUM) <= sum
            &&& w <= h ==> nw <= nh
            &&& h <= w ==> nh <= nw
            &&& sum > PHOTO_MAX_DIMENSION_SUM && w >= 1 ==> nw <= w
            &&& sum > PHOTO_MAX_DIMENSION_SUM && h >= 1 ==> nh <= h
        }),
{
    let sum = w + h;
    lemma_nearest_side(w as int, sum);
    lemma_nearest_side(h as int, sum);
    let nw = scaled_side(w as int, sum);
    let nh = scaled_side(h as int, sum);
    if w <= h {
        lemma_sides_in_order(w as int, h as int, sum);
    }
    if h <= w {
        lemma_sides_in_order(h as int, w as int, sum);
    }
}

proof fn lemma_nearest_side(side: int, sum: int)
    requires
        0 <= side <= sum,
        sum > 0,
    ensures
        ({
            let n = scaled_side(side, sum);
            &&& n == 1 || -sum <= 2 * (n * sum - side * PHOTO_TARGET_DIMENSION_SUM) <= sum
            &&& 2 * side * PHOTO_TARGET_DIMENSION_SUM >= sum ==> -sum <= 2 * (n * sum - side
                * PHOTO_TARGET_DIMENSION_SUM) <= sum
            &&& sum > PHOTO_MAX_DIMENSION_SUM && side >= 1 ==> n <= side
        }),
{
    let a = 2 * side * PHOTO_TARGET_DIMENSION_SUM + sum;
    let d = 2 * sum;
    let q = a / d;
    assert(d * q <= a < d * q + d) by (nonlinear_arith)
        requires
            d > 0,
            q == a / d,
    ;
    assert(d * q == 2 * (q * sum)) by (nonlinear_arith)
        requires
            d == 2 * sum,
    ;
    assert(a >= d ==> q >= 1) by (nonlinear_arith)
        requires
            d > 0,
            q == a / d,
    ;
    if sum > PHOTO_MAX_DIMENSION_SUM && side >= 1 {
        assert(q <= side) by (nonlinear_arith)
            requires
                sum > 10000,
                side >= 1,
                a == 2 * side * 9900 + sum,
                2 * (q * sum) <= a,
        ;
    }
}

proof fn lemma_sides_in_order(a: int, b: int, sum: int)
    requires
        0 <= a <= b,
        sum > 0,
    ensures
        scaled_side(a, sum) <= scaled_side(b, sum),
{
    let x = 2 * a * PHOTO_TARGET_DIMENSION_SUM + sum;
    let y = 2 * b * PHOTO_TARGET_DIMENSION_SUM + sum;
    assert(x <= y);
    vstd::arithmetic::div_mod::lemma_div_is_ordered(x, y, 2 * sum);
}

fn scale_side(side: u32, sum: u64) -> (r: u32)
    requires
        side <= sum < 0x2_0000_0000,
    ensures
        r == scaled_side(side as int, sum as int),
{
    if sum == 0 {
        return 1;
    }
    proof {
        lemma_scaled_side(side as int, sum as int);
    }
    let scaled: u64 = (2 * side as u64 * PHOTO_TARGET_DIMENSION_SUM as u64 + sum) / (2 * sum);
    if scaled < 1 {
        1
    } else {
        scaled as u32
    }
}

/// The dimensions that a photo over the limit is downscaled to.
pub fn target_dims(w: u32, h: u32) -> (r: (u32, u32))
    ensures
        r.0 == scaled_side(w as int, w + h),
        r.1 == scaled_side(h as int, w + h),
{
    let sum: u64 = w as u64 + h as u64;
    (scale_side(w, sum), scale_side(h, sum))
}

/// Whether a buffer is one that `fast_image_resize` may give for the pixels of
/// another, brought from `w` by `h` to `nw` by `nh`.
pub uninterp spec fn resampled(
    layout: Layout,
    data: Seq<u8>,
    w: u32,
    h: u32,
    nw: u32,
    nh: u32,
    out: Seq<u8>,
) -> bool;

/// Resamples with the Lanczos filter of `fast_image_resize`: the buffer is taken
/// by `images::Image::from_vec_u8`, which refuses one that is smaller than the
/// dimensions ask for, and `Resizer::resize` fills an image of the new
/// dimensions. What it gives is named as a relation, because the filter's weights
/// come from a sine whose precision is left to the platform: the resampled values
/// may differ in the last bit from one machine to the next.
#[verifier::external_body]
fn lanczos(layout: Layout, data: Vec<u8>, w: u32, h: u32, nw: u32, nh: u32) -> (r: Result<
    Vec<u8>,
    String,
>)
    requires
        pixel_bytes(w as int, h as int, layout_channels(layout)) <= MAX_DECODE_BYTES,
        pixel_bytes(nw as int, nh as int, layout_channels(layout)) <= MAX_DECODE_BYTES,
    ensures
        r is Ok <==> data@.len() >= pixel_bytes(w as int, h as int, layout_channels(layout)),
        r matches Ok(v) ==> v@.len() == pixel_bytes(
            nw as int,
            nh as int,
            layout_channels(layout),
        ),
        r matches Ok(v) ==> resampled(layout, data@, w, h, nw, nh, v@),
        r matches Err(e) ==> e@ == "Size of buffer is smaller than required"@,
{
    let kind = match layout {
        Layout::Gray => fir::PixelType::U8,
        Layout::GrayAlpha => fir::PixelType::U8x2,
        Layout::Rgb => fir::PixelType::U8x3,
    };
    let src = fir::images::Image::from_vec_u8(w, h, data, kind).map_err(|e| e.to_string())?;
    let mut dst = fir::images::Image::new(nw, nh, kind);
    let filter = fir::ResizeAlg::Convolution(fir::FilterType::Lanczos3);
    let options = fir::ResizeOptions::default().resize_alg(filter);
    fir::Resizer::new().resize(&src, &mut dst, &options).map_err(|e| e.to_string())?;
    Ok(dst.into_vec())
}

/// What downscaling a buffer can give: the resampled pixels in the new dimensions
/// and the same channels where the buffer holds all its pixels, else an error.
pub open spec fn resizes_to(
    layout: Layout,
    data: Seq<u8>,
    w: u32,
    h: u32,
    nw: u32,
    nh: u32,
    out: Result<Seq<u8>, Seq<char>>,
) -> bool {
    if data.len() >= pixel_bytes(w as int, h as int, layout_channels(layout)) {
        out matches Ok(v) && v.len() == pixel_bytes(nw as int, nh as int, layout_channels(layout))
            && resampled(layout, data, w, h, nw, nh, v)
    } else {
        out == Err::<Seq<u8>, Seq<char>>(
            "resize input: "@ + "Size of buffer is smaller than required"@,
        )
    }
}

/// The pixels of a buffer, or the text of an error.
pub open spec fn pix_result(r: Result<PixBuf, String>) -> Result<Seq<u8>, Seq<char>> {
    match r {
        Ok(p) => Ok(p.data()),
        Err(e) => Err(e@),
    }
}

/// Downscales a buffer from `w` by `h` to `nw` by `nh` pixels.
pub fn resize_pix(pix: PixBuf, w: u32, h: u32, nw: u32, nh: u32) -> (r: Result<PixBuf, String>)
    requires
        pixel_bytes(w as int, h as int, layout_channels(pix.layout())) <= MAX_DECODE_BYTES,
        pixel_bytes(nw as int, nh as int, layout_channels(pix.layout())) <= MAX_DECODE_BYTES,
    ensures
        resizes_to(pix.layout(), pix.data(), w, h, nw, nh, pix_result(r)),
        r matches Ok(p) ==> p.layout() == pix.layout(),
{
    let layout = pix.pixel_type();
    match lanczos(layout, pix.into_vec(), w, h, nw, nh) {
        Ok(data) => Ok(PixBuf::from_parts(layout, data)),
        Err(e) => {
            let mut text = "resize input: ".to_owned();
            text.append(e.as_str());
            Err(text)
        },
    }
}

// ---- encoding ----

/// The file that the `png` crate makes of 8-bit pixels, or the words of its
/// error.
pub uninterp spec fn png_encoding_of(
    layout: Layout,
    data: Seq<u8>,
    w: u32,
    h: u32,
) -> Result<Seq<u8>, Seq<char>>;

/// The bytes of a result, or the text of its error.
pub open spec fn bytes_result(r: Result<Vec<u8>, String>) -> Result<Seq<u8>, Seq<char>> {
    match r {
        Ok(v) => Ok(v@),
        Err(e) => Err(e@),
    }
}

/// Writes 8-bit pixels with `png::Encoder` and `Writer::write_image_data`. The
/// result is named: it is a function of the arguments alone.
#[verifier::external_body]
fn write_png(layout: Layout, data: &[u8], w: u32, h: u32) -> (r: Result<Vec<u8>, String>)
    requires
        pixel_bytes(w as int, h as int, layout_channels(layout)) <= MAX_DECODE_BYTES,
    ensures
        bytes_result(r) == png_encoding_of(layout, data@, w, h),
{
    let mut out = Vec::new();
    let mut encoder = png::Encoder::new(&mut out, w, h);
    encoder.set_color(match layout {
        Layout::Gray => png::ColorType::Grayscale,
        Layout::GrayAlpha => png::ColorType::GrayscaleAlpha,
        Layout::Rgb => png::ColorType::Rgb,
    });
    encoder.set_depth(png::BitDepth::Eight);
    let mut writer = encoder.write_header().map_err(|e| e.to_string())?;
    writer.write_image_data(data).map_err(|e| e.to_string())?;
    drop(writer);
    Ok(out)
}

/// Encodes a buffer as PNG.
pub fn encode_png(pix: &PixBuf, w: u32, h: u32) -> (r: Result<Vec<u8>, String>)
    requires
        pixel_bytes(w as int, h as int, layout_channels(pix.layout())) <= MAX_DECODE_BYTES,
    ensures
        bytes_result(r) == png_encoding_of(pix.layout(), pix.data(), w, h),
{
    match pix {
        PixBuf::Gray(v) => write_png(Layout::Gray, v.as_slice(), w, h),
        PixBuf::GrayAlpha(v) => write_png(Layout::GrayAlpha, v.as_slice(), w, h),
        PixBuf::Rgb(v) => write_png(Layout::Rgb, v.as_slice(), w, h),
    }
}

/// The file that `jpeg_encoder` makes of gray or RGB pixels at a quality, or the
/// words of its error.
pub uninterp spec fn jpeg_encoding_of(
    gray: bool,
    data: Seq<u8>,
    w: u16,
    h: u16,
    quality: u8,
) -> Result<Seq<u8>, Seq<char>>;

/// Writes gray or RGB pixels with `jpeg_encoder::Encoder::encode`. The result is
/// named: it is a function of the arguments alone.
#[verifier::external_body]
fn write_jpeg(gray: bool, data: &[u8], w: u16, h: u16, quality: u8) -> (r: Result<
    Vec<u8>,
    String,
>)
    ensures
        bytes_result(r) == jpeg_encoding_of(gray, data@, w, h, quality),
{
    let mut out = Vec::new();
    let encoder = jpeg_encoder::Encoder::new(&mut out, quality);
    let color = match gray {
        true => jpeg_encoder::ColorType::Luma,
        false => jpeg_encoder::ColorType::Rgb,
    };
    encoder.encode(data, w, h, color).map_err(|e| e.to_string())?;
    Ok(out)
}

/// A buffer as JPEG: alpha is composited onto white, gray stays gray.
pub open spec fn jpeg_of(layout: Layout, data: Seq<u8>, w: u32, h: u32) -> Result<
    Seq<u8>,
    Seq<char>,
> {
    let encoded = match layout {
        Layout::Gray => jpeg_encoding_of(true, data, w as u16, h as u16, JPEG_QUALITY),
        Layout::GrayAlpha => jpeg_encoding_of(
            true,
            flat_gray(data),
            w as u16,
            h as u16,
            JPEG_QUALITY,
        ),
        Layout::Rgb => jpeg_encoding_of(false, data, w as u16, h as u16, JPEG_QUALITY),
    };
    match encoded {
        Ok(bytes) => Ok(bytes),
        Err(e) => Err("jpeg encode: "@ + e),
    }
}

/// Encodes a buffer as JPEG, which has no alpha channel.
pub fn encode_jpeg(pix: &PixBuf, w: u32, h: u32) -> (r: Result<Vec<u8>, String>)
    requires
        w <= u16::MAX,
        h <= u16::MAX,
    ensures
        bytes_result(r) == jpeg_of(pix.layout(), pix.data(), w, h),
{
    let encoded = match pix {
        PixBuf::Gray(v) => write_jpeg(true, v.as_slice(), w as u16, h as u16, JPEG_QUALITY),
        PixBuf::GrayAlpha(v) => {
            let gray = flatten_gray_alpha(v);
            write_jpeg(true, gray.as_slice(), w as u16, h as u16, JPEG_QUALITY)
        },
        PixBuf::Rgb(v) => write_jpeg(false, v.as_slice(), w as u16, h as u16, JPEG_QUALITY),
    };
    match encoded {
        Ok(bytes) => Ok(bytes),
        Err(e) => {
            let mut text = "jpeg encode: ".to_owned();
            text.append(e.as_str());
            Err(text)
        },
    }
}

// ---- what goes out ----

/// The format of a processed photo.
#[derive(Clone, Copy, Debug, PartialEq, Eq, Structural)]
pub enum PhotoExt {
    Png,
    Jpg,
}

impl PhotoExt {
    pub open spec fn spec_suffix(self) -> Seq<char> {
        match self {
            PhotoExt::Png => "png"@,
            PhotoExt::Jpg => "jpg"@,
        }
    }

    /// The file name extension.
    pub fn suffix(self) -> (r: String)
        ensures
            r@ == self.spec_suffix(),
    {
        match self {
            PhotoExt::Png => "png".to_owned(),
            PhotoExt::Jpg => "jpg".to_owned(),
        }
    }
}

/// What to upload for a downloaded photo.
#[derive(Debug)]
pub enum PhotoPrep {
    /// The file as it was downloaded.
    Original,
    /// These bytes instead.
    Upload(Vec<u8>, PhotoExt),
    /// The photo cannot be brought within the limits: its smaller variant goes
    /// out.
    UseFallback,
}

/// [`PhotoPrep`] over mathematical bytes.
pub enum PrepView {
    Original,
    Upload(Seq<u8>, PhotoExt),
    UseFallback,
}

pub open spec fn prep_result(r: Result<PhotoPrep, String>) -> Result<PrepView, Seq<char>> {
    match r {
        Ok(PhotoPrep::Original) => Ok(PrepView::Original),
        Ok(PhotoPrep::Upload(bytes, ext)) => Ok(PrepView::Upload(bytes@, ext)),
        Ok(PhotoPrep::UseFallback) => Ok(PrepView::UseFallback),
        Err(e) => Err(e@),
    }
}

/// An encoded JPEG goes out unless it is over the upload limit.
pub open spec fn jpeg_upload(encoded: Result<Seq<u8>, Seq<char>>) -> Result<PrepView, Seq<char>> {
    match encoded {
        Ok(bytes) => if bytes.len() <= MAX_UPLOAD_BYTES {
            Ok(PrepView::Upload(bytes, PhotoExt::Jpg))
        } else {
            Ok(PrepView::UseFallback)
        },
        Err(e) => Err(e),
    }
}

/// What becomes of an encoded JPEG.
pub fn settle_jpeg(encoded: Result<Vec<u8>, String>) -> (r: Result<PhotoPrep, String>)
    ensures
        prep_result(r) == jpeg_upload(bytes_result(encoded)),
{
    match encoded {
        Ok(bytes) => if bytes.len() as u64 <= MAX_UPLOAD_BYTES {
            Ok(PhotoPrep::Upload(bytes, PhotoExt::Jpg))
        } else {
            Ok(PhotoPrep::UseFallback)
        },
        Err(e) => Err(e),
    }
}

/// An encoded PNG goes out unless it is over the upload limit; then the JPEG of
/// the same pixels is tried.
pub open spec fn png_upload(
    encoded: Result<Seq<u8>, Seq<char>>,
    layout: Layout,
    data: Seq<u8>,
    w: u32,
    h: u32,
) -> Result<PrepView, Seq<char>> {
    match encoded {
        Ok(bytes) => if bytes.len() <= MAX_UPLOAD_BYTES {
            Ok(PrepView::Upload(bytes, PhotoExt::Png))
        } else {
            jpeg_upload(jpeg_of(layout, data, w, h))
        },
        Err(e) => Err("png encode: "@ + e),
    }
}

/// What becomes of an encoded PNG of `w` by `h` pixels `pix`.
pub fn settle_png(encoded: Result<Vec<u8>, String>, pix: &PixBuf, w: u32, h: u32) -> (r: Result<
    PhotoPrep,
    String,
>)
    requires
        w + h <= PHOTO_MAX_DIMENSION_SUM,
    ensures
        prep_result(r) == png_upload(bytes_result(encoded), pix.layout(), pix.data(), w, h),
{
    match encoded {
        Ok(bytes) => if bytes.len() as u64 <= MAX_UPLOAD_BYTES {
            Ok(PhotoPrep::Upload(bytes, PhotoExt::Png))
        } else {
            settle_jpeg(encode_jpeg(pix, w, h))
        },
        Err(e) => {
            let mut text = "png encode: ".to_owned();
            text.append(e.as_str());
            Err(text)
        },
    }
}

/// What bringing decoded pixels within the dimension limit can give: the same
/// pixels where they are within it, else downscaled ones.
pub open spec fn fits_to(
    layout: Layout,
    data: Seq<u8>,
    w: u32,
    h: u32,
    out: Result<(Seq<u8>, u32, u32), Seq<char>>,
) -> bool {
    if w + h <= PHOTO_MAX_DIMENSION_SUM {
        out == Ok::<(Seq<u8>, u32, u32), Seq<char>>((data, w, h))
    } else {
        let nw = scaled_side(w as int, w + h) as u32;
        let nh = scaled_side(h as int, w + h) as u32;
        match out {
            Ok(fit) => fit.1 == nw && fit.2 == nh && resizes_to(
                layout,
                data,
                w,
                h,
                nw,
                nh,
                Ok(fit.0),
            ),
            Err(e) => resizes_to(layout, data, w, h, nw, nh, Err(e)),
        }
    }
}

/// A buffer with its dimensions, or the text of an error.
pub open spec fn fit_result(r: Result<(PixBuf, u32, u32), String>) -> Result<
    (Seq<u8>, u32, u32),
    Seq<char>,
> {
    match r {
        Ok(fit) => Ok((fit.0.data(), fit.1, fit.2)),
        Err(e) => Err(e@),
    }
}

proof fn lemma_small_image(w: u32, h: u32, layout: Layout)
    requires
        w + h <= PHOTO_MAX_DIMENSION_SUM,
    ensures
        pixel_bytes(w as int, h as int, layout_channels(layout)) <= MAX_DECODE_BYTES,
{
    let c = layout_channels(layout);
    assert(w * h <= 10000 * 10000) by (nonlinear_arith)
        requires
            0 <= w,
            0 <= h,
            w + h <= 10000,
    ;
    assert(w * h * c <= 10000 * 10000 * 3) by (nonlinear_arith)
        requires
            0 <= w * h <= 10000 * 10000,
            1 <= c <= 3,
    ;
}

/// Downscales decoded pixels where they are over the dimension limit.
pub fn fit_dimensions(pix: PixBuf, w: u32, h: u32) -> (r: Result<(PixBuf, u32, u32), String>)
    requires
        pixel_bytes(w as int, h as int, layout_channels(pix.layout())) <= MAX_DECODE_BYTES,
    ensures
        fits_to(pix.layout(), pix.data(), w, h, fit_result(r)),
        r matches Ok(fit) ==> fit.0.layout() == pix.layout() && fit.1 + fit.2
            <= PHOTO_MAX_DIMENSION_SUM,
{
    if w as u64 + h as u64 <= PHOTO_MAX_DIMENSION_SUM as u64 {
        return Ok((pix, w, h));
    }
    let (nw, nh) = target_dims(w, h);
    proof {
        law_target_dims_fit(w, h);
        lemma_small_image(nw, nh, pix.layout());
    }
    match resize_pix(pix, w, h, nw, nh) {
        Ok(resized) => Ok((resized, nw, nh)),
        Err(e) => Err(e),
    }
}

// ---- PNG ----

/// A decoded PNG frame of 8-bit samples (less for shallow gray).
#[derive(Debug)]
pub struct PngFrame {
    pub width: u32,
    pub height: u32,
    pub pixels: Vec<u8>,
}

/// Where decoding a PNG stopped.
#[derive(Debug)]
pub enum PngFault {
    Info(String),
    BufferSize,
    Frame(String),
}

/// [`PngFrame`] over mathematical bytes.
pub struct PngFrameView {
    pub width: u32,
    pub height: u32,
    pub pixels: Seq<u8>,
}

pub open spec fn frame_view(f: PngFrame) -> PngFrameView {
    PngFrameView { width: f.width, height: f.height, pixels: f.pixels@ }
}

/// [`PngFault`] over mathematical text.
pub enum PngFaultView {
    Info(Seq<char>),
    BufferSize,
    Frame(Seq<char>),
}

impl View for PngFault {
    type V = PngFaultView;

    open spec fn view(&self) -> PngFaultView {
        match self {
            PngFault::Info(e) => PngFaultView::Info(e@),
            PngFault::BufferSize => PngFaultView::BufferSize,
            PngFault::Frame(e) => PngFaultView::Frame(e@),
        }
    }
}

/// The words for a PNG that could not be decoded.
pub open spec fn fault_text(f: PngFaultView) -> Seq<char> {
    match f {
        PngFaultView::Info(e) => "png decode: "@ + e,
        PngFaultView::BufferSize => "png output buffer size"@,
        PngFaultView::Frame(e) => "png frame: "@ + e,
    }
}

impl PngFault {
    pub fn message(&self) -> (r: String)
        ensures
            r@ == fault_text(self@),
    {
        match self {
            PngFault::Info(e) => {
                let mut text = "png decode: ".to_owned();
                text.append(e.as_str());
                text
            },
            PngFault::BufferSize => "png output buffer size".to_owned(),
            PngFault::Frame(e) => {
                let mut text = "png frame: ".to_owned();
                text.append(e.as_str());
                text
            },
        }
    }
}

/// The frame that the `png` crate decodes out of a file, with palettes expanded
/// where asked and 16-bit samples stripped otherwise, or where it stops.
pub uninterp spec fn png_frame_of(bytes: Seq<u8>, expand: bool) -> Result<
    PngFrameView,
    PngFaultView,
>;

/// A decoded frame, or where decoding stopped, over mathematical values.
pub open spec fn frame_result(r: Result<PngFrame, PngFault>) -> Result<
    PngFrameView,
    PngFaultView,
> {
    match r {
        Ok(f) => Ok(frame_view(f)),
        Err(fault) => Err(fault@),
    }
}

/// What the decoder hands out for a header: the same dimensions, and every pixel
/// in the bytes of its channels where the samples are whole bytes. A palette
/// comes out as RGB, or as RGBA where it has transparency.
pub open spec fn frame_matches(header: PngHeader, f: PngFrameView) -> bool {
    let bytes = |channels: int| pixel_bytes(f.width as int, f.height as int, channels);
    &&& f.width == header.width
    &&& f.height == header.height
    &&& match header.color {
        PngColor::Grayscale => true,
        PngColor::Indexed => f.pixels.len() == bytes(3) || f.pixels.len() == bytes(4),
        color => f.pixels.len() == bytes(channels_of(color)),
    }
}

/// Decodes with `png::Decoder` and `Reader::next_frame`, expanding palettes
/// (`Transformations::EXPAND`) or stripping 16-bit samples to 8 bits
/// (`Transformations::STRIP_16`), into a buffer of `output_buffer_size` bytes.
/// The result is named: where sizes have 64 bits it is a function of the
/// arguments alone. A palette that is cut within a color is left out: the crate
/// panics when it expands one.
#[verifier::external_body]
fn decode_png(bytes: &[u8], expand: bool) -> (r: Result<PngFrame, PngFault>)
    requires
        png_header_of(bytes@) is Some,
        expand == (png_header_of(bytes@)->0.color is Indexed),
        expand ==> png_header_of(bytes@)->0.palette % 3 == 0,
        pixel_bytes(
            png_header_of(bytes@)->0.width as int,
            png_header_of(bytes@)->0.height as int,
            channels_of(png_header_of(bytes@)->0.color),
        ) <= MAX_DECODE_BYTES,
    ensures
        frame_result(r) == png_frame_of(bytes@, expand),
        r matches Ok(f) ==> frame_matches(png_header_of(bytes@)->0, frame_view(f)),
{
    let mut decoder = png::Decoder::new(std::io::Cursor::new(bytes));
    let strip = png::Transformations::STRIP_16;
    decoder.set_transformations(if expand { png::Transformations::EXPAND } else { strip });
    let mut reader = decoder.read_info().map_err(|e| PngFault::Info(e.to_string()))?;
    let mut pixels = vec![0u8; reader.output_buffer_size().ok_or(PngFault::BufferSize)?];
    reader.next_frame(&mut pixels).map_err(|e| PngFault::Frame(e.to_string()))?;
    let (width, height) = reader.info().size();
    Ok(PngFrame { width, height, pixels })
}

/// The color that a frame's pixels are in: that of the header, and RGB or RGBA
/// for a palette.
pub open spec fn frame_color(color: PngColor, f: PngFrameView) -> PngColor {
    if !(color is Indexed) {
        color
    } else if f.pixels.len() == pixel_bytes(f.width as int, f.height as int, 4) {
        PngColor::Rgba
    } else {
        PngColor::Rgb
    }
}

pub open spec fn frame_layout(color: PngColor) -> Layout {
    match color {
        PngColor::Grayscale => Layout::Gray,
        PngColor::GrayscaleAlpha => Layout::GrayAlpha,
        PngColor::Rgb => Layout::Rgb,
        PngColor::Indexed => Layout::Rgb,
        PngColor::Rgba => Layout::Rgb,
    }
}

/// RGBA is composited onto white, the rest is kept.
pub open spec fn frame_data(color: PngColor, pixels: Seq<u8>) -> Seq<u8> {
    match color {
        PngColor::Rgba => flat_rgb(pixels),
        _ => pixels,
    }
}

/// The pixel buffer of a frame decoded from a PNG of this color.
pub fn frame_pixels(color: PngColor, frame: PngFrame) -> (r: PixBuf)
    ensures
        r.layout() == frame_layout(frame_color(color, frame_view(frame))),
        r.data() == frame_data(frame_color(color, frame_view(frame)), frame.pixels@),
{
    let rgba = decode_bytes(frame.width, frame.height, 4) == frame.pixels.len() as u128;
    match color {
        PngColor::Rgba => PixBuf::Rgb(flatten_rgba_to_rgb(frame.pixels.as_slice())),
        PngColor::Grayscale => PixBuf::Gray(frame.pixels),
        PngColor::GrayscaleAlpha => PixBuf::GrayAlpha(frame.pixels),
        PngColor::Rgb => PixBuf::Rgb(frame.pixels),
        PngColor::Indexed => if rgba {
            PixBuf::Rgb(flatten_rgba_to_rgb(frame.pixels.as_slice()))
        } else {
            PixBuf::Rgb(frame.pixels)
        },
    }
}

/// What can become of pixels that came out of a PNG: they are brought within the
/// dimension limit, encoded as PNG, and as JPEG where that is still too large.
pub open spec fn png_outcome(
    layout: Layout,
    data: Seq<u8>,
    w: u32,
    h: u32,
    r: Result<PrepView, Seq<char>>,
) -> bool {
    exists|out: Result<(Seq<u8>, u32, u32), Seq<char>>| #[trigger]
        fits_to(layout, data, w, h, out) && r == match out {
            Ok(fit) => png_upload(
                png_encoding_of(layout, fit.0, fit.1, fit.2),
                layout,
                fit.0,
                fit.1,
                fit.2,
            ),
            Err(e) => Err(e),
        }
}

/// Processes the pixels that came out of a PNG.
pub fn finish_png(pix: PixBuf, w: u32, h: u32) -> (r: Result<PhotoPrep, String>)
    requires
        pixel_bytes(w as int, h as int, layout_channels(pix.layout())) <= MAX_DECODE_BYTES,
    ensures
        png_outcome(pix.layout(), pix.data(), w, h, prep_result(r)),
{
    let ghost layout = pix.layout();
    let ghost data = pix.data();
    match fit_dimensions(pix, w, h) {
        Ok((fit, fw, fh)) => {
            proof {
                lemma_small_image(fw, fh, layout);
                assert(fits_to(layout, data, w, h, Ok((fit.data(), fw, fh))));
            }
            settle_png(encode_png(&fit, fw, fh), &fit, fw, fh)
        },
        Err(e) => {
            proof {
                assert(fits_to(layout, data, w, h, Err(e@)));
            }
            Err(e)
        },
    }
}

/// What can become of a PNG of `len` bytes with this header.
pub open spec fn prepared_png(
    header: Option<PngHeader>,
    frame: Result<PngFrameView, PngFaultView>,
    len: int,
    r: Result<PrepView, Seq<char>>,
) -> bool {
    match header {
        None => r == Err::<PrepView, Seq<char>>("invalid PNG header"@),
        Some(header) => match plan_of(
            header.width,
            header.height,
            len,
            channels_of(header.color),
        ) {
            PhotoPlan::AsIs => r == Ok::<PrepView, Seq<char>>(PrepView::Original),
            PhotoPlan::TooLarge => r == Ok::<PrepView, Seq<char>>(PrepView::UseFallback),
            PhotoPlan::Decode(_) => if header.color is Indexed && header.palette % 3 != 0 {
                r == Err::<PrepView, Seq<char>>("invalid PNG palette"@)
            } else {
                match frame {
                    Ok(f) => png_outcome(
                        frame_layout(frame_color(header.color, f)),
                        frame_data(frame_color(header.color, f), f.pixels),
                        f.width,
                        f.height,
                        r,
                    ),
                    Err(fault) => r == Err::<PrepView, Seq<char>>(fault_text(fault)),
                }
            },
        },
    }
}

proof fn lemma_frame_bytes(header: PngHeader, f: PngFrameView)
    requires
        frame_matches(header, f),
        pixel_bytes(header.width as int, header.height as int, channels_of(header.color))
            <= MAX_DECODE_BYTES,
    ensures
        pixel_bytes(
            f.width as int,
            f.height as int,
            layout_channels(frame_layout(frame_color(header.color, f))),
        ) <= MAX_DECODE_BYTES,
{
    let area = header.width * header.height;
    let have = channels_of(header.color);
    let need = layout_channels(frame_layout(frame_color(header.color, f)));
    assert(need <= have);
    assert(0 <= area * need <= area * have) by (nonlinear_arith)
        requires
            area == header.width * header.height,
            0 <= need <= have,
    ;
}

/// Processes a PNG.
pub fn prepare_png(bytes: &[u8]) -> (r: Result<PhotoPrep, String>)
    ensures
        prepared_png(
            png_header_of(bytes@),
            png_frame_of(bytes@, png_header_of(bytes@)->0.color is Indexed),
            bytes@.len() as int,
            prep_result(r),
        ),
{
    let header = match parse_png_header(bytes) {
        Some(header) => header,
        None => {
            return Err("invalid PNG header".to_owned());
        },
    };
    let channels: usize = output_channels(header.color);
    match plan_photo(header.width, header.height, bytes.len(), channels) {
        PhotoPlan::AsIs => Ok(PhotoPrep::Original),
        PhotoPlan::TooLarge => Ok(PhotoPrep::UseFallback),
        PhotoPlan::Decode(_) => {
            let expand = header.color == PngColor::Indexed;
            if expand && header.palette % 3 != 0 {
                return Err("invalid PNG palette".to_owned());
            }
            match decode_png(bytes, expand) {
                Ok(frame) => {
                    proof {
                        lemma_frame_bytes(header, frame_view(frame));
                    }
                    let (w, h) = (frame.width, frame.height);
                    finish_png(frame_pixels(header.color, frame), w, h)
                },
                Err(fault) => Err(fault.message()),
            }
        },
    }
}

// ---- JPEG ----

/// The bytes that the RGB pixels of an image of these dimensions take.
pub open spec fn rgb_bytes(dims: (u32, u32)) -> int {
    pixel_bytes(dims.0 as int, dims.1 as int, 3)
}

/// Whether the header of a frame begins at a place: a marker of the kinds that are
/// decoded, and a segment as long as its one to four components ask for.
pub open spec fn is_frame(b: Seq<u8>, i: int) -> bool {
    &&& 0 <= i
    &&& i + 10 <= b.len()
    &&& b[i] == 0xff
    &&& 0xc0 <= b[i + 1] <= 0xc2
    &&& 1 <= b[i + 9] <= 4
    &&& b[i + 2] * 256 + b[i + 3] == 8 + 3 * b[i + 9]
    &&& i + 10 + 3 * b[i + 9] <= b.len()
}

/// How many samples a component has across and down.
pub open spec fn sampling(b: Seq<u8>, i: int, k: int) -> (int, int) {
    (b[i + 11 + 3 * k] as int / 16, b[i + 11 + 3 * k] as int % 16)
}

/// Whether the buffers for a frame come out large enough: no component has more
/// samples across than the first. A progressive frame of four components also has
/// as many samples down in each, and one of fewer than three has no inks.
pub open spec fn frame_fits(b: Seq<u8>, i: int, ycck: bool) -> bool {
    let n = b[i + 9];
    &&& forall|k: int|
        0 <= k < n ==> (#[trigger] sampling(b, i, k)).0 <= sampling(b, i, 0).0
    &&& b[i + 1] == 0xc2 && n == 4 ==> forall|k: int|
        0 <= k < n ==> (#[trigger] sampling(b, i, k)).1 == sampling(b, i, 0).1
    &&& b[i + 1] == 0xc2 && n < 3 ==> !ycck
}

/// Whether every frame of a JPEG fits, wherever its header stands.
pub open spec fn frames_fit(b: Seq<u8>, ycck: bool) -> bool {
    forall|i: int| #[trigger] is_frame(b, i) ==> frame_fits(b, i, ycck)
}

fn begins_frame(b: &[u8], i: usize) -> (r: bool)
    requires
        i < b@.len(),
    ensures
        r == is_frame(b@, i as int),
{
    if b.len() - i < 10 {
        return false;
    }
    let n: u8 = b[i + 9];
    b[i] == 0xff && 0xc0 <= b[i + 1] && b[i + 1] <= 0xc2 && 1 <= n && n <= 4 && b[i + 2] as u32
        * 256 + b[i + 3] as u32 == 8 + 3 * n as u32 && b.len() - i - 10 >= 3 * n as usize
}

fn fits_frame(b: &[u8], i: usize, ycck: bool) -> (r: bool)
    requires
        i < b@.len(),
        is_frame(b@, i as int),
    ensures
        r == frame_fits(b@, i as int, ycck),
{
    let len: usize = b.len();
    let n: usize = b[i + 9] as usize;
    let progressive = b[i + 1] == 0xc2;
    let first: u8 = b[i + 11];
    let mut k: usize = 0;
    while k < n
        invariant
            len == b@.len(),
            is_frame(b@, i as int),
            n == b@[i + 9],
            progressive == (b@[i + 1] == 0xc2),
            first == b@[i + 11],
            k <= n,
            forall|j: int|
                0 <= j < k ==> (#[trigger] sampling(b@, i as int, j)).0 <= sampling(
                    b@,
                    i as int,
                    0,
                ).0,
            progressive && n == 4 ==> forall|j: int|
                0 <= j < k ==> (#[trigger] sampling(b@, i as int, j)).1 == sampling(
                    b@,
                    i as int,
                    0,
                ).1,
        decreases n - k,
    {
        let other: u8 = b[i + 11 + 3 * k];
        assert(sampling(b@, i as int, 0) == (first as int / 16, first as int % 16));
        assert(sampling(b@, i as int, k as int) == (other as int / 16, other as int % 16));
        if other / 16 > first / 16 {
            return false;
        }
        if progressive && n == 4 && other % 16 != first % 16 {
            return false;
        }
        k = k + 1;
    }
    !(progressive && n < 3 && ycck)
}

/// Whether a JPEG can be decoded: every frame header in the file is looked at,
/// also one that stands in a thumbnail.
pub fn can_decode(b: &[u8], ycck: bool) -> (r: bool)
    ensures
        r == frames_fit(b@, ycck),
{
    let n: usize = b.len();
    let mut i: usize = 0;
    while i < n
        invariant
            n == b@.len(),
            i <= n,
            forall|j: int| j < i && #[trigger] is_frame(b@, j) ==> frame_fits(b@, j, ycck),
        decreases n - i,
    {
        if begins_frame(b, i) && !fits_frame(b, i, ycck) {
            assert(is_frame(b@, i as int));
            return false;
        }
        i = i + 1;
    }
    true
}

/// The RGB pixels that `zune_jpeg` decodes out of a file, or the words of its
/// error.
pub uninterp spec fn jpeg_pixels_of(bytes: Seq<u8>) -> Result<Seq<u8>, Seq<char>>;

/// Decodes with `zune_jpeg::JpegDecoder::decode`, which gives three bytes for
/// each pixel of the dimensions in the headers. The result is named: it is a
/// function of the bytes alone, because the routines for the different
/// processors compute the same integers. Files with a frame that does not fit are
/// left out: the crate sizes its buffers by the first component, and panics where
/// another one needs more.
#[verifier::external_body]
fn decode_jpeg(bytes: &[u8]) -> (r: Result<Vec<u8>, String>)
    requires
        jpeg_dims_of(bytes@) is Some,
        rgb_bytes(jpeg_dims_of(bytes@)->0) <= MAX_DECODE_BYTES,
        frames_fit(bytes@, jpeg_header_of(bytes@)->Ok_0->0.ycck),
    ensures
        bytes_result(r) == jpeg_pixels_of(bytes@),
        r matches Ok(v) ==> v@.len() == rgb_bytes(jpeg_dims_of(bytes@)->0),
{
    let mut decoder = zune_jpeg::JpegDecoder::new(std::io::Cursor::new(bytes));
    decoder.decode().map_err(|e| e.to_string())
}

/// What can become of RGB pixels that came out of a JPEG: they are brought
/// within the dimension limit and encoded again.
pub open spec fn jpeg_pixels_outcome(
    layout: Layout,
    data: Seq<u8>,
    w: u32,
    h: u32,
    r: Result<PrepView, Seq<char>>,
) -> bool {
    exists|out: Result<(Seq<u8>, u32, u32), Seq<char>>| #[trigger]
        fits_to(layout, data, w, h, out) && r == match out {
            Ok(fit) => jpeg_upload(jpeg_of(layout, fit.0, fit.1, fit.2)),
            Err(e) => Err(e),
        }
}

/// What can become of what a decoder gave for a JPEG of `w` by `h` pixels.
pub open spec fn jpeg_outcome(
    decoded: Result<Seq<u8>, Seq<char>>,
    w: u32,
    h: u32,
    r: Result<PrepView, Seq<char>>,
) -> bool {
    match decoded {
        Err(e) => r == Err::<PrepView, Seq<char>>("jpeg decode: "@ + e),
        Ok(data) => jpeg_pixels_outcome(Layout::Rgb, data, w, h, r),
    }
}

/// Processes what came out of a JPEG of `w` by `h` pixels.
pub fn finish_jpeg(decoded: Result<Vec<u8>, String>, w: u32, h: u32) -> (r: Result<
    PhotoPrep,
    String,
>)
    requires
        pixel_bytes(w as int, h as int, 3) <= MAX_DECODE_BYTES,
    ensures
        jpeg_outcome(bytes_result(decoded), w, h, prep_result(r)),
{
    match decoded {
        Err(e) => {
            let mut text = "jpeg decode: ".to_owned();
            text.append(e.as_str());
            Err(text)
        },
        Ok(pixels) => {
            let ghost data = pixels@;
            let pix = PixBuf::Rgb(pixels);
            assert(pix.layout() == Layout::Rgb && pix.data() == data);
            match fit_dimensions(pix, w, h) {
                Ok((fit, fw, fh)) => {
                    proof {
                        assert(fits_to(Layout::Rgb, data, w, h, Ok((fit.data(), fw, fh))));
                    }
                    settle_jpeg(encode_jpeg(&fit, fw, fh))
                },
                Err(e) => {
                    proof {
                        assert(fits_to(Layout::Rgb, data, w, h, Err(e@)));
                    }
                    Err(e)
                },
            }
        },
    }
}

/// What can become of the bytes of a JPEG with these headers that decode to
/// `decoded`.
pub open spec fn prepared_jpeg(
    header: Result<Option<JpegHeader>, Seq<char>>,
    bytes: Seq<u8>,
    decoded: Result<Seq<u8>, Seq<char>>,
    r: Result<PrepView, Seq<char>>,
) -> bool {
    match header {
        Err(e) => r == Err::<PrepView, Seq<char>>("jpeg headers: "@ + e),
        Ok(None) => r == Err::<PrepView, Seq<char>>("jpeg info unavailable"@),
        Ok(Some(h)) => match plan_of(h.width as u32, h.height as u32, bytes.len() as int, 3) {
            PhotoPlan::AsIs => r == Ok::<PrepView, Seq<char>>(PrepView::Original),
            PhotoPlan::TooLarge => r == Ok::<PrepView, Seq<char>>(PrepView::UseFallback),
            PhotoPlan::Decode(_) => if frames_fit(bytes, h.ycck) {
                jpeg_outcome(decoded, h.width as u32, h.height as u32, r)
            } else {
                r == Err::<PrepView, Seq<char>>("unsupported JPEG sampling factors"@)
            },
        },
    }
}

/// Processes a JPEG.
pub fn prepare_jpeg(bytes: &[u8]) -> (r: Result<PhotoPrep, String>)
    ensures
        prepared_jpeg(
            jpeg_header_of(bytes@),
            bytes@,
            jpeg_pixels_of(bytes@),
            prep_result(r),
        ),
{
    match read_jpeg_header(bytes) {
        Err(e) => {
            let mut text = "jpeg headers: ".to_owned();
            text.append(e.as_str());
            Err(text)
        },
        Ok(None) => Err("jpeg info unavailable".to_owned()),
        Ok(Some(header)) => {
            let (w, h) = (header.width as u32, header.height as u32);
            match plan_photo(w, h, bytes.len(), 3) {
                PhotoPlan::AsIs => Ok(PhotoPrep::Original),
                PhotoPlan::TooLarge => Ok(PhotoPrep::UseFallback),
                PhotoPlan::Decode(_) => {
                    if !can_decode(bytes, header.ycck) {
                        return Err("unsupported JPEG sampling factors".to_owned());
                    }
                    finish_jpeg(decode_jpeg(bytes), w, h)
                },
            }
        },
    }
}

// ---- either ----

/// Whether a file starts like a PNG.
pub open spec fn looks_png(b: Seq<u8>) -> bool {
    b.len() >= 8 && b[0] == 0x89 && b[1] == 0x50 && b[2] == 0x4e && b[3] == 0x47 && b[4] == 0x0d
        && b[5] == 0x0a && b[6] == 0x1a && b[7] == 0x0a
}

/// Whether a file starts like a JPEG.
pub open spec fn looks_jpeg(b: Seq<u8>) -> bool {
    b.len() >= 3 && b[0] == 0xff && b[1] == 0xd8 && b[2] == 0xff
}

pub fn is_png(b: &[u8]) -> (r: bool)
    ensures
        r == looks_png(b@),
{
    b.len() >= 8 && b[0] == 0x89 && b[1] == 0x50 && b[2] == 0x4e && b[3] == 0x47 && b[4] == 0x0d
        && b[5] == 0x0a && b[6] == 0x1a && b[7] == 0x0a
}

pub fn is_jpeg(b: &[u8]) -> (r: bool)
    ensures
        r == looks_jpeg(b@),
{
    b.len() >= 3 && b[0] == 0xff && b[1] == 0xd8 && b[2] == 0xff
}

/// What can become of a photo: its first bytes tell the format, and a format
/// that is neither PNG nor JPEG falls back to the smaller variant.
pub open spec fn prepared(bytes: Seq<u8>, r: Result<PrepView, Seq<char>>) -> bool {
    if looks_png(bytes) {
        prepared_png(
            png_header_of(bytes),
            png_frame_of(bytes, png_header_of(bytes)->0.color is Indexed),
            bytes.len() as int,
            r,
        )
    } else if looks_jpeg(bytes) {
        prepared_jpeg(jpeg_header_of(bytes), bytes, jpeg_pixels_of(bytes), r)
    } else {
        r == Ok::<PrepView, Seq<char>>(PrepView::UseFallback)
    }
}

/// Detects the format of a downloaded photo and processes it where needed.
pub fn prepare_photo(bytes: &[u8]) -> (r: Result<PhotoPrep, String>)
    ensures
        prepared(bytes@, prep_result(r)),
{
    if is_png(bytes) {
        prepare_png(bytes)
    } else if is_jpeg(bytes) {
        prepare_jpeg(bytes)
    } else {
        Ok(PhotoPrep::UseFallback)
    }
}

/// Whether a file is the encoding of `w` by `h` pixels in the format of its
/// extension.
pub open spec fn encodes(
    file: Seq<u8>,
    ext: PhotoExt,
    layout: Layout,
    data: Seq<u8>,
    w: u32,
    h: u32,
) -> bool {
    match ext {
        PhotoExt::Png => png_encoding_of(layout, data, w, h) == Ok::<Seq<u8>, Seq<char>>(file),
        PhotoExt::Jpg => jpeg_of(layout, data, w, h) == Ok::<Seq<u8>, Seq<char>>(file),
    }
}

/// Whatever is uploaded in place of a download is within the upload limit, and
/// what it encodes is within the dimension limit.
pub proof fn law_processed_photo_fits(bytes: Seq<u8>, upload: Seq<u8>, ext: PhotoExt)
    requires
        prepared(bytes, Ok(PrepView::Upload(upload, ext))),
    ensures
        upload.len() <= MAX_UPLOAD_BYTES,
        exists|layout: Layout, data: Seq<u8>, w: u32, h: u32|
            w + h <= PHOTO_MAX_DIMENSION_SUM && #[trigger] encodes(
                upload,
                ext,
                layout,
                data,
                w,
                h,
            ),
{
    let r = Ok::<PrepView, Seq<char>>(PrepView::Upload(upload, ext));
    if looks_png(bytes) {
        let header = png_header_of(bytes)->0;
        let f = png_frame_of(bytes, header.color is Indexed)->Ok_0;
        let color = frame_color(header.color, f);
        let data = frame_data(color, f.pixels);
        let out = choose|out: Result<(Seq<u8>, u32, u32), Seq<char>>| #[trigger]
            fits_to(frame_layout(color), data, f.width, f.height, out) && r == match out {
                Ok(fit) => png_upload(
                    png_encoding_of(frame_layout(color), fit.0, fit.1, fit.2),
                    frame_layout(color),
                    fit.0,
                    fit.1,
                    fit.2,
                ),
                Err(e) => Err(e),
            };
        law_target_dims_fit(f.width, f.height);
        assert(encodes(upload, ext, frame_layout(color), out->Ok_0.0, out->Ok_0.1, out->Ok_0.2));
    } else {
        let header = jpeg_header_of(bytes)->Ok_0->0;
        let (w, h) = (header.width as u32, header.height as u32);
        let decoded = jpeg_pixels_of(bytes);
        let out = choose|out: Result<(Seq<u8>, u32, u32), Seq<char>>| #[trigger]
            fits_to(Layout::Rgb, decoded->Ok_0, w, h, out) && r == match out {
                Ok(fit) => jpeg_upload(jpeg_of(Layout::Rgb, fit.0, fit.1, fit.2)),
                Err(e) => Err(e),
            };
        law_target_dims_fit(w, h);
        assert(encodes(upload, ext, Layout::Rgb, out->Ok_0.0, out->Ok_0.1, out->Ok_0.2));
    }
}

/// What a photo's header says its dimensions are.
pub open spec fn header_dims(bytes: Seq<u8>) -> Option<(u32, u32)> {
    if looks_png(bytes) {
        match png_header_of(bytes) {
            Some(header) => Some((header.width, header.height)),
            None => None,
        }
    } else if looks_jpeg(bytes) {
        match jpeg_header_of(bytes) {
            Ok(Some(header)) => Some((header.width as u32, header.height as u32)),
            _ => None,
        }
    } else {
        None
    }
}

/// A photo within the limits goes out untouched.
pub proof fn law_small_photo_is_untouched(
    bytes: Seq<u8>,
    w: u32,
    h: u32,
    r: Result<PrepView, Seq<char>>,
)
    requires
        header_dims(bytes) == Some((w, h)),
        w + h <= PHOTO_MAX_DIMENSION_SUM,
        bytes.len() <= MAX_UPLOAD_BYTES,
        prepared(bytes, r),
    ensures
        r == Ok::<PrepView, Seq<char>>(PrepView::Original),
{
}

/// A photo over either limit never goes out as it was downloaded, and one of an
/// unknown format never goes out at all: its smaller variant does. Neither does one
/// whose pixels would take more than the budget.
pub proof fn law_large_photo_is_not_sent_as_it_is(bytes: Seq<u8>, r: Result<PrepView, Seq<char>>)
    requires
        prepared(bytes, r),
    ensures
        r == Ok::<PrepView, Seq<char>>(PrepView::Original) ==> bytes.len() <= 10 * 1024 * 1024 && (
        header_dims(bytes) matches Some(dims) && dims.0 + dims.1 <= 10000),
        !looks_png(bytes) && !looks_jpeg(bytes) ==> r == Ok::<PrepView, Seq<char>>(
            PrepView::UseFallback,
        ),
        looks_jpeg(bytes) && !looks_png(bytes) ==> (header_dims(bytes) matches Some(dims) && dims.0
            + dims.1 > 10000 && dims.0 * dims.1 * 3 > 512 * 1024 * 1024 ==> r == Ok::<
            PrepView,
            Seq<char>,
        >(PrepView::UseFallback)),
{
    if looks_png(bytes) {
        if let Some(header) = png_header_of(bytes) {
            lemma_plan(bytes, header, r);
        }
    } else if looks_jpeg(bytes) {
        if let Ok(Some(h)) = jpeg_header_of(bytes) {
            if plan_of(h.width as u32, h.height as u32, bytes.len() as int, 3) is Decode && frames_fit(
                bytes,
                h.ycck,
            ) {
                if let Ok(data) = jpeg_pixels_of(bytes) {
                    let _ = choose|out: Result<(Seq<u8>, u32, u32), Seq<char>>| #[trigger]
                        fits_to(Layout::Rgb, data, h.width as u32, h.height as u32, out) && r
                            == match out {
                            Ok(fit) => jpeg_upload(jpeg_of(Layout::Rgb, fit.0, fit.1, fit.2)),
                            Err(e) => Err(e),
                        };
                }
            }
        }
    }
}

proof fn lemma_plan(bytes: Seq<u8>, header: PngHeader, r: Result<PrepView, Seq<char>>)
    requires
        looks_png(bytes),
        png_header_of(bytes) == Some(header),
        prepared(bytes, r),
    ensures
        r == Ok::<PrepView, Seq<char>>(PrepView::Original) ==> header.width + header.height
            <= PHOTO_MAX_DIMENSION_SUM && bytes.len() <= MAX_UPLOAD_BYTES,
{
    if r == Ok::<PrepView, Seq<char>>(PrepView::Original) && plan_of(
        header.width,
        header.height,
        bytes.len() as int,
        channels_of(header.color),
    ) is Decode && !(header.color is Indexed && header.palette % 3 != 0) {
        if let Ok(f) = png_frame_of(bytes, header.color is Indexed) {
            let color = frame_color(header.color, f);
            let data = frame_data(color, f.pixels);
            let _ = choose|out: Result<(Seq<u8>, u32, u32), Seq<char>>| #[trigger]
                fits_to(frame_layout(color), data, f.width, f.height, out) && r == match out {
                    Ok(fit) => png_upload(
                        png_encoding_of(frame_layout(color), fit.0, fit.1, fit.2),
                        frame_layout(color),
                        fit.0,
                        fit.1,
                        fit.2,
                    ),
                    Err(e) => Err(e),
                };
        }
    }
}

/// Whether pixels of one size are those of another size: the same ones where that
/// is within the limit, else resampled ones whose sides are in the same proportion,
/// to within half a pixel each.
pub open spec fn shows(
    layout: Layout,
    data: Seq<u8>,
    w: u32,
    h: u32,
    shown: Seq<u8>,
    nw: u32,
    nh: u32,
) -> bool {
    if w + h <= 10000 {
        shown == data && nw == w && nh == h
    } else {
        &&& resampled(layout, data, w, h, nw, nh, shown)
        &&& shown.len() == nw * nh * layout_channels(layout)
        &&& nw == 1 || -(w + h) <= 2 * (nw * (w + h) - w * 9900) <= w + h
        &&& nh == 1 || -(w + h) <= 2 * (nh * (w + h) - h * 9900) <= w + h
    }
}

/// An uploaded PNG or JPEG shows the picture that was downloaded. Of a PNG, colors
/// with alpha are put onto white first and all else is kept as decoded; it goes out
/// as PNG, and as JPEG only where the PNG is over the limit. A JPEG stays a JPEG.
pub proof fn law_processed_photo_shows_the_picture(bytes: Seq<u8>, upload: Seq<u8>, ext: PhotoExt)
    requires
        prepared(bytes, Ok(PrepView::Upload(upload, ext))),
    ensures
        looks_png(bytes) ==> {
            &&& png_header_of(bytes) matches Some(header)
            &&& png_frame_of(bytes, header.color is Indexed) matches Ok(f)
            &&& exists|layout: Layout, data: Seq<u8>, shown: Seq<u8>, nw: u32, nh: u32|
                {
                    &&& #[trigger] shows(layout, data, f.width, f.height, shown, nw, nh)
                    &&& match header.color {
                        PngColor::Grayscale => layout == Layout::Gray && data == f.pixels,
                        PngColor::GrayscaleAlpha => layout == Layout::GrayAlpha && data
                            == f.pixels,
                        PngColor::Rgb => layout == Layout::Rgb && data == f.pixels,
                        PngColor::Rgba => layout == Layout::Rgb && data == flat_rgb(f.pixels),
                        PngColor::Indexed => layout == Layout::Rgb && data == if f.pixels.len()
                            == f.width * f.height * 4 {
                            flat_rgb(f.pixels)
                        } else {
                            f.pixels
                        },
                    }
                    &&& match ext {
                        PhotoExt::Png => png_encoding_of(layout, shown, nw, nh) == Ok::<
                            Seq<u8>,
                            Seq<char>,
                        >(upload),
                        PhotoExt::Jpg => jpeg_encoding_of(
                            layout != Layout::Rgb,
                            if layout == Layout::GrayAlpha {
                                flat_gray(shown)
                            } else {
                                shown
                            },
                            nw as u16,
                            nh as u16,
                            90,
                        ) == Ok::<Seq<u8>, Seq<char>>(upload) && (png_encoding_of(
                            layout,
                            shown,
                            nw,
                            nh,
                        ) matches Ok(png) && png.len() > 10 * 1024 * 1024),
                    }
                }
        },
        !looks_png(bytes) ==> {
            &&& ext == PhotoExt::Jpg
            &&& jpeg_header_of(bytes) matches Ok(Some(header))
            &&& jpeg_pixels_of(bytes) matches Ok(data)
            &&& exists|shown: Seq<u8>, nw: u32, nh: u32|
                {
                    &&& #[trigger] shows(
                        Layout::Rgb,
                        data,
                        header.width as u32,
                        header.height as u32,
                        shown,
                        nw,
                        nh,
                    )
                    &&& jpeg_encoding_of(false, shown, nw as u16, nh as u16, 90) == Ok::<
                        Seq<u8>,
                        Seq<char>,
                    >(upload)
                }
        },
{
    let r = Ok::<PrepView, Seq<char>>(PrepView::Upload(upload, ext));
    if looks_png(bytes) {
        let header = png_header_of(bytes)->0;
        let f = png_frame_of(bytes, header.color is Indexed)->Ok_0;
        let color = frame_color(header.color, f);
        let layout = frame_layout(color);
        let data = frame_data(color, f.pixels);
        let out = choose|out: Result<(Seq<u8>, u32, u32), Seq<char>>| #[trigger]
            fits_to(layout, data, f.width, f.height, out) && r == match out {
                Ok(fit) => png_upload(
                    png_encoding_of(layout, fit.0, fit.1, fit.2),
                    layout,
                    fit.0,
                    fit.1,
                    fit.2,
                ),
                Err(e) => Err(e),
            };
        lemma_shows(layout, data, f.width, f.height, out->Ok_0);
        assert(shows(layout, data, f.width, f.height, out->Ok_0.0, out->Ok_0.1, out->Ok_0.2));
    } else {
        let header = jpeg_header_of(bytes)->Ok_0->0;
        let (w, h) = (header.width as u32, header.height as u32);
        let data = jpeg_pixels_of(bytes)->Ok_0;
        let out = choose|out: Result<(Seq<u8>, u32, u32), Seq<char>>| #[trigger]
            fits_to(Layout::Rgb, data, w, h, out) && r == match out {
                Ok(fit) => jpeg_upload(jpeg_of(Layout::Rgb, fit.0, fit.1, fit.2)),
                Err(e) => Err(e),
            };
        lemma_shows(Layout::Rgb, data, w, h, out->Ok_0);
        assert(shows(Layout::Rgb, data, w, h, out->Ok_0.0, out->Ok_0.1, out->Ok_0.2));
    }
}

proof fn lemma_shows(layout: Layout, data: Seq<u8>, w: u32, h: u32, fit: (Seq<u8>, u32, u32))
    requires
        fits_to(layout, data, w, h, Ok(fit)),
    ensures
        shows(layout, data, w, h, fit.0, fit.1, fit.2),
{
    if w + h > PHOTO_MAX_DIMENSION_SUM {
        law_target_dims_fit(w, h);
        law_target_dims_keep_the_proportions(w, h);
    }
}

/// A plan follows from the header alone: a photo within both limits is left as it is,
/// one whose pixels fit the budget is processed in a buffer of just their bytes, and any
/// other is not decoded. A PNG is planned by its own channels and a JPEG by three.
pub proof fn law_plans_follow_the_header(
    w: u32,
    h: u32,
    len: int,
    channels: int,
    header: PngHeader,
    dims: (u32, u32),
)
    requires
        1 <= channels <= 4,
    ensures
        plan_of(w, h, len, channels) is AsIs <==> w + h <= 10000 && len <= 10 * 1024 * 1024,
        plan_of(w, h, len, channels) is TooLarge <==> !(w + h <= 10000 && len <= 10 * 1024 * 1024)
            && w * h * channels > 512 * 1024 * 1024,
        plan_of(w, h, len, channels) matches PhotoPlan::Decode(bytes) ==> bytes == w * h * channels,
        plan_bytes(plan_of(w, h, len, channels)) <= 512 * 1024 * 1024,
        file_plan_of(Some(header), None, len) == plan_of(
            header.width,
            header.height,
            len,
            match header.color {
                PngColor::Grayscale => 1int,
                PngColor::GrayscaleAlpha => 2,
                PngColor::Rgb => 3,
                PngColor::Indexed => 3,
                PngColor::Rgba => 4,
            },
        ),
        file_plan_of(Some(header), Some(dims), len) == file_plan_of(Some(header), None, len),
        file_plan_of(None, Some(dims), len) == plan_of(dims.0, dims.1, len, 3),
        file_plan_of(None, None, len) is AsIs,
{
    assert(0 <= w * h) by (nonlinear_arith);
    assert(0 <= w * h * channels) by (nonlinear_arith)
        requires
            0 <= w * h,
            1 <= channels,
    ;
}

/// What was encoded goes out as it is where it is within the upload limit: a PNG as a
/// PNG, a JPEG as a JPEG. Only a JPEG that is over the limit gives way to the smaller
/// variant, and an encoder that fails is told.
pub proof fn law_encoded_photos_go_out(
    encoded: Result<Seq<u8>, Seq<char>>,
    layout: Layout,
    data: Seq<u8>,
    w: u32,
    h: u32,
)
    ensures
        encoded matches Ok(file) ==> {
            &&& file.len() <= 10 * 1024 * 1024 ==> jpeg_upload(encoded) == Ok::<
                PrepView,
                Seq<char>,
            >(PrepView::Upload(file, PhotoExt::Jpg))
            &&& file.len() > 10 * 1024 * 1024 ==> jpeg_upload(encoded) == Ok::<
                PrepView,
                Seq<char>,
            >(PrepView::UseFallback)
            &&& file.len() <= 10 * 1024 * 1024 ==> png_upload(encoded, layout, data, w, h) == Ok::<
                PrepView,
                Seq<char>,
            >(PrepView::Upload(file, PhotoExt::Png))
            &&& file.len() > 10 * 1024 * 1024 ==> png_upload(encoded, layout, data, w, h)
                == jpeg_upload(jpeg_of(layout, data, w, h))
        },
        encoded matches Err(e) ==> jpeg_upload(encoded) == Err::<PrepView, Seq<char>>(e) && (
        png_upload(encoded, layout, data, w, h) matches Err(words) && e.is_suffix_of(words)),
{
    if let Err(e) = encoded {
        let words = "png encode: "@ + e;
        assert(words.subrange(words.len() - e.len(), words.len() as int) =~= e);
    }
}

/// A JPEG is decoded where no component of any of its frames is sampled more finely than
/// the first one across, as in every ordinary photo; four components that all are sampled
/// alike are decoded too.
pub proof fn law_ordinary_jpegs_are_decoded(b: Seq<u8>)
    requires
        forall|i: int, k: int|
            #![trigger sampling(b, i, k)]
            is_frame(b, i) && 0 <= k < b[i + 9] ==> b[i + 11 + 3 * k] as int / 16 <= b[i + 11] as int
                / 16 && (b[i + 9] == 4 ==> b[i + 11 + 3 * k] == b[i + 11]),
    ensures
        frames_fit(b, false),
{
    assert forall|i: int| #[trigger] is_frame(b, i) implies frame_fits(b, i, false) by {
        assert forall|k: int| 0 <= k < b[i + 9] implies (#[trigger] sampling(b, i, k)).0
            <= sampling(b, i, 0).0 && (b[i + 9] == 4 ==> sampling(b, i, k).1 == sampling(
            b,
            i,
            0,
        ).1) by {
            assert(sampling(b, i, k).0 == b[i + 11 + 3 * k] as int / 16);
        }
    }
}

/// A buffer that holds all pixels of its dimensions, exactly or with more behind them, is
/// resampled, into all pixels of the new ones; one that is cut short is an error.
pub proof fn law_whole_buffers_are_resampled(
    layout: Layout,
    data: Seq<u8>,
    w: u32,
    h: u32,
    nw: u32,
    nh: u32,
    out: Result<Seq<u8>, Seq<char>>,
)
    requires
        resizes_to(layout, data, w, h, nw, nh, out),
    ensures
        ({
            let channels: int = match layout {
                Layout::Gray => 1,
                Layout::GrayAlpha => 2,
                Layout::Rgb => 3,
            };
            &&& out is Ok <==> data.len() >= w * h * channels
            &&& out matches Ok(v) ==> v.len() == nw * nh * channels && resampled(
                layout,
                data,
                w,
                h,
                nw,
                nh,
                v,
            )
        }),
{
}

} // verus!
