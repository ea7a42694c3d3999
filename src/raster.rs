//! Raster sources: decoding (a general decoder, then a PNG-only fallback),
//! the aspect-preserving letterbox, and PNG encoding.
use vstd::prelude::*;
use vstd::arithmetic::div_mod::lemma_fundamental_div_mod_converse;

verus! {

/// An RGBA image with 8 bits per sample, stored row by row.
#[derive(Clone, Debug)]
pub struct Raster {
    pub width: u32,
    pub height: u32,
    pub pixels: Vec<u8>,
}

impl View for Raster {
    type V = (u32, u32, Seq<u8>);

    open spec fn view(&self) -> (u32, u32, Seq<u8>) {
        (self.width, self.height, self.pixels@)
    }
}

impl Raster {
    /// Four samples per pixel, no more and no fewer.
    pub open spec fn wf(&self) -> bool {
        self.pixels@.len() == 4 * self.width * self.height
    }
}

/// The encodings the general decoder is asked for.
#[derive(Clone, Copy, Debug, PartialEq, Eq, Structural)]
pub enum RasterFormat {
    Png,
    Jpeg,
}

/// The colour mode a PNG header declares.
#[derive(Clone, Copy, Debug, PartialEq, Eq, Structural)]
pub enum PngColor {
    Grayscale,
    Rgb,
    Indexed,
    GrayscaleAlpha,
    Rgba,
}

/// The first frame of a PNG as the PNG-only decoder hands it out.
#[derive(Clone, Debug)]
pub struct PngFrame {
    pub width: u32,
    pub height: u32,
    pub color: PngColor,
    pub data: Vec<u8>,
}

/// Why a source could not be turned into a thumbnail.
#[derive(Clone, Copy, Debug, PartialEq, Eq, Structural)]
pub enum RenderError {
    /// Neither decoder could read the bytes.
    DecodeFailed,
    /// The PNG declares a colour mode the fallback decoder does not take.
    UnsupportedColorType,
    /// The decoded frame holds fewer samples than its size asks for.
    BufferSizeMismatch,
    /// The source has no pixels.
    EmptyImage,
    /// The square canvas would not fit in memory's address range.
    TooLarge,
    /// The PNG encoder failed.
    EncodeFailed,
}

/// What the general decoder makes of bytes declared to be PNG.
pub uninterp spec fn png_decoded_of(bytes: Seq<u8>) -> Option<(u32, u32, Seq<u8>)>;

/// What the PNG-only decoder makes of bytes.
pub uninterp spec fn png_frame_of(bytes: Seq<u8>) -> Option<(u32, u32, PngColor, Seq<u8>)>;

/// The samples of a transparent square canvas with an RGBA image laid over
/// it at an offset.
pub uninterp spec fn overlay_blank_of(
    size: u32,
    px: Seq<u8>,
    w: u32,
    h: u32,
    x: u32,
    y: u32,
) -> Seq<u8>;

/// The PNG file that encodes an RGBA image.
pub uninterp spec fn png_encoded_of(w: u32, h: u32, px: Seq<u8>) -> Option<Seq<u8>>;

/// Relies on `image::load_from_memory_with_format` and
/// `DynamicImage::to_rgba8`: the RGBA buffer holds four samples per pixel,
/// and a PNG decodes to an image that depends on the bytes alone. The JPEG
/// decoder picks its inverse transform by processor features, so nothing
/// more is stated of a JPEG.
#[verifier::external_body]
fn decode_general(bytes: &[u8], format: RasterFormat) -> (r: Option<Raster>)
    ensures
        r is Some ==> r->Some_0.wf(),
        format == RasterFormat::Png ==> match r {
            Some(img) => png_decoded_of(bytes@) == Some(img@),
            None => png_decoded_of(bytes@).is_none(),
        },
{
    let f = match format {
        RasterFormat::Png => image::ImageFormat::Png,
        RasterFormat::Jpeg => image::ImageFormat::Jpeg,
    };
    let img = image::load_from_memory_with_format(bytes, f).ok()?.to_rgba8();
    Some(Raster { width: img.width(), height: img.height(), pixels: img.into_raw() })
}

/// Relies on `png::Decoder` (`read_info`, `output_buffer_size`,
/// `next_frame`): the first frame, with the header's size and colour mode,
/// depends on the bytes alone.
#[verifier::external_body]
fn decode_png_frame(bytes: &[u8]) -> (r: Option<PngFrame>)
    ensures
        match r {
            Some(f) => png_frame_of(bytes@) == Some((f.width, f.height, f.color, f.data@)),
            None => png_frame_of(bytes@).is_none(),
        },
{
    let mut reader = png::Decoder::new(std::io::Cursor::new(bytes)).read_info().ok()?;
    let info = reader.info().clone();
    let mut data = vec![0u8; reader.output_buffer_size()?];
    reader.next_frame(&mut data).ok()?;
    let color = match info.color_type {
        png::ColorType::Grayscale => PngColor::Grayscale,
        png::ColorType::Rgb => PngColor::Rgb,
        png::ColorType::Indexed => PngColor::Indexed,
        png::ColorType::GrayscaleAlpha => PngColor::GrayscaleAlpha,
        png::ColorType::Rgba => PngColor::Rgba,
    };
    Some(PngFrame { width: info.width, height: info.height, color, data })
}

/// Relies on `image::imageops::resize` with `FilterType::Lanczos3`: the
/// result has exactly the requested dimensions. Its samples come from a
/// floating-point kernel whose precision std leaves open, so nothing is
/// stated of them.
#[verifier::external_body]
fn resize_lanczos(src: &Raster, nw: u32, nh: u32) -> (r: Raster)
    requires
        src.wf(),
        4 * nw * nh <= usize::MAX,
    ensures
        r.wf(),
        r.width == nw,
        r.height == nh,
{
    let img = image::RgbaImage::from_raw(src.width, src.height, src.pixels.clone()).unwrap();
    let out = image::imageops::resize(&img, nw, nh, image::imageops::FilterType::Lanczos3);
    Raster { width: nw, height: nh, pixels: out.into_raw() }
}

/// Relies on `image::imageops::overlay` onto a fresh `RgbaImage::new` canvas,
/// which starts fully transparent: the result is the canvas's size and
/// depends on the arguments alone.
#[verifier::external_body]
fn overlay_on_blank(size: u32, top: &Raster, x: u32, y: u32) -> (r: Raster)
    requires
        top.wf(),
        4 * size * size <= usize::MAX,
    ensures
        r.wf(),
        r.width == size,
        r.height == size,
        r.pixels@ == overlay_blank_of(size, top.pixels@, top.width, top.height, x, y),
{
    let mut canvas = image::RgbaImage::new(size, size);
    let top = image::RgbaImage::from_raw(top.width, top.height, top.pixels.clone()).unwrap();
    image::imageops::overlay(&mut canvas, &top, x as i64, y as i64);
    Raster { width: size, height: size, pixels: canvas.into_raw() }
}

/// Relies on `DynamicImage::write_to` with `ImageFormat::Png`: the encoded
/// file depends on the image alone.
#[verifier::external_body]
fn encode_png(img: &Raster) -> (r: Option<Vec<u8>>)
    requires
        img.wf(),
    ensures
        match r {
            Some(b) => png_encoded_of(img.width, img.height, img.pixels@) == Some(b@),
            None => png_encoded_of(img.width, img.height, img.pixels@).is_none(),
        },
{
    let buf = image::RgbaImage::from_raw(img.width, img.height, img.pixels.clone()).unwrap();
    let mut out: Vec<u8> = Vec::new();
    image::DynamicImage::ImageRgba8(buf).write_to(
        &mut std::io::Cursor::new(&mut out),
        image::ImageFormat::Png,
    ).ok()?;
    Some(out)
}

/// The first `n` pixels of an RGB buffer with a fully opaque alpha sample
/// appended to each.
pub open spec fn rgba_from_rgb(data: Seq<u8>, n: int) -> Seq<u8> {
    Seq::new(
        (4 * n) as nat,
        |i: int|
            if i % 4 == 3 {
                255u8
            } else {
                data[(i / 4) * 3 + i % 4]
            },
    )
}

/// What the PNG-only strategy makes of a decoded frame.
pub open spec fn frame_result(
    w: u32,
    h: u32,
    color: PngColor,
    data: Seq<u8>,
) -> Result<(u32, u32, Seq<u8>), RenderError> {
    match color {
        PngColor::Rgba => if data.len() >= 4 * w * h {
            Ok((w, h, data.subrange(0, 4 * w * h)))
        } else {
            Err(RenderError::BufferSizeMismatch)
        },
        PngColor::Rgb => if data.len() >= 3 * w * h {
            Ok((w, h, rgba_from_rgb(data, w * h)))
        } else {
            Err(RenderError::BufferSizeMismatch)
        },
        _ => Err(RenderError::UnsupportedColorType),
    }
}

proof fn lemma_dims_product(w: u32, h: u32)
    ensures
        0 <= w * h <= 0xffff_ffff * 0xffff_ffff,
        3 * w * h == 3 * (w * h),
        4 * w * h == 4 * (w * h),
{
    assert(0 <= w * h <= 0xffff_ffff * 0xffff_ffff) by (nonlinear_arith)
        requires
            w <= 0xffff_ffff,
            h <= 0xffff_ffff,
    ;
    assert(3 * w * h == 3 * (w * h)) by (nonlinear_arith);
    assert(4 * w * h == 4 * (w * h)) by (nonlinear_arith);
}

/// Turns a frame of the PNG-only decoder into an RGBA image: an RGBA frame
/// is taken as it is, an RGB frame gets an opaque alpha sample per pixel,
/// any other colour mode is refused.
pub fn expand_frame(frame: PngFrame) -> (r: Result<Raster, RenderError>)
    ensures
        match r {
            Ok(img) => img.wf() && frame_result(frame.width, frame.height, frame.color, frame.data@)
                == Ok::<(u32, u32, Seq<u8>), RenderError>(img@),
            Err(e) => frame_result(frame.width, frame.height, frame.color, frame.data@) == Err::<
                (u32, u32, Seq<u8>),
                RenderError,
            >(e),
        },
{
    let w = frame.width;
    let h = frame.height;
    let len = frame.data.len();
    proof {
        lemma_dims_product(w, h);
    }
    match frame.color {
        PngColor::Rgba => {
            if (len as u128) < 4 * (w as u128) * (h as u128) {
                return Err(RenderError::BufferSizeMismatch);
            }
            let need = (4 * (w as u128) * (h as u128)) as usize;
            assert(frame.data@.subrange(0, need as int) =~= frame.data@.take(need as int));
            let mut data = frame.data;
            data.truncate(need);
            Ok(Raster { width: w, height: h, pixels: data })
        },
        PngColor::Rgb => {
            if (len as u128) < 3 * (w as u128) * (h as u128) {
                return Err(RenderError::BufferSizeMismatch);
            }
            let n = ((w as u128) * (h as u128)) as usize;
            let data = &frame.data;
            let ghost d = data@;
            let mut out: Vec<u8> = Vec::new();
            let mut p: usize = 0;
            while p < n
                invariant
                    d == data@,
                    n == w * h,
                    d.len() >= 3 * n,
                    d.len() <= usize::MAX,
                    p <= n,
                    out@ =~= rgba_from_rgb(d, p as int),
                decreases n - p,
            {
                assert(3 * p + 2 < 3 * n) by (nonlinear_arith)
                    requires
                        p < n,
                ;
                let b = 3 * p;
                out.push(data[b]);
                out.push(data[b + 1]);
                out.push(data[b + 2]);
                out.push(255u8);
                proof {
                    let q = p as int;
                    lemma_fundamental_div_mod_converse(4 * q, 4, q, 0);
                    lemma_fundamental_div_mod_converse(4 * q + 1, 4, q, 1);
                    lemma_fundamental_div_mod_converse(4 * q + 2, 4, q, 2);
                    lemma_fundamental_div_mod_converse(4 * q + 3, 4, q, 3);
                    assert(out@ =~= rgba_from_rgb(d, q + 1));
                }
                p = p + 1;
            }
            Ok(Raster { width: w, height: h, pixels: out })
        },
        _ => Err(RenderError::UnsupportedColorType),
    }
}

/// Where the resized source sits on the square canvas.
#[derive(Clone, Copy, Debug, PartialEq, Eq, Structural)]
pub struct Placement {
    pub width: u32,
    pub height: u32,
    pub x: u32,
    pub y: u32,
}

/// `d * s / m` rounded to the nearest integer, halves upwards.
pub open spec fn scaled_dim(d: int, m: int, s: int) -> int {
    (2 * d * s + m) / (2 * m)
}

/// The letterbox placement of a `w`×`h` source on a canvas of edge `s`: the
/// longer side scaled to `s`, the other by the same ratio, both offsets
/// halving what is left over.
pub open spec fn placement_of(w: u32, h: u32, s: u32) -> Placement {
    let m = if w >= h {
        w as int
    } else {
        h as int
    };
    let nw = scaled_dim(w as int, m, s as int);
    let nh = scaled_dim(h as int, m, s as int);
    Placement {
        width: nw as u32,
        height: nh as u32,
        x: ((s - nw) / 2) as u32,
        y: ((s - nh) / 2) as u32,
    }
}

proof fn lemma_scaled_dim(d: int, m: int, s: int)
    requires
        0 <= d <= m,
        0 < m,
        0 <= s,
    ensures
        0 <= scaled_dim(d, m, s) <= s,
        d == m ==> scaled_dim(d, m, s) == s,
        -m <= 2 * (scaled_dim(d, m, s) * m - d * s) <= m,
{
    let x = 2 * d * s + m;
    let q = scaled_dim(d, m, s);
    assert(0 <= d * s <= m * s) by (nonlinear_arith)
        requires
            0 <= d <= m,
            0 <= s,
    ;
    assert(2 * d * s == 2 * (d * s)) by (nonlinear_arith);
    assert(2 * m * s == 2 * (m * s)) by (nonlinear_arith);
    vstd::arithmetic::div_mod::lemma_fundamental_div_mod(x, 2 * m);
    let r = x % (2 * m);
    assert(0 <= r < 2 * m) by {
        vstd::arithmetic::div_mod::lemma_mod_bound(x, 2 * m);
    }
    assert(x == 2 * m * q + r);
    assert(0 <= q <= s) by (nonlinear_arith)
        requires
            x == 2 * m * q + r,
            0 <= r < 2 * m,
            0 <= x,
            x <= 2 * m * s + m,
            0 < m,
    ;
    if d == m {
        assert(s * (2 * m) == 2 * m * s) by (nonlinear_arith);
        lemma_fundamental_div_mod_converse(x, 2 * m, s, m);
    }
    assert(2 * (q * m) == 2 * m * q) by (nonlinear_arith);
    assert(2 * (q * m - d * s) == m - r);
}

/// Computes the letterbox placement of a `w`×`h` source on a canvas of edge
/// `size`.
pub fn letterbox(w: u32, h: u32, size: u32) -> (r: Placement)
    requires
        w > 0,
        h > 0,
    ensures
        r == placement_of(w, h, size),
        r.width <= size,
        r.height <= size,
{
    let m: u32 = if w >= h {
        w
    } else {
        h
    };
    proof {
        lemma_scaled_dim(w as int, m as int, size as int);
        lemma_scaled_dim(h as int, m as int, size as int);
        assert(2 * w * size <= 2 * 0xffff_ffffu128 * 0xffff_ffffu128) by (nonlinear_arith)
            requires
                w <= 0xffff_ffff,
                size <= 0xffff_ffff,
        ;
        assert(2 * h * size <= 2 * 0xffff_ffffu128 * 0xffff_ffffu128) by (nonlinear_arith)
            requires
                h <= 0xffff_ffff,
                size <= 0xffff_ffff,
        ;
    }
    let nw = ((2 * (w as u128) * (size as u128) + (m as u128)) / (2 * (m as u128))) as u32;
    let nh = ((2 * (h as u128) * (size as u128) + (m as u128)) / (2 * (m as u128))) as u32;
    Placement { width: nw, height: nh, x: (size - nw) / 2, y: (size - nh) / 2 }
}

/// Whether a square canvas of edge `size` fits the address range.
pub open spec fn canvas_fits(size: u32) -> bool {
    4 * size * size <= usize::MAX
}


/// What the letterbox makes of a `w`×`h` source, given the samples the
/// resampler produced for its placement.
pub open spec fn letterbox_result(w: u32, h: u32, size: u32, small: Seq<u8>) -> Result<
    (u32, u32, Seq<u8>),
    RenderError,
> {
    if w == 0 || h == 0 {
        Err(RenderError::EmptyImage)
    } else if !canvas_fits(size) {
        Err(RenderError::TooLarge)
    } else {
        let p = placement_of(w, h, size);
        Ok((size, size, overlay_blank_of(size, small, p.width, p.height, p.x, p.y)))
    }
}

pub open spec fn raster_view(r: Result<Raster, RenderError>) -> Result<
    (u32, u32, Seq<u8>),
    RenderError,
> {
    match r {
        Ok(img) => Ok(img@),
        Err(e) => Err(e),
    }
}

pub open spec fn bytes_view(r: Result<Vec<u8>, RenderError>) -> Result<Seq<u8>, RenderError> {
    match r {
        Ok(b) => Ok(b@),
        Err(e) => Err(e),
    }
}

/// Letterboxes an RGBA source onto a transparent square canvas of edge
/// `size`: resized with a Lanczos filter to its letterbox placement and
/// centred. The resampled samples themselves are the resampler's.
pub fn letterbox_raster(src: &Raster, size: u32) -> (r: Result<Raster, RenderError>)
    requires
        src.wf(),
        size > 0,
    ensures
        r is Ok ==> r->Ok_0.wf() && r->Ok_0.width == size && r->Ok_0.height == size,
        exists|small: Seq<u8>|
            {
                &&& (r is Ok ==> small.len() == 4 * placement_of(src.width, src.height, size).width
                    * placement_of(src.width, src.height, size).height)
                &&& raster_view(r) == letterbox_result(src.width, src.height, size, small)
            },
{
    if src.width == 0 || src.height == 0 {
        let r = Err(RenderError::EmptyImage);
        assert(raster_view(r) == letterbox_result(src.width, src.height, size, Seq::empty()));
        return r;
    }
    proof {
        assert(0 <= size * size <= 0xffff_ffff * 0xffff_ffff) by (nonlinear_arith)
            requires
                size <= 0xffff_ffff,
        ;
        assert(4 * size * size == 4 * (size * size)) by (nonlinear_arith);
    }
    if 4 * (size as u128) * (size as u128) > usize::MAX as u128 {
        let r = Err(RenderError::TooLarge);
        assert(raster_view(r) == letterbox_result(src.width, src.height, size, Seq::empty()));
        return r;
    }
    let p = letterbox(src.width, src.height, size);
    proof {
        assert(4 * p.width * p.height <= 4 * size * size) by (nonlinear_arith)
            requires
                p.width <= size,
                p.height <= size,
        ;
    }
    let small = resize_lanczos(src, p.width, p.height);
    let r = Ok(overlay_on_blank(size, &small, p.x, p.y));
    assert(raster_view(r) == letterbox_result(src.width, src.height, size, small.pixels@));
    r
}

/// What the PNG-only strategy makes of the bytes.
pub open spec fn frame_path(bytes: Seq<u8>) -> Result<(u32, u32, Seq<u8>), RenderError> {
    match png_frame_of(bytes) {
        Some((w, h, c, d)) => frame_result(w, h, c, d),
        None => Err(RenderError::DecodeFailed),
    }
}

/// Whether `res` is what the two strategies, tried in order, may make of the
/// bytes: for a PNG exactly one outcome; for a JPEG any image the general
/// decoder gives, else the PNG-only strategy's outcome.
pub open spec fn decodes(bytes: Seq<u8>, format: RasterFormat, res: Result<
    (u32, u32, Seq<u8>),
    RenderError,
>) -> bool {
    match format {
        RasterFormat::Png => res == match png_decoded_of(bytes) {
            Some(img) => Ok(img),
            None => frame_path(bytes),
        },
        RasterFormat::Jpeg => match res {
            Ok(_) => true,
            Err(e) => frame_path(bytes) == Err::<(u32, u32, Seq<u8>), RenderError>(e),
        },
    }
}

/// The ways of decoding a raster source, in the order they are tried.
#[derive(Clone, Copy, Debug, PartialEq, Eq, Structural)]
pub enum DecodeStrategy {
    /// The general-purpose decoder for the declared format.
    General,
    /// The PNG-only decoder, expanded by colour mode.
    PngFrame,
}

/// Decodes with one strategy.
pub fn decode_with(strategy: DecodeStrategy, bytes: &[u8], format: RasterFormat) -> (r: Result<
    Raster,
    RenderError,
>)
    ensures
        r is Ok ==> r->Ok_0.wf(),
        strategy == DecodeStrategy::General ==> (r is Err ==> r == Err::<Raster, RenderError>(
            RenderError::DecodeFailed,
        )) && (format == RasterFormat::Png ==> raster_view(r) == match png_decoded_of(bytes@) {
            Some(img) => Ok(img),
            None => Err(RenderError::DecodeFailed),
        }),
        strategy == DecodeStrategy::PngFrame ==> raster_view(r) == frame_path(bytes@),
{
    match strategy {
        DecodeStrategy::General => match decode_general(bytes, format) {
            Some(img) => Ok(img),
            None => Err(RenderError::DecodeFailed),
        },
        DecodeStrategy::PngFrame => match decode_png_frame(bytes) {
            Some(frame) => expand_frame(frame),
            None => Err(RenderError::DecodeFailed),
        },
    }
}

/// Decodes a raster source: the general decoder first, then the PNG-only
/// decoder; the error is that of the last strategy tried.
pub fn decode_raster(bytes: &[u8], format: RasterFormat) -> (r: Result<Raster, RenderError>)
    ensures
        r is Ok ==> r->Ok_0.wf(),
        decodes(bytes@, format, raster_view(r)),
{
    let strategies = [DecodeStrategy::General, DecodeStrategy::PngFrame];
    let mut last = Err(RenderError::DecodeFailed);
    let mut i: usize = 0;
    while i < 2
        invariant
            strategies@ == seq![DecodeStrategy::General, DecodeStrategy::PngFrame],
            i <= 2,
            i >= 1 && format == RasterFormat::Png ==> png_decoded_of(bytes@).is_none(),
            i == 2 ==> last is Err && raster_view(last) == frame_path(bytes@),
        decreases 2 - i,
    {
        let attempt = decode_with(strategies[i], bytes, format);
        match attempt {
            Ok(img) => {
                return Ok(img);
            },
            Err(e) => {
                last = Err(e);
            },
        }
        i = i + 1;
    }
    last
}

/// What the raster route yields from a decoding outcome, given the samples
/// the resampler produced.
pub open spec fn thumbnail_result(
    decoded: Result<(u32, u32, Seq<u8>), RenderError>,
    size: u32,
    small: Seq<u8>,
) -> Result<Seq<u8>, RenderError> {
    match decoded {
        Err(e) => Err(e),
        Ok((w, h, px)) => match letterbox_result(w, h, size, small) {
            Err(e) => Err(e),
            Ok((tw, th, tpx)) => match png_encoded_of(tw, th, tpx) {
                Some(b) => Ok(b),
                None => Err(RenderError::EncodeFailed),
            },
        },
    }
}

/// Renders a raster source file's bytes into the PNG bytes of a square
/// thumbnail of edge `size`.
pub fn render_raster(bytes: &[u8], format: RasterFormat, size: u32) -> (r: Result<
    Vec<u8>,
    RenderError,
>)
    requires
        size > 0,
    ensures
        exists|decoded: Result<(u32, u32, Seq<u8>), RenderError>, small: Seq<u8>|
            {
                &&& decodes(bytes@, format, decoded)
                &&& bytes_view(r) == thumbnail_result(decoded, size, small)
            },
{
    let src = match decode_raster(bytes, format) {
        Ok(img) => img,
        Err(e) => {
            let r = Err(e);
            assert(bytes_view(r) == thumbnail_result(Err(e), size, Seq::empty()));
            return r;
        },
    };
    let ghost d = raster_view(Ok::<Raster, RenderError>(src));
    let lb = letterbox_raster(&src, size);
    let ghost small = choose|small: Seq<u8>|
        {
            &&& (lb is Ok ==> small.len() == 4 * placement_of(src.width, src.height, size).width
                * placement_of(src.width, src.height, size).height)
            &&& raster_view(lb) == letterbox_result(src.width, src.height, size, small)
        };
    let thumb = match lb {
        Ok(t) => t,
        Err(e) => {
            let r = Err(e);
            assert(bytes_view(r) == thumbnail_result(d, size, small));
            return r;
        },
    };
    let r = match encode_png(&thumb) {
        Some(b) => Ok(b),
        None => Err(RenderError::EncodeFailed),
    };
    assert(bytes_view(r) == thumbnail_result(d, size, small));
    r
}

/// Every non-empty source letterboxes into a square of exactly the
/// requested edge, whatever its aspect ratio and whatever samples the
/// resampler produced.
pub proof fn letterbox_is_square(w: u32, h: u32, size: u32, small: Seq<u8>)
    requires
        w > 0,
        h > 0,
        size > 0,
        canvas_fits(size),
    ensures
        letterbox_result(w, h, size, small) is Ok,
        letterbox_result(w, h, size, small)->Ok_0.0 == size,
        letterbox_result(w, h, size, small)->Ok_0.1 == size,
{
}

/// The resized source keeps the source's aspect ratio: its longer side
/// fills the edge, and each side is within half a pixel of the source side
/// times the ratio `size / max(w, h)`. It is centred: each offset is half of
/// what is left over, rounded down.
pub proof fn letterbox_keeps_aspect_and_centres(w: u32, h: u32, size: u32)
    requires
        w > 0,
        h > 0,
    ensures
        ({
            let p = placement_of(w, h, size);
            let m = if w >= h {
                w as int
            } else {
                h as int
            };
            &&& p.width <= size
            &&& p.height <= size
            &&& (w >= h ==> p.width == size)
            &&& (h >= w ==> p.height == size)
            &&& -m <= 2 * (p.width * m - w * size) <= m
            &&& -m <= 2 * (p.height * m - h * size) <= m
            &&& p.x == (size - p.width) / 2
            &&& p.y == (size - p.height) / 2
            &&& p.x + p.width <= size
            &&& p.y + p.height <= size
        }),
{
    let m = if w >= h {
        w as int
    } else {
        h as int
    };
    lemma_scaled_dim(w as int, m, size as int);
    lemma_scaled_dim(h as int, m, size as int);
}

/// Given the same decoded image and the same samples from the resampler,
/// the raster route yields byte-identical results: placement, canvas and
/// encoding add nothing that varies.
pub proof fn raster_route_is_repeatable(
    decoded1: Result<(u32, u32, Seq<u8>), RenderError>,
    decoded2: Result<(u32, u32, Seq<u8>), RenderError>,
    size: u32,
    small1: Seq<u8>,
    small2: Seq<u8>,
)
    requires
        decoded1 == decoded2,
        small1 == small2,
    ensures
        thumbnail_result(decoded1, size, small1) == thumbnail_result(decoded2, size, small2),
{
}

} // verus!
