use icon_thumb::raster::{
    decode_raster, decode_with, expand_frame, letterbox, letterbox_raster, render_raster,
    DecodeStrategy, Placement, PngColor, PngFrame, Raster, RasterFormat, RenderError,
};

fn png_of(w: u32, h: u32, rgba: [u8; 4]) -> Vec<u8> {
    let img = image::RgbaImage::from_pixel(w, h, image::Rgba(rgba));
    let mut out = Vec::new();
    image::DynamicImage::ImageRgba8(img)
        .write_to(&mut std::io::Cursor::new(&mut out), image::ImageFormat::Png)
        .unwrap();
    out
}

fn decode_png(bytes: &[u8]) -> image::RgbaImage {
    image::load_from_memory_with_format(bytes, image::ImageFormat::Png).unwrap().to_rgba8()
}

#[test]
fn letterbox_wide_source() {
    assert_eq!(letterbox(64, 32, 128), Placement { width: 128, height: 64, x: 0, y: 32 });
}

#[test]
fn letterbox_tall_source_rounds_and_centres() {
    // 5 * 2 / 3 = 3.33.. rounds to 3; (5 - 3) / 2 = 1.
    assert_eq!(letterbox(2, 3, 5), Placement { width: 3, height: 5, x: 1, y: 0 });
    // 7 * 1 / 2 = 3.5 rounds up to 4; (7 - 4) / 2 = 1 leaves a one pixel asymmetry.
    assert_eq!(letterbox(2, 1, 7), Placement { width: 7, height: 4, x: 0, y: 1 });
}

#[test]
fn letterbox_square_fills() {
    assert_eq!(letterbox(256, 256, 48), Placement { width: 48, height: 48, x: 0, y: 0 });
}

#[test]
fn expand_rgb_frame_adds_opaque_alpha() {
    let f = PngFrame { width: 2, height: 1, color: PngColor::Rgb, data: vec![1, 2, 3, 4, 5, 6] };
    let r = expand_frame(f).unwrap();
    assert_eq!((r.width, r.height), (2, 1));
    assert_eq!(r.pixels, vec![1, 2, 3, 255, 4, 5, 6, 255]);
}

#[test]
fn expand_rgba_frame_is_taken_as_is() {
    let f = PngFrame { width: 1, height: 1, color: PngColor::Rgba, data: vec![9, 8, 7, 6] };
    assert_eq!(expand_frame(f).unwrap().pixels, vec![9, 8, 7, 6]);
}

#[test]
fn expand_frame_errors() {
    let f = PngFrame { width: 2, height: 2, color: PngColor::Indexed, data: vec![0; 4] };
    assert_eq!(expand_frame(f).unwrap_err(), RenderError::UnsupportedColorType);
    let g = PngFrame { width: 2, height: 2, color: PngColor::Grayscale, data: vec![0; 4] };
    assert_eq!(expand_frame(g).unwrap_err(), RenderError::UnsupportedColorType);
    let short = PngFrame { width: 2, height: 2, color: PngColor::Rgb, data: vec![0; 11] };
    assert_eq!(expand_frame(short).unwrap_err(), RenderError::BufferSizeMismatch);
}

#[test]
fn general_decoder_refuses_wrong_format_and_png_decoder_recovers() {
    let bytes = png_of(3, 2, [10, 20, 30, 255]);
    assert_eq!(
        decode_with(DecodeStrategy::General, &bytes, RasterFormat::Jpeg).unwrap_err(),
        RenderError::DecodeFailed
    );
    let img = decode_with(DecodeStrategy::PngFrame, &bytes, RasterFormat::Jpeg).unwrap();
    assert_eq!((img.width, img.height), (3, 2));
    assert_eq!(&img.pixels[0..4], &[10, 20, 30, 255]);
    let both = decode_raster(&bytes, RasterFormat::Jpeg).unwrap();
    assert_eq!(both.pixels, img.pixels);
}

#[test]
fn garbage_does_not_decode() {
    assert_eq!(decode_raster(b"not an image", RasterFormat::Png).unwrap_err(), RenderError::DecodeFailed);
    assert_eq!(
        render_raster(b"not an image", RasterFormat::Png, 64).unwrap_err(),
        RenderError::DecodeFailed
    );
}

#[test]
fn empty_source_is_refused() {
    let src = Raster { width: 0, height: 4, pixels: vec![] };
    assert_eq!(letterbox_raster(&src, 16).unwrap_err(), RenderError::EmptyImage);
}

#[test]
fn letterbox_raster_pads_wide_source() {
    let src = Raster { width: 4, height: 2, pixels: vec![200; 4 * 4 * 2] };
    let t = letterbox_raster(&src, 8).unwrap();
    assert_eq!((t.width, t.height), (8, 8));
    assert_eq!(t.pixels.len(), 8 * 8 * 4);
    // Top rows are padding, fully transparent.
    assert!(t.pixels[0..8 * 4 * 2].iter().all(|&b| b == 0));
    // Middle rows carry the source.
    let mid = (4 * 8 + 4) * 4;
    assert_eq!(t.pixels[mid + 3], 200);
}

#[test]
fn render_square_png_to_requested_size() {
    let bytes = png_of(256, 256, [255, 0, 0, 255]);
    let out = render_raster(&bytes, RasterFormat::Png, 64).unwrap();
    let img = decode_png(&out);
    assert_eq!(img.dimensions(), (64, 64));
    assert_eq!(img.get_pixel(0, 0).0, [255, 0, 0, 255]);
    assert_eq!(img.get_pixel(63, 63).0, [255, 0, 0, 255]);
}

#[test]
fn render_wide_png_is_letterboxed() {
    let bytes = png_of(40, 20, [0, 0, 255, 255]);
    let out = render_raster(&bytes, RasterFormat::Png, 20).unwrap();
    let img = decode_png(&out);
    assert_eq!(img.dimensions(), (20, 20));
    assert_eq!(img.get_pixel(10, 0).0[3], 0);
    assert_eq!(img.get_pixel(10, 19).0[3], 0);
    assert_eq!(img.get_pixel(10, 10).0, [0, 0, 255, 255]);
    assert_eq!(img.get_pixel(0, 10).0[3], 255);
}

#[test]
fn render_upscales_small_source() {
    let bytes = png_of(16, 16, [0, 255, 0, 255]);
    let out = render_raster(&bytes, RasterFormat::Png, 128).unwrap();
    assert_eq!(decode_png(&out).dimensions(), (128, 128));
}

#[test]
fn render_is_repeatable() {
    let bytes = png_of(30, 50, [1, 2, 3, 255]);
    let a = render_raster(&bytes, RasterFormat::Png, 32).unwrap();
    let b = render_raster(&bytes, RasterFormat::Png, 32).unwrap();
    assert_eq!(a, b);
}
