use icon_thumb::pipeline::{icon_reference, next_stage, route, size_from_arg, EntryError, Route, Stage};
use icon_thumb::raster::{render_raster, RasterFormat};
use icon_thumb::resolve::{choose_resolution, search_plan, AbsCheck};

fn png_of(w: u32, h: u32) -> Vec<u8> {
    let img = image::RgbaImage::from_pixel(w, h, image::Rgba([200, 100, 50, 255]));
    let mut out = Vec::new();
    image::DynamicImage::ImageRgba8(img)
        .write_to(&mut std::io::Cursor::new(&mut out), image::ImageFormat::Png)
        .unwrap();
    out
}

#[test]
fn icon_name_found_only_in_adwaita_is_resized_to_request() {
    let entry = b"[Desktop Entry]\nName=Firefox\nIcon=firefox\n";
    let icon = icon_reference(entry).unwrap();
    let plan = search_plan(&icon, "Yaru");
    let mut hits: Vec<Option<String>> = vec![None; plan.len()];
    let adwaita = plan.iter().position(|q| q.theme == "Adwaita" && q.name == "firefox").unwrap();
    hits[adwaita] = Some("/usr/share/icons/Adwaita/256x256/apps/firefox.png".to_string());
    let path = choose_resolution(&icon, AbsCheck::NotApplicable, &hits).unwrap();
    assert_eq!(path, "/usr/share/icons/Adwaita/256x256/apps/firefox.png");
    let format = match route(&path) {
        Route::Raster(f) => f,
        other => panic!("unexpected route {:?}", other),
    };
    assert_eq!(format, RasterFormat::Png);
    let out = render_raster(&png_of(256, 256), format, 96).unwrap();
    let img = image::load_from_memory(&out).unwrap();
    assert_eq!((img.width(), img.height()), (96, 96));
}

#[test]
fn entry_without_icon_goes_to_fallback_then_terminal() {
    let entry = b"[Desktop Entry]\nName=Tool\n";
    assert_eq!(icon_reference(entry), Err(EntryError::MissingIcon));
    let stage = next_stage(Stage::ParseEntry, false);
    assert_eq!(stage, Stage::Fallback);
    assert_eq!(next_stage(stage, true), Stage::RenderFallback);
    assert_eq!(next_stage(stage, false), Stage::Terminal);
}

#[test]
fn size_argument_zero_renders_default_edge() {
    let size = size_from_arg("0").unwrap();
    assert_eq!(size, 256);
    let out = render_raster(&png_of(32, 16), RasterFormat::Png, size).unwrap();
    let img = image::load_from_memory(&out).unwrap();
    assert_eq!((img.width(), img.height()), (256, 256));
}

#[test]
fn absolute_svg_reference_routes_to_vector() {
    let entry = b"[Desktop Entry]\nIcon=/abs/icon.svg\n";
    let icon = icon_reference(entry).unwrap();
    assert_eq!(route(&icon), Route::Vector);
}
