use icon_thumb::pipeline::{
    fallback_query, icon_reference, next_stage, parse_size, route, size_from_arg, theme_from_query, EntryError,
    Route, Stage,
};
use icon_thumb::raster::RasterFormat;
use icon_thumb::text::{str_eq, trim_char};

#[test]
fn size_zero_becomes_default() {
    assert_eq!(parse_size("0"), Some(0));
    assert_eq!(size_from_arg("0"), Some(256));
}

#[test]
fn size_argument_forms() {
    assert_eq!(size_from_arg("128"), Some(128));
    assert_eq!(size_from_arg("+64"), Some(64));
    assert_eq!(size_from_arg("4294967295"), Some(4294967295));
    assert_eq!(size_from_arg("4294967296"), None);
    assert_eq!(size_from_arg("12a"), None);
    assert_eq!(size_from_arg("-1"), None);
    assert_eq!(size_from_arg("+"), None);
    assert_eq!(size_from_arg(""), None);
}

#[test]
fn theme_from_query_strips_quotes_and_space() {
    assert_eq!(theme_from_query(true, "'Yaru-dark'\n"), "Yaru-dark");
    assert_eq!(theme_from_query(true, "  Papirus  "), "Papirus");
}

#[test]
fn theme_from_query_defaults() {
    assert_eq!(theme_from_query(false, "'Yaru'"), "hicolor");
    assert_eq!(theme_from_query(true, "''\n"), "hicolor");
    assert_eq!(theme_from_query(true, ""), "hicolor");
}

#[test]
fn text_helpers() {
    assert!(str_eq("abc", "abc"));
    assert!(!str_eq("abc", "abd"));
    assert!(!str_eq("abc", "ab"));
    assert_eq!(trim_char("''x'y''", '\''), "x'y");
    assert_eq!(trim_char("''''", '\''), "");
}

#[test]
fn routes_by_extension() {
    assert_eq!(route("/abs/icon.svg"), Route::Vector);
    assert_eq!(route("/abs/ICON.SVG"), Route::Vector);
    assert_eq!(route("/a/b.png"), Route::Raster(RasterFormat::Png));
    assert_eq!(route("/a/b.jpg"), Route::Raster(RasterFormat::Jpeg));
    assert_eq!(route("/a/b.Jpeg"), Route::Raster(RasterFormat::Jpeg));
    assert_eq!(route("/a/b.xpm"), Route::Unsupported);
    assert_eq!(route("/a/b"), Route::Unsupported);
}

#[test]
fn stage_machine() {
    assert_eq!(next_stage(Stage::ParseEntry, true), Stage::ResolveIcon);
    assert_eq!(next_stage(Stage::ParseEntry, false), Stage::Fallback);
    assert_eq!(next_stage(Stage::ResolveIcon, true), Stage::Render);
    assert_eq!(next_stage(Stage::ResolveIcon, false), Stage::Fallback);
    assert_eq!(next_stage(Stage::Render, true), Stage::Done);
    assert_eq!(next_stage(Stage::Render, false), Stage::Fallback);
    assert_eq!(next_stage(Stage::Fallback, true), Stage::RenderFallback);
    assert_eq!(next_stage(Stage::Fallback, false), Stage::Terminal);
    assert_eq!(next_stage(Stage::RenderFallback, true), Stage::Done);
    assert_eq!(next_stage(Stage::RenderFallback, false), Stage::Terminal);
    assert_eq!(next_stage(Stage::Terminal, true), Stage::Terminal);
}

#[test]
fn entry_icon_field() {
    let e = b"[Desktop Entry]\nName=Firefox\nIcon=firefox\n";
    assert_eq!(icon_reference(e), Ok("firefox".to_string()));
    let abs = b"[Desktop Entry]\nIcon=/abs/icon.svg\n";
    assert_eq!(icon_reference(abs), Ok("/abs/icon.svg".to_string()));
}

#[test]
fn entry_without_icon_field() {
    let e = b"[Desktop Entry]\nName=Firefox\n";
    assert_eq!(icon_reference(e), Err(EntryError::MissingIcon));
    let other = b"[Other]\nIcon=firefox\n";
    assert_eq!(icon_reference(other), Err(EntryError::MissingIcon));
}

#[test]
fn entry_that_does_not_parse() {
    let e = b"[Desktop Entry\nIcon=firefox\n";
    assert_eq!(icon_reference(e), Err(EntryError::Unparseable));
}

#[test]
fn fallback_looks_up_generic_icon_in_adwaita() {
    let q = fallback_query();
    assert_eq!(q.name, "application-x-generic");
    assert_eq!(q.theme, "Adwaita");
}
