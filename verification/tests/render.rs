use base64::engine::general_purpose::STANDARD;
use base64::Engine;
use qrgen::encoder::{encode, ModuleGrid};
use qrgen::render::{
    base64_fits, data_url, encode_png, generate_qr, rasterize, render, render_svg, Format,
    GenerateError, Rendered,
};

#[test]
fn bogus_format_is_refused() {
    let result = generate_qr("test", "bogus");
    assert!(matches!(result, Err(GenerateError::InvalidFormat)));
}

#[test]
fn format_names_are_exact() {
    assert_eq!(Format::parse("svg"), Some(Format::Svg));
    assert_eq!(Format::parse("png"), Some(Format::Png));
    assert_eq!(Format::parse("SVG"), None);
    assert_eq!(Format::parse("png "), None);
    assert_eq!(Format::parse(""), None);
    assert_eq!(Format::parse("jpeg"), None);
}

#[test]
fn oversized_data_is_refused_with_its_length() {
    let data = "a".repeat(3000);
    let result = generate_qr(&data, "svg");
    assert!(matches!(result, Err(GenerateError::CapacityExceeded { byte_count: 3000 })));
}

#[test]
fn size_is_reported_before_the_format() {
    let data = "a".repeat(3000);
    let result = generate_qr(&data, "bogus");
    assert!(matches!(result, Err(GenerateError::CapacityExceeded { byte_count: 3000 })));
}

#[test]
fn svg_output_has_a_root_element() {
    match generate_qr("test", "svg") {
        Ok(Rendered::Svg { markup }) => {
            assert!(!markup.is_empty());
            assert!(markup.contains("<svg"));
            assert!(markup.contains("xmlns=\"http://www.w3.org/2000/svg\""));
            assert!(markup.contains("fill=\"#ffffff\""));
            assert!(markup.contains("fill=\"#000000\""));
            assert!(markup.starts_with(
                "<?xml version=\"1.0\" standalone=\"yes\"?><svg xmlns=\"http://www.w3.org/2000/svg\""
            ));
            assert!(markup.ends_with("\"/></svg>"));
        }
        _ => panic!("expected SVG markup"),
    }
}

#[test]
fn svg_is_at_least_three_hundred_units_wide() {
    let grid = encode(b"test").unwrap();
    let markup = render_svg(&grid);
    // 177 modules and a quiet zone of 4 on each side, 2 units each.
    assert!(markup.contains("width=\"370\" height=\"370\""));
}

#[test]
fn png_output_decodes_to_a_large_enough_image() {
    match generate_qr("test", "png") {
        Ok(Rendered::Png { data_url, size_bytes }) => {
            let prefix = "data:image/png;base64,";
            assert!(data_url.starts_with(prefix));
            let png = STANDARD.decode(&data_url[prefix.len()..]).unwrap();
            assert_eq!(png.len(), size_bytes);
            assert_eq!(png[0..8], [0x89, b'P', b'N', b'G', 0x0d, 0x0a, 0x1a, 0x0a]);
            let decoded = image::load_from_memory(&png).unwrap();
            assert!(decoded.width() >= 400);
            assert!(decoded.height() >= 400);
            assert_eq!(decoded.width(), 555);
            let raster = rasterize(&encode(b"test").unwrap());
            assert_eq!(decoded.to_luma8().into_raw(), raster.pixels);
        }
        _ => panic!("expected a PNG data URL"),
    }
}

#[test]
fn data_url_is_standard_base64() {
    assert_eq!(data_url(b""), "data:image/png;base64,");
    assert_eq!(data_url(b"f"), "data:image/png;base64,Zg==");
    assert_eq!(data_url(b"fo"), "data:image/png;base64,Zm8=");
    assert_eq!(data_url(b"foo"), "data:image/png;base64,Zm9v");
    assert_eq!(data_url(b"foob"), "data:image/png;base64,Zm9vYg==");
    assert_eq!(data_url(b"fooba"), "data:image/png;base64,Zm9vYmE=");
    assert_eq!(data_url(b"foobar"), "data:image/png;base64,Zm9vYmFy");
    assert_eq!(data_url(&[0xfb, 0xff]), "data:image/png;base64,+/8=");
    assert_eq!(data_url(&[0x00, 0x10, 0x83]), "data:image/png;base64,ABCD");
}

#[test]
fn base64_length_check() {
    assert!(base64_fits(0));
    assert!(base64_fits(1_000_000));
    assert!(base64_fits(usize::MAX / 4 * 3));
    assert!(!base64_fits(usize::MAX / 4 * 3 + 1));
    assert!(!base64_fits(usize::MAX));
}

#[test]
fn raster_of_a_single_dark_module() {
    let grid = ModuleGrid::new(1, vec![true]).unwrap();
    let raster = rasterize(&grid);
    // 9 modules across with the quiet zone, 45 pixels each.
    assert_eq!(raster.side, 405);
    assert_eq!(raster.pixels.len(), 405 * 405);
    let at = |x: usize, y: usize| raster.pixels[y * 405 + x];
    assert_eq!(at(0, 0), 255);
    assert_eq!(at(179, 180), 255);
    assert_eq!(at(180, 179), 255);
    assert_eq!(at(180, 180), 0);
    assert_eq!(at(224, 224), 0);
    assert_eq!(at(225, 224), 255);
    assert_eq!(at(224, 225), 255);
    assert_eq!(at(404, 404), 255);
    let dark = raster.pixels.iter().filter(|p| **p == 0).count();
    assert_eq!(dark, 45 * 45);
}

#[test]
fn raster_follows_the_rows_of_the_grid() {
    let grid = ModuleGrid::new(2, vec![false, true, false, false]).unwrap();
    let raster = rasterize(&grid);
    // 10 modules across, 40 pixels each.
    assert_eq!(raster.side, 400);
    let at = |x: usize, y: usize| raster.pixels[y * 400 + x];
    assert_eq!(at(4 * 40, 4 * 40), 255);
    assert_eq!(at(5 * 40, 4 * 40), 0);
    assert_eq!(at(4 * 40, 5 * 40), 255);
    assert_eq!(at(5 * 40, 5 * 40), 255);
}

#[test]
fn png_of_a_small_grid_round_trips() {
    let grid = ModuleGrid::new(2, vec![true, false, false, true]).unwrap();
    let raster = rasterize(&grid);
    let png = encode_png(&raster).unwrap();
    let decoded = image::load_from_memory(&png).unwrap().to_luma8();
    assert_eq!(decoded.width(), raster.side);
    assert_eq!(decoded.height(), raster.side);
    assert_eq!(decoded.into_raw(), raster.pixels);
}

#[test]
fn render_picks_the_format() {
    let grid = ModuleGrid::new(2, vec![true, false, false, true]).unwrap();
    assert!(matches!(render(&grid, Format::Svg), Ok(Rendered::Svg { .. })));
    match render(&grid, Format::Png) {
        Ok(Rendered::Png { data_url, size_bytes }) => {
            let png = encode_png(&rasterize(&grid)).unwrap();
            assert_eq!(size_bytes, png.len());
            assert_eq!(data_url, qrgen::render::data_url(&png));
        }
        _ => panic!("expected a PNG data URL"),
    }
}

#[test]
fn svg_draws_the_dark_modules_only() {
    let grid = ModuleGrid::new(2, vec![true, false, false, true]).unwrap();
    let markup = render_svg(&grid);
    // 10 modules across, 30 units each.
    assert!(markup.contains("width=\"300\" height=\"300\""));
    assert!(markup.contains("M120 120h30v30H120V120"));
    assert!(markup.contains("M150 150h30v30H150V150"));
    assert!(!markup.contains("M150 120"));
    assert!(!markup.contains("M120 150"));
}
