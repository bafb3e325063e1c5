use icon_forger::codegen::{preset_app_icon, preset_polygon_badge, IconBuilder};
use icon_forger::export::Format;
use icon_forger::import::{ImportError, SvgAsset};
use icon_forger::shapes::{polygon_vertex_count, IconShape, Ratio, Rgba, HALF_BITS};
use icon_forger::{available_formats, parse_format, standard_sizes};

#[test]
fn rgba_new_sets_channels() {
    let c = Rgba::new(1, 2, 3, 4);
    assert_eq!((c.r, c.g, c.b, c.a), (1, 2, 3, 4));
}

#[test]
fn parse_format_ignores_case() {
    assert_eq!(parse_format("png").unwrap(), Format::Png);
    assert_eq!(parse_format("PNG").unwrap(), Format::Png);
    assert_eq!(parse_format("Ico").unwrap(), Format::Ico);
    assert_eq!(parse_format("ICNS").unwrap(), Format::Icns);
    assert_eq!(parse_format("WebP").unwrap(), Format::WebP);
}

#[test]
fn parse_format_rejects_unknown_names() {
    assert_eq!(parse_format("GIF").unwrap_err(), "unknown format: gif");
    assert_eq!(parse_format("").unwrap_err(), "unknown format: ");
    assert_eq!(parse_format(" png").unwrap_err(), "unknown format:  png");
    assert_eq!(parse_format("ÄPNG").unwrap_err(), "unknown format: Äpng");
}

#[test]
fn available_formats_parse_back() {
    let names = available_formats();
    assert_eq!(names, vec!["png", "ico", "icns", "webp"]);
    let parsed: Vec<Format> = names.iter().map(|n| parse_format(n).unwrap()).collect();
    assert_eq!(parsed, vec![Format::Png, Format::Ico, Format::Icns, Format::WebP]);
}

#[test]
fn standard_sizes_list() {
    assert_eq!(standard_sizes(), vec![16, 32, 48, 64, 128, 256, 512, 1024]);
}

#[test]
fn builder_keeps_layer_order_and_last_background() {
    let red = Rgba::new(255, 0, 0, 255);
    let blue = Rgba::new(0, 0, 255, 255);
    let a = IconShape::Polygon { sides: 6, color: red };
    let b = IconShape::Circle { radius: Ratio { bits: 0.25f64.to_bits() }, color: blue };
    let def = IconBuilder::new().background(red).layer(a).background(blue).layer(b).build();
    assert_eq!(def.background, Some(blue));
    assert_eq!(def.layers, vec![a, b]);
}

#[test]
fn builder_default_is_empty() {
    let def = IconBuilder::default().build();
    assert_eq!(def.background, None);
    assert!(def.layers.is_empty());
}

#[test]
fn preset_app_icon_layers() {
    let bg = Rgba::new(10, 20, 30, 255);
    let fg = Rgba::new(200, 210, 220, 255);
    let cr = Ratio { bits: 0.2f64.to_bits() };
    let def = preset_app_icon(bg, fg, cr);
    assert_eq!(def.background, Some(bg));
    assert_eq!(
        def.layers,
        vec![
            IconShape::RoundedRect { corner_radius: cr, color: bg },
            IconShape::Circle { radius: Ratio { bits: 0.5f64.to_bits() }, color: fg },
        ]
    );
    assert_eq!(f64::from_bits(HALF_BITS), 0.5);
}

#[test]
fn preset_polygon_badge_layers() {
    let bg = Rgba::new(0, 0, 0, 255);
    let fg = Rgba::new(255, 255, 0, 255);
    let def = preset_polygon_badge(5, bg, fg);
    assert_eq!(def.background, Some(bg));
    assert_eq!(def.layers, vec![IconShape::Polygon { sides: 5, color: fg }]);
}

#[test]
fn polygon_has_at_least_three_vertices() {
    assert_eq!(polygon_vertex_count(0), 3);
    assert_eq!(polygon_vertex_count(2), 3);
    assert_eq!(polygon_vertex_count(3), 3);
    assert_eq!(polygon_vertex_count(8), 8);
}

const SVG: &str = r#"<svg xmlns="http://www.w3.org/2000/svg" width="10" height="20"><rect width="10" height="20" fill="red"/></svg>"#;

#[test]
fn svg_parses_from_str_and_bytes() {
    let asset = SvgAsset::from_svg_str(SVG).unwrap();
    assert_eq!(asset.tree().size().width(), 10.0);
    assert_eq!(asset.tree().size().height(), 20.0);
    assert!(SvgAsset::from_svg_bytes(SVG.as_bytes()).is_ok());
}

#[test]
fn svg_parse_errors() {
    assert!(matches!(SvgAsset::from_svg_str("not svg"), Err(ImportError::Parse(_))));
    match SvgAsset::from_svg_bytes(&[0xff, b'<']) {
        Err(ImportError::Parse(msg)) => {
            assert_eq!(msg, "invalid utf-8 sequence of 1 bytes from index 0")
        }
        _ => panic!("expected a parse error"),
    }
}

#[test]
fn svg_parse_success_and_failure() {
    assert!(matches!(SvgAsset::from_svg_str(""), Err(ImportError::Parse(_))));
    assert!(matches!(SvgAsset::from_svg_str("not an svg"), Err(ImportError::Parse(_))));
    assert!(SvgAsset::from_svg_str("<svg xmlns='http://www.w3.org/2000/svg' width='10' height='10'/>").is_ok());
}

#[test]
fn svg_bytes_parse_as_their_text() {
    for text in ["", "not an svg", "<svg xmlns='http://www.w3.org/2000/svg' width='0' height='0'/>", SVG] {
        let a = SvgAsset::from_svg_str(text);
        let b = SvgAsset::from_svg_bytes(text.as_bytes());
        assert_eq!(a.is_ok(), b.is_ok());
        if let (Err(ImportError::Parse(m1)), Err(ImportError::Parse(m2))) = (a, b) {
            assert_eq!(m1, m2);
        }
    }
    assert!(matches!(SvgAsset::from_svg_bytes(&[0xff, 0xfe]), Err(ImportError::Parse(_))));
}
