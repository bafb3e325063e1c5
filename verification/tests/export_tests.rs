use icon_forger::export::{
    encode_image, export, icns_from_images, icns_icon_type, ico_from_images, pixmap_to_rgba,
    resize_pixmap, RasterFormat, to_icns, to_ico, to_png, to_png_sized, to_webp,
    to_webp_sized, ExportError, Format, IcnsIconType, STANDARD_SIZES,
};
use icon_forger::pixmap::Pixmap;

fn solid(size: u32, px: [u8; 4]) -> Pixmap {
    let mut data = Vec::new();
    for _ in 0..(size * size) {
        data.extend_from_slice(&px);
    }
    Pixmap::from_vec(data, size, size).unwrap()
}

fn png_dims(bytes: &[u8]) -> (u32, u32) {
    assert_eq!(&bytes[..8], &[0x89, b'P', b'N', b'G', 0x0d, 0x0a, 0x1a, 0x0a]);
    let w = u32::from_be_bytes([bytes[16], bytes[17], bytes[18], bytes[19]]);
    let h = u32::from_be_bytes([bytes[20], bytes[21], bytes[22], bytes[23]]);
    (w, h)
}

#[test]
fn pixmap_from_vec_checks_shape() {
    assert!(Pixmap::from_vec(vec![0; 16], 2, 2).is_some());
    assert!(Pixmap::from_vec(vec![0; 15], 2, 2).is_none());
    assert!(Pixmap::from_vec(vec![0; 16], 4, 2).is_none());
    assert!(Pixmap::from_vec(vec![], 0, 0).is_none());
    assert!(Pixmap::from_vec(vec![0; 8], 0, 2).is_none());
    let p = Pixmap::from_vec(vec![1, 2, 3, 4, 5, 6, 7, 8], 2, 1).unwrap();
    assert_eq!(p.width(), 2);
    assert_eq!(p.height(), 1);
    assert_eq!(p.data(), &[1, 2, 3, 4, 5, 6, 7, 8]);
}

#[test]
fn straight_alpha_conversion_values() {
    let p = Pixmap::from_vec(
        vec![
            128, 64, 0, 128, // half-transparent: channels scaled by 255/128
            10, 20, 30, 255, // opaque: unchanged
            9, 9, 9, 0, // transparent: zeros
            200, 0, 50, 100, // a channel above alpha is cut to eight bits
        ],
        2,
        2,
    )
    .unwrap();
    assert_eq!(
        pixmap_to_rgba(&p),
        vec![255, 127, 0, 128, 10, 20, 30, 255, 0, 0, 0, 0, 254, 0, 127, 100]
    );
}

#[test]
fn png_export_encodes_at_own_size() {
    let p = solid(8, [0, 0, 255, 255]);
    let bytes = to_png(&p).unwrap();
    assert_eq!(png_dims(&bytes), (8, 8));
}

#[test]
fn png_sized_export_resizes() {
    let p = solid(8, [255, 0, 0, 255]);
    let bytes = to_png_sized(&p, 3).unwrap();
    assert_eq!(png_dims(&bytes), (3, 3));
}

#[test]
fn sized_export_at_own_size_equals_plain_export() {
    let p = Pixmap::from_vec(
        vec![
            255, 0, 0, 255, 0, 255, 0, 255, 0, 0, 255, 255, 64, 64, 64, 128,
        ],
        2,
        2,
    )
    .unwrap();
    assert_eq!(to_png_sized(&p, 2).unwrap(), to_png(&p).unwrap());
    assert_eq!(to_webp_sized(&p, 2).unwrap(), to_webp(&p).unwrap());
}

#[test]
fn webp_export_writes_riff_webp() {
    let p = solid(4, [10, 20, 30, 255]);
    let bytes = to_webp(&p).unwrap();
    assert_eq!(&bytes[..4], b"RIFF");
    assert_eq!(&bytes[8..12], b"WEBP");
    let sized = to_webp_sized(&p, 6).unwrap();
    assert_eq!(&sized[..4], b"RIFF");
    assert_ne!(sized, bytes);
}

#[test]
fn ico_export_holds_four_sizes() {
    let p = solid(32, [200, 100, 50, 255]);
    let bytes = to_ico(&p).unwrap();
    // header: reserved 0, type 1 (icon), 4 entries
    assert_eq!(&bytes[..6], &[0, 0, 1, 0, 4, 0]);
    // directory entries: width bytes 16, 32, 48 and 0 (meaning 256)
    let widths: Vec<u8> = (0..4).map(|i| bytes[6 + 16 * i]).collect();
    assert_eq!(widths, vec![16, 32, 48, 0]);
}

#[test]
fn icns_export_holds_seven_sizes() {
    let p = solid(16, [0, 128, 0, 255]);
    let bytes = to_icns(&p).unwrap();
    assert_eq!(&bytes[..4], b"icns");
    let total = u32::from_be_bytes([bytes[4], bytes[5], bytes[6], bytes[7]]) as usize;
    assert_eq!(total, bytes.len());
    let mut types = Vec::new();
    let mut pos = 8;
    while pos < bytes.len() {
        types.push(String::from_utf8(bytes[pos..pos + 4].to_vec()).unwrap());
        let len = u32::from_be_bytes([bytes[pos + 4], bytes[pos + 5], bytes[pos + 6], bytes[pos + 7]]);
        pos += len as usize;
    }
    assert_eq!(types, vec!["icp4", "icp5", "icp6", "ic07", "ic08", "ic09", "ic10"]);
}

#[test]
fn icns_icon_type_mapping() {
    assert_eq!(icns_icon_type(16).unwrap(), IcnsIconType::RGBA32_16x16);
    assert_eq!(icns_icon_type(32).unwrap(), IcnsIconType::RGBA32_32x32);
    assert_eq!(icns_icon_type(64).unwrap(), IcnsIconType::RGBA32_64x64);
    assert_eq!(icns_icon_type(128).unwrap(), IcnsIconType::RGBA32_128x128);
    assert_eq!(icns_icon_type(256).unwrap(), IcnsIconType::RGBA32_256x256);
    assert_eq!(icns_icon_type(512).unwrap(), IcnsIconType::RGBA32_512x512);
    assert_eq!(icns_icon_type(1024).unwrap(), IcnsIconType::RGBA32_512x512_2x);
    assert!(matches!(icns_icon_type(48), Err(ExportError::UnsupportedIcnsSize(48))));
    assert!(matches!(icns_icon_type(0), Err(ExportError::UnsupportedIcnsSize(0))));
}

#[test]
fn export_dispatches_on_format() {
    let p = solid(16, [1, 2, 3, 255]);
    assert_eq!(export(&p, Format::Png).unwrap(), to_png(&p).unwrap());
    assert_eq!(export(&p, Format::WebP).unwrap(), to_webp(&p).unwrap());
    assert_eq!(export(&p, Format::Ico).unwrap(), to_ico(&p).unwrap());
    assert_eq!(export(&p, Format::Icns).unwrap(), to_icns(&p).unwrap());
}

#[test]
fn standard_sizes_constant() {
    assert_eq!(STANDARD_SIZES, [16, 32, 48, 64, 128, 256, 512, 1024]);
}

#[test]
fn resize_pixmap_sizes_and_same_size_copy() {
    let p = solid(8, [100, 50, 25, 200]);
    assert_eq!(resize_pixmap(&p, 3).len(), 3 * 3 * 4);
    assert_eq!(resize_pixmap(&p, 16).len(), 16 * 16 * 4);
    let q = Pixmap::from_vec(vec![10, 20, 30, 40, 0, 0, 0, 0, 255, 255, 255, 255, 1, 2, 3, 4], 2, 2)
        .unwrap();
    assert_eq!(resize_pixmap(&q, 2), pixmap_to_rgba(&q));
}

#[test]
fn ico_from_images_bundles_given_images() {
    let images = vec![(16u32, vec![255u8; 16 * 16 * 4]), (32u32, vec![0u8; 32 * 32 * 4])];
    let bytes = ico_from_images(&images).unwrap();
    assert_eq!(&bytes[..6], &[0, 0, 1, 0, 2, 0]);
    assert_eq!((bytes[6], bytes[22]), (16, 32));
    let empty: Vec<(u32, Vec<u8>)> = Vec::new();
    assert_eq!(ico_from_images(&empty).unwrap(), vec![0, 0, 1, 0, 0, 0]);
}

#[test]
fn icns_from_images_refuses_sizes_without_type() {
    let ok = vec![(16u32, vec![128u8; 16 * 16 * 4])];
    let bytes = icns_from_images(&ok).unwrap();
    assert_eq!(&bytes[..4], b"icns");
    assert_eq!(&bytes[8..12], b"icp4");
    let bad = vec![(16u32, vec![0u8; 16 * 16 * 4]), (48u32, vec![0u8; 48 * 48 * 4])];
    assert!(matches!(icns_from_images(&bad), Err(ExportError::UnsupportedIcnsSize(48))));
}

#[test]
fn encode_image_writes_given_size() {
    let bytes = encode_image(RasterFormat::Png, 3, 2, vec![7u8; 3 * 2 * 4]).unwrap();
    assert_eq!(png_dims(&bytes), (3, 2));
    assert!(matches!(encode_image(RasterFormat::Png, 0, 0, vec![]), Err(ExportError::Encode(_))));
}
