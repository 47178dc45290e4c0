use rmedia::codec::decode;
use rmedia::compose::{is_within_rounded, paste, round_corners, rounded_frame, CLEAR, WHITE};
use rmedia::error::MediaError;
use rmedia::image_webp::decode_webp;
use rmedia::params::RequestParams;
use rmedia::qr_code::{clamp_quality, clamp_size, new, QrCode};
use rmedia::raster::RasterImage;
use rmedia::style::{
    apply_operation, crop_origin, edit, parse_operation, transform, Anchor, EditRequest, Operation,
};
use rmedia::text::{chars_of, parse_unsigned, split_at_char, trimmed};

fn gradient(w: u32, h: u32) -> RasterImage {
    let mut pixels = Vec::new();
    for y in 0..h {
        for x in 0..w {
            pixels.push([(x % 256) as u8, (y % 256) as u8, ((x / 256) * 16 + y / 256) as u8, 255]);
        }
    }
    RasterImage { width: w, height: h, pixels }
}

fn png_of(img: &RasterImage) -> Vec<u8> {
    let raw: Vec<u8> = img.pixels.concat();
    let buf = image::RgbaImage::from_raw(img.width, img.height, raw).unwrap();
    let mut out = std::io::Cursor::new(Vec::new());
    buf.write_to(&mut out, image::ImageOutputFormat::Png).unwrap();
    out.into_inner()
}

fn token(s: &str) -> Vec<char> {
    s.chars().collect()
}

#[test]
fn test() {
    println!("{:?}", "");
}

#[test]
fn clamps_stay_in_range() {
    assert_eq!(clamp_quality(0), 1);
    assert_eq!(clamp_quality(3), 3);
    assert_eq!(clamp_quality(200), 5);
    assert_eq!(clamp_size(0), 100);
    assert_eq!(clamp_size(400), 400);
    assert_eq!(clamp_size(5000), 1200);
    for q in 0..=255u8 {
        let c = clamp_quality(q);
        assert!((1..=5).contains(&c));
    }
}

#[test]
fn resize_to_width_keeps_aspect() {
    let r = transform(gradient(400, 300), "ZW200");
    assert_eq!((r.width, r.height), (200, 150));
    assert_eq!(r.pixels.len(), 200 * 150);
}

#[test]
fn resize_to_width_larger_is_rejected() {
    let src = gradient(400, 300);
    let r = transform(gradient(400, 300), "ZW500");
    assert_eq!((r.width, r.height), (400, 300));
    assert_eq!(r.pixels, src.pixels);
}

#[test]
fn resize_to_height_keeps_aspect() {
    let r = transform(gradient(400, 300), "ZH150");
    assert_eq!((r.width, r.height), (200, 150));
    let same = transform(gradient(400, 300), "ZH300");
    assert_eq!((same.width, same.height), (400, 300));
}

#[test]
fn center_crop_window() {
    let src = gradient(400, 300);
    let r = transform(gradient(400, 300), "CCC200X100");
    assert_eq!((r.width, r.height), (200, 100));
    assert_eq!(r.pixels[0], src.pixels[100 * 400 + 100]);
    assert_eq!(r.pixels[99 * 200 + 199], src.pixels[199 * 400 + 299]);
}

#[test]
fn scale_half() {
    let r = transform(gradient(400, 300), "ZS5");
    assert_eq!((r.width, r.height), (200, 150));
}

#[test]
fn scale_out_of_range_is_skipped() {
    let src = gradient(40, 30);
    for args in ["ZS11", "ZS0"] {
        let r = transform(gradient(40, 30), args);
        assert_eq!((r.width, r.height), (40, 30));
        assert_eq!(r.pixels, src.pixels);
    }
}

#[test]
fn empty_args_keep_image() {
    let src = gradient(40, 30);
    let r = transform(gradient(40, 30), "");
    assert_eq!((r.width, r.height), (40, 30));
    assert_eq!(r.pixels, src.pixels);
}

#[test]
fn oversized_crop_is_skipped() {
    let src = gradient(40, 30);
    let r = transform(gradient(40, 30), "CLT50X10ACLT10X31");
    assert_eq!((r.width, r.height), (40, 30));
    assert_eq!(r.pixels, src.pixels);
}

#[test]
fn bad_tokens_are_skipped_and_chain_continues() {
    let r = transform(gradient(400, 300), "ZWabcAQQAZW200ACLT100");
    assert_eq!((r.width, r.height), (100, 100));
}

#[test]
fn only_five_tokens_apply() {
    let r = transform(gradient(400, 300), "XAXAXAXAXAZW200");
    assert_eq!((r.width, r.height), (400, 300));
    let r = transform(gradient(400, 300), "XAXAXAXAZW200");
    assert_eq!((r.width, r.height), (200, 150));
}

#[test]
fn square_crop_at_corners() {
    let src = gradient(40, 30);
    let r = transform(gradient(40, 30), "CRB10");
    assert_eq!((r.width, r.height), (10, 10));
    assert_eq!(r.pixels[0], src.pixels[20 * 40 + 30]);
    let r = transform(gradient(40, 30), "CLC10X4");
    assert_eq!((r.width, r.height), (10, 4));
    assert_eq!(r.pixels[0], src.pixels[13 * 40]);
}

#[test]
fn crop_origins() {
    assert_eq!(crop_origin(Anchor::Center, 400, 300, 200, 100), (100, 100));
    assert_eq!(crop_origin(Anchor::Center, 400, 300, 201, 101), (99, 99));
    assert_eq!(crop_origin(Anchor::RightTop, 400, 300, 100, 100), (300, 0));
    assert_eq!(crop_origin(Anchor::LeftBottom, 400, 300, 100, 100), (0, 200));
    assert_eq!(crop_origin(Anchor::RightCenter, 400, 300, 100, 100), (300, 100));
}

#[test]
fn parses_operations() {
    assert_eq!(parse_operation(&token("ZW200")), Some(Operation::ResizeToWidth(200)));
    assert_eq!(parse_operation(&token("ZH 7 ")), Some(Operation::ResizeToHeight(7)));
    assert_eq!(parse_operation(&token("ZS+5")), Some(Operation::ScalePercent(5)));
    assert_eq!(
        parse_operation(&token("CCC200X100")),
        Some(Operation::CropAnchored(200, 100, Anchor::Center))
    );
    assert_eq!(parse_operation(&token("CLT30")), Some(Operation::CropAnchored(30, 30, Anchor::LeftTop)));
    assert_eq!(parse_operation(&token("CLT0")), None);
    assert_eq!(parse_operation(&token("CXX30")), None);
    assert_eq!(parse_operation(&token("ZQ3")), None);
    assert_eq!(parse_operation(&token("ZW-3")), None);
    assert_eq!(parse_operation(&token("ZW99999999999")), None);
    assert_eq!(parse_operation(&token("")), None);
}

#[test]
fn apply_scale_exact_sides() {
    let r = apply_operation(gradient(10, 7), Operation::ScalePercent(3));
    assert_eq!((r.width, r.height), (3, 2));
    let r = apply_operation(gradient(10, 7), Operation::ResizeToWidth(1));
    assert_eq!((r.width, r.height), (1, 1));
}

#[test]
fn text_helpers() {
    assert_eq!(parse_unsigned(&token("+42"), u32::MAX), Some(42));
    assert_eq!(parse_unsigned(&token("256"), 255), None);
    assert_eq!(parse_unsigned(&token("255"), 255), Some(255));
    assert_eq!(parse_unsigned(&token("+"), 255), None);
    assert_eq!(parse_unsigned(&token(""), 255), None);
    assert_eq!(parse_unsigned(&token("4294967296"), u32::MAX), None);
    assert_eq!(trimmed(&token(" \t ab c\n")), token("ab c"));
    let parts = split_at_char(&token("aXbXX"), 'X');
    assert_eq!(parts, vec![token("a"), token("b"), token(""), token("")]);
    assert_eq!(chars_of("héllo"), token("héllo"));
}

#[test]
fn query_last_value_wins_and_decodes() {
    let p = RequestParams::parse("a=1&b=x%20y&a=2&c=p+q").unwrap();
    assert_eq!(p.get("a"), Some("2".to_string()));
    assert_eq!(p.get("b"), Some("x y".to_string()));
    assert_eq!(p.get("c"), Some("p q".to_string()));
    assert_eq!(p.get("d"), None);
    assert!(p.has("b"));
    assert_eq!(p.get_number("a", 255).ok(), Some(Some(2)));
}

#[test]
fn qr_request_defaults() {
    let c = new("text=hello".to_string(), None, None).unwrap();
    assert_eq!(c.text, "hello");
    assert_eq!((c.size, c.margin, c.quality), (400, 1, 1));
    assert!(c.logo.is_none() && c.logo_size.is_none() && c.poster_qr_code_x.is_none());
    let c = new("text=hi&size=250&quality=3&logo_size=80&poster_qr_code_y=9".to_string(), None, None).unwrap();
    assert_eq!((c.size, c.quality, c.logo_size, c.poster_qr_code_y), (250, 3, Some(80), Some(9)));
}

#[test]
fn qr_request_errors() {
    assert!(matches!(new("size=400".to_string(), None, None), Err(MediaError::Error(_))));
    assert!(matches!(new("text=a&size=big".to_string(), None, None), Err(MediaError::ParseIntError(_))));
    assert!(matches!(new("text=a&margin=256".to_string(), None, None), Err(MediaError::ParseIntError(_))));
}

#[test]
fn qr_plain_is_opaque_white_square() {
    let c = new("text=hello&size=400&margin=1".to_string(), None, None).unwrap();
    let r = c.generate().unwrap();
    assert_eq!((r.width, r.height), (400, 400));
    assert!(r.pixels.iter().all(|p| p[3] == 255));
    assert_eq!(r.pixels[0], [255, 255, 255, 255]);
}

#[test]
fn qr_with_logo_is_downscaled() {
    let logo = png_of(&RasterImage { width: 2, height: 2, pixels: vec![[200, 0, 0, 255]; 4] });
    let c = new("text=hello&quality=3".to_string(), Some(logo), None).unwrap();
    let r = c.generate().unwrap();
    assert_eq!((r.width, r.height), (400, 400));
    let center = r.pixels[200 * 400 + 200];
    assert!(center[0] > 150 && center[1] < 60);
}

#[test]
fn logo_card_is_normalised() {
    let c: QrCode = new("text=x".to_string(), None, None).unwrap();
    let card = c.create_logo(gradient(30, 20), None, 2).unwrap();
    assert_eq!((card.width, card.height), (500, 500));
    assert_eq!(card.pixels[0][3], 0);
    assert!(c.create_logo(gradient(30, 20), Some(u32::MAX), 2).is_err());
}

#[test]
fn qr_on_poster() {
    let poster = png_of(&RasterImage { width: 600, height: 500, pixels: vec![[0, 0, 255, 255]; 300000] });
    let c = new("text=hello&size=100&poster_qr_code_x=50&poster_qr_code_y=60".to_string(), None, Some(poster)).unwrap();
    let r = c.generate().unwrap();
    assert_eq!((r.width, r.height), (600, 500));
    assert_eq!(r.pixels[0], [0, 0, 255, 255]);
    assert_eq!(r.pixels[60 * 600 + 50], [255, 255, 255, 255]);
}

#[test]
fn paste_copies_only_opaque_pixels_in_bounds() {
    let mut target = RasterImage::filled(4, 4, [1, 1, 1, 255]);
    let source = RasterImage {
        width: 2,
        height: 2,
        pixels: vec![[9, 9, 9, 255], [8, 8, 8, 128], [7, 7, 7, 255], [6, 6, 6, 255]],
    };
    paste(&mut target, 3, 2, &source);
    assert_eq!((target.width, target.height, target.pixels.len()), (4, 4, 16));
    assert_eq!(target.pixels[2 * 4 + 3], [9, 9, 9, 255]);
    assert_eq!(target.pixels[3 * 4 + 3], [7, 7, 7, 255]);
    let changed = target.pixels.iter().filter(|p| **p != [1, 1, 1, 255]).count();
    assert_eq!(changed, 2);
    let mut t2 = RasterImage::filled(2, 2, [1, 1, 1, 255]);
    paste(&mut t2, 0, 0, &source);
    assert_eq!(t2.pixels[1], [1, 1, 1, 255]);
}

#[test]
fn rounded_shapes() {
    let f = rounded_frame(10, 3);
    assert_eq!(f.pixels[0], CLEAR);
    assert_eq!(f.pixels[5 * 10 + 5], WHITE);
    assert!(is_within_rounded(10, 10, 3, 1, 1));
    assert!(!is_within_rounded(10, 10, 3, 0, 0));
    let mut g = gradient(10, 10);
    round_corners(&mut g, 3);
    assert_eq!(g.pixels[0], CLEAR);
    assert_eq!(g.pixels[9], CLEAR);
    assert_eq!(g.pixels[2], CLEAR);
    assert_eq!(g.pixels[3], gradient(10, 10).pixels[3]);
    assert!(!is_within_rounded(500, 500, 60, 0, 50));
    assert!(is_within_rounded(500, 500, 60, 0, 60));
    assert!(is_within_rounded(500, 500, 60, 60, 0));
    assert_eq!(g.pixels[5 * 10 + 5], gradient(10, 10).pixels[55]);
}

#[test]
fn edit_applies_chain() {
    let png = png_of(&gradient(40, 30));
    let req = EditRequest::parse("args=ZW20ACLT5&type=1").unwrap();
    assert!(req.webp);
    assert_eq!(req.args.as_deref(), Some("ZW20ACLT5"));
    let r = edit(&png, &req).unwrap();
    assert_eq!((r.width, r.height), (5, 5));
    let none = EditRequest::parse("to=out.png").unwrap();
    let same = edit(&png, &none).unwrap();
    assert_eq!(same.pixels, gradient(40, 30).pixels);
}

#[test]
fn bad_bytes_fail_to_decode() {
    assert!(matches!(decode(&[1, 2, 3]), Err(MediaError::QRCodeImageError(_))));
    assert!(matches!(decode_webp(vec![1, 2, 3]), Err(MediaError::Error(_))));
    let r = decode(&png_of(&gradient(3, 2))).unwrap();
    assert_eq!(r.pixels, gradient(3, 2).pixels);
}

#[test]
fn qr_text_over_capacity_fails() {
    let c = new(format!("text={}", "a".repeat(10000)), None, None).unwrap();
    assert!(matches!(c.generate(), Err(MediaError::QRCodeError(_))));
}

#[test]
fn qr_bad_logo_or_poster_fails_to_decode() {
    let c = new("text=hello".to_string(), Some(vec![1, 2, 3]), None).unwrap();
    assert!(matches!(c.qr_code_generate(), Err(MediaError::QRCodeImageError(_))));
    let c = new("text=hello".to_string(), None, Some(vec![0, 1, 2, 3])).unwrap();
    assert!(matches!(c.generate(), Err(MediaError::QRCodeImageError(_))));
}
