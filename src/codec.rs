use vstd::prelude::*;

use fast_qr::convert::Builder;

use crate::error::MediaError;
use crate::raster::{window, RasterImage, Rgba};

verus! {

/// The resampling filters that the transformations use.
#[derive(Clone, Copy, Debug, PartialEq, Eq, Structural)]
pub enum ResizeFilter {
    Lanczos3,
    CatmullRom,
}

/// What decoding `bytes` as an image yields, as width, height and pixels in RGBA;
/// `None` where the bytes are no image.
pub uninterp spec fn decoded(bytes: Seq<u8>) -> Option<(u32, u32, Seq<Rgba>)>;

/// The pixels of a `w` by `h` image `pixels` resampled to `nw` by `nh` with `filter`.
pub uninterp spec fn resampled(
    w: u32,
    h: u32,
    pixels: Seq<Rgba>,
    nw: u32,
    nh: u32,
    filter: ResizeFilter,
) -> Seq<Rgba>;

/// Whether `text` fits in a QR symbol, as `fast_qr`'s `QRBuilder::build` decides it.
pub uninterp spec fn qr_encodable(text: Seq<char>) -> bool;

/// The PNG rendering of the QR symbol for `text`, `margin` modules of quiet zone, fitted
/// to `width` pixels, on white; `None` where the text does not fit in a symbol.
pub uninterp spec fn qr_png(text: Seq<char>, margin: usize, width: u32) -> Option<Seq<u8>>;

/// Relies on `image::load_from_memory`, which guesses the format from the bytes and decodes
/// them, and on `DynamicImage::to_rgba8`, whose buffer holds four bytes per pixel.
#[verifier::external_body]
pub fn decode(bytes: &[u8]) -> (r: Result<RasterImage, MediaError>)
    ensures
        r is Ok <==> decoded(bytes@) is Some,
        r is Ok ==> r->Ok_0.wf() && decoded(bytes@) == Some(
            (r->Ok_0.width, r->Ok_0.height, r->Ok_0.pixels@),
        ),
        r is Err ==> r->Err_0 is QRCodeImageError,
{
    match image::load_from_memory(bytes) {
        Ok(d) => {
            let rgba = d.to_rgba8();
            let (width, height) = rgba.dimensions();
            let pixels = rgba.into_raw().chunks_exact(4).map(|c| [c[0], c[1], c[2], c[3]]).collect();
            Ok(RasterImage { width, height, pixels })
        },
        Err(e) => Err(MediaError::QRCodeImageError(e)),
    }
}

/// Relies on `image::imageops::resize`: the result is exactly `nw` by `nh`, and where those
/// are the image's own dimensions its pixels are copied unchanged.
#[verifier::external_body]
pub fn resize(img: &RasterImage, nw: u32, nh: u32, filter: ResizeFilter) -> (r: RasterImage)
    requires
        img.wf(),
        img.width >= 1,
        img.height >= 1,
        nw >= 1,
        nh >= 1,
        RasterImage::fits(nw, nh),
    ensures
        r.wf(),
        r.width == nw,
        r.height == nh,
        r.pixels@ == resampled(img.width, img.height, img.pixels@, nw, nh, filter),
        nw == img.width && nh == img.height ==> r.pixels@ == img.pixels@,
{
    let src = image::RgbaImage::from_raw(img.width, img.height, img.pixels.concat()).unwrap();
    let f = match filter {
        ResizeFilter::Lanczos3 => image::imageops::FilterType::Lanczos3,
        ResizeFilter::CatmullRom => image::imageops::FilterType::CatmullRom,
    };
    let out = image::imageops::resize(&src, nw, nh, f);
    let pixels = out.into_raw().chunks_exact(4).map(|c| [c[0], c[1], c[2], c[3]]).collect();
    RasterImage { width: nw, height: nh, pixels }
}

/// Relies on `image::imageops::crop_imm`: within the image's bounds the view is the
/// `w` by `h` window whose top left corner is at column `x`, row `y`.
#[verifier::external_body]
pub fn crop(img: &RasterImage, x: u32, y: u32, w: u32, h: u32) -> (r: RasterImage)
    requires
        img.wf(),
        x as int + w as int <= img.width,
        y as int + h as int <= img.height,
    ensures
        r.wf(),
        r.width == w,
        r.height == h,
        r.pixels@ == window(img.width, img.pixels@, x as int, y as int, w as int, h as int),
{
    let src = image::RgbaImage::from_raw(img.width, img.height, img.pixels.concat()).unwrap();
    let out = image::imageops::crop_imm(&src, x, y, w, h).to_image();
    let pixels = out.into_raw().chunks_exact(4).map(|c| [c[0], c[1], c[2], c[3]]).collect();
    RasterImage { width: w, height: h, pixels }
}

/// Relies on `fast_qr`'s `QRBuilder::build`, which fails (with `QRCodeError`) only where the
/// text exceeds a symbol's capacity, and on `ImageBuilder::to_bytes`, which renders the
/// symbol as PNG. A zero width would make its pixmap empty, which it does not accept.
#[verifier::external_body]
pub fn render_qr(text: &str, margin: usize, width: u32) -> (r: Result<Vec<u8>, MediaError>)
    requires
        100 <= width <= 6000,
        margin <= 255,
    ensures
        r is Ok <==> qr_png(text@, margin, width) is Some,
        r is Ok ==> qr_png(text@, margin, width) == Some(r->Ok_0@),
        !qr_encodable(text@) ==> r is Err && r->Err_0 is QRCodeError,
        qr_encodable(text@) && r is Err ==> r->Err_0 is QRCodeRenderError,
{
    let code = fast_qr::QRBuilder::new(text).build().map_err(MediaError::QRCodeError)?;
    fast_qr::convert::image::ImageBuilder::default()
        .background_color([255, 255, 255, 255])
        .margin(margin)
        .fit_width(width)
        .to_bytes(&code)
        .map_err(MediaError::QRCodeRenderError)
}

} // verus!
