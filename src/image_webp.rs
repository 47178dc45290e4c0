use vstd::prelude::*;

use crate::error::MediaError;
use crate::raster::{RasterImage, Rgba};

verus! {

/// What decoding `bytes` as a still WebP image yields, as width, height and pixels in RGBA;
/// `None` where the bytes are no such image.
pub uninterp spec fn webp_decoded(bytes: Seq<u8>) -> Option<(u32, u32, Seq<Rgba>)>;

/// Relies on `webp::Decoder::decode`, which yields `None` for anything but a still WebP
/// image, and on `WebPImage::to_image`, converted to four bytes per pixel.
#[verifier::external_body]
fn webp_decode(bytes: &[u8]) -> (r: Option<RasterImage>)
    ensures
        r is Some <==> webp_decoded(bytes@) is Some,
        r is Some ==> r->0.wf() && webp_decoded(bytes@) == Some(
            (r->0.width, r->0.height, r->0.pixels@),
        ),
{
    webp::Decoder::new(bytes).decode().map(|w| {
        let rgba = w.to_image().to_rgba8();
        let (width, height) = rgba.dimensions();
        let pixels = rgba.into_raw().chunks_exact(4).map(|c| [c[0], c[1], c[2], c[3]]).collect();
        RasterImage { width, height, pixels }
    })
}

/// Decodes the WebP image `image`.
pub fn decode_webp(image: Vec<u8>) -> (r: Result<RasterImage, MediaError>)
    ensures
        r is Ok <==> webp_decoded(image@) is Some,
        r is Ok ==> r->Ok_0.wf() && r->Ok_0@ == webp_decoded(image@)->0,
        r is Err ==> r->Err_0 is Error,
{
    match webp_decode(image.as_slice()) {
        Some(img) => Ok(img),
        None => Err(MediaError::Error("decoder fail".to_owned())),
    }
}

} // verus!
