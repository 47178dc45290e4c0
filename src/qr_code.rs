use vstd::prelude::*;

use crate::codec::{decode, decoded, qr_encodable, qr_png, render_qr, resampled, resize, ResizeFilter};
use crate::compose::{frame_model, paste, paste_model, round_corners, rounded_frame, rounded_model};
use crate::error::MediaError;
use crate::params::{form_pairs, lookup, RequestParams, MAX_QUERY_LEN};
use crate::text::unsigned_value;
use crate::raster::{lemma_fits_small, lemma_fits_within, Model, RasterImage};

verus! {

/// The side, in pixels, to which a logo is normalised before it is framed.
pub const LOGO_SIDE: u32 = 500;

/// The corner radius, in pixels, of the logo at its normalised side.
pub const LOGO_RADIUS: u32 = 60;

/// The frame's border around the logo where the request gives none.
pub const DEFAULT_LOGO_BORDER: u32 = 30;

/// The quality clamped to one to five.
pub open spec fn clamped_quality(q: u8) -> u8 {
    if q > 5 {
        5
    } else if q < 1 {
        1
    } else {
        q
    }
}

/// The size clamped to one hundred to twelve hundred pixels.
pub open spec fn clamped_size(s: u32) -> u32 {
    if s > 1200 {
        1200
    } else if s < 100 {
        100
    } else {
        s
    }
}

/// The supersampling factor: the quality clamped to one to five.
pub fn clamp_quality(q: u8) -> (r: u8)
    ensures
        r == clamped_quality(q),
        1 <= r <= 5,
{
    if q > 5 {
        5
    } else if q < 1 {
        1
    } else {
        q
    }
}

/// The side of the finished QR raster: the size clamped to one hundred to twelve hundred.
pub fn clamp_size(s: u32) -> (r: u32)
    ensures
        r == clamped_size(s),
        100 <= r <= 1200,
{
    if s > 1200 {
        1200
    } else if s < 100 {
        100
    } else {
        s
    }
}

/// The side of the framed logo before supersampling, for a border `border`.
pub open spec fn card_side(border: u32) -> int {
    LOGO_SIDE + 2 * border
}

/// Whether the supersampled frame for `border` and quality `q` can be built.
pub open spec fn card_fits(border: u32, q: u8) -> bool {
    card_side(border) * q <= u32::MAX && RasterImage::fits(
        (card_side(border) * q) as u32,
        (card_side(border) * q) as u32,
    )
}

/// The framed logo made from the image `m`: `m` normalised to the logo side with its
/// corners rounded, pasted at (`border`, `border`) onto a white rounded frame drawn at `q`
/// times the size and scaled back, the whole scaled to the logo side.
pub open spec fn logo_card(m: Model, border: u32, q: u8) -> Model {
    let norm = (LOGO_SIDE, LOGO_SIDE, resampled(m.0, m.1, m.2, LOGO_SIDE, LOGO_SIDE, ResizeFilter::Lanczos3));
    let side = card_side(border) as u32;
    let big = (card_side(border) * q) as u32;
    let drawn = frame_model(big, (LOGO_RADIUS * q) as u32);
    let frame = if q == 1 {
        drawn
    } else {
        (side, side, resampled(big, big, drawn.2, side, side, ResizeFilter::Lanczos3))
    };
    let card = paste_model(frame, border as int, border as int, rounded_model(norm, LOGO_RADIUS));
    (LOGO_SIDE, LOGO_SIDE, resampled(card.0, card.1, card.2, LOGO_SIDE, LOGO_SIDE, ResizeFilter::Lanczos3))
}

/// The side of the logo in a QR raster of side `qsize`: the requested one, else the raster's
/// side divided by 3.1; at least one pixel.
pub open spec fn logo_side(requested: Option<u32>, qsize: u32) -> u32 {
    let s = match requested {
        Some(v) => v as int,
        None => qsize * 10 / 31,
    };
    if s >= 1 {
        s as u32
    } else {
        1
    }
}

/// The QR raster `base` of side `qsize` with the framed logo `card` scaled to `side` and
/// centred on it.
pub open spec fn with_logo(base: Model, card: Model, side: u32, qsize: u32) -> Model {
    let at = if side <= qsize {
        (qsize - side) / 2
    } else {
        0
    };
    paste_model(base, at as int, at as int, (side, side, resampled(card.0, card.1, card.2, side, side, ResizeFilter::Lanczos3)))
}

/// Whether field `key` of `p` is absent or holds a number no greater than `max`.
pub open spec fn number_ok(p: Seq<(Seq<char>, Seq<char>)>, key: Seq<char>, max: nat) -> bool {
    lookup(p, key) is None || unsigned_value(lookup(p, key)->0, max) is Some
}

/// The number in field `key` of `p`, if present.
pub open spec fn number_of(p: Seq<(Seq<char>, Seq<char>)>, key: Seq<char>, max: nat) -> Option<nat> {
    match lookup(p, key) {
        None => None,
        Some(v) => unsigned_value(v, max),
    }
}

/// The number in field `key` of `p`, else `default`.
pub open spec fn number_or(p: Seq<(Seq<char>, Seq<char>)>, key: Seq<char>, max: nat, default: nat) -> nat {
    match number_of(p, key, max) {
        None => default,
        Some(v) => v,
    }
}

/// Whether every numeric field of the QR request `p` is absent or a number of its type.
pub open spec fn qr_numbers_ok(p: Seq<(Seq<char>, Seq<char>)>) -> bool {
    &&& number_ok(p, "size"@, u32::MAX as nat)
    &&& number_ok(p, "margin"@, u8::MAX as nat)
    &&& number_ok(p, "quality"@, u8::MAX as nat)
    &&& number_ok(p, "logo_size"@, u32::MAX as nat)
    &&& number_ok(p, "logo_margin"@, u32::MAX as nat)
    &&& number_ok(p, "poster_qr_code_x"@, u32::MAX as nat)
    &&& number_ok(p, "poster_qr_code_y"@, u32::MAX as nat)
}

/// The number in `o`, if any, as a natural number.
pub open spec fn widened(o: Option<u32>) -> Option<nat> {
    match o {
        Some(v) => Some(v as nat),
        None => None,
    }
}

/// Whether `c` holds the QR request `p` with the images `logo` and `poster`.
pub open spec fn reads_request(
    c: QrCode,
    p: Seq<(Seq<char>, Seq<char>)>,
    logo: Option<Vec<u8>>,
    poster: Option<Vec<u8>>,
) -> bool {
    &&& lookup(p, "text"@) == Some(c.text@)
    &&& c.size as nat == number_or(p, "size"@, u32::MAX as nat, 400)
    &&& c.margin as nat == number_or(p, "margin"@, u8::MAX as nat, 1)
    &&& c.quality as nat == number_or(p, "quality"@, u8::MAX as nat, 1)
    &&& c.logo == logo
    &&& c.poster == poster
    &&& (c.logo_path is Some <==> lookup(p, "logo_path"@) is Some)
    &&& (c.logo_path is Some ==> lookup(p, "logo_path"@) == Some(c.logo_path->0@))
    &&& (c.poster_path is Some <==> lookup(p, "poster_path"@) is Some)
    &&& (c.poster_path is Some ==> lookup(p, "poster_path"@) == Some(c.poster_path->0@))
    &&& widened(c.logo_size) == number_of(p, "logo_size"@, u32::MAX as nat)
    &&& widened(c.logo_margin) == number_of(p, "logo_margin"@, u32::MAX as nat)
    &&& widened(c.poster_qr_code_x) == number_of(p, "poster_qr_code_x"@, u32::MAX as nat)
    &&& widened(c.poster_qr_code_y) == number_of(p, "poster_qr_code_y"@, u32::MAX as nat)
}

/// Reads a QR request from the request text `query_params`; `logo` and `poster` are the
/// images' bytes, where the caller has them.
pub fn new(query_params: String, logo: Option<Vec<u8>>, poster: Option<Vec<u8>>) -> (r: Result<QrCode, MediaError>)
    ensures
        query_params@.len() <= MAX_QUERY_LEN ==> (r is Ok <==> lookup(form_pairs(query_params@), "text"@) is Some
            && qr_numbers_ok(form_pairs(query_params@))),
        r is Ok ==> lookup(form_pairs(query_params@), "text"@) is Some
            && qr_numbers_ok(form_pairs(query_params@))
            && reads_request(r->Ok_0, form_pairs(query_params@), logo, poster),
        r is Err ==> r->Err_0 is ParseError || (r->Err_0 is Error && lookup(form_pairs(query_params@), "text"@) is None)
            || (r->Err_0 is ParseIntError && !qr_numbers_ok(form_pairs(query_params@))),
{
    let params = RequestParams::parse(query_params.as_str())?;
    QrCode::from_params(&params, logo, poster)
}

/// A request for a QR symbol, as read from the request text.
pub struct QrCode {
    /// The text that the symbol encodes.
    pub text: String,
    /// The side, in pixels, of the finished raster.
    pub size: u32,
    /// The quiet zone, in modules.
    pub margin: u8,
    /// The supersampling factor used where a logo is embedded.
    pub quality: u8,
    /// The logo image's bytes.
    pub logo: Option<Vec<u8>>,
    /// Where the logo is stored.
    pub logo_path: Option<String>,
    /// The side of the logo in the working raster.
    pub logo_size: Option<u32>,
    /// The frame's border around the logo.
    pub logo_margin: Option<u32>,
    /// The poster image's bytes.
    pub poster: Option<Vec<u8>>,
    /// Where the poster is stored.
    pub poster_path: Option<String>,
    /// The column of the poster at which the symbol is placed.
    pub poster_qr_code_x: Option<u32>,
    /// The row of the poster at which the symbol is placed.
    pub poster_qr_code_y: Option<u32>,
}

impl QrCode {
    /// The side of the working raster: the clamped size, times the quality where a logo
    /// is embedded.
    pub open spec fn working_size(&self) -> u32 {
        if self.logo is Some {
            (clamped_size(self.size) * clamped_quality(self.quality)) as u32
        } else {
            clamped_size(self.size)
        }
    }

    /// The border of the logo's frame.
    pub open spec fn border(&self) -> u32 {
        match self.logo_margin {
            Some(b) => b,
            None => DEFAULT_LOGO_BORDER,
        }
    }

    /// The working raster with the logo, if any, in place; `None` where an outside step fails
    /// or an image is empty.
    pub open spec fn placed_model(&self) -> Option<Model> {
        let qsize = self.working_size();
        match qr_png(self.text@, self.margin as usize, qsize) {
            None => None,
            Some(png) => match decoded(png) {
                None => None,
                Some(base) => match self.logo {
                    None => Some(base),
                    Some(bytes) => match decoded(bytes@) {
                        None => None,
                        Some(lm) => if lm.0 == 0 || lm.1 == 0 || !card_fits(self.border(), clamped_quality(self.quality))
                            || !RasterImage::fits(logo_side(self.logo_size, qsize), logo_side(self.logo_size, qsize)) {
                            None
                        } else {
                            Some(with_logo(base, logo_card(lm, self.border(), clamped_quality(self.quality)), logo_side(self.logo_size, qsize), qsize))
                        },
                    },
                },
            },
        }
    }

    /// Whether `e` is the error that building the QR raster reports: a text too long for a
    /// symbol is a `QRCodeError`, a failed rendering a `QRCodeRenderError`, bytes of the
    /// rendering or of the logo that do not decode a `QRCodeImageError`, and an empty image or
    /// a frame or logo too large to build an `Error`.
    pub open spec fn qr_failure(&self, e: MediaError) -> bool {
        match qr_png(self.text@, self.margin as usize, self.working_size()) {
            None => if qr_encodable(self.text@) {
                e is QRCodeRenderError
            } else {
                e is QRCodeError
            },
            Some(png) => match decoded(png) {
                None => e is QRCodeImageError,
                Some(_) => match self.logo {
                    None => e is Error,
                    Some(bytes) => match decoded(bytes@) {
                        None => e is QRCodeImageError,
                        Some(_) => e is Error,
                    },
                },
            },
        }
    }

    /// The finished QR raster, scaled to the clamped size.
    pub open spec fn qr_model(&self) -> Option<Model> {
        match self.placed_model() {
            None => None,
            Some(p) => if p.0 == 0 || p.1 == 0 {
                None
            } else {
                let s = clamped_size(self.size);
                Some((s, s, resampled(p.0, p.1, p.2, s, s, ResizeFilter::Lanczos3)))
            },
        }
    }

    /// Reads a QR request from the fields `params`; `logo` and `poster` are the images'
    /// bytes, where the caller has them. Fails where the text is missing, or where a numeric
    /// field holds something other than a number of its type.
    pub fn from_params(params: &RequestParams, logo: Option<Vec<u8>>, poster: Option<Vec<u8>>) -> (r: Result<QrCode, MediaError>)
        ensures
            r is Ok <==> lookup(params@, "text"@) is Some && qr_numbers_ok(params@),
            r is Ok ==> reads_request(r->Ok_0, params@, logo, poster),
            lookup(params@, "text"@) is None ==> r is Err && r->Err_0 is Error,
            lookup(params@, "text"@) is Some && !qr_numbers_ok(params@) ==> r is Err && r->Err_0 is ParseIntError,
    {
        let text = match params.get("text") {
            Some(t) => t,
            None => return Err(MediaError::Error("text not found".to_owned())),
        };
        let size = params.get_number("size", u32::MAX)?;
        let margin = params.get_number("margin", u8::MAX as u32)?;
        let quality = params.get_number("quality", u8::MAX as u32)?;
        let logo_size = params.get_number("logo_size", u32::MAX)?;
        let logo_margin = params.get_number("logo_margin", u32::MAX)?;
        let poster_qr_code_x = params.get_number("poster_qr_code_x", u32::MAX)?;
        let poster_qr_code_y = params.get_number("poster_qr_code_y", u32::MAX)?;
        Ok(QrCode {
            text,
            size: match size {
                Some(v) => v,
                None => 400,
            },
            margin: match margin {
                Some(v) => v as u8,
                None => 1,
            },
            quality: match quality {
                Some(v) => v as u8,
                None => 1,
            },
            logo,
            logo_path: params.get("logo_path"),
            logo_size,
            logo_margin,
            poster,
            poster_path: params.get("poster_path"),
            poster_qr_code_x,
            poster_qr_code_y,
        })
    }

    /// The framed logo made from `logo`, with a border of `logo_margin` (else thirty) and the
    /// frame drawn at `image_quality` times the size.
    pub fn create_logo(&self, logo: RasterImage, logo_margin: Option<u32>, image_quality: u8) -> (r: Result<RasterImage, MediaError>)
        requires
            logo.wf(),
            1 <= image_quality <= 5,
        ensures
            ({
                let border = match logo_margin {
                    Some(b) => b,
                    None => DEFAULT_LOGO_BORDER,
                };
                &&& r is Ok <==> logo.width >= 1 && logo.height >= 1 && card_fits(border, image_quality)
                &&& r is Ok ==> r->Ok_0.wf() && r->Ok_0@ == logo_card(logo@, border, image_quality)
                &&& r is Err ==> r->Err_0 is Error
            }),
    {
        let border = match logo_margin {
            Some(b) => b,
            None => DEFAULT_LOGO_BORDER,
        };
        if logo.width == 0 || logo.height == 0 {
            return Err(MediaError::Error("logo image is empty".to_owned()));
        }
        let side_wide: u64 = LOGO_SIDE as u64 + 2 * border as u64;
        assert(side_wide * image_quality <= 0x3_0000_0000 * 5) by (nonlinear_arith)
            requires side_wide <= 0x3_0000_0000, image_quality <= 5;
        let big_wide: u64 = side_wide * image_quality as u64;
        assert(side_wide <= big_wide) by (nonlinear_arith)
            requires big_wide == side_wide * image_quality, image_quality >= 1;
        if big_wide > u32::MAX as u64 {
            return Err(MediaError::Error("logo margin is too large".to_owned()));
        }
        let side = side_wide as u32;
        let big = big_wide as u32;
        assert(big as int * big as int <= 0xffff_ffff * 0xffff_ffff) by (nonlinear_arith)
            requires big <= 0xffff_ffff;
        if big as u128 * big as u128 > usize::MAX as u128 {
            return Err(MediaError::Error("logo margin is too large".to_owned()));
        }
        proof {
            lemma_fits_small(LOGO_SIDE, LOGO_SIDE);
            lemma_fits_within(big, big, side, side);
        }
        let mut norm = resize(&logo, LOGO_SIDE, LOGO_SIDE, ResizeFilter::Lanczos3);
        let drawn = rounded_frame(big, LOGO_RADIUS * image_quality as u32);
        let mut frame = if image_quality == 1 {
            drawn
        } else {
            resize(&drawn, side, side, ResizeFilter::Lanczos3)
        };
        round_corners(&mut norm, LOGO_RADIUS);
        paste(&mut frame, border, border, &norm);
        Ok(resize(&frame, LOGO_SIDE, LOGO_SIDE, ResizeFilter::Lanczos3))
    }

    /// The QR raster: the symbol rendered at the working size, the framed logo (if any)
    /// centred on it, the whole scaled to the clamped size.
    pub fn qr_code_generate(&self) -> (r: Result<RasterImage, MediaError>)
        ensures
            r is Ok <==> self.qr_model() is Some,
            r is Ok ==> r->Ok_0.wf() && r->Ok_0@ == self.qr_model()->0,
            r is Err ==> self.qr_failure(r->Err_0),
    {
        let image_quality = clamp_quality(self.quality);
        let image_size = clamp_size(self.size);
        assert(image_size <= image_size * image_quality <= 6000) by (nonlinear_arith)
            requires image_size <= 1200, 1 <= image_quality <= 5;
        let qr_image_size: u32 = if self.logo.is_some() {
            image_size * image_quality as u32
        } else {
            image_size
        };
        let png = render_qr(self.text.as_str(), self.margin as usize, qr_image_size)?;
        let mut qr_image = decode(png.as_slice())?;
        match &self.logo {
            None => {},
            Some(bytes) => {
                let logo = decode(bytes.as_slice())?;
                let card = self.create_logo(logo, self.logo_margin, image_quality)?;
                let requested: u32 = match self.logo_size {
                    Some(v) => v,
                    None => qr_image_size * 10 / 31,
                };
                let side: u32 = if requested >= 1 {
                    requested
                } else {
                    1
                };
                assert(side as int * side as int <= 0xffff_ffff * 0xffff_ffff) by (nonlinear_arith)
                    requires side <= 0xffff_ffff;
                if side as u128 * side as u128 > usize::MAX as u128 {
                    return Err(MediaError::Error("logo size is too large".to_owned()));
                }
                let card = resize(&card, side, side, ResizeFilter::Lanczos3);
                let at: u32 = if side <= qr_image_size {
                    (qr_image_size - side) / 2
                } else {
                    0
                };
                paste(&mut qr_image, at, at, &card);
            },
        }
        if qr_image.width == 0 || qr_image.height == 0 {
            return Err(MediaError::Error("the QR rendering is empty".to_owned()));
        }
        proof {
            lemma_fits_small(image_size, image_size);
        }
        Ok(resize(&qr_image, image_size, image_size, ResizeFilter::Lanczos3))
    }

    /// The finished image: the QR raster, pasted onto the poster at
    /// (`poster_qr_code_x`, `poster_qr_code_y`) (zero where absent) where a poster is given.
    pub fn generate(&self) -> (r: Result<RasterImage, MediaError>)
        ensures
            r is Ok <==> self.qr_model() is Some && match self.poster {
                None => true,
                Some(bytes) => decoded(bytes@) is Some,
            },
            r is Ok ==> r->Ok_0.wf() && r->Ok_0@ == match self.poster {
                None => self.qr_model()->0,
                Some(bytes) => paste_model(
                    decoded(bytes@)->0,
                    self.poster_x() as int,
                    self.poster_y() as int,
                    self.qr_model()->0,
                ),
            },
            r is Err && self.qr_model() is None ==> self.qr_failure(r->Err_0),
            r is Err && self.qr_model() is Some ==> r->Err_0 is QRCodeImageError,
    {
        let qr_code = self.qr_code_generate()?;
        match &self.poster {
            None => Ok(qr_code),
            Some(bytes) => {
                let mut poster = decode(bytes.as_slice())?;
                let x: u32 = match self.poster_qr_code_x {
                    Some(v) => v,
                    None => 0,
                };
                let y: u32 = match self.poster_qr_code_y {
                    Some(v) => v,
                    None => 0,
                };
                paste(&mut poster, x, y, &qr_code);
                Ok(poster)
            },
        }
    }

    /// The column of the poster at which the symbol is placed.
    pub open spec fn poster_x(&self) -> u32 {
        match self.poster_qr_code_x {
            Some(v) => v,
            None => 0,
        }
    }

    /// The row of the poster at which the symbol is placed.
    pub open spec fn poster_y(&self) -> u32 {
        match self.poster_qr_code_y {
            Some(v) => v,
            None => 0,
        }
    }
}

} // verus!
