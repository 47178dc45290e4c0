use vstd::prelude::*;

verus! {

#[verifier::external_type_specification]
#[verifier::external_body]
pub struct ExImageError(image::ImageError);

#[verifier::external_type_specification]
#[verifier::external_body]
pub struct ExUrlParseError(url::ParseError);

#[verifier::external_type_specification]
#[verifier::external_body]
pub struct ExQRCodeError(fast_qr::qr::QRCodeError);

#[verifier::external_type_specification]
#[verifier::external_body]
pub struct ExQrImageError(fast_qr::convert::image::ImageError);

/// Why a request could not be served.
#[derive(Debug)]
pub enum MediaError {
    /// A required field is missing, or a size is out of what can be built.
    Error(String),
    /// The request text is not a well-formed query string.
    ParseError(url::ParseError),
    /// A numeric field holds something other than a number of its type; the field's name.
    ParseIntError(String),
    /// The text does not fit in a QR symbol.
    QRCodeError(fast_qr::qr::QRCodeError),
    /// The QR symbol could not be rendered.
    QRCodeRenderError(fast_qr::convert::image::ImageError),
    /// Image bytes could not be decoded.
    QRCodeImageError(image::ImageError),
}

} // verus!
