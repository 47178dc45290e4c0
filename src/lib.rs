pub mod codec;
pub mod compose;
pub mod error;
pub mod image_webp;
pub mod params;
pub mod qr_code;
pub mod raster;
pub mod style;
pub mod text;
