//! Pixel types of the colour models HSV, HSL, Luma, CMY and CMYK, and the
//! part of their conversion to and from RGB that is exact.
//!
//! An RGB pixel is an `rgb::RGB`. Every model has a pixel type that is generic
//! in the type of its channels. What is decided or computed on integers is
//! found here with a proof: how the three RGB channels are filled from the
//! sextant that a hue lies in, and the conversion between 8-bit Luma and RGB,
//! whose roundings are those of double-precision arithmetic.

pub mod cmy;
pub mod cmyk;
pub mod hsl;
pub mod hsv;
pub mod hue;
pub mod luma;
pub mod rounding;
pub mod trusted;

pub use cmy::CMY;
pub use cmyk::CMYK;
pub use hsl::HSL;
pub use hsv::HSV;
pub use luma::Luma;
