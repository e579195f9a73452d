//! Pixel-level image comparison: a perceptual colour distance, an
//! anti-aliasing classifier, and a matcher that counts the pixels that
//! really differ and renders a diff image.

pub mod antialias;
pub mod color;
pub mod errors;
pub mod image;
pub mod matcher;

pub use crate::antialias::{has_many_siblings, is_antialiased};
pub use crate::color::{color_delta, gray_pixel};
pub use crate::errors::Error;
pub use crate::image::{Image, Pixel};
pub use crate::matcher::match_pixel;
