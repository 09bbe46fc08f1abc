mod hex;
mod span;
mod style;

pub use hex::{hex_to_rgb, Error};
pub use span::Span;
pub use style::{Style, Weight, RGB};
