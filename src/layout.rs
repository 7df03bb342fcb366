//! The layout engine: display width, padding, line splitting and word
//! wrapping.
pub mod measure;
pub mod text;
pub mod wrap;

pub use measure::{
    adjusted_width, clamped, display_width, framed, is_emoji, pad, pad_from, padded, push_framed,
    width,
};
pub use text::{is_whitespace, split_lines, text_lines, trim, trimmed};
pub use wrap::{wrap_text, wrapped};
