//! The pure parts of EPUB assembly.

pub mod css_resources;
pub mod content_images;
pub mod css_variables;
pub mod entities;
pub mod headers;
pub mod epub3;
pub mod numerals;

pub use epub3::{get_converter, EpubConverter3};
