//! Helper functions: regular expressions, HTML/XML text, encodings,
//! file names and cover images.

pub mod cover;
pub mod encoding;
pub mod file;
pub mod html;
pub mod regex;
pub mod sorting;
