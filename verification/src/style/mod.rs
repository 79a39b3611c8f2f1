//! Style sheets and themes.

pub mod css_generator;
pub mod theme;

pub use css_generator::{ColorScheme, CssGenerator, Spacing};
pub use theme::{Theme, Typography};
