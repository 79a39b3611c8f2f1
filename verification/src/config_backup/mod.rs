//! An earlier generation of the configuration code, kept for its callers.

pub mod loader;
pub mod presets;
