//! Text to EPUB conversion: chapter detection, paragraph building,
//! configuration handling and the pure parts of EPUB assembly.

pub mod batch;
pub mod cli;
pub mod config;
pub mod config_backup;
pub mod converter;
pub mod error;
pub mod model;
pub mod output;
pub mod parser;
pub mod style;
pub mod text;
pub mod utils;

pub use error::{KafError, Result};

use vstd::prelude::*;

verus! {

/// The example configuration: the basic preset.
pub fn generate_example_config() -> (r: String)
    ensures
        r@ == config::presets::BASIC_CONFIG@,
{
    config::presets::generate_basic_config()
}

} // verus!
