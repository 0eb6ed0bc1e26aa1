//! The configuration the pipeline consumes, produced by an external
//! loader and read-only here: tool locations, bed geometry, and the two
//! slicing profile triples.
use vstd::prelude::*;

verus! {

/// Settings for the external nesting tool: its location and the bed
/// geometry it packs onto.
pub struct PlaterConfig {
    pub path: String,
    pub size_x: u32,
    pub size_y: u32,
    pub size_spacing: u32,
}

/// Settings for the external slicing tool: its location and the two
/// profile triples (printer, filament, print), one for the standard run
/// and one for the accent run.
pub struct SuperslicerConfig {
    pub path: String,
    pub config_printer: String,
    pub config_filament: String,
    pub config_print: String,
    pub accent_config_printer: String,
    pub accent_config_filament: String,
    pub accent_config_print: String,
}

/// The whole read-only configuration of a run.
pub struct Config {
    pub plater: PlaterConfig,
    pub superslicer: SuperslicerConfig,
}

} // verus!
