//! Classification and staging core of a two-color 3D-printing batch pipeline.
//!
//! Input model files are classified by a filename convention: a leading
//! `[a]` tag marks the accent color group, and an optional `_x<N>` suffix
//! before the `.stl` extension carries a quantity multiplier. Classified
//! entries are recorded in per-group manifests, which drive the packing,
//! thumbnail and slicing stages run by external tools.
use vstd::prelude::*;

pub mod classify;
pub mod config;
pub mod manifest;
pub mod pack;
pub mod paths;
pub mod pipeline;
pub mod slice;
pub mod text;
pub mod thumb;

verus! {

/// The two filament color groups a part can belong to.
#[derive(Clone, Copy, Debug, PartialEq, Eq, Structural)]
pub enum ColorGroup {
    Main,
    Accent,
}

/// One external-tool invocation the pipeline has decided on: the program
/// to run and its argument list, in order.
pub struct ToolInvocation {
    pub program: String,
    pub args: Vec<String>,
}

impl ToolInvocation {
    /// The argument list as a sequence of character sequences.
    pub open spec fn args_view(self) -> Seq<Seq<char>> {
        self.args@.map_values(|a: String| a@)
    }
}

} // verus!
