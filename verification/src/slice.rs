//! The slice stage: choosing the profile triple for each packed plate
//! and building the external slicing tool's invocation.
//!
//! A plate whose base name starts with `plater_accent` was produced from
//! the accent manifest and is sliced with the accent profile triple;
//! every other plate takes the standard triple.
use vstd::prelude::*;
use crate::ColorGroup;
use crate::ToolInvocation;
use crate::config::SuperslicerConfig;
use crate::text::base_name;
use crate::text::base_name_of;
use crate::text::is_prefix_of;
use crate::text::str_starts_with;

verus! {

/// A plate file name marks an accent plate when it starts with
/// `plater_accent`.
pub open spec fn is_accent_plate(name: Seq<char>) -> bool {
    is_prefix_of("plater_accent"@, name)
}

/// The group a packed plate belongs to, read off its base name.
pub open spec fn plate_group_of(path: Seq<char>) -> ColorGroup {
    if is_accent_plate(base_name(path)) {
        ColorGroup::Accent
    } else {
        ColorGroup::Main
    }
}

/// Classifies a packed plate by its base name.
pub fn plate_group(path: &str) -> (g: ColorGroup)
    ensures
        g == plate_group_of(path@),
{
    let name = base_name_of(path);
    if str_starts_with(name, "plater_accent") {
        ColorGroup::Accent
    } else {
        ColorGroup::Main
    }
}

/// The exact argument list of one slicing invocation: the three `--load`
/// profiles of the plate's group, then the plate as geometry argument.
pub open spec fn slice_args_view(cfg: SuperslicerConfig, plate: Seq<char>) -> Seq<Seq<char>> {
    if is_accent_plate(base_name(plate)) {
        seq![
            "--load"@,
            cfg.accent_config_printer@,
            "--load"@,
            cfg.accent_config_filament@,
            "--load"@,
            cfg.accent_config_print@,
            "-g"@,
            plate,
        ]
    } else {
        seq![
            "--load"@,
            cfg.config_printer@,
            "--load"@,
            cfg.config_filament@,
            "--load"@,
            cfg.config_print@,
            "-g"@,
            plate,
        ]
    }
}

/// Builds the slicing invocation for one packed plate, selecting the
/// profile triple by the plate's group.
pub fn slice_invocation(cfg: &SuperslicerConfig, plate_path: &str) -> (r: ToolInvocation)
    ensures
        r.program@ == cfg.path@,
        r.args_view() == slice_args_view(*cfg, plate_path@),
{
    let mut args: Vec<String> = Vec::new();
    let accent = match plate_group(plate_path) {
        ColorGroup::Accent => true,
        ColorGroup::Main => false,
    };
    args.push("--load".to_owned());
    if accent {
        args.push(cfg.accent_config_printer.as_str().to_owned());
    } else {
        args.push(cfg.config_printer.as_str().to_owned());
    }
    args.push("--load".to_owned());
    if accent {
        args.push(cfg.accent_config_filament.as_str().to_owned());
    } else {
        args.push(cfg.config_filament.as_str().to_owned());
    }
    args.push("--load".to_owned());
    if accent {
        args.push(cfg.accent_config_print.as_str().to_owned());
    } else {
        args.push(cfg.config_print.as_str().to_owned());
    }
    args.push("-g".to_owned());
    args.push(plate_path.to_owned());
    proof {
        assert(args@.map_values(|a: String| a@) =~= slice_args_view(*cfg, plate_path@));
    }
    ToolInvocation { program: cfg.path.as_str().to_owned(), args }
}

/// Plans the whole slice stage: one invocation per packed plate, in
/// order, each with the profile triple of its group.
pub fn slice_plan(cfg: &SuperslicerConfig, plates: &Vec<String>) -> (r: Vec<ToolInvocation>)
    ensures
        r@.len() == plates@.len(),
        forall|k: int|
            0 <= k < plates@.len() ==> (#[trigger] r@[k]).program@ == cfg.path@ && r@[
                k
            ].args_view() == slice_args_view(*cfg, plates@[k]@),
{
    let mut r: Vec<ToolInvocation> = Vec::new();
    let mut i: usize = 0;
    while i < plates.len()
        invariant
            0 <= i <= plates@.len(),
            r@.len() == i,
            forall|k: int|
                0 <= k < i ==> (#[trigger] r@[k]).program@ == cfg.path@ && r@[k].args_view()
                    == slice_args_view(*cfg, plates@[k]@),
        decreases plates@.len() - i,
    {
        r.push(slice_invocation(cfg, plates[i].as_str()));
        i += 1;
    }
    r
}

} // verus!
