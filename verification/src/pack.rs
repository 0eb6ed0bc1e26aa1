//! The pack stage: building the external nesting tool's invocations.
//!
//! The main group is packed unconditionally; the accent group is packed
//! only when at least one accent entry was recorded. Each invocation
//! passes the bed geometry, a worker-thread count, a group-tagged output
//! pattern, and the group's manifest file.
use vstd::prelude::*;
use crate::ColorGroup;
use crate::ToolInvocation;
use crate::config::PlaterConfig;
use crate::text::dec_digits;
use crate::text::u64_to_string;

verus! {

/// Relies on num_cpus::get: the number of logical CPUs of the running
/// system, which is always at least 1.
#[verifier::external_body]
fn detected_cpus() -> (n: usize)
    ensures
        1 <= n,
{
    num_cpus::get()
}

/// The worker-thread count handed to the nesting tool for a machine with
/// `cpus` logical CPUs: half of them, but at least one.
pub open spec fn worker_threads_for(cpus: usize) -> int {
    if cpus / 2 >= 1 {
        cpus as int / 2
    } else {
        1
    }
}

/// Clamps half the logical CPU count to at least one worker thread.
pub fn plan_worker_threads(cpus: usize) -> (t: usize)
    ensures
        t == worker_threads_for(cpus),
{
    let half = cpus / 2;
    if half == 0 {
        1
    } else {
        half
    }
}

/// The worker-thread count for the machine this process runs on.
/// Whatever CPU count is detected, the result is at least 1.
pub fn worker_threads() -> (t: usize)
    ensures
        1 <= t,
{
    plan_worker_threads(detected_cpus())
}

/// The output filename pattern that tags packed plates with their group.
pub open spec fn group_output_pattern(group: ColorGroup) -> Seq<char> {
    match group {
        ColorGroup::Main => "plater_main_%d"@,
        ColorGroup::Accent => "plater_accent_%d"@,
    }
}

/// The exact argument list of one nesting-tool invocation: bed width and
/// height, spacing, thread count, group-tagged output pattern, and the
/// group's manifest file.
pub open spec fn pack_args_view(
    cfg: PlaterConfig,
    group: ColorGroup,
    threads: usize,
    conf: Seq<char>,
) -> Seq<Seq<char>> {
    seq![
        "-W"@,
        dec_digits(cfg.size_x as nat),
        "-H"@,
        dec_digits(cfg.size_y as nat),
        "-s"@,
        dec_digits(cfg.size_spacing as nat),
        "-t"@,
        dec_digits(threads as nat),
        "-o"@,
        group_output_pattern(group),
        conf,
    ]
}

/// Builds the argument list for packing one color group.
pub fn pack_args(cfg: &PlaterConfig, group: ColorGroup, threads: usize, conf_path: &str) -> (r:
    Vec<String>)
    ensures
        r@.map_values(|a: String| a@) == pack_args_view(*cfg, group, threads, conf_path@),
{
    let mut args: Vec<String> = Vec::new();
    args.push("-W".to_owned());
    args.push(u64_to_string(cfg.size_x as u64));
    args.push("-H".to_owned());
    args.push(u64_to_string(cfg.size_y as u64));
    args.push("-s".to_owned());
    args.push(u64_to_string(cfg.size_spacing as u64));
    args.push("-t".to_owned());
    args.push(u64_to_string(threads as u64));
    args.push("-o".to_owned());
    match group {
        ColorGroup::Main => args.push("plater_main_%d".to_owned()),
        ColorGroup::Accent => args.push("plater_accent_%d".to_owned()),
    }
    args.push(conf_path.to_owned());
    proof {
        assert(args@.map_values(|a: String| a@) =~= pack_args_view(
            *cfg,
            group,
            threads,
            conf_path@,
        ));
    }
    args
}

/// Builds one nesting-tool invocation for a color group.
pub fn pack_invocation(
    cfg: &PlaterConfig,
    group: ColorGroup,
    threads: usize,
    conf_path: &str,
) -> (r: ToolInvocation)
    ensures
        r.program@ == cfg.path@,
        r.args_view() == pack_args_view(*cfg, group, threads, conf_path@),
{
    ToolInvocation {
        program: cfg.path.as_str().to_owned(),
        args: pack_args(cfg, group, threads, conf_path),
    }
}

/// Decides the pack stage: the main invocation always, the accent
/// invocation exactly when an accent entry was seen.
pub fn pack_plan(
    cfg: &PlaterConfig,
    accent_seen: bool,
    threads: usize,
    main_conf: &str,
    accent_conf: &str,
) -> (r: Vec<ToolInvocation>)
    ensures
        r@.len() == if accent_seen {
            2int
        } else {
            1int
        },
        r@[0].program@ == cfg.path@,
        r@[0].args_view() == pack_args_view(*cfg, ColorGroup::Main, threads, main_conf@),
        accent_seen ==> r@[1].program@ == cfg.path@ && r@[1].args_view() == pack_args_view(
            *cfg,
            ColorGroup::Accent,
            threads,
            accent_conf@,
        ),
{
    let mut plan: Vec<ToolInvocation> = Vec::new();
    plan.push(pack_invocation(cfg, ColorGroup::Main, threads, main_conf));
    if accent_seen {
        plan.push(pack_invocation(cfg, ColorGroup::Accent, threads, accent_conf));
    }
    plan
}

} // verus!
