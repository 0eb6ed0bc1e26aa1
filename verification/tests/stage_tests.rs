use plate_pipeline::ColorGroup;
use plate_pipeline::config::PlaterConfig;
use plate_pipeline::config::SuperslicerConfig;
use plate_pipeline::manifest::record_all;
use plate_pipeline::pack::pack_args;
use plate_pipeline::pack::pack_plan;
use plate_pipeline::pack::plan_worker_threads;
use plate_pipeline::pack::worker_threads;
use plate_pipeline::paths::accent_conf_path;
use plate_pipeline::paths::input_dir;
use plate_pipeline::paths::join_path;
use plate_pipeline::paths::main_conf_path;
use plate_pipeline::paths::model_glob_pattern;
use plate_pipeline::paths::output_dir;
use plate_pipeline::slice::plate_group;
use plate_pipeline::slice::slice_invocation;
use plate_pipeline::slice::slice_plan;
use plate_pipeline::text::base_name_of;
use plate_pipeline::text::str_starts_with;
use plate_pipeline::thumb::thumb_path;
use plate_pipeline::thumb::thumbnail_job;

fn plater_config() -> PlaterConfig {
    PlaterConfig {
        path: "/usr/bin/plater".to_string(),
        size_x: 250,
        size_y: 210,
        size_spacing: 4,
    }
}

fn slicer_config() -> SuperslicerConfig {
    SuperslicerConfig {
        path: "/usr/bin/superslicer".to_string(),
        config_printer: "printer.ini".to_string(),
        config_filament: "filament.ini".to_string(),
        config_print: "print.ini".to_string(),
        accent_config_printer: "accent_printer.ini".to_string(),
        accent_config_filament: "accent_filament.ini".to_string(),
        accent_config_print: "accent_print.ini".to_string(),
    }
}

#[test]
fn directory_layout_is_fixed() {
    assert_eq!(input_dir("/work"), "/work/input/");
    assert_eq!(output_dir("/work"), "/work/output/");
    assert_eq!(main_conf_path("/work"), "/work/output/main.conf");
    assert_eq!(accent_conf_path("/work"), "/work/output/accent.conf");
    assert_eq!(input_dir("/work/"), "/work/input/");
}

#[test]
fn glob_pattern_scans_recursively() {
    assert_eq!(model_glob_pattern("/work/input/"), "/work/input/**/*.stl");
    assert_eq!(model_glob_pattern("/work/output/"), "/work/output/**/*.stl");
}

#[test]
fn join_path_inserts_one_separator() {
    assert_eq!(join_path("/a", "b"), "/a/b");
    assert_eq!(join_path("/a/", "b"), "/a/b");
    assert_eq!(join_path("", "b"), "b");
}

#[test]
fn base_name_takes_text_after_last_slash() {
    assert_eq!(base_name_of("/a/b/c.stl"), "c.stl");
    assert_eq!(base_name_of("c.stl"), "c.stl");
    assert_eq!(base_name_of("/a/b/"), "");
}

#[test]
fn prefix_test_is_exact() {
    assert!(str_starts_with("plater_accent_0.stl", "plater_accent"));
    assert!(!str_starts_with("plater_main_0.stl", "plater_accent"));
    assert!(!str_starts_with("pl", "plater"));
    assert!(str_starts_with("anything", ""));
}

#[test]
fn worker_threads_are_half_the_cpus_but_at_least_one() {
    assert_eq!(plan_worker_threads(0), 1);
    assert_eq!(plan_worker_threads(1), 1);
    assert_eq!(plan_worker_threads(2), 1);
    assert_eq!(plan_worker_threads(5), 2);
    assert_eq!(plan_worker_threads(16), 8);
    assert!(worker_threads() >= 1);
}

#[test]
fn pack_args_are_exact() {
    let cfg = plater_config();
    let args = pack_args(&cfg, ColorGroup::Main, 4, "/work/output/main.conf");
    assert_eq!(
        args,
        vec![
            "-W",
            "250",
            "-H",
            "210",
            "-s",
            "4",
            "-t",
            "4",
            "-o",
            "plater_main_%d",
            "/work/output/main.conf",
        ]
    );
    let args = pack_args(&cfg, ColorGroup::Accent, 4, "/work/output/accent.conf");
    assert_eq!(args[9], "plater_accent_%d");
    assert_eq!(args[10], "/work/output/accent.conf");
}

#[test]
fn accent_packing_runs_only_when_accent_was_seen() {
    let cfg = plater_config();
    let plan = pack_plan(&cfg, false, 4, "/w/output/main.conf", "/w/output/accent.conf");
    assert_eq!(plan.len(), 1);
    assert_eq!(plan[0].program, "/usr/bin/plater");
    assert_eq!(plan[0].args[9], "plater_main_%d");
    let plan = pack_plan(&cfg, true, 4, "/w/output/main.conf", "/w/output/accent.conf");
    assert_eq!(plan.len(), 2);
    assert_eq!(plan[1].args[9], "plater_accent_%d");
    assert_eq!(plan[1].args[10], "/w/output/accent.conf");
}

#[test]
fn mixed_input_scenario_issues_accent_packing() {
    let files = vec![
        "/w/input/[a]_part_x3.stl".to_string(),
        "/w/input/bracket.stl".to_string(),
    ];
    let m = record_all(&files);
    assert_eq!(m.accent.len(), 1);
    assert_eq!(m.accent[0].path, "/w/input/[a]_part_x3.stl");
    assert_eq!(m.accent[0].quantity, 3);
    assert_eq!(m.main.len(), 1);
    assert_eq!(m.main[0].path, "/w/input/bracket.stl");
    assert_eq!(m.main[0].quantity, 1);
    assert!(m.accent_seen);
    let plan = pack_plan(&plater_config(), m.accent_seen, 2, "/w/output/main.conf", "/w/output/accent.conf");
    assert_eq!(plan.len(), 2);
}

#[test]
fn main_only_scenario_skips_accent_packing() {
    let files = vec!["/w/input/widget.stl".to_string()];
    let m = record_all(&files);
    assert_eq!(m.main.len(), 1);
    assert_eq!(m.accent.len(), 0);
    assert!(!m.accent_seen);
    let plan = pack_plan(&plater_config(), m.accent_seen, 2, "/w/output/main.conf", "/w/output/accent.conf");
    assert_eq!(plan.len(), 1);
    assert_eq!(plan[0].args[9], "plater_main_%d");
}

#[test]
fn slice_selects_profiles_by_plate_name() {
    let cfg = slicer_config();
    let accent = slice_invocation(&cfg, "/w/output/plater_accent_0.stl");
    assert_eq!(accent.program, "/usr/bin/superslicer");
    assert_eq!(
        accent.args,
        vec![
            "--load",
            "accent_printer.ini",
            "--load",
            "accent_filament.ini",
            "--load",
            "accent_print.ini",
            "-g",
            "/w/output/plater_accent_0.stl",
        ]
    );
    let main = slice_invocation(&cfg, "/w/output/plater_main_0.stl");
    assert_eq!(
        main.args,
        vec![
            "--load",
            "printer.ini",
            "--load",
            "filament.ini",
            "--load",
            "print.ini",
            "-g",
            "/w/output/plater_main_0.stl",
        ]
    );
}

#[test]
fn plate_group_reads_the_base_name() {
    assert_eq!(plate_group("/w/output/plater_accent_1.stl"), ColorGroup::Accent);
    assert_eq!(plate_group("/w/output/plater_main_1.stl"), ColorGroup::Main);
    assert_eq!(plate_group("/w/plater_accent/plater_main_1.stl"), ColorGroup::Main);
}

#[test]
fn slice_plan_covers_every_plate_in_order() {
    let cfg = slicer_config();
    let plates = vec![
        "/w/output/plater_main_0.stl".to_string(),
        "/w/output/plater_accent_0.stl".to_string(),
    ];
    let plan = slice_plan(&cfg, &plates);
    assert_eq!(plan.len(), 2);
    assert_eq!(plan[0].args[1], "printer.ini");
    assert_eq!(plan[0].args[7], "/w/output/plater_main_0.stl");
    assert_eq!(plan[1].args[1], "accent_printer.ini");
    assert_eq!(plan[1].args[7], "/w/output/plater_accent_0.stl");
}

#[test]
fn thumbnail_path_replaces_the_extension() {
    assert_eq!(thumb_path("/w/output/plater_main_0.stl"), "/w/output/plater_main_0.png");
    assert_eq!(thumb_path("plate.stl"), "plate.png");
    assert_eq!(thumb_path("a.b.c"), "a.b.png");
    assert_eq!(thumb_path("/dir.d/noext"), "/dir.d/noext.png");
    assert_eq!(thumb_path(".hidden"), ".hidden.png");
}

#[test]
fn thumbnail_job_is_fixed_size() {
    let job = thumbnail_job("/w/output/plater_main_0.stl");
    assert_eq!(job.stl_path, "/w/output/plater_main_0.stl");
    assert_eq!(job.img_path, "/w/output/plater_main_0.png");
    assert_eq!(job.width, 1024);
    assert_eq!(job.height, 768);
}
