use plate_pipeline::ColorGroup;
use plate_pipeline::manifest::Manifests;
use plate_pipeline::manifest::record_all;
use plate_pipeline::pipeline::classify_phase;
use plate_pipeline::text::u64_to_string;

#[test]
fn record_returns_group_and_line() {
    let mut m = Manifests::new();
    let r = m.record("/work/input/[a]_part_x3.stl");
    assert_eq!(r.group, ColorGroup::Accent);
    assert_eq!(r.line, "/work/input/[a]_part_x3.stl 3");
    let r = m.record("/work/input/bracket.stl");
    assert_eq!(r.group, ColorGroup::Main);
    assert_eq!(r.line, "/work/input/bracket.stl 1");
}

#[test]
fn record_raises_accent_seen_once_and_for_all() {
    let mut m = Manifests::new();
    assert!(!m.accent_seen);
    m.record("/in/widget.stl");
    assert!(!m.accent_seen);
    m.record("/in/[a]_lid.stl");
    assert!(m.accent_seen);
    m.record("/in/base.stl");
    assert!(m.accent_seen);
}

#[test]
fn record_all_counts_and_contents() {
    let files = vec![
        "/in/[a]_lid_x2.stl".to_string(),
        "/in/base.stl".to_string(),
        "/in/[a]_knob.stl".to_string(),
        "/in/arm_x4.stl".to_string(),
        "/in/leg.stl".to_string(),
    ];
    let m = record_all(&files);
    assert_eq!(m.accent.len(), 2);
    assert_eq!(m.main.len(), 3);
    assert!(m.accent_seen);
    assert_eq!(m.accent[0].path, "/in/[a]_lid_x2.stl");
    assert_eq!(m.accent[0].quantity, 2);
    assert_eq!(m.accent[1].path, "/in/[a]_knob.stl");
    assert_eq!(m.accent[1].quantity, 1);
    assert_eq!(m.main[0].path, "/in/base.stl");
    assert_eq!(m.main[0].quantity, 1);
    assert_eq!(m.main[1].path, "/in/arm_x4.stl");
    assert_eq!(m.main[1].quantity, 4);
    assert_eq!(m.main[2].path, "/in/leg.stl");
    assert_eq!(m.main[2].quantity, 1);
}

#[test]
fn record_all_without_accent_leaves_flag_down() {
    let files = vec!["/in/widget.stl".to_string()];
    let m = record_all(&files);
    assert_eq!(m.accent.len(), 0);
    assert_eq!(m.main.len(), 1);
    assert!(!m.accent_seen);
}

#[test]
fn classify_phase_short_circuits_on_empty_input() {
    let files: Vec<String> = Vec::new();
    assert!(classify_phase(&files).is_none());
}

#[test]
fn classify_phase_records_when_input_exists() {
    let files = vec!["/in/bracket.stl".to_string()];
    let m = classify_phase(&files).unwrap();
    assert_eq!(m.main.len(), 1);
    assert_eq!(m.accent.len(), 0);
}

#[test]
fn decimal_formatting_is_exact() {
    assert_eq!(u64_to_string(0), "0");
    assert_eq!(u64_to_string(7), "7");
    assert_eq!(u64_to_string(10), "10");
    assert_eq!(u64_to_string(305), "305");
    assert_eq!(u64_to_string(4294967295), "4294967295");
}
