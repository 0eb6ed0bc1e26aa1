use plate_pipeline::ColorGroup;
use plate_pipeline::classify::analyze_name;
use plate_pipeline::classify::classify;
use plate_pipeline::text::parse_u32;

#[test]
fn accent_prefix_is_accent() {
    assert_eq!(classify("[a]_part_x3.stl").0, ColorGroup::Accent);
    assert_eq!(classify("[a]widget.stl").0, ColorGroup::Accent);
    assert_eq!(classify("[a]").0, ColorGroup::Accent);
}

#[test]
fn no_accent_prefix_is_main() {
    assert_eq!(classify("bracket.stl").0, ColorGroup::Main);
    assert_eq!(classify("a]x.stl").0, ColorGroup::Main);
    assert_eq!(classify("x[a].stl").0, ColorGroup::Main);
    assert_eq!(classify("").0, ColorGroup::Main);
}

#[test]
fn accent_prefix_is_case_sensitive() {
    assert_eq!(classify("[A]part.stl").0, ColorGroup::Main);
}

#[test]
fn quantity_from_well_formed_suffix() {
    assert_eq!(classify("part_x3.stl").1, 3);
    assert_eq!(classify("part_x12.stl").1, 12);
    assert_eq!(classify("part_x0.stl").1, 0);
    assert_eq!(classify("_x9.stl").1, 9);
    assert_eq!(classify("part_x4294967295.stl").1, u32::MAX);
}

#[test]
fn quantity_suffix_is_case_insensitive() {
    assert_eq!(classify("part_X5.stl").1, 5);
    assert_eq!(classify("part_x7.STL").1, 7);
    assert_eq!(classify("PART_X2.Stl").1, 2);
}

#[test]
fn quantity_takes_last_infix() {
    assert_eq!(classify("a_x2_x3.stl").1, 3);
    assert_eq!(classify("a_x2_xbad.stl").1, 1);
}

#[test]
fn quantity_defaults_to_one() {
    assert_eq!(classify("bracket.stl").1, 1);
    assert_eq!(classify("part_x.stl").1, 1);
    assert_eq!(classify("part_xa.stl").1, 1);
    assert_eq!(classify("part_x3".to_string().as_str()).1, 1);
    assert_eq!(classify("part_x-3.stl").1, 1);
    assert_eq!(classify("part_x4294967296.stl").1, 1);
    assert_eq!(classify("").1, 1);
}

#[test]
fn analyze_name_reports_explicit_quantity_only() {
    assert_eq!(analyze_name("part_x3.stl"), Some(3));
    assert_eq!(analyze_name("part.stl"), None);
    assert_eq!(analyze_name("part_x.stl"), None);
    assert_eq!(analyze_name("part_x3.obj"), None);
    assert_eq!(analyze_name("[a]_part_x3.stl"), Some(3));
}

#[test]
fn classification_is_idempotent() {
    let names = ["[a]_part_x3.stl", "bracket.stl", "part_X5.STL", ""];
    for name in names {
        assert_eq!(classify(name), classify(name));
    }
}

#[test]
fn parse_u32_accepts_plain_and_signed_plus() {
    assert_eq!(parse_u32("42"), Some(42));
    assert_eq!(parse_u32("+7"), Some(7));
    assert_eq!(parse_u32("0"), Some(0));
    assert_eq!(parse_u32("007"), Some(7));
    assert_eq!(parse_u32("4294967295"), Some(u32::MAX));
}

#[test]
fn parse_u32_rejects_malformed_and_overflow() {
    assert_eq!(parse_u32(""), None);
    assert_eq!(parse_u32("+"), None);
    assert_eq!(parse_u32("-1"), None);
    assert_eq!(parse_u32("3a"), None);
    assert_eq!(parse_u32("4294967296"), None);
    assert_eq!(parse_u32("99999999999"), None);
}

#[test]
fn parse_u32_matches_std_parse() {
    let cases = ["42", "+7", "0", "007", "4294967295", "", "+", "-1", "3a", "4294967296"];
    for case in cases {
        assert_eq!(parse_u32(case), case.parse::<u32>().ok(), "case {:?}", case);
    }
}
