use vw_lib::anodizer::{ResolvedField, ResolvedRange, ResolvedRecord};
use vw_lib::codegen::generate_rust_structs;
use vw_lib::VwError;

fn range(left: usize, right: usize) -> Option<ResolvedRange> {
    Some(ResolvedRange { left: Some(left), right: Some(right) })
}

fn record(name: &str, fields: Vec<ResolvedField>) -> ResolvedRecord {
    let mut r = ResolvedRecord::new(name);
    r.fields = fields;
    r
}

#[test]
fn width_is_high_minus_low_plus_one() {
    let recs = vec![record(
        "hdr",
        vec![
            ResolvedField::new("dst", "std_logic_vector", range(7, 0)),
            ResolvedField::new("one_bit", "std_logic_vector", range(0, 0)),
        ],
    )];
    let out = generate_rust_structs(&recs).unwrap();
    assert!(out.contains("pub dst: BitfieldWrap<8>"), "{}", out);
    assert!(out.contains("pub one_bit: BitfieldWrap<1>"), "{}", out);
}

#[test]
fn scalar_fixed_bounds_give_width_one() {
    let recs = vec![record("r", vec![ResolvedField::new("flag", "std_logic", range(0, 0))])];
    let out = generate_rust_structs(&recs).unwrap();
    assert!(out.contains("pub flag: BitfieldWrap<1>"), "{}", out);
}

#[test]
fn nested_field_references_the_tagged_type() {
    let recs = vec![record("outer", vec![ResolvedField::new("inner", "inner_rec", None)])];
    let out = generate_rust_structs(&recs).unwrap();
    assert!(out.contains("pub inner: inner_rec"), "{}", out);
    assert!(out.contains("inner: inner_rec::new()"), "{}", out);
}

#[test]
fn output_carries_imports_derive_and_constructor() {
    let recs = vec![record("pkt", vec![ResolvedField::new("data", "std_logic_vector", range(31, 0))])];
    let out = generate_rust_structs(&recs).unwrap();
    assert!(out.contains("use bitfield_derive::BitStructSerial;"), "{}", out);
    assert!(
        out.contains("use bitfield_struct::{BitStructSerial, BitfieldError, BitfieldWrap};"),
        "{}",
        out
    );
    assert!(out.contains("#[derive(Debug, Clone, BitStructSerial)]"), "{}", out);
    assert!(out.contains("pub struct pkt {"), "{}", out);
    assert!(out.contains("pub fn new() -> Self {"), "{}", out);
    assert!(out.contains("data: BitfieldWrap::new()"), "{}", out);
}

#[test]
fn formatter_reformats_rather_than_echoing() {
    // the renderer emits "pub struct empty_rec {\n}", which the external
    // pretty-printer collapses; seeing the collapsed form proves the
    // formatter really ran over the rendered text
    let recs = vec![record("empty_rec", vec![])];
    let out = generate_rust_structs(&recs).unwrap();
    assert!(out.contains("pub struct empty_rec {}"), "{}", out);
    assert!(!out.contains("pub struct empty_rec {\n}"), "{}", out);
}

#[test]
fn unresolved_left_bound_is_fatal() {
    let recs = vec![record(
        "r",
        vec![ResolvedField::new(
            "a",
            "std_logic_vector",
            Some(ResolvedRange { left: None, right: Some(0) }),
        )],
    )];
    match generate_rust_structs(&recs) {
        Err(VwError::UnresolvedBound { record, field }) => {
            assert_eq!(record, "r");
            assert_eq!(field, "a");
        },
        other => panic!("expected UnresolvedBound, got {:?}", other.map(|_| ())),
    }
}

#[test]
fn inverted_bounds_are_fatal_not_an_absurd_width() {
    let recs = vec![record("r", vec![ResolvedField::new("a", "std_logic_vector", range(0, 7))])];
    match generate_rust_structs(&recs) {
        Err(VwError::InvalidWidth { record, field }) => {
            assert_eq!(record, "r");
            assert_eq!(field, "a");
        },
        other => panic!("expected InvalidWidth, got {:?}", other.map(|_| ())),
    }
}

#[test]
fn non_identifier_field_name_is_rejected_before_rendering() {
    // a field name with a space cannot be spliced into source text
    let recs = vec![record("r", vec![ResolvedField::new("bad name", "std_logic_vector", range(7, 0))])];
    match generate_rust_structs(&recs) {
        Err(VwError::InvalidIdentifier { name }) => assert_eq!(name, "bad name"),
        other => panic!("expected InvalidIdentifier, got {:?}", other.map(|_| ())),
    }
}

#[test]
fn non_identifier_record_and_subtype_names_are_rejected() {
    let recs = vec![record("1bad", vec![ResolvedField::new("a", "std_logic_vector", range(7, 0))])];
    match generate_rust_structs(&recs) {
        Err(VwError::InvalidIdentifier { name }) => assert_eq!(name, "1bad"),
        other => panic!("expected InvalidIdentifier, got {:?}", other.map(|_| ())),
    }
    let recs = vec![record("r", vec![ResolvedField::new("a", "inner rec", None)])];
    match generate_rust_structs(&recs) {
        Err(VwError::InvalidIdentifier { name }) => assert_eq!(name, "inner rec"),
        other => panic!("expected InvalidIdentifier, got {:?}", other.map(|_| ())),
    }
}

#[test]
fn item_injecting_name_is_rejected_not_spliced() {
    // a name shaped to smuggle extra items past the parser (one of
    // them a bodiless function the formatter cannot print) must be
    // rejected up front, never rendered
    let recs = vec![record(
        "x {} fn f(); struct y",
        vec![ResolvedField::new("a", "std_logic_vector", range(7, 0))],
    )];
    match generate_rust_structs(&recs) {
        Err(VwError::InvalidIdentifier { name }) => assert_eq!(name, "x {} fn f(); struct y"),
        other => panic!("expected InvalidIdentifier, got {:?}", other.map(|_| ())),
    }
}

#[test]
fn unparseable_generated_code_is_a_codegen_error() {
    // a name that is identifier-shaped but a Rust keyword renders into
    // text that does not parse
    let recs = vec![record("match", vec![ResolvedField::new("a", "std_logic_vector", range(7, 0))])];
    match generate_rust_structs(&recs) {
        Err(VwError::CodeGenParse { .. }) => {},
        other => panic!("expected CodeGenParse, got {:?}", other.map(|_| ())),
    }
}

#[test]
fn two_records_render_in_order() {
    let recs = vec![
        record("first", vec![ResolvedField::new("a", "std_logic_vector", range(3, 0))]),
        record("second", vec![ResolvedField::new("b", "std_logic_vector", range(15, 8))]),
    ];
    let out = generate_rust_structs(&recs).unwrap();
    let p1 = out.find("pub struct first").unwrap();
    let p2 = out.find("pub struct second").unwrap();
    assert!(p1 < p2);
    assert!(out.contains("pub b: BitfieldWrap<8>"), "{}", out);
}
