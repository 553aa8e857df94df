use vw_lib::anodizer::{
    create_testbench, generate_testbench_imports, prepare_oracle_job, process_sim_output,
    ConstraintId, ExprTable, OracleJob, Side,
};
use vw_lib::ast::{
    AnyDesignUnit, AnyPrimaryUnit, AnySecondaryUnit, ArchitectureBody, AttributeSpecification,
    Declaration, DesignFile, DiscreteRange, ElementDeclaration, EntityClass, EntityName,
    PackageDeclaration, RangeConstraint, SubtypeConstraint, SubtypeIndication, TypeDeclaration,
    TypeDefinition, VhdlBinaryOp, VhdlDesignator, VhdlExpr, VhdlLiteral, VhdlName,
};
use vw_lib::codegen::generate_rust_structs;
use vw_lib::mapping::VwSymbolFinder;
use vw_lib::VwError;

fn int_expr(v: u64) -> VhdlExpr {
    VhdlExpr::Literal(VhdlLiteral::Integer(v))
}

fn name_expr(s: &str) -> VhdlExpr {
    VhdlExpr::Name(Box::new(VhdlName::Designator(VhdlDesignator::Identifier(s.to_string()))))
}

/// `WIDTH - 1`
fn width_minus_one() -> VhdlExpr {
    VhdlExpr::Binary(VhdlBinaryOp::Minus, Box::new(name_expr("WIDTH")), Box::new(int_expr(1)))
}

/// `DEPTH - 1`
fn depth_minus_one() -> VhdlExpr {
    VhdlExpr::Binary(VhdlBinaryOp::Minus, Box::new(name_expr("DEPTH")), Box::new(int_expr(1)))
}

fn element(name: &str, subtype: &str, constraint: Option<SubtypeConstraint>) -> ElementDeclaration {
    ElementDeclaration {
        idents: vec![name.to_string()],
        subtype: SubtypeIndication {
            type_mark: VhdlName::Designator(VhdlDesignator::Identifier(subtype.to_string())),
            constraint,
        },
    }
}

fn bounds(left: VhdlExpr, right: VhdlExpr) -> Option<SubtypeConstraint> {
    Some(SubtypeConstraint::Array(vec![DiscreteRange::Bounds(RangeConstraint {
        left_expr: left,
        right_expr: right,
    })]))
}

fn record_decl(name: &str, elements: Vec<ElementDeclaration>) -> Declaration {
    Declaration::Type(TypeDeclaration {
        ident: name.to_string(),
        def: TypeDefinition::Record(elements),
    })
}

fn tag(name: &str) -> Declaration {
    Declaration::AttributeSpecification(AttributeSpecification {
        ident: "rust_me".to_string(),
        entity_class: EntityClass::Type,
        entity_name: EntityName::Name(VhdlDesignator::Identifier(name.to_string())),
    })
}

fn one_package(decl: Vec<Declaration>) -> DesignFile {
    DesignFile {
        design_units: vec![AnyDesignUnit::Primary(AnyPrimaryUnit::Package(PackageDeclaration {
            ident: "test_pkg".to_string(),
            decl,
        }))],
    }
}

fn scan(file: &DesignFile) -> VwSymbolFinder {
    let mut finder = VwSymbolFinder::new("rust_me");
    finder.scan_design_file(file).unwrap();
    finder
}

fn prepare(file: &DesignFile) -> Result<OracleJob, VwError> {
    let finder = scan(file);
    prepare_oracle_job(finder.get_tagged_types(), finder.get_records())
}

#[test]
fn deduplication_one_statement_for_identical_text() {
    // four symbolic bounds across two records, all printing "WIDTH - 1"
    let file = one_package(vec![
        record_decl(
            "r1",
            vec![
                element("a", "std_logic_vector", bounds(width_minus_one(), int_expr(0))),
                element("b", "std_logic_vector", bounds(width_minus_one(), int_expr(0))),
            ],
        ),
        record_decl(
            "r2",
            vec![element("c", "std_logic_vector", bounds(width_minus_one(), width_minus_one()))],
        ),
        tag("r1"),
        tag("r2"),
    ]);
    let job = prepare(&file).unwrap();
    assert_eq!(job.table.entries.len(), 1);
    assert_eq!(job.table.entries[0].key, "WIDTH - 1");
    assert_eq!(job.table.entries[0].targets.len(), 4);
    // exactly one synthesized statement
    assert_eq!(job.testbench.matches("EXPR_").count(), 1);
    assert!(job.testbench.contains("write(l, integer'image(WIDTH - 1));"));
}

#[test]
fn deduplicated_targets_all_receive_the_one_answer() {
    let file = one_package(vec![
        record_decl("r1", vec![element("a", "std_logic_vector", bounds(width_minus_one(), int_expr(0)))]),
        record_decl("r2", vec![element("b", "std_logic_vector", bounds(width_minus_one(), int_expr(0)))]),
        tag("r1"),
        tag("r2"),
    ]);
    let job = prepare(&file).unwrap();
    assert_eq!(job.table.entries.len(), 1);
    let mut records = job.records;
    process_sim_output(&job.table, &mut records, &b"EXPR_0: 31\n".to_vec()).unwrap();
    for rec in &records {
        let bw = rec.fields[0].bit_width.unwrap();
        assert_eq!(bw.left, Some(31));
        assert_eq!(bw.right, Some(0));
    }
}

#[test]
fn propagation_keeps_answers_apart() {
    // two distinct expression texts; each answer reaches only its key
    let file = one_package(vec![
        record_decl("r1", vec![element("a", "std_logic_vector", bounds(width_minus_one(), int_expr(0)))]),
        record_decl("r2", vec![element("b", "std_logic_vector", bounds(depth_minus_one(), int_expr(0)))]),
        tag("r1"),
        tag("r2"),
    ]);
    let job = prepare(&file).unwrap();
    assert_eq!(job.table.entries.len(), 2);
    assert_eq!(job.table.entries[0].key, "WIDTH - 1");
    assert_eq!(job.table.entries[1].key, "DEPTH - 1");
    let mut records = job.records;
    process_sim_output(&job.table, &mut records, &b"EXPR_0: 7\nEXPR_1: 1023\n".to_vec()).unwrap();
    assert_eq!(records[0].fields[0].bit_width.unwrap().left, Some(7));
    assert_eq!(records[1].fields[0].bit_width.unwrap().left, Some(1023));
}

#[test]
fn literal_bounds_short_circuit_the_oracle() {
    let file = one_package(vec![
        record_decl(
            "hdr",
            vec![
                element("dst", "std_logic_vector", bounds(int_expr(47), int_expr(0))),
                element("flag", "std_logic", None),
            ],
        ),
        tag("hdr"),
    ]);
    let job = prepare(&file).unwrap();
    assert!(!job.needs_oracle());
    assert_eq!(job.table.entries.len(), 0);
    assert!(!job.testbench.contains("EXPR_"));
    // bounds already resolved without any simulator run
    let bw = job.records[0].fields[0].bit_width.unwrap();
    assert_eq!(bw.left, Some(47));
    assert_eq!(bw.right, Some(0));
}

#[test]
fn scalar_subtype_gets_fixed_unit_bounds() {
    let file = one_package(vec![
        record_decl("r", vec![element("flag", "std_logic", None)]),
        tag("r"),
    ]);
    let job = prepare(&file).unwrap();
    assert!(!job.needs_oracle());
    let bw = job.records[0].fields[0].bit_width.unwrap();
    assert_eq!(bw.left, Some(0));
    assert_eq!(bw.right, Some(0));
}

#[test]
fn subtype_casing_is_ignored() {
    let file = one_package(vec![
        record_decl(
            "r",
            vec![
                element("v", "STD_LOGIC_VECTOR", bounds(int_expr(7), int_expr(0))),
                element("s", "Std_Logic", None),
            ],
        ),
        tag("r"),
    ]);
    let job = prepare(&file).unwrap();
    assert_eq!(job.records[0].fields[0].bit_width.unwrap().left, Some(7));
    assert_eq!(job.records[0].fields[1].bit_width.unwrap().left, Some(0));
}

#[test]
fn unconstrained_vector_field_is_fatal_before_any_oracle_work() {
    let file = one_package(vec![
        record_decl("bad_rec", vec![element("loose", "std_logic_vector", None)]),
        tag("bad_rec"),
    ]);
    match prepare(&file) {
        Err(VwError::UnconstrainedField { record, field }) => {
            assert_eq!(record, "bad_rec");
            assert_eq!(field, "loose");
        },
        other => panic!("expected UnconstrainedField, got {:?}", other.map(|_| ())),
    }
}

#[test]
fn untagged_subtype_reference_is_fatal() {
    let file = one_package(vec![
        record_decl("outer", vec![element("inner", "inner_rec", None)]),
        record_decl("inner_rec", vec![element("a", "std_logic", None)]),
        tag("outer"),
    ]);
    match prepare(&file) {
        Err(VwError::UntaggedSubtype { name }) => assert_eq!(name, "inner_rec"),
        other => panic!("expected UntaggedSubtype, got {:?}", other.map(|_| ())),
    }
}

#[test]
fn tagged_subtype_reference_is_nested() {
    let file = one_package(vec![
        record_decl("outer", vec![element("inner", "inner_rec", None)]),
        record_decl("inner_rec", vec![element("a", "std_logic", None)]),
        tag("outer"),
        tag("inner_rec"),
    ]);
    let job = prepare(&file).unwrap();
    assert!(job.records[0].fields[0].bit_width.is_none());
    assert_eq!(job.records[0].fields[0].subtype_name, "inner_rec");
}

#[test]
fn unknown_tagged_name_is_fatal() {
    let file = one_package(vec![tag("ghost_rec")]);
    match prepare(&file) {
        Err(VwError::UnknownTaggedType { name }) => assert_eq!(name, "ghost_rec"),
        other => panic!("expected UnknownTaggedType, got {:?}", other.map(|_| ())),
    }
}

#[test]
fn tagged_record_outside_any_package_is_fatal() {
    let file = DesignFile {
        design_units: vec![
            AnyDesignUnit::Secondary(AnySecondaryUnit::Architecture(ArchitectureBody {
                ident: "a".to_string(),
                decl: vec![
                    record_decl("homeless", vec![element("x", "std_logic", None)]),
                    tag("homeless"),
                ],
            })),
        ],
    };
    match prepare(&file) {
        Err(VwError::NotInPackage { record }) => assert_eq!(record, "homeless"),
        other => panic!("expected NotInPackage, got {:?}", other.map(|_| ())),
    }
}

#[test]
fn testbench_imports_every_needed_package() {
    let file = DesignFile {
        design_units: vec![
            AnyDesignUnit::Primary(AnyPrimaryUnit::Package(PackageDeclaration {
                ident: "pkg_a".to_string(),
                decl: vec![
                    record_decl("ra", vec![element("x", "std_logic", None)]),
                    tag("ra"),
                ],
            })),
            AnyDesignUnit::Primary(AnyPrimaryUnit::Package(PackageDeclaration {
                ident: "pkg_b".to_string(),
                decl: vec![
                    record_decl("rb", vec![element("y", "std_logic", None)]),
                    tag("rb"),
                ],
            })),
        ],
    };
    let job = prepare(&file).unwrap();
    assert!(job.testbench.contains("use work.pkg_a.all;\n"));
    assert!(job.testbench.contains("use work.pkg_b.all;\n"));
    assert!(job.testbench.starts_with("-- Required packages\nlibrary ieee;\n"));
    assert!(job.testbench.contains("entity constraint_evaluator is"));
    assert!(job.testbench.ends_with("        wait;\n    end process;\nend architecture behavior;\n"));
}

#[test]
fn testbench_statements_carry_index_order() {
    let file = one_package(vec![
        record_decl(
            "r",
            vec![
                element("a", "std_logic_vector", bounds(width_minus_one(), int_expr(0))),
                element("b", "std_logic_vector", bounds(depth_minus_one(), int_expr(0))),
            ],
        ),
        tag("r"),
    ]);
    let job = prepare(&file).unwrap();
    let first = job.testbench.find("EXPR_0: ").unwrap();
    let second = job.testbench.find("EXPR_1: ").unwrap();
    assert!(first < second);
    assert!(job.testbench.contains("integer'image(WIDTH - 1)"));
    assert!(job.testbench.contains("integer'image(DEPTH - 1)"));
}

#[test]
fn malformed_simulation_line_is_fatal() {
    let file = one_package(vec![
        record_decl("r", vec![element("a", "std_logic_vector", bounds(width_minus_one(), int_expr(0)))]),
        tag("r"),
    ]);
    let job = prepare(&file).unwrap();
    let mut records = job.records;
    match process_sim_output(&job.table, &mut records, &b"hello world\n".to_vec()) {
        Err(VwError::MalformedOracleLine { line_index }) => assert_eq!(line_index, 0),
        other => panic!("expected MalformedOracleLine, got {:?}", other.map(|_| ())),
    }
}

#[test]
fn malformed_second_line_names_its_position() {
    let file = one_package(vec![
        record_decl("r", vec![element("a", "std_logic_vector", bounds(width_minus_one(), int_expr(0)))]),
        tag("r"),
    ]);
    let job = prepare(&file).unwrap();
    let mut records = job.records;
    match process_sim_output(&job.table, &mut records, &b"EXPR_0: 3\nEXPR_zero: 4\n".to_vec()) {
        Err(VwError::MalformedOracleLine { line_index }) => assert_eq!(line_index, 1),
        other => panic!("expected MalformedOracleLine, got {:?}", other.map(|_| ())),
    }
}

#[test]
fn out_of_range_index_is_fatal() {
    let file = one_package(vec![
        record_decl("r", vec![element("a", "std_logic_vector", bounds(width_minus_one(), int_expr(0)))]),
        tag("r"),
    ]);
    let job = prepare(&file).unwrap();
    let mut records = job.records;
    match process_sim_output(&job.table, &mut records, &b"EXPR_7: 3\n".to_vec()) {
        Err(VwError::OracleIndexOutOfRange { index }) => assert_eq!(index, 7),
        other => panic!("expected OracleIndexOutOfRange, got {:?}", other.map(|_| ())),
    }
}

#[test]
fn carriage_returns_are_tolerated() {
    let file = one_package(vec![
        record_decl("r", vec![element("a", "std_logic_vector", bounds(width_minus_one(), int_expr(0)))]),
        tag("r"),
    ]);
    let job = prepare(&file).unwrap();
    let mut records = job.records;
    process_sim_output(&job.table, &mut records, &b"EXPR_0: 15\r\n".to_vec()).unwrap();
    assert_eq!(records[0].fields[0].bit_width.unwrap().left, Some(15));
}

#[test]
fn determinism_byte_identical_output_across_runs() {
    let build = || {
        one_package(vec![
            record_decl(
                "pkt",
                vec![
                    element("data", "std_logic_vector", bounds(width_minus_one(), int_expr(0))),
                    element("valid", "std_logic", None),
                ],
            ),
            tag("pkt"),
        ])
    };
    let run = |file: &DesignFile| -> (String, String) {
        let job = prepare(file).unwrap();
        let tb = job.testbench.clone();
        let mut records = job.records;
        process_sim_output(&job.table, &mut records, &b"EXPR_0: 31\n".to_vec()).unwrap();
        (tb, generate_rust_structs(&records).unwrap())
    };
    let (tb1, out1) = run(&build());
    let (tb2, out2) = run(&build());
    assert_eq!(tb1, tb2);
    assert_eq!(out1, out2);
}

#[test]
fn unresolved_bound_after_all_answers_is_fatal() {
    let file = one_package(vec![
        record_decl("r", vec![element("a", "std_logic_vector", bounds(width_minus_one(), int_expr(0)))]),
        tag("r"),
    ]);
    let job = prepare(&file).unwrap();
    let mut records = job.records;
    // no oracle output arrives at all: the left bound stays symbolic
    process_sim_output(&job.table, &mut records, &b"".to_vec()).unwrap();
    match generate_rust_structs(&records) {
        Err(VwError::UnresolvedBound { record, field }) => {
            assert_eq!(record, "r");
            assert_eq!(field, "a");
        },
        other => panic!("expected UnresolvedBound, got {:?}", other.map(|_| ())),
    }
}

#[test]
fn testbench_text_is_exact() {
    let file = one_package(vec![
        record_decl("r", vec![element("a", "std_logic_vector", bounds(width_minus_one(), int_expr(0)))]),
        tag("r"),
    ]);
    let job = prepare(&file).unwrap();
    let expected = "-- Required packages\nlibrary ieee;\nuse ieee.std_logic_1164.all;\nuse ieee.numeric_std.all;\n\nlibrary std;\nuse std.textio.all;\nuse work.test_pkg.all;\nentity constraint_evaluator is\nend entity constraint_evaluator;\n\narchitecture behavior of constraint_evaluator is\nbegin\n    process\n        variable l : line;\n    begin\n        wait for 0ns;\n\n        write(l, string'(\"EXPR_0: \"));\n\n        write(l, integer'image(WIDTH - 1));\n\n        writeline(OUTPUT, l);\n        wait;\n    end process;\nend architecture behavior;\n";
    assert_eq!(job.testbench, expected);
}

#[test]
fn import_block_alone_lists_packages_in_order() {
    let imports = generate_testbench_imports(&vec!["p1".to_string(), "p2".to_string()]);
    assert!(imports.ends_with("use work.p1.all;\nuse work.p2.all;\n"));
    assert!(imports.starts_with("-- Required packages\n"));
}

#[test]
fn oversized_answer_is_malformed() {
    let file = one_package(vec![
        record_decl("r", vec![element("a", "std_logic_vector", bounds(width_minus_one(), int_expr(0)))]),
        tag("r"),
    ]);
    let job = prepare(&file).unwrap();
    let mut records = job.records;
    // a value beyond the machine range cannot be applied
    let line = b"EXPR_0: 99999999999999999999999999\n".to_vec();
    match process_sim_output(&job.table, &mut records, &line) {
        Err(VwError::MalformedOracleLine { line_index }) => assert_eq!(line_index, 0),
        other => panic!("expected MalformedOracleLine, got {:?}", other.map(|_| ())),
    }
}

#[test]
fn missing_trailing_newline_is_accepted() {
    let file = one_package(vec![
        record_decl("r", vec![element("a", "std_logic_vector", bounds(width_minus_one(), int_expr(0)))]),
        tag("r"),
    ]);
    let job = prepare(&file).unwrap();
    let mut records = job.records;
    process_sim_output(&job.table, &mut records, &b"EXPR_0: 9".to_vec()).unwrap();
    assert_eq!(records[0].fields[0].bit_width.unwrap().left, Some(9));
}

#[test]
fn register_collapses_identical_key_text() {
    let mut table = ExprTable::new();
    let id = |r: usize, f: usize, side: Side| ConstraintId {
        record_index: r,
        field_index: f,
        side,
    };
    table.register("WIDTH - 1".to_string(), id(0, 0, Side::Left));
    table.register("DEPTH - 1".to_string(), id(0, 1, Side::Left));
    table.register("WIDTH - 1".to_string(), id(1, 0, Side::Right));
    assert_eq!(table.entries.len(), 2);
    assert_eq!(table.entries[0].key, "WIDTH - 1");
    assert_eq!(table.entries[0].targets.len(), 2);
    assert_eq!(table.entries[1].targets.len(), 1);
    assert_eq!(table.keys(), vec!["WIDTH - 1", "DEPTH - 1"]);
}

#[test]
fn create_testbench_emits_one_statement_per_key() {
    let keys = vec!["WIDTH - 1".to_string(), "2 ** N".to_string()];
    let pkgs = vec!["p".to_string()];
    let tb = create_testbench(&keys, &pkgs);
    assert_eq!(tb.matches("writeline(OUTPUT, l);").count(), 2);
    assert!(tb.contains("EXPR_0: "));
    assert!(tb.contains("EXPR_1: "));
    assert!(tb.contains("integer'image(2 ** N)"));
}
