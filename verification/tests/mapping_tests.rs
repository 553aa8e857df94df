use vw_lib::ast::{
    AnyDesignUnit, AnyPrimaryUnit, AnySecondaryUnit, ArchitectureBody, AttributeSpecification,
    Declaration, DesignFile, DiscreteRange, ElementDeclaration, EntityClass, EntityDeclaration,
    EntityName, PackageDeclaration, RangeConstraint, SubprogramBody, SubtypeConstraint,
    SubtypeIndication, TypeDeclaration, TypeDefinition, VhdlDesignator, VhdlExpr, VhdlLiteral,
    VhdlName,
};
use vw_lib::mapping::{VwSymbol, VwSymbolFinder};
use vw_lib::VwError;

fn int_expr(v: u64) -> VhdlExpr {
    VhdlExpr::Literal(VhdlLiteral::Integer(v))
}

fn element(name: &str, subtype: &str, constraint: Option<SubtypeConstraint>) -> ElementDeclaration {
    ElementDeclaration {
        idents: vec![name.to_string()],
        subtype: SubtypeIndication {
            type_mark: VhdlName::Designator(VhdlDesignator::Identifier(subtype.to_string())),
            constraint,
        },
    }
}

fn range_constraint(left: VhdlExpr, right: VhdlExpr) -> SubtypeConstraint {
    SubtypeConstraint::Array(vec![DiscreteRange::Bounds(RangeConstraint {
        left_expr: left,
        right_expr: right,
    })])
}

fn record_decl(name: &str, elements: Vec<ElementDeclaration>) -> Declaration {
    Declaration::Type(TypeDeclaration {
        ident: name.to_string(),
        def: TypeDefinition::Record(elements),
    })
}

fn tag(name: &str) -> Declaration {
    Declaration::AttributeSpecification(AttributeSpecification {
        ident: "rust_me".to_string(),
        entity_class: EntityClass::Type,
        entity_name: EntityName::Name(VhdlDesignator::Identifier(name.to_string())),
    })
}

fn package(name: &str, decl: Vec<Declaration>) -> AnyDesignUnit {
    AnyDesignUnit::Primary(AnyPrimaryUnit::Package(PackageDeclaration {
        ident: name.to_string(),
        decl,
    }))
}

#[test]
fn collects_records_tags_and_unit_symbols() {
    let file = DesignFile {
        design_units: vec![
            package(
                "my_pkg",
                vec![
                    record_decl(
                        "eth_hdr",
                        vec![element(
                            "dst",
                            "std_logic_vector",
                            Some(range_constraint(int_expr(47), int_expr(0))),
                        )],
                    ),
                    tag("eth_hdr"),
                ],
            ),
            AnyDesignUnit::Primary(AnyPrimaryUnit::Entity(EntityDeclaration {
                ident: "top".to_string(),
                decl: vec![],
            })),
        ],
    };
    let mut finder = VwSymbolFinder::new("rust_me");
    finder.scan_design_file(&file).unwrap();

    let records = finder.get_records();
    assert_eq!(records.len(), 1);
    assert_eq!(records[0].get_name(), "eth_hdr");
    assert_eq!(records[0].get_pkg_name().as_deref(), Some("my_pkg"));
    let fields = records[0].get_fields();
    assert_eq!(fields.len(), 1);
    assert_eq!(fields[0].name, "dst");
    assert_eq!(fields[0].subtype_name, "std_logic_vector");
    assert!(fields[0].constraint.is_some());

    assert_eq!(finder.get_tagged_types(), &vec!["eth_hdr".to_string()]);

    let symbols = finder.get_symbols();
    assert_eq!(symbols.len(), 2);
    assert!(matches!(&symbols[0], VwSymbol::Package(p) if p == "my_pkg"));
    assert!(matches!(&symbols[1], VwSymbol::Entity(e) if e == "top"));
}

#[test]
fn attribute_with_other_name_does_not_tag() {
    let file = DesignFile {
        design_units: vec![package(
            "p",
            vec![Declaration::AttributeSpecification(AttributeSpecification {
                ident: "keep".to_string(),
                entity_class: EntityClass::Type,
                entity_name: EntityName::Name(VhdlDesignator::Identifier("t".to_string())),
            })],
        )],
    };
    let mut finder = VwSymbolFinder::new("rust_me");
    finder.scan_design_file(&file).unwrap();
    assert!(finder.get_tagged_types().is_empty());
}

#[test]
fn attribute_on_non_type_target_does_not_tag() {
    let file = DesignFile {
        design_units: vec![package(
            "p",
            vec![Declaration::AttributeSpecification(AttributeSpecification {
                ident: "rust_me".to_string(),
                entity_class: EntityClass::Other,
                entity_name: EntityName::Name(VhdlDesignator::Identifier("t".to_string())),
            })],
        )],
    };
    let mut finder = VwSymbolFinder::new("rust_me");
    finder.scan_design_file(&file).unwrap();
    assert!(finder.get_tagged_types().is_empty());
}

#[test]
fn record_in_architecture_has_no_package() {
    let file = DesignFile {
        design_units: vec![AnyDesignUnit::Secondary(AnySecondaryUnit::Architecture(
            ArchitectureBody {
                ident: "behav".to_string(),
                decl: vec![record_decl("local_rec", vec![element("a", "std_logic", None)])],
            },
        ))],
    };
    let mut finder = VwSymbolFinder::new("rust_me");
    finder.scan_design_file(&file).unwrap();
    assert_eq!(finder.get_records().len(), 1);
    assert!(finder.get_records()[0].get_pkg_name().is_none());
}

#[test]
fn declarations_inside_subprogram_bodies_are_walked() {
    let file = DesignFile {
        design_units: vec![package(
            "p",
            vec![Declaration::SubprogramBody(SubprogramBody {
                ident: "helper".to_string(),
                declarations: vec![record_decl("inner_rec", vec![element("a", "std_logic", None)])],
            })],
        )],
    };
    let mut finder = VwSymbolFinder::new("rust_me");
    finder.scan_design_file(&file).unwrap();
    assert_eq!(finder.get_records().len(), 1);
    assert_eq!(finder.get_records()[0].get_name(), "inner_rec");
}

#[test]
fn unsupported_constraint_shape_is_fatal_and_leaves_tables_unchanged() {
    let good = package("p1", vec![record_decl("ok_rec", vec![element("a", "std_logic", None)])]);
    let bad = package(
        "p2",
        vec![record_decl(
            "bad_rec",
            vec![element("f", "std_logic_vector", Some(SubtypeConstraint::Unsupported))],
        )],
    );
    let file = DesignFile { design_units: vec![good, bad] };
    let mut finder = VwSymbolFinder::new("rust_me");
    let err = finder.scan_design_file(&file).unwrap_err();
    match err {
        VwError::UnsupportedConstraint { record } => assert_eq!(record, "bad_rec"),
        other => panic!("unexpected error: {}", other.message()),
    }
    // the failed scan must not have committed anything
    assert!(finder.get_records().is_empty());
    assert!(finder.get_symbols().is_empty());
    assert!(finder.get_tagged_types().is_empty());
}

#[test]
fn unsupported_type_mark_shape_is_fatal() {
    let file = DesignFile {
        design_units: vec![package(
            "p",
            vec![record_decl(
                "odd_rec",
                vec![ElementDeclaration {
                    idents: vec!["f".to_string()],
                    subtype: SubtypeIndication {
                        type_mark: VhdlName::Unsupported,
                        constraint: None,
                    },
                }],
            )],
        )],
    };
    let mut finder = VwSymbolFinder::new("rust_me");
    let err = finder.scan_design_file(&file).unwrap_err();
    match err {
        VwError::UnsupportedElement { record } => assert_eq!(record, "odd_rec"),
        other => panic!("unexpected error: {}", other.message()),
    }
}

#[test]
fn scanning_two_files_appends() {
    let f1 = DesignFile {
        design_units: vec![package("p1", vec![record_decl("r1", vec![element("a", "std_logic", None)])])],
    };
    let f2 = DesignFile {
        design_units: vec![package("p2", vec![record_decl("r2", vec![element("b", "std_logic", None)])])],
    };
    let mut finder = VwSymbolFinder::new("rust_me");
    finder.scan_design_file(&f1).unwrap();
    finder.scan_design_file(&f2).unwrap();
    assert_eq!(finder.get_records().len(), 2);
    assert_eq!(finder.get_records()[0].get_name(), "r1");
    assert_eq!(finder.get_records()[1].get_name(), "r2");
}
