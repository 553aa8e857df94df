use vw_lib::ast::{
    AnyDesignUnit, AnyPrimaryUnit, AttributeSpecification, Declaration, DesignFile,
    EntityClass, EntityDeclaration, EntityName, PackageDeclaration, SubprogramBody,
    TypeDeclaration, TypeDefinition, VhdlDesignator,
};
use vw_lib::visitor::{walk_design_file, walk_design_unit, Visitor, VisitorResult};

struct CountingVisitor {
    entities: usize,
    packages: usize,
    types: usize,
    attr_specs: usize,
}

impl CountingVisitor {
    fn new() -> Self {
        Self { entities: 0, packages: 0, types: 0, attr_specs: 0 }
    }
}

impl Visitor for CountingVisitor {
    fn visit_entity(&mut self, _: &EntityDeclaration) -> VisitorResult {
        self.entities += 1;
        VisitorResult::Continue
    }

    fn visit_package(&mut self, _: &PackageDeclaration) -> VisitorResult {
        self.packages += 1;
        VisitorResult::Continue
    }

    fn visit_type_declaration(&mut self, _: &TypeDeclaration, _: &AnyDesignUnit) -> VisitorResult {
        self.types += 1;
        VisitorResult::Continue
    }

    fn visit_attribute_specification(
        &mut self,
        _: &AttributeSpecification,
        _: &AnyDesignUnit,
    ) -> VisitorResult {
        self.attr_specs += 1;
        VisitorResult::Continue
    }
}

struct StopAtFirstType {
    seen_before_stop: usize,
}

impl Visitor for StopAtFirstType {
    fn visit_type_declaration(&mut self, _: &TypeDeclaration, _: &AnyDesignUnit) -> VisitorResult {
        VisitorResult::Stop
    }

    fn visit_declaration(&mut self, _: &Declaration, _: &AnyDesignUnit) -> VisitorResult {
        self.seen_before_stop += 1;
        VisitorResult::Continue
    }
}

fn type_decl(name: &str) -> Declaration {
    Declaration::Type(TypeDeclaration {
        ident: name.to_string(),
        def: TypeDefinition::Record(vec![]),
    })
}

fn sample_file() -> DesignFile {
    DesignFile {
        design_units: vec![
            AnyDesignUnit::Primary(AnyPrimaryUnit::Package(PackageDeclaration {
                ident: "p".to_string(),
                decl: vec![
                    type_decl("t1"),
                    Declaration::AttributeSpecification(AttributeSpecification {
                        ident: "rust_me".to_string(),
                        entity_class: EntityClass::Type,
                        entity_name: EntityName::Name(VhdlDesignator::Identifier(
                            "t1".to_string(),
                        )),
                    }),
                    Declaration::SubprogramBody(SubprogramBody {
                        ident: "f".to_string(),
                        declarations: vec![type_decl("t2")],
                    }),
                ],
            })),
            AnyDesignUnit::Primary(AnyPrimaryUnit::Entity(EntityDeclaration {
                ident: "e".to_string(),
                decl: vec![],
            })),
        ],
    }
}

#[test]
fn should_continue_reflects_the_variant() {
    assert!(VisitorResult::Continue.should_continue());
    assert!(!VisitorResult::Stop.should_continue());
}

#[test]
fn walker_visits_every_node_kind_once() {
    let mut v = CountingVisitor::new();
    let r = walk_design_file(&mut v, &sample_file());
    assert_eq!(r, VisitorResult::Continue);
    assert_eq!(v.entities, 1);
    assert_eq!(v.packages, 1);
    assert_eq!(v.types, 2); // includes the subprogram-local declaration
    assert_eq!(v.attr_specs, 1);
}

#[test]
fn stop_unwinds_immediately_and_is_reported() {
    let mut v = StopAtFirstType { seen_before_stop: 0 };
    let r = walk_design_file(&mut v, &sample_file());
    assert_eq!(r, VisitorResult::Stop);
    // only the declaration holding the first type was entered
    assert_eq!(v.seen_before_stop, 1);
}

#[test]
fn walk_single_unit_dispatches() {
    let mut v = CountingVisitor::new();
    let unit = AnyDesignUnit::Primary(AnyPrimaryUnit::Entity(EntityDeclaration {
        ident: "solo".to_string(),
        decl: vec![type_decl("t")],
    }));
    let r = walk_design_unit(&mut v, &unit);
    assert_eq!(r, VisitorResult::Continue);
    assert_eq!(v.entities, 1);
    assert_eq!(v.types, 1);
}

#[test]
fn default_callbacks_continue() {
    struct Silent;
    impl Visitor for Silent {}
    let mut v = Silent;
    assert_eq!(walk_design_file(&mut v, &sample_file()), VisitorResult::Continue);
}
