//! Generic depth-first traversal over a parsed design-unit tree.
//!
//! The design-unit tree has far more node kinds than any one consumer
//! needs, so a shared walker dispatches to a capability-set interface:
//! one callback per node kind, each with a default no-op implementation
//! returning [`VisitorResult::Continue`].  Every callback decides whether
//! traversal continues; a `Stop` unwinds immediately without visiting
//! further siblings or descendants, and the top-level call reports it.
//! The walker itself cannot fail; it only relays callback decisions.
//!
//! Traversal order is fixed: file, then each design unit in source order,
//! then each declaration in source order, descending recursively into
//! subprogram-body-local declarations.  Declaration-level callbacks also
//! receive their enclosing design unit, since symbol resolution needs to
//! know which package or entity a declaration belongs to.

use vstd::prelude::*;

use crate::ast::{
    AnyDesignUnit, AnyPrimaryUnit, AnySecondaryUnit, ArchitectureBody, AttributeDeclaration,
    AttributeSpecification, ComponentDeclaration, ConfigurationDeclaration, ContextDeclaration,
    Declaration, DesignFile, EntityDeclaration, PackageBody, PackageDeclaration,
    PackageInstantiation, SubprogramBody, SubprogramDeclaration, SubprogramInstantiation,
    TypeDeclaration,
};

verus! {

/// Controls whether AST traversal should continue or stop.
#[derive(Debug, Clone, Copy, PartialEq, Eq, Structural)]
pub enum VisitorResult {
    /// Continue traversing the AST
    Continue,
    /// Stop traversal immediately
    Stop,
}

impl VisitorResult {
    /// Returns true if traversal should continue
    pub fn should_continue(&self) -> (r: bool)
        ensures
            r == (*self == VisitorResult::Continue),
    {
        matches!(self, VisitorResult::Continue)
    }
}

/// A trait for visiting nodes of a design-unit tree.
///
/// All methods have default implementations that return `Continue`, so a
/// consumer only overrides the methods for the nodes it cares about.
/// Methods are called in depth-first traversal order.
pub trait Visitor {
    /// Called for each design file before visiting its contents
    fn visit_design_file(&mut self, file: &DesignFile) -> VisitorResult {
        VisitorResult::Continue
    }

    /// Called for each design unit
    fn visit_design_unit(&mut self, unit: &AnyDesignUnit) -> VisitorResult {
        VisitorResult::Continue
    }

    /// Called for entity declarations
    fn visit_entity(&mut self, entity: &EntityDeclaration) -> VisitorResult {
        VisitorResult::Continue
    }

    /// Called for package declarations
    fn visit_package(&mut self, package: &PackageDeclaration) -> VisitorResult {
        VisitorResult::Continue
    }

    /// Called for package instantiations
    fn visit_package_instance(&mut self, instance: &PackageInstantiation) -> VisitorResult {
        VisitorResult::Continue
    }

    /// Called for context declarations
    fn visit_context(&mut self, context: &ContextDeclaration) -> VisitorResult {
        VisitorResult::Continue
    }

    /// Called for configuration declarations
    fn visit_configuration(&mut self, config: &ConfigurationDeclaration) -> VisitorResult {
        VisitorResult::Continue
    }

    /// Called for architecture bodies
    fn visit_architecture(&mut self, arch: &ArchitectureBody) -> VisitorResult {
        VisitorResult::Continue
    }

    /// Called for package bodies
    fn visit_package_body(&mut self, body: &PackageBody) -> VisitorResult {
        VisitorResult::Continue
    }

    /// Called for each declaration (before dispatching to specific kind)
    fn visit_declaration(&mut self, decl: &Declaration, unit: &AnyDesignUnit) -> VisitorResult {
        VisitorResult::Continue
    }

    /// Called for type declarations
    fn visit_type_declaration(
        &mut self,
        decl: &TypeDeclaration,
        unit: &AnyDesignUnit,
    ) -> VisitorResult {
        VisitorResult::Continue
    }

    /// Called for component declarations
    fn visit_component(
        &mut self,
        comp: &ComponentDeclaration,
        unit: &AnyDesignUnit,
    ) -> VisitorResult {
        VisitorResult::Continue
    }

    /// Called for subprogram declarations (function/procedure specifications)
    fn visit_subprogram_declaration(
        &mut self,
        decl: &SubprogramDeclaration,
        unit: &AnyDesignUnit,
    ) -> VisitorResult {
        VisitorResult::Continue
    }

    /// Called for subprogram bodies (function/procedure implementations)
    fn visit_subprogram_body(
        &mut self,
        body: &SubprogramBody,
        unit: &AnyDesignUnit,
    ) -> VisitorResult {
        VisitorResult::Continue
    }

    /// Called for subprogram instantiations
    fn visit_subprogram_instantiation(
        &mut self,
        inst: &SubprogramInstantiation,
        unit: &AnyDesignUnit,
    ) -> VisitorResult {
        VisitorResult::Continue
    }

    /// Called for attribute declarations (`attribute X : type`)
    fn visit_attribute_declaration(
        &mut self,
        decl: &AttributeDeclaration,
        unit: &AnyDesignUnit,
    ) -> VisitorResult {
        VisitorResult::Continue
    }

    /// Called for attribute specifications (`attribute X of Y : class is value`)
    fn visit_attribute_specification(
        &mut self,
        spec: &AttributeSpecification,
        unit: &AnyDesignUnit,
    ) -> VisitorResult {
        VisitorResult::Continue
    }
}

/// Walk a design file, calling visitor methods for each node.
pub fn walk_design_file<V: Visitor>(visitor: &mut V, file: &DesignFile) -> VisitorResult {
    if !visitor.visit_design_file(file).should_continue() {
        return VisitorResult::Stop;
    }
    let mut i: usize = 0;
    while i < file.design_units.len()
        decreases file.design_units.len() - i,
    {
        if !walk_design_unit(visitor, &file.design_units[i]).should_continue() {
            return VisitorResult::Stop;
        }
        i = i + 1;
    }
    VisitorResult::Continue
}

/// Walk a design unit, calling visitor methods for each node.
pub fn walk_design_unit<V: Visitor>(visitor: &mut V, unit: &AnyDesignUnit) -> VisitorResult {
    if !visitor.visit_design_unit(unit).should_continue() {
        return VisitorResult::Stop;
    }
    match unit {
        AnyDesignUnit::Primary(primary) => walk_primary_unit(visitor, primary, unit),
        AnyDesignUnit::Secondary(secondary) => walk_secondary_unit(visitor, secondary, unit),
    }
}

/// Walk a primary unit.
fn walk_primary_unit<V: Visitor>(
    visitor: &mut V,
    unit: &AnyPrimaryUnit,
    design_unit: &AnyDesignUnit,
) -> VisitorResult {
    match unit {
        AnyPrimaryUnit::Entity(entity) => {
            if !visitor.visit_entity(entity).should_continue() {
                return VisitorResult::Stop;
            }
            walk_declarations(visitor, &entity.decl, design_unit)
        },
        AnyPrimaryUnit::Package(package) => {
            if !visitor.visit_package(package).should_continue() {
                return VisitorResult::Stop;
            }
            walk_declarations(visitor, &package.decl, design_unit)
        },
        AnyPrimaryUnit::PackageInstance(instance) => visitor.visit_package_instance(instance),
        AnyPrimaryUnit::Context(context) => visitor.visit_context(context),
        AnyPrimaryUnit::Configuration(config) => visitor.visit_configuration(config),
    }
}

/// Walk a secondary unit.
fn walk_secondary_unit<V: Visitor>(
    visitor: &mut V,
    unit: &AnySecondaryUnit,
    design_unit: &AnyDesignUnit,
) -> VisitorResult {
    match unit {
        AnySecondaryUnit::Architecture(arch) => {
            if !visitor.visit_architecture(arch).should_continue() {
                return VisitorResult::Stop;
            }
            walk_declarations(visitor, &arch.decl, design_unit)
        },
        AnySecondaryUnit::PackageBody(body) => {
            if !visitor.visit_package_body(body).should_continue() {
                return VisitorResult::Stop;
            }
            walk_declarations(visitor, &body.decl, design_unit)
        },
    }
}

/// Walk a list of declarations.
fn walk_declarations<V: Visitor>(
    visitor: &mut V,
    decls: &Vec<Declaration>,
    unit: &AnyDesignUnit,
) -> (r: VisitorResult)
    decreases decls,
{
    let mut i: usize = 0;
    while i < decls.len()
        decreases decls.len() - i,
    {
        if !walk_declaration(visitor, &decls[i], unit).should_continue() {
            return VisitorResult::Stop;
        }
        i = i + 1;
    }
    VisitorResult::Continue
}

/// Walk a single declaration, dispatching to its specific visitor.
fn walk_declaration<V: Visitor>(
    visitor: &mut V,
    decl: &Declaration,
    unit: &AnyDesignUnit,
) -> (r: VisitorResult)
    decreases decl,
{
    if !visitor.visit_declaration(decl, unit).should_continue() {
        return VisitorResult::Stop;
    }
    match decl {
        Declaration::Type(type_decl) => visitor.visit_type_declaration(type_decl, unit),
        Declaration::Component(comp) => visitor.visit_component(comp, unit),
        Declaration::AttributeDeclaration(attr) => visitor.visit_attribute_declaration(attr, unit),
        Declaration::AttributeSpecification(spec) => visitor.visit_attribute_specification(
            spec,
            unit,
        ),
        Declaration::SubprogramDeclaration(subp) => visitor.visit_subprogram_declaration(
            subp,
            unit,
        ),
        Declaration::SubprogramBody(body) => {
            if !visitor.visit_subprogram_body(body, unit).should_continue() {
                return VisitorResult::Stop;
            }
            walk_declarations(visitor, &body.declarations, unit)
        },
        Declaration::SubprogramInstantiation(inst) => visitor.visit_subprogram_instantiation(
            inst,
            unit,
        ),
        Declaration::Other => VisitorResult::Continue,
    }
}

} // verus!
