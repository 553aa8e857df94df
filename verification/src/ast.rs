//! Plain-value model of the parsed VHDL design-unit tree.
//!
//! The external front end hands the compiler a parsed AST.  This module
//! holds the compiler's own representation of exactly the node shapes the
//! compiler reads: expressions appearing in range bounds, record type
//! declarations, attribute specifications that tag types, and the
//! design-unit structure that is walked to find them.  Node shapes that
//! the compiler has no representation for are kept as explicit
//! `Unsupported` (or `Other`) variants so that traversal and printing are
//! total and never fail.

use vstd::prelude::*;

verus! {

/// A unary operator of a VHDL expression.
#[derive(Debug, Clone, Copy, PartialEq, Eq, Structural)]
pub enum VhdlUnaryOp {
    Plus,
    Minus,
    Not,
    Abs,
    /// The condition operator `??`
    Condition,
}

/// A binary operator of a VHDL expression.
#[derive(Debug, Clone, Copy, PartialEq, Eq, Structural)]
pub enum VhdlBinaryOp {
    And,
    Or,
    Nand,
    Nor,
    Xor,
    Xnor,
    Equal,
    NotEqual,
    Less,
    LessEqual,
    Greater,
    GreaterEqual,
    /// The matching relational operator `?=`
    MatchEqual,
    MatchNotEqual,
    MatchLess,
    MatchLessEqual,
    MatchGreater,
    MatchGreaterEqual,
    ShiftLeftLogical,
    ShiftRightLogical,
    ShiftLeftArith,
    ShiftRightArith,
    RotateLeft,
    RotateRight,
    Concat,
    Plus,
    Minus,
    Times,
    Divide,
    Modulo,
    Remainder,
    Power,
}

/// A literal of a VHDL expression.
///
/// Only integer literals are inspected by the compiler (a bound that is a
/// plain integer literal needs no oracle round-trip).  The remaining
/// literal kinds are carried as their already-rendered source text, since
/// the compiler only ever prints them back.
#[derive(Debug)]
pub enum VhdlLiteral {
    Integer(u64),
    /// A real literal, carried as rendered text.
    Real(String),
    /// A string literal (without the surrounding quotes).
    Text(String),
    /// A bit-string literal, carried as rendered text.
    BitText(String),
    Character(char),
    /// A physical literal, carried as rendered text.
    Physical(String),
    Null,
}

/// A designator: the final identifying token of a name.
#[derive(Debug)]
pub enum VhdlDesignator {
    Identifier(String),
    OperatorSymbol,
    Character(char),
    Anonymous,
}

/// A VHDL name as it may appear inside a bound expression.
#[derive(Debug)]
pub enum VhdlName {
    Designator(VhdlDesignator),
    /// `prefix.suffix`
    Selected(Box<VhdlName>, VhdlDesignator),
    /// `prefix.all`
    SelectedAll(Box<VhdlName>),
    /// A call or indexed name, reduced to its callee/prefix name.
    CallOrIndexed(Box<VhdlName>),
    /// A name shape the compiler has no representation for.
    Unsupported,
}

/// A VHDL expression as it may appear in a range bound.
#[derive(Debug)]
pub enum VhdlExpr {
    Literal(VhdlLiteral),
    Name(Box<VhdlName>),
    Binary(VhdlBinaryOp, Box<VhdlExpr>, Box<VhdlExpr>),
    Unary(VhdlUnaryOp, Box<VhdlExpr>),
    Parenthesized(Box<VhdlExpr>),
    /// An expression shape the compiler has no representation for.
    Unsupported,
}

/// A range constraint `left_expr to/downto right_expr`.
#[derive(Debug)]
pub struct RangeConstraint {
    pub left_expr: VhdlExpr,
    pub right_expr: VhdlExpr,
}

/// One index range of an array constraint.
#[derive(Debug)]
pub enum DiscreteRange {
    Bounds(RangeConstraint),
    /// A range shape the compiler has no representation for.
    Unsupported,
}

/// The constraint part of a subtype indication.
#[derive(Debug)]
pub enum SubtypeConstraint {
    Array(Vec<DiscreteRange>),
    /// A constraint shape the compiler has no representation for.
    Unsupported,
}

/// A subtype indication: a type mark with an optional constraint.
#[derive(Debug)]
pub struct SubtypeIndication {
    pub type_mark: VhdlName,
    pub constraint: Option<SubtypeConstraint>,
}

/// One element declaration of a record type definition.
#[derive(Debug)]
pub struct ElementDeclaration {
    pub idents: Vec<String>,
    pub subtype: SubtypeIndication,
}

/// A type definition; only record definitions are inspected.
#[derive(Debug)]
pub enum TypeDefinition {
    Record(Vec<ElementDeclaration>),
    Other,
}

/// A type declaration.
#[derive(Debug)]
pub struct TypeDeclaration {
    pub ident: String,
    pub def: TypeDefinition,
}

/// The entity class named by an attribute specification; only `type`
/// targets are inspected.
#[derive(Debug, Clone, Copy, PartialEq, Eq, Structural)]
pub enum EntityClass {
    Type,
    Other,
}

/// The target name of an attribute specification.
#[derive(Debug)]
pub enum EntityName {
    Name(VhdlDesignator),
    Other,
}

/// An attribute specification `attribute ident of entity_name : class is ...`.
#[derive(Debug)]
pub struct AttributeSpecification {
    pub ident: String,
    pub entity_class: EntityClass,
    pub entity_name: EntityName,
}

/// An attribute declaration `attribute ident : type`.
#[derive(Debug)]
pub struct AttributeDeclaration {
    pub ident: String,
}

/// A component declaration.
#[derive(Debug)]
pub struct ComponentDeclaration {
    pub ident: String,
}

/// A subprogram declaration (function/procedure specification).
#[derive(Debug)]
pub struct SubprogramDeclaration {
    pub ident: String,
}

/// A subprogram body; its local declarations are walked recursively.
#[derive(Debug)]
pub struct SubprogramBody {
    pub ident: String,
    pub declarations: Vec<Declaration>,
}

/// A subprogram instantiation.
#[derive(Debug)]
pub struct SubprogramInstantiation {
    pub ident: String,
}

/// A declaration appearing in a design unit or a subprogram body.
#[derive(Debug)]
pub enum Declaration {
    Type(TypeDeclaration),
    Component(ComponentDeclaration),
    AttributeDeclaration(AttributeDeclaration),
    AttributeSpecification(AttributeSpecification),
    SubprogramDeclaration(SubprogramDeclaration),
    SubprogramBody(SubprogramBody),
    SubprogramInstantiation(SubprogramInstantiation),
    /// A declaration kind the compiler does not inspect.
    Other,
}

/// An entity declaration.
#[derive(Debug)]
pub struct EntityDeclaration {
    pub ident: String,
    pub decl: Vec<Declaration>,
}

/// A package declaration.
#[derive(Debug)]
pub struct PackageDeclaration {
    pub ident: String,
    pub decl: Vec<Declaration>,
}

/// A package instantiation.
#[derive(Debug)]
pub struct PackageInstantiation {
    pub ident: String,
}

/// A context declaration.
#[derive(Debug)]
pub struct ContextDeclaration {
    pub ident: String,
}

/// A configuration declaration.
#[derive(Debug)]
pub struct ConfigurationDeclaration {
    pub ident: String,
}

/// An architecture body.
#[derive(Debug)]
pub struct ArchitectureBody {
    pub ident: String,
    pub decl: Vec<Declaration>,
}

/// A package body.
#[derive(Debug)]
pub struct PackageBody {
    pub ident: String,
    pub decl: Vec<Declaration>,
}

/// A primary design unit.
#[derive(Debug)]
pub enum AnyPrimaryUnit {
    Entity(EntityDeclaration),
    Package(PackageDeclaration),
    PackageInstance(PackageInstantiation),
    Context(ContextDeclaration),
    Configuration(ConfigurationDeclaration),
}

/// A secondary design unit.
#[derive(Debug)]
pub enum AnySecondaryUnit {
    Architecture(ArchitectureBody),
    PackageBody(PackageBody),
}

/// Any design unit.
#[derive(Debug)]
pub enum AnyDesignUnit {
    Primary(AnyPrimaryUnit),
    Secondary(AnySecondaryUnit),
}

/// A parsed design file: an ordered list of design units.
#[derive(Debug)]
pub struct DesignFile {
    pub design_units: Vec<AnyDesignUnit>,
}

impl Clone for VhdlLiteral {
    fn clone(&self) -> (res: Self)
        ensures
            res == *self,
    {
        match self {
            VhdlLiteral::Integer(v) => VhdlLiteral::Integer(*v),
            VhdlLiteral::Real(s) => VhdlLiteral::Real(s.clone()),
            VhdlLiteral::Text(s) => VhdlLiteral::Text(s.clone()),
            VhdlLiteral::BitText(s) => VhdlLiteral::BitText(s.clone()),
            VhdlLiteral::Character(c) => VhdlLiteral::Character(*c),
            VhdlLiteral::Physical(s) => VhdlLiteral::Physical(s.clone()),
            VhdlLiteral::Null => VhdlLiteral::Null,
        }
    }
}

impl Clone for VhdlDesignator {
    fn clone(&self) -> (res: Self)
        ensures
            res == *self,
    {
        match self {
            VhdlDesignator::Identifier(s) => VhdlDesignator::Identifier(s.clone()),
            VhdlDesignator::OperatorSymbol => VhdlDesignator::OperatorSymbol,
            VhdlDesignator::Character(c) => VhdlDesignator::Character(*c),
            VhdlDesignator::Anonymous => VhdlDesignator::Anonymous,
        }
    }
}

impl Clone for VhdlName {
    fn clone(&self) -> (res: Self)
        ensures
            res == *self,
        decreases self,
    {
        match self {
            VhdlName::Designator(d) => VhdlName::Designator(d.clone()),
            VhdlName::Selected(prefix, suffix) => VhdlName::Selected(
                Box::new((**prefix).clone()),
                suffix.clone(),
            ),
            VhdlName::SelectedAll(prefix) => VhdlName::SelectedAll(Box::new((**prefix).clone())),
            VhdlName::CallOrIndexed(name) => VhdlName::CallOrIndexed(Box::new((**name).clone())),
            VhdlName::Unsupported => VhdlName::Unsupported,
        }
    }
}

impl Clone for VhdlExpr {
    fn clone(&self) -> (res: Self)
        ensures
            res == *self,
        decreases self,
    {
        match self {
            VhdlExpr::Literal(lit) => VhdlExpr::Literal(lit.clone()),
            VhdlExpr::Name(name) => VhdlExpr::Name(Box::new((**name).clone())),
            VhdlExpr::Binary(op, left, right) => VhdlExpr::Binary(
                *op,
                Box::new((**left).clone()),
                Box::new((**right).clone()),
            ),
            VhdlExpr::Unary(op, operand) => VhdlExpr::Unary(*op, Box::new((**operand).clone())),
            VhdlExpr::Parenthesized(inner) => VhdlExpr::Parenthesized(
                Box::new((**inner).clone()),
            ),
            VhdlExpr::Unsupported => VhdlExpr::Unsupported,
        }
    }
}

impl Clone for RangeConstraint {
    fn clone(&self) -> (res: Self)
        ensures
            res == *self,
    {
        RangeConstraint { left_expr: self.left_expr.clone(), right_expr: self.right_expr.clone() }
    }
}

} // verus!
