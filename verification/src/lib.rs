//! Schema compiler core: turns tagged VHDL record types into bit-exact
//! software struct definitions, resolving symbolic range bounds through
//! an external simulator used as a constant-evaluation oracle.

use vstd::prelude::*;

pub mod anodizer;
pub mod ast;
pub mod codegen;
pub mod mapping;
pub mod nvc_helpers;
pub mod text;
pub mod vhdl_printer;
pub mod visitor;

verus! {

use vstd::string::StringExecFns;

/// The VHDL language revision handed to the simulator.
#[derive(Debug, Clone, Copy, PartialEq, Eq, Structural)]
pub enum VhdlStandard {
    Vhdl2008,
    Vhdl2019,
}

impl VhdlStandard {
    /// The revision's spelling on the simulator command line.
    pub fn as_str(&self) -> (r: &'static str)
        ensures
            *self == VhdlStandard::Vhdl2008 ==> r@ == "2008"@,
            *self == VhdlStandard::Vhdl2019 ==> r@ == "2019"@,
    {
        match self {
            VhdlStandard::Vhdl2008 => "2008",
            VhdlStandard::Vhdl2019 => "2019",
        }
    }
}

/// An error of the schema compiler.
///
/// Usage errors name the offending type, record or field; stage errors
/// carry the full simulator command line; internal-consistency errors
/// point at the defective pipeline artifact.
#[derive(Debug)]
pub enum VwError {
    /// A name was tagged for struct generation but no record with that
    /// name was found.
    UnknownTaggedType { name: String },
    /// A tagged record is not declared inside a package.
    NotInPackage { record: String },
    /// A vector field carries no range constraint.
    UnconstrainedField { record: String, field: String },
    /// A field's subtype is neither scalar nor vector nor a tagged name.
    UntaggedSubtype { name: String },
    /// A record element has a shape the compiler cannot read.
    UnsupportedElement { record: String },
    /// A record element's constraint has a shape the compiler cannot read.
    UnsupportedConstraint { record: String },
    /// A captured simulator output line does not match `EXPR_<index>: <integer>`.
    MalformedOracleLine { line_index: usize },
    /// A simulator output line names an expression index that was never emitted.
    OracleIndexOutOfRange { index: usize },
    /// A range bound was still unresolved after every answer was applied.
    UnresolvedBound { record: String, field: String },
    /// The analysis stage of the simulator failed; the captured output
    /// of the failing invocation is attached.
    NvcAnalysis { library: String, command: String, stdout: Vec<u8>, stderr: Vec<u8> },
    /// The elaboration stage of the simulator failed; the captured
    /// output of the failing invocation is attached.
    NvcElab { command: String, stdout: Vec<u8>, stderr: Vec<u8> },
    /// The simulation stage of the simulator failed; the captured
    /// output of the failing invocation is attached.
    NvcSimulation { command: String, stdout: Vec<u8>, stderr: Vec<u8> },
    /// Resolved bounds admit no valid bit width.
    InvalidWidth { record: String, field: String },
    /// A record, field or subtype name is not a plain identifier and
    /// cannot be spliced into generated code.
    InvalidIdentifier { name: String },
    /// The generated code failed to parse.
    CodeGenParse { message: String },
}

/// The view of a [`VwError`]: the same variants over text views.
pub ghost enum VwErrorV {
    UnknownTaggedType { name: Seq<char> },
    NotInPackage { record: Seq<char> },
    UnconstrainedField { record: Seq<char>, field: Seq<char> },
    UntaggedSubtype { name: Seq<char> },
    UnsupportedElement { record: Seq<char> },
    UnsupportedConstraint { record: Seq<char> },
    MalformedOracleLine { line_index: usize },
    OracleIndexOutOfRange { index: usize },
    UnresolvedBound { record: Seq<char>, field: Seq<char> },
    NvcAnalysis { library: Seq<char>, command: Seq<char>, stdout: Seq<u8>, stderr: Seq<u8> },
    NvcElab { command: Seq<char>, stdout: Seq<u8>, stderr: Seq<u8> },
    NvcSimulation { command: Seq<char>, stdout: Seq<u8>, stderr: Seq<u8> },
    InvalidWidth { record: Seq<char>, field: Seq<char> },
    InvalidIdentifier { name: Seq<char> },
    CodeGenParse { message: Seq<char> },
}

impl View for VwError {
    type V = VwErrorV;

    open spec fn view(&self) -> VwErrorV {
        match self {
            VwError::UnknownTaggedType { name } => VwErrorV::UnknownTaggedType { name: name@ },
            VwError::NotInPackage { record } => VwErrorV::NotInPackage { record: record@ },
            VwError::UnconstrainedField { record, field } => VwErrorV::UnconstrainedField {
                record: record@,
                field: field@,
            },
            VwError::UntaggedSubtype { name } => VwErrorV::UntaggedSubtype { name: name@ },
            VwError::UnsupportedElement { record } => VwErrorV::UnsupportedElement {
                record: record@,
            },
            VwError::UnsupportedConstraint { record } => VwErrorV::UnsupportedConstraint {
                record: record@,
            },
            VwError::MalformedOracleLine { line_index } => VwErrorV::MalformedOracleLine {
                line_index: *line_index,
            },
            VwError::OracleIndexOutOfRange { index } => VwErrorV::OracleIndexOutOfRange {
                index: *index,
            },
            VwError::UnresolvedBound { record, field } => VwErrorV::UnresolvedBound {
                record: record@,
                field: field@,
            },
            VwError::NvcAnalysis { library, command, stdout, stderr } => VwErrorV::NvcAnalysis {
                library: library@,
                command: command@,
                stdout: stdout@,
                stderr: stderr@,
            },
            VwError::NvcElab { command, stdout, stderr } => VwErrorV::NvcElab {
                command: command@,
                stdout: stdout@,
                stderr: stderr@,
            },
            VwError::NvcSimulation { command, stdout, stderr } => VwErrorV::NvcSimulation {
                command: command@,
                stdout: stdout@,
                stderr: stderr@,
            },
            VwError::InvalidWidth { record, field } => VwErrorV::InvalidWidth {
                record: record@,
                field: field@,
            },
            VwError::InvalidIdentifier { name } => VwErrorV::InvalidIdentifier { name: name@ },
            VwError::CodeGenParse { message } => VwErrorV::CodeGenParse { message: message@ },
        }
    }
}

/// The rendered diagnostic text of an error.
pub open spec fn spec_error_message(e: VwError) -> Seq<char> {
    match e {
        VwError::UnknownTaggedType { name } => "Tagged type with name "@ + name@
            + " not supported"@,
        VwError::NotInPackage { record } =>
            "Serialization not supported for records not in packages. Record : "@ + record@,
        VwError::UnconstrainedField { record, field } =>
            "All fields in serialized structs must be constrained. Found unconstrained field "@
            + field@ + " in record "@ + record@,
        VwError::UntaggedSubtype { name } => "Subtype "@ + name@
            + " not tagged for serialization. Please tag it"@,
        VwError::UnsupportedElement { record } => "Unsupported element declaration shape in record "@
            + record@,
        VwError::UnsupportedConstraint { record } => "Unsupported constraint shape in record "@
            + record@,
        VwError::MalformedOracleLine { line_index } =>
            "Unparseable simulation output at line "@ + text::spec_dec(line_index as nat)
            + ". Look at sim.out"@,
        VwError::OracleIndexOutOfRange { index } => "Simulation output names expression index "@
            + text::spec_dec(index as nat) + " which does not exist"@,
        VwError::UnresolvedBound { record, field } => "Unresolved range bound for field "@
            + field@ + " in record "@ + record@,
        VwError::NvcAnalysis { library, command, stdout, stderr } =>
            "NVC analysis failed for library '"@ + library@ + "'\ncommand:\n"@ + command@
            + "\nstdout:\n"@ + text::latin1_view(stdout@) + "\nstderr:\n"@ + text::latin1_view(
            stderr@,
        ),
        VwError::NvcElab { command, stdout, stderr } => "NVC elaboration failed\ncommand:\n"@
            + command@ + "\nstdout:\n"@ + text::latin1_view(stdout@) + "\nstderr:\n"@
            + text::latin1_view(stderr@),
        VwError::NvcSimulation { command, stdout, stderr } => "NVC simulation failed\ncommand:\n"@
            + command@ + "\nstdout:\n"@ + text::latin1_view(stdout@) + "\nstderr:\n"@
            + text::latin1_view(stderr@),
        VwError::InvalidWidth { record, field } => "Resolved bounds give no valid width for field "@
            + field@ + " in record "@ + record@,
        VwError::InvalidIdentifier { name } => "Name is not a plain identifier usable in generated code: "@
            + name@,
        VwError::CodeGenParse { message } => "Failed to parse generated code: "@ + message@,
    }
}

impl VwError {
    /// Render the error as diagnostic text.
    pub fn message(&self) -> (r: String)
        ensures
            r@ == spec_error_message(*self),
    {
        match self {
            VwError::UnknownTaggedType { name } => {
                let mut r = "Tagged type with name ".to_owned();
                r.append(name.as_str());
                r.append(" not supported");
                r
            },
            VwError::NotInPackage { record } => {
                let mut r =
                    "Serialization not supported for records not in packages. Record : ".to_owned();
                r.append(record.as_str());
                r
            },
            VwError::UnconstrainedField { record, field } => {
                let mut r =
                    "All fields in serialized structs must be constrained. Found unconstrained field ".to_owned();
                r.append(field.as_str());
                r.append(" in record ");
                r.append(record.as_str());
                r
            },
            VwError::UntaggedSubtype { name } => {
                let mut r = "Subtype ".to_owned();
                r.append(name.as_str());
                r.append(" not tagged for serialization. Please tag it");
                r
            },
            VwError::UnsupportedElement { record } => {
                let mut r = "Unsupported element declaration shape in record ".to_owned();
                r.append(record.as_str());
                r
            },
            VwError::UnsupportedConstraint { record } => {
                let mut r = "Unsupported constraint shape in record ".to_owned();
                r.append(record.as_str());
                r
            },
            VwError::MalformedOracleLine { line_index } => {
                let mut r = "Unparseable simulation output at line ".to_owned();
                r.append(text::dec_string(*line_index).as_str());
                r.append(". Look at sim.out");
                r
            },
            VwError::OracleIndexOutOfRange { index } => {
                let mut r = "Simulation output names expression index ".to_owned();
                r.append(text::dec_string(*index).as_str());
                r.append(" which does not exist");
                r
            },
            VwError::UnresolvedBound { record, field } => {
                let mut r = "Unresolved range bound for field ".to_owned();
                r.append(field.as_str());
                r.append(" in record ");
                r.append(record.as_str());
                r
            },
            VwError::NvcAnalysis { library, command, stdout, stderr } => {
                let mut r = "NVC analysis failed for library '".to_owned();
                r.append(library.as_str());
                r.append("'\ncommand:\n");
                r.append(command.as_str());
                r.append("\nstdout:\n");
                r.append(text::latin1_string(stdout).as_str());
                r.append("\nstderr:\n");
                r.append(text::latin1_string(stderr).as_str());
                r
            },
            VwError::NvcElab { command, stdout, stderr } => {
                let mut r = "NVC elaboration failed\ncommand:\n".to_owned();
                r.append(command.as_str());
                r.append("\nstdout:\n");
                r.append(text::latin1_string(stdout).as_str());
                r.append("\nstderr:\n");
                r.append(text::latin1_string(stderr).as_str());
                r
            },
            VwError::NvcSimulation { command, stdout, stderr } => {
                let mut r = "NVC simulation failed\ncommand:\n".to_owned();
                r.append(command.as_str());
                r.append("\nstdout:\n");
                r.append(text::latin1_string(stdout).as_str());
                r.append("\nstderr:\n");
                r.append(text::latin1_string(stderr).as_str());
                r
            },
            VwError::InvalidWidth { record, field } => {
                let mut r = "Resolved bounds give no valid width for field ".to_owned();
                r.append(field.as_str());
                r.append(" in record ");
                r.append(record.as_str());
                r
            },
            VwError::InvalidIdentifier { name } => {
                let mut r = "Name is not a plain identifier usable in generated code: ".to_owned();
                r.append(name.as_str());
                r
            },
            VwError::CodeGenParse { message } => {
                let mut r = "Failed to parse generated code: ".to_owned();
                r.append(message.as_str());
                r
            },
        }
    }
}

/// Username and password pair for authenticating with a git host.
#[derive(Debug)]
pub struct Credentials {
    pub username: String,
    pub password: String,
}

impl Clone for Credentials {
    fn clone(&self) -> (res: Self)
        ensures
            res == *self,
    {
        Credentials { username: self.username.clone(), password: self.password.clone() }
    }
}

impl Credentials {
    /// Create new credentials from username and password.
    pub fn new(username: String, password: String) -> (r: Self)
        ensures
            r.username@ == username@,
            r.password@ == password@,
    {
        Credentials { username, password }
    }
}

} // verus!
