use vw_lib::{Credentials, VwError};

#[test]
fn usage_error_messages_name_the_offender() {
    let e = VwError::UnknownTaggedType { name: "eth_hdr".to_string() };
    assert_eq!(e.message(), "Tagged type with name eth_hdr not supported");

    let e = VwError::UnconstrainedField { record: "r1".to_string(), field: "payload".to_string() };
    assert_eq!(
        e.message(),
        "All fields in serialized structs must be constrained. Found unconstrained field payload in record r1"
    );

    let e = VwError::UntaggedSubtype { name: "inner".to_string() };
    assert_eq!(e.message(), "Subtype inner not tagged for serialization. Please tag it");

    let e = VwError::NotInPackage { record: "r".to_string() };
    assert_eq!(
        e.message(),
        "Serialization not supported for records not in packages. Record : r"
    );
}

#[test]
fn internal_error_messages_point_at_the_artifact() {
    let e = VwError::MalformedOracleLine { line_index: 3 };
    assert_eq!(e.message(), "Unparseable simulation output at line 3. Look at sim.out");

    let e = VwError::OracleIndexOutOfRange { index: 12 };
    assert_eq!(e.message(), "Simulation output names expression index 12 which does not exist");

    let e = VwError::UnresolvedBound { record: "r".to_string(), field: "f".to_string() };
    assert_eq!(e.message(), "Unresolved range bound for field f in record r");
}

#[test]
fn stage_error_messages_carry_command_and_captured_output() {
    let e = VwError::NvcAnalysis {
        library: "generated".to_string(),
        command: "nvc -a x.vhd".to_string(),
        stdout: b"analyzing".to_vec(),
        stderr: b"x.vhd:1: error".to_vec(),
    };
    assert_eq!(
        e.message(),
        "NVC analysis failed for library 'generated'\ncommand:\nnvc -a x.vhd\nstdout:\nanalyzing\nstderr:\nx.vhd:1: error"
    );

    let e = VwError::NvcElab {
        command: "nvc -e tb".to_string(),
        stdout: Vec::new(),
        stderr: b"no unit tb".to_vec(),
    };
    assert_eq!(
        e.message(),
        "NVC elaboration failed\ncommand:\nnvc -e tb\nstdout:\n\nstderr:\nno unit tb"
    );

    let e = VwError::NvcSimulation {
        command: "nvc -r tb".to_string(),
        stdout: Vec::new(),
        stderr: Vec::new(),
    };
    assert_eq!(
        e.message(),
        "NVC simulation failed\ncommand:\nnvc -r tb\nstdout:\n\nstderr:\n"
    );
}

#[test]
fn codegen_error_messages() {
    let e = VwError::InvalidWidth { record: "r".to_string(), field: "f".to_string() };
    assert_eq!(e.message(), "Resolved bounds give no valid width for field f in record r");

    let e = VwError::CodeGenParse { message: "expected identifier".to_string() };
    assert_eq!(e.message(), "Failed to parse generated code: expected identifier");
}

#[test]
fn credentials_keep_their_parts() {
    let c = Credentials::new("user".to_string(), "token-value".to_string());
    assert_eq!(c.username, "user");
    assert_eq!(c.password, "token-value");
    let d = c.clone();
    assert_eq!(d.username, "user");
}
