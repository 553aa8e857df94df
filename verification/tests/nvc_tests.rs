use vw_lib::nvc_helpers::{
    advance_pipeline, get_base_nvc_cmd_args, nvc_analysis_args, nvc_command_line, nvc_elab_args,
    nvc_sim_args, stage_log_basename, PipelineState,
};
use vw_lib::{VhdlStandard, VwError};

#[test]
fn base_args_are_exact() {
    let args = get_base_nvc_cmd_args(
        VhdlStandard::Vhdl2019,
        &"build".to_string(),
        &"generated".to_string(),
    );
    assert_eq!(args, vec!["--std=2019", "--work=build/generated", "-M", "256m", "-L", "build"]);
}

#[test]
fn standard_spelling() {
    assert_eq!(VhdlStandard::Vhdl2008.as_str(), "2008");
    assert_eq!(VhdlStandard::Vhdl2019.as_str(), "2019");
}

#[test]
fn analysis_args_append_dash_a_and_files() {
    let files = vec!["a.vhd".to_string(), "b.vhd".to_string()];
    let args = nvc_analysis_args(
        VhdlStandard::Vhdl2019,
        &"build".to_string(),
        &"generated".to_string(),
        &files,
    );
    assert_eq!(
        args,
        vec!["--std=2019", "--work=build/generated", "-M", "256m", "-L", "build", "-a", "a.vhd",
            "b.vhd"]
    );
}

#[test]
fn elab_args_bind_the_unit() {
    let args = nvc_elab_args(
        VhdlStandard::Vhdl2019,
        &"build".to_string(),
        &"generated".to_string(),
        &"constraint_evaluator".to_string(),
    );
    assert_eq!(
        args,
        vec!["--std=2019", "--work=build/generated", "-M", "256m", "-L", "build", "-e",
            "constraint_evaluator"]
    );
}

#[test]
fn sim_args_carry_wave_dump_and_optional_load() {
    let args = nvc_sim_args(
        VhdlStandard::Vhdl2019,
        &"build".to_string(),
        &"generated".to_string(),
        &"constraint_evaluator".to_string(),
        &None,
        &vec![],
    );
    assert_eq!(
        args,
        vec!["--std=2019", "--work=build/generated", "-M", "256m", "-L", "build", "-r",
            "constraint_evaluator", "--dump-arrays", "--format=fst",
            "--wave=constraint_evaluator.fst"]
    );
    let with_load = nvc_sim_args(
        VhdlStandard::Vhdl2008,
        &"b".to_string(),
        &"l".to_string(),
        &"tb".to_string(),
        &Some("libgpi.so".to_string()),
        &vec!["--stop-time=1ns".to_string()],
    );
    assert_eq!(
        with_load,
        vec!["--std=2008", "--work=b/l", "-M", "256m", "-L", "b", "-r", "tb", "--stop-time=1ns",
            "--dump-arrays", "--format=fst", "--wave=tb.fst", "--load=libgpi.so"]
    );
}

#[test]
fn command_line_renders_for_diagnostics() {
    let args = vec!["--std=2019".to_string(), "-a".to_string(), "x.vhd".to_string()];
    assert_eq!(nvc_command_line(&args), "nvc --std=2019 -a x.vhd");
}

#[test]
fn successful_stages_advance_in_order() {
    let lib = "generated".to_string();
    let cmd = "nvc -a x.vhd".to_string();
    let out: Vec<u8> = Vec::new();
    let err: Vec<u8> = Vec::new();
    let s1 = advance_pipeline(PipelineState::AwaitingAnalysis, true, &lib, &cmd, &out, &err)
        .unwrap();
    assert_eq!(s1, PipelineState::AwaitingElaboration);
    let s2 = advance_pipeline(s1, true, &lib, &cmd, &out, &err).unwrap();
    assert_eq!(s2, PipelineState::AwaitingSimulation);
    let s3 = advance_pipeline(s2, true, &lib, &cmd, &out, &err).unwrap();
    assert_eq!(s3, PipelineState::Complete);
}

#[test]
fn analysis_failure_carries_command_and_captured_output() {
    let lib = "generated".to_string();
    let cmd = "nvc -a broken.vhd".to_string();
    let out = b"parsing broken.vhd".to_vec();
    let err = b"broken.vhd:3: syntax error".to_vec();
    match advance_pipeline(PipelineState::AwaitingAnalysis, false, &lib, &cmd, &out, &err) {
        Err(VwError::NvcAnalysis { library, command, stdout, stderr }) => {
            assert_eq!(library, "generated");
            assert_eq!(command, "nvc -a broken.vhd");
            assert_eq!(stdout, b"parsing broken.vhd".to_vec());
            assert_eq!(stderr, b"broken.vhd:3: syntax error".to_vec());
        },
        other => panic!("expected NvcAnalysis, got {:?}", other.map(|_| ())),
    }
}

#[test]
fn elab_and_sim_failures_name_their_stages() {
    let lib = "generated".to_string();
    let cmd = "nvc -e tb".to_string();
    let out = b"o".to_vec();
    let err = b"e".to_vec();
    match advance_pipeline(PipelineState::AwaitingElaboration, false, &lib, &cmd, &out, &err) {
        Err(VwError::NvcElab { command, stdout, stderr }) => {
            assert_eq!(command, "nvc -e tb");
            assert_eq!(stdout, b"o".to_vec());
            assert_eq!(stderr, b"e".to_vec());
        },
        other => panic!("expected NvcElab, got {:?}", other.map(|_| ())),
    }
    match advance_pipeline(PipelineState::AwaitingSimulation, false, &lib, &cmd, &out, &err) {
        Err(VwError::NvcSimulation { command, .. }) => assert_eq!(command, "nvc -e tb"),
        other => panic!("expected NvcSimulation, got {:?}", other.map(|_| ())),
    }
}

#[test]
fn stage_logs_are_predictably_named() {
    assert_eq!(stage_log_basename(PipelineState::AwaitingAnalysis), "analysis");
    assert_eq!(stage_log_basename(PipelineState::AwaitingElaboration), "elab");
    assert_eq!(stage_log_basename(PipelineState::AwaitingSimulation), "sim");
}
