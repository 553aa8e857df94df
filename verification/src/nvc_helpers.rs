//! The toolchain-runner contract: exact simulator command lines for the
//! three pipeline stages, and the stage-ordering state machine.
//!
//! The three stages run strictly in sequence: analyze all referenced
//! sources plus the synthesized program, elaborate the synthesized
//! top-level unit, then run it just long enough to flush its writes.
//! The surrounding tooling executes each command and hands the captured
//! outcome back; [`advance_pipeline`] decides whether the pipeline may
//! proceed, and a failing stage aborts with an error attributable to
//! exactly that stage, carrying the full command line.

use vstd::prelude::*;

use crate::{VhdlStandard, VwError, VwErrorV};
use crate::text::{copy_bytes, join_space, spec_join_space};

verus! {

use vstd::string::StringExecFns;

/// The command-line spelling of a VHDL revision.
pub open spec fn spec_std_text(std: VhdlStandard) -> Seq<char> {
    match std {
        VhdlStandard::Vhdl2008 => "2008"@,
        VhdlStandard::Vhdl2019 => "2019"@,
    }
}

/// The arguments every simulator invocation starts with: the language
/// revision, the work library location, the memory limit, and the
/// search path for previously analyzed libraries.
pub open spec fn spec_base_args(
    std: VhdlStandard,
    build_dir: Seq<char>,
    lib_name: Seq<char>,
) -> Seq<Seq<char>> {
    seq![
        "--std="@ + spec_std_text(std),
        "--work="@ + build_dir + "/"@ + lib_name,
        "-M"@,
        "256m"@,
        "-L"@,
        build_dir,
    ]
}

/// The full argument list of the analysis stage.
pub open spec fn spec_analysis_args(
    std: VhdlStandard,
    build_dir: Seq<char>,
    lib_name: Seq<char>,
    files: Seq<Seq<char>>,
) -> Seq<Seq<char>> {
    spec_base_args(std, build_dir, lib_name) + seq!["-a"@] + files
}

/// The full argument list of the elaboration stage.
pub open spec fn spec_elab_args(
    std: VhdlStandard,
    build_dir: Seq<char>,
    lib_name: Seq<char>,
    testbench_name: Seq<char>,
) -> Seq<Seq<char>> {
    spec_base_args(std, build_dir, lib_name) + seq!["-e"@, testbench_name]
}

/// The full argument list of the simulation stage.
pub open spec fn spec_sim_args(
    std: VhdlStandard,
    build_dir: Seq<char>,
    lib_name: Seq<char>,
    testbench_name: Seq<char>,
    rust_lib_path: Option<Seq<char>>,
    runtime_flags: Seq<Seq<char>>,
) -> Seq<Seq<char>> {
    spec_base_args(std, build_dir, lib_name) + seq!["-r"@, testbench_name] + runtime_flags + seq![
        "--dump-arrays"@,
        "--format=fst"@,
        "--wave="@ + testbench_name + ".fst"@,
    ] + (match rust_lib_path {
        Some(p) => seq!["--load="@ + p],
        None => Seq::empty(),
    })
}

/// The command line rendered for diagnostics.
pub open spec fn spec_command_line(args: Seq<Seq<char>>) -> Seq<char> {
    "nvc "@ + spec_join_space(args)
}

/// Build the arguments every simulator invocation starts with.
pub fn get_base_nvc_cmd_args(std: VhdlStandard, build_dir: &String, lib_name: &String) -> (r: Vec<
    String,
>)
    ensures
        r.deep_view() =~= spec_base_args(std, build_dir@, lib_name@),
{
    let mut std_arg = "--std=".to_owned();
    std_arg.append(std.as_str());
    let mut work_arg = "--work=".to_owned();
    work_arg.append(build_dir.as_str());
    work_arg.append("/");
    work_arg.append(lib_name.as_str());
    let mut r: Vec<String> = Vec::new();
    r.push(std_arg);
    r.push(work_arg);
    r.push("-M".to_owned());
    r.push("256m".to_owned());
    r.push("-L".to_owned());
    r.push(build_dir.clone());
    r
}

/// Build the analysis-stage argument list.
#[verifier::loop_isolation(false)]
pub fn nvc_analysis_args(
    std: VhdlStandard,
    build_dir: &String,
    lib_name: &String,
    referenced_files: &Vec<String>,
) -> (r: Vec<String>)
    ensures
        r.deep_view() =~= spec_analysis_args(std, build_dir@, lib_name@, referenced_files.deep_view()),
{
    let ghost files = referenced_files.deep_view();
    let mut r = get_base_nvc_cmd_args(std, build_dir, lib_name);
    r.push("-a".to_owned());
    let ghost head = r.deep_view();
    proof {
        assert(head =~= spec_base_args(std, build_dir@, lib_name@) + seq!["-a"@]);
        assert(files.subrange(0, 0) =~= Seq::<Seq<char>>::empty());
        assert(r.deep_view() =~= head + files.subrange(0, 0));
    }
    let mut i: usize = 0;
    while i < referenced_files.len()
        invariant
            i <= files.len(),
            r.deep_view() =~= head + files.subrange(0, i as int),
        decreases files.len() - i,
    {
        let ghost prev = r.deep_view();
        r.push(referenced_files[i].clone());
        proof {
            assert(r.deep_view() =~= prev.push(files[i as int]));
            assert(head + files.subrange(0, i + 1) =~= (head + files.subrange(0, i as int)).push(
                files[i as int],
            ));
        }
        i = i + 1;
    }
    proof {
        assert(files.subrange(0, files.len() as int) =~= files);
    }
    r
}

/// Build the elaboration-stage argument list.
pub fn nvc_elab_args(
    std: VhdlStandard,
    build_dir: &String,
    lib_name: &String,
    testbench_name: &String,
) -> (r: Vec<String>)
    ensures
        r.deep_view() =~= spec_elab_args(std, build_dir@, lib_name@, testbench_name@),
{
    let mut r = get_base_nvc_cmd_args(std, build_dir, lib_name);
    r.push("-e".to_owned());
    r.push(testbench_name.clone());
    r
}

/// Build the simulation-stage argument list.
#[verifier::loop_isolation(false)]
pub fn nvc_sim_args(
    std: VhdlStandard,
    build_dir: &String,
    lib_name: &String,
    testbench_name: &String,
    rust_lib_path: &Option<String>,
    runtime_flags: &Vec<String>,
) -> (r: Vec<String>)
    ensures
        r.deep_view() =~= spec_sim_args(
            std,
            build_dir@,
            lib_name@,
            testbench_name@,
            match rust_lib_path {
                Some(p) => Some(p@),
                None => None,
            },
            runtime_flags.deep_view(),
        ),
{
    let ghost flags = runtime_flags.deep_view();
    let mut r = get_base_nvc_cmd_args(std, build_dir, lib_name);
    r.push("-r".to_owned());
    r.push(testbench_name.clone());
    let ghost head = r.deep_view();
    proof {
        assert(head =~= spec_base_args(std, build_dir@, lib_name@) + seq!["-r"@, testbench_name@]);
        assert(flags.subrange(0, 0) =~= Seq::<Seq<char>>::empty());
        assert(r.deep_view() =~= head + flags.subrange(0, 0));
    }
    let mut i: usize = 0;
    while i < runtime_flags.len()
        invariant
            i <= flags.len(),
            r.deep_view() =~= head + flags.subrange(0, i as int),
        decreases flags.len() - i,
    {
        let ghost prev = r.deep_view();
        r.push(runtime_flags[i].clone());
        proof {
            assert(r.deep_view() =~= prev.push(flags[i as int]));
            assert(head + flags.subrange(0, i + 1) =~= (head + flags.subrange(0, i as int)).push(
                flags[i as int],
            ));
        }
        i = i + 1;
    }
    proof {
        assert(flags.subrange(0, flags.len() as int) =~= flags);
    }
    r.push("--dump-arrays".to_owned());
    r.push("--format=fst".to_owned());
    let mut wave = "--wave=".to_owned();
    wave.append(testbench_name.as_str());
    wave.append(".fst");
    r.push(wave);
    match rust_lib_path {
        Some(p) => {
            let mut load = "--load=".to_owned();
            load.append(p.as_str());
            r.push(load);
        },
        None => {},
    }
    r
}

/// Render the diagnostic command line of an invocation.
pub fn nvc_command_line(args: &Vec<String>) -> (r: String)
    ensures
        r@ == spec_command_line(args.deep_view()),
{
    let mut r = "nvc ".to_owned();
    let joined = join_space(args);
    r.append(joined.as_str());
    r
}

/// Where the pipeline stands: which stage must succeed next.
#[derive(Debug, Clone, Copy, PartialEq, Eq, Structural)]
pub enum PipelineState {
    AwaitingAnalysis,
    AwaitingElaboration,
    AwaitingSimulation,
    Complete,
}

/// The pipeline decision on a stage outcome: only a successful stage
/// advances the state, and a failure is attributed to exactly the
/// stage that produced it, with its command line and the invocation's
/// captured output attached.
pub open spec fn spec_advance(
    state: PipelineState,
    success: bool,
    library: Seq<char>,
    command: Seq<char>,
    stdout: Seq<u8>,
    stderr: Seq<u8>,
) -> Result<PipelineState, VwErrorV> {
    match state {
        PipelineState::AwaitingAnalysis => {
            if success {
                Ok(PipelineState::AwaitingElaboration)
            } else {
                Err(VwErrorV::NvcAnalysis { library, command, stdout, stderr })
            }
        },
        PipelineState::AwaitingElaboration => {
            if success {
                Ok(PipelineState::AwaitingSimulation)
            } else {
                Err(VwErrorV::NvcElab { command, stdout, stderr })
            }
        },
        PipelineState::AwaitingSimulation => {
            if success {
                Ok(PipelineState::Complete)
            } else {
                Err(VwErrorV::NvcSimulation { command, stdout, stderr })
            }
        },
        PipelineState::Complete => Ok(PipelineState::Complete),
    }
}

/// Advance the pipeline on one stage outcome: the stage's captured
/// standard output and standard error ride along into the stage error.
pub fn advance_pipeline(
    state: PipelineState,
    success: bool,
    library: &String,
    command: &String,
    stdout: &Vec<u8>,
    stderr: &Vec<u8>,
) -> (r: Result<PipelineState, VwError>)
    ensures
        match spec_advance(state, success, library@, command@, stdout@, stderr@) {
            Ok(s2) => r is Ok && r->Ok_0 == s2,
            Err(ev) => r is Err && r->Err_0@ == ev,
        },
{
    match state {
        PipelineState::AwaitingAnalysis => {
            if success {
                Ok(PipelineState::AwaitingElaboration)
            } else {
                Err(
                    VwError::NvcAnalysis {
                        library: library.clone(),
                        command: command.clone(),
                        stdout: copy_bytes(stdout),
                        stderr: copy_bytes(stderr),
                    },
                )
            }
        },
        PipelineState::AwaitingElaboration => {
            if success {
                Ok(PipelineState::AwaitingSimulation)
            } else {
                Err(
                    VwError::NvcElab {
                        command: command.clone(),
                        stdout: copy_bytes(stdout),
                        stderr: copy_bytes(stderr),
                    },
                )
            }
        },
        PipelineState::AwaitingSimulation => {
            if success {
                Ok(PipelineState::Complete)
            } else {
                Err(
                    VwError::NvcSimulation {
                        command: command.clone(),
                        stdout: copy_bytes(stdout),
                        stderr: copy_bytes(stderr),
                    },
                )
            }
        },
        PipelineState::Complete => Ok(PipelineState::Complete),
    }
}

/// The basename of the per-stage log files, for the stage the state
/// awaits: each stage's captured output is persisted under a
/// predictable name in the working directory.
pub fn stage_log_basename(state: PipelineState) -> (r: &'static str)
    ensures
        state == PipelineState::AwaitingAnalysis ==> r@ == "analysis"@,
        state == PipelineState::AwaitingElaboration ==> r@ == "elab"@,
        state == PipelineState::AwaitingSimulation ==> r@ == "sim"@,
        state == PipelineState::Complete ==> r@ == "done"@,
{
    match state {
        PipelineState::AwaitingAnalysis => "analysis",
        PipelineState::AwaitingElaboration => "elab",
        PipelineState::AwaitingSimulation => "sim",
        PipelineState::Complete => "done",
    }
}

/// Stage ordering: elaboration is reachable only through a successful
/// analysis, simulation only through a successful elaboration, and a
/// failing stage yields an error attributable to exactly that stage.
pub proof fn lemma_stage_ordering(
    state: PipelineState,
    success: bool,
    library: Seq<char>,
    command: Seq<char>,
    stdout: Seq<u8>,
    stderr: Seq<u8>,
)
    ensures
        spec_advance(state, success, library, command, stdout, stderr) == Ok::<
            PipelineState,
            VwErrorV,
        >(PipelineState::AwaitingElaboration) ==> state == PipelineState::AwaitingAnalysis
            && success,
        spec_advance(state, success, library, command, stdout, stderr) == Ok::<
            PipelineState,
            VwErrorV,
        >(PipelineState::AwaitingSimulation) ==> state == PipelineState::AwaitingElaboration
            && success,
        state == PipelineState::AwaitingAnalysis && !success ==> spec_advance(
            state,
            success,
            library,
            command,
            stdout,
            stderr,
        ) == Err::<PipelineState, VwErrorV>(
            VwErrorV::NvcAnalysis { library, command, stdout, stderr },
        ),
        state == PipelineState::AwaitingAnalysis && spec_advance(
            state,
            success,
            library,
            command,
            stdout,
            stderr,
        ) is Err ==> spec_advance(state, success, library, command, stdout, stderr)->Err_0
            is NvcAnalysis,
{
}

} // verus!
