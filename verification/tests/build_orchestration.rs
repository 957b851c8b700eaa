use modex::orchestrator::{
    assess_build, error_message, expected_output_dir, plan_invocation, toolchain_path_from_home,
    BuildError, BuildTarget, Directive, LinkKind, ToolchainOutcome,
};

fn target() -> BuildTarget {
    BuildTarget {
        toolchain_path: String::from("/home/user/.local/bin/zig"),
        source_dir: String::from("./../backend"),
        profile: String::from("ReleaseSafe"),
    }
}

#[test]
fn toolchain_path_derived_from_home() {
    let r = toolchain_path_from_home(Some(String::from("/home/user")));
    assert_eq!(r.unwrap(), "/home/user/.local/bin/zig");
}

#[test]
fn missing_home_is_fatal_before_anything_runs() {
    let r = toolchain_path_from_home(None);
    match r {
        Err(BuildError::EnvironmentMissing { variable }) => {
            assert_eq!(variable, "HOME");
        }
        _ => panic!("expected the missing environment error"),
    }
    let e = toolchain_path_from_home(None).unwrap_err();
    assert_eq!(error_message(&e), "HOME is not set");
}

#[test]
fn invocation_plan_holds_one_profile_flag() {
    let c = plan_invocation(&target());
    assert_eq!(c.program, "/home/user/.local/bin/zig");
    assert_eq!(c.current_dir, "./../backend");
    assert_eq!(c.args, vec![String::from("build"), String::from("-Doptimize=ReleaseSafe")]);
}

#[test]
fn success_publishes_one_search_path_and_one_link_directive() {
    let outcome = ToolchainOutcome::Completed {
        exit_code: 0,
        stdout: String::from("compiled fine"),
        stderr: String::new(),
    };
    let out = assess_build(&target(), outcome).ok().unwrap();
    assert_eq!(out.stdout, "compiled fine");
    assert_eq!(out.directives.len(), 2);
    match &out.directives[0] {
        Directive::SearchPath { path } => assert_eq!(path, "./../backend/zig-out/lib"),
        _ => panic!("expected the search path first"),
    }
    match &out.directives[1] {
        Directive::LinkLibrary { name, kind } => {
            assert_eq!(name, "backend");
            assert_eq!(*kind, LinkKind::Static);
        }
        _ => panic!("expected the link directive second"),
    }
    assert_eq!(expected_output_dir("./../backend"), "./../backend/zig-out/lib");
}

#[test]
fn nonzero_exit_aborts_and_surfaces_stderr_verbatim() {
    let diagnostics = "error: expected ';' after statement\nsrc/main.zig:4:10";
    let outcome = ToolchainOutcome::Completed {
        exit_code: 1,
        stdout: String::new(),
        stderr: String::from(diagnostics),
    };
    let e = assess_build(&target(), outcome).err().unwrap();
    match &e {
        BuildError::ToolchainCompilation { stderr } => assert_eq!(stderr, diagnostics),
        _ => panic!("expected the compilation error"),
    }
    let msg = error_message(&e);
    assert!(msg.contains(diagnostics));
}

#[test]
fn every_nonzero_exit_code_aborts() {
    for code in [1, 2, 77, -1] {
        let outcome = ToolchainOutcome::Completed {
            exit_code: code,
            stdout: String::from("partial output"),
            stderr: String::from("it broke"),
        };
        assert!(assess_build(&target(), outcome).is_err());
    }
}

#[test]
fn missing_toolchain_names_the_attempted_path() {
    let outcome = ToolchainOutcome::SpawnFailed {
        message: String::from("No such file or directory (os error 2)"),
    };
    let e = assess_build(&target(), outcome).err().unwrap();
    match &e {
        BuildError::ToolchainInvocation { path, message } => {
            assert_eq!(path, "/home/user/.local/bin/zig");
            assert_eq!(message, "No such file or directory (os error 2)");
        }
        _ => panic!("expected the invocation error"),
    }
    let msg = error_message(&e);
    assert!(msg.contains("/home/user/.local/bin/zig"));
}
