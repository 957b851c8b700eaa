//! Decision logic of the native build step.
//!
//! Before the host build proceeds, the native backend is compiled by
//! an external toolchain. Spawning that process is I/O and stays
//! outside this crate; everything decided around it is here: deriving
//! the toolchain path from the home directory, planning the exact
//! invocation, judging the outcome, and publishing the link directives
//! on success. A failure aborts the whole build — no partial artifact
//! is ever linked — and the surfaced message carries the toolchain's
//! own diagnostics verbatim.

use vstd::prelude::*;

verus! {

/// How the native library is linked into the host.
#[derive(Clone, Copy, PartialEq, Eq, Structural, Debug)]
pub enum LinkKind {
    Static,
    Dynamic,
}

/// One directive published to the host build: a library search path,
/// or a request to link a named library.
#[derive(Debug)]
pub enum Directive {
    SearchPath { path: String },
    LinkLibrary { name: String, kind: LinkKind },
}

/// One native build invocation: where the toolchain executable lives,
/// where the native project lies, and which optimization profile to
/// request.
pub struct BuildTarget {
    pub toolchain_path: String,
    pub source_dir: String,
    pub profile: String,
}

/// What running the toolchain produced: either the process could not
/// be spawned at all, or it ran to completion with an exit code and
/// captured output.
pub enum ToolchainOutcome {
    SpawnFailed { message: String },
    Completed { exit_code: i32, stdout: String, stderr: String },
}

/// Why a native build aborted. Every variant is fatal to the host
/// build; none is retried.
#[derive(Debug)]
pub enum BuildError {
    /// A required environment value was absent before the toolchain
    /// could even be located.
    EnvironmentMissing { variable: String },
    /// The toolchain executable could not be run; carries the
    /// attempted path so the cause can be diagnosed.
    ToolchainInvocation { path: String, message: String },
    /// The toolchain ran and failed; carries its standard error
    /// verbatim.
    ToolchainCompilation { stderr: String },
}

/// A fully planned toolchain invocation, ready to be spawned.
pub struct ToolchainCommand {
    pub program: String,
    pub current_dir: String,
    pub args: Vec<String>,
}

/// A successful native build: the toolchain's standard output and the
/// directives published to the host linker.
pub struct BuildOutput {
    pub stdout: String,
    pub directives: Vec<Directive>,
}

/// Where the toolchain executable sits under the home directory.
pub open spec fn toolchain_rel_path() -> Seq<char> {
    "/.local/bin/zig"@
}

/// Where a successful build leaves the linkable artifact, relative to
/// the native project's root.
pub open spec fn output_dir_of(source_dir: Seq<char>) -> Seq<char> {
    source_dir + "/zig-out/lib"@
}

/// The name the host links the backend artifact under.
pub open spec fn backend_lib_name() -> Seq<char> {
    "backend"@
}

/// Derives the toolchain path from the home directory, or fails fast
/// when the environment value is absent.
pub fn toolchain_path_from_home(home: Option<String>) -> (r: Result<String, BuildError>)
    ensures
        match home {
            Some(h) => (r matches Ok(p) && p@ == h@ + toolchain_rel_path()),
            None => (r matches Err(BuildError::EnvironmentMissing { variable }) && variable@
                == "HOME"@),
        },
{
    match home {
        Some(h) => Ok(h.concat("/.local/bin/zig")),
        None => Err(BuildError::EnvironmentMissing { variable: String::from_str("HOME") }),
    }
}

/// Where the artifact of a build from `source_dir` is documented to
/// land.
pub fn expected_output_dir(source_dir: &str) -> (r: String)
    ensures
        r@ == output_dir_of(source_dir@),
{
    String::from_str(source_dir).concat("/zig-out/lib")
}

/// Plans the toolchain invocation for `target`: the build subcommand
/// and exactly one profile-selection flag, run from the native
/// project's root.
pub fn plan_invocation(target: &BuildTarget) -> (c: ToolchainCommand)
    ensures
        c.program@ == target.toolchain_path@,
        c.current_dir@ == target.source_dir@,
        c.args@.len() == 2,
        c.args@[0]@ == "build"@,
        c.args@[1]@ == "-Doptimize="@ + target.profile@,
{
    let mut args: Vec<String> = Vec::new();
    args.push(String::from_str("build"));
    args.push(String::from_str("-Doptimize=").concat(target.profile.as_str()));
    ToolchainCommand {
        program: clone_string(&target.toolchain_path),
        current_dir: clone_string(&target.source_dir),
        args,
    }
}

fn clone_string(s: &String) -> (r: String)
    ensures
        r@ == s@,
{
    s.clone()
}

/// What the directives of a successful build from `target` must be:
/// exactly one search path at the documented output directory, then
/// exactly one static link request for the backend library.
pub open spec fn published_directives(target: BuildTarget, directives: Seq<Directive>) -> bool {
    &&& directives.len() == 2
    &&& (directives[0] matches Directive::SearchPath { path } && path@ == output_dir_of(
        target.source_dir@,
    ))
    &&& (directives[1] matches Directive::LinkLibrary { name, kind } && name@
        == backend_lib_name() && kind is Static)
}

/// The whole decision `assess_build` makes, as a relation between the
/// target, the toolchain outcome and the result.
pub open spec fn assess_decision(
    target: BuildTarget,
    outcome: ToolchainOutcome,
    r: Result<BuildOutput, BuildError>,
) -> bool {
    match outcome {
        ToolchainOutcome::SpawnFailed { message } => (r matches Err(
            BuildError::ToolchainInvocation { path, message: m },
        ) && path@ == target.toolchain_path@ && m@ == message@),
        ToolchainOutcome::Completed { exit_code, stdout, stderr } => {
            if exit_code == 0 {
                r matches Ok(out) && out.stdout@ == stdout@ && published_directives(
                    target,
                    out.directives@,
                )
            } else {
                r matches Err(BuildError::ToolchainCompilation { stderr: e }) && e@ == stderr@
            }
        },
    }
}

/// Judges the toolchain outcome for `target`. Success publishes the
/// two link directives and hands the toolchain's standard output on;
/// a spawn failure or a non-zero exit aborts the build with the
/// matching error, the toolchain's diagnostics attached untouched.
pub fn assess_build(target: &BuildTarget, outcome: ToolchainOutcome) -> (r: Result<
    BuildOutput,
    BuildError,
>)
    ensures
        assess_decision(*target, outcome, r),
{
    match outcome {
        ToolchainOutcome::SpawnFailed { message } => Err(
            BuildError::ToolchainInvocation {
                path: clone_string(&target.toolchain_path),
                message,
            },
        ),
        ToolchainOutcome::Completed { exit_code, stdout, stderr } => {
            if exit_code == 0 {
                let mut directives: Vec<Directive> = Vec::new();
                directives.push(
                    Directive::SearchPath { path: expected_output_dir(target.source_dir.as_str()) },
                );
                directives.push(
                    Directive::LinkLibrary {
                        name: String::from_str("backend"),
                        kind: LinkKind::Static,
                    },
                );
                Ok(BuildOutput { stdout, directives })
            } else {
                Err(BuildError::ToolchainCompilation { stderr })
            }
        },
    }
}

/// The text `error_message` renders for `e`.
pub open spec fn error_text(e: BuildError) -> Seq<char> {
    match e {
        BuildError::EnvironmentMissing { variable } => variable@ + " is not set"@,
        BuildError::ToolchainInvocation { path, message } => "failed to run the native toolchain at "@
            + path@ + ": "@ + message@,
        BuildError::ToolchainCompilation { stderr } => "native backend build failed:\n"@ + stderr@,
    }
}

/// Renders the message a build abort surfaces to the user.
pub fn error_message(e: &BuildError) -> (r: String)
    ensures
        r@ == error_text(*e),
{
    match e {
        BuildError::EnvironmentMissing { variable } => clone_string(variable).concat(" is not set"),
        BuildError::ToolchainInvocation { path, message } => String::from_str(
            "failed to run the native toolchain at ",
        ).concat(path.as_str()).concat(": ").concat(message.as_str()),
        BuildError::ToolchainCompilation { stderr } => String::from_str(
            "native backend build failed:\n",
        ).concat(stderr.as_str()),
    }
}

/// How many library search paths a directive sequence publishes.
pub open spec fn count_search_paths(ds: Seq<Directive>) -> nat
    decreases ds.len(),
{
    if ds.len() == 0 {
        0
    } else {
        count_search_paths(ds.drop_last()) + if ds.last() is SearchPath {
            1 as nat
        } else {
            0 as nat
        }
    }
}

/// How many link requests a directive sequence publishes.
pub open spec fn count_link_libraries(ds: Seq<Directive>) -> nat
    decreases ds.len(),
{
    if ds.len() == 0 {
        0
    } else {
        count_link_libraries(ds.drop_last()) + if ds.last() is LinkLibrary {
            1 as nat
        } else {
            0 as nat
        }
    }
}

/// Law: a successful build publishes exactly one library search path
/// and exactly one link directive, and the search path is the
/// documented output directory under the build's source tree.
pub proof fn lemma_success_publishes_exactly_once(
    target: BuildTarget,
    outcome: ToolchainOutcome,
    r: Result<BuildOutput, BuildError>,
)
    requires
        assess_decision(target, outcome, r),
        outcome matches ToolchainOutcome::Completed { exit_code, .. } && exit_code == 0,
    ensures
        r is Ok,
        count_search_paths(r->Ok_0.directives@) == 1,
        count_link_libraries(r->Ok_0.directives@) == 1,
        (r->Ok_0.directives@[0] matches Directive::SearchPath { path } && path@ == output_dir_of(
            target.source_dir@,
        )),
{
    let ds = r->Ok_0.directives@;
    assert(ds.drop_last().drop_last() =~= Seq::<Directive>::empty());
    assert(ds.drop_last().len() == 1);
    assert(ds.drop_last().last() == ds[0]);
    assert(count_search_paths(ds.drop_last().drop_last()) == 0);
    assert(count_link_libraries(ds.drop_last().drop_last()) == 0);
    assert(count_search_paths(ds.drop_last()) == 1);
    assert(count_link_libraries(ds.drop_last()) == 0);
}

/// Law: when the toolchain exits non-zero, the build aborts and the
/// surfaced message carries the captured standard error verbatim, as
/// a contiguous run of the message's characters.
pub proof fn lemma_failure_surfaces_stderr_verbatim(
    target: BuildTarget,
    outcome: ToolchainOutcome,
    r: Result<BuildOutput, BuildError>,
)
    requires
        assess_decision(target, outcome, r),
        outcome matches ToolchainOutcome::Completed { exit_code, .. } && exit_code != 0,
    ensures
        r matches Err(e) && e is ToolchainCompilation,
        ({
            let msg = error_text(r->Err_0);
            let s = outcome->Completed_stderr@;
            exists|k: int|
                0 <= k && k + s.len() <= msg.len() && #[trigger] msg.subrange(
                    k,
                    k + s.len() as int,
                ) == s
        }),
{
    let msg = error_text(r->Err_0);
    let s = outcome->Completed_stderr@;
    let k = "native backend build failed:\n"@.len() as int;
    assert(msg.subrange(k, k + s.len() as int) =~= s);
    assert(0 <= k && k + s.len() <= msg.len() && msg.subrange(k, k + s.len() as int) == s);
}

} // verus!
