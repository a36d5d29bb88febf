//! The data a problem package is made of (programs, bundles of cases,
//! tasks, stress plans), and the result of running one program.

use vstd::prelude::*;
use crate::digest::{hex, sha256, sha256_hex};
use crate::support::{count_lines, line_count};
use crate::text::{decimal, i64_to_decimal, signed_decimal, u128_to_decimal, usize_to_decimal};
use crate::time::Duration;

verus! {

/// The default cap on the captured bytes of each output stream (32 MiB).
pub const DEFAULT_OUTPUT_LIMIT_BYTES: usize = 33_554_432;

/// One case of a bundle, named by bundle and zero-based index.
#[derive(Clone, Debug)]
pub struct CaseSelector {
    pub bundle: String,
    pub index: usize,
}

/// What to run, on which input, and where its output goes.
#[derive(Clone, Debug)]
pub struct RunOptions {
    pub work_dir: String,
    pub program: Option<String>,
    pub source: Option<String>,
    pub selector: Option<String>,
    pub stdin_text: Option<String>,
    pub stdin_path: Option<String>,
    pub stdout_path: Option<String>,
    pub stderr_path: Option<String>,
    pub args: Vec<String>,
    pub output_limit_bytes: usize,
    pub generation_lock_timeout: Option<Duration>,
}

/// The outcome of running one program.
#[derive(Clone, Debug)]
pub struct RunResult {
    pub label: String,
    pub ok: bool,
    pub kind: String,
    pub exit_code: Option<i32>,
    pub diagnostic: Option<String>,
    pub elapsed_ms: u128,
    pub stdout_bytes: Vec<u8>,
    pub stderr_bytes: Vec<u8>,
    pub stdout: String,
    pub stderr: String,
    pub truncated_stdout: bool,
    pub truncated_stderr: bool,
}

/// The exit code as printed: the number, or `none` when there is none.
pub open spec fn exit_text(code: Option<i32>) -> Seq<char> {
    match code {
        Some(c) => signed_decimal(c as int),
        None => "none"@,
    }
}

/// A boolean as printed.
pub open spec fn bool_text(b: bool) -> Seq<char> {
    if b {
        "true"@
    } else {
        "false"@
    }
}

/// The one-line status of a run.
pub open spec fn status_text(r: RunResult) -> Seq<char> {
    r.label@ + ": "@ + r.kind@ + " exit="@ + exit_text(r.exit_code) + " elapsed="@ + decimal(
        r.elapsed_ms as nat,
    ) + "ms"@ + (if r.truncated_stdout {
        " stdout=truncated"@
    } else {
        Seq::empty()
    }) + (if r.truncated_stderr {
        " stderr=truncated"@
    } else {
        Seq::empty()
    })
}

/// The report of a failed run: context, status, the diagnostic if any, and
/// stderr (or, when stderr is empty, stdout) if there is any.
pub open spec fn failure_text(r: RunResult, context: Seq<char>) -> Seq<char> {
    context + ": "@ + status_text(r) + (match r.diagnostic {
        Some(d) => "\ndiagnostic:\n"@ + d@,
        None => Seq::empty(),
    }) + (if r.stderr@.len() > 0 {
        "\nstderr:\n"@ + r.stderr@
    } else if r.stdout@.len() > 0 {
        "\nstdout:\n"@ + r.stdout@
    } else {
        Seq::empty()
    })
}

/// The status followed by sizes, line count and digest of the output.
pub open spec fn summary_text(r: RunResult) -> Seq<char> {
    status_text(r) + " stdout_bytes="@ + decimal(r.stdout_bytes@.len()) + " stdout_lines="@
        + decimal(line_count(r.stdout_bytes@)) + " stdout_sha256="@ + hex(sha256(r.stdout_bytes@))
        + " stderr_bytes="@ + decimal(r.stderr_bytes@.len()) + " stderr_nonempty="@ + bool_text(
        r.stderr_bytes@.len() > 0,
    )
}

/// Renders an exit code, or `none`.
pub fn exit_code_text(code: Option<i32>) -> (s: String)
    ensures
        s@ == exit_text(code),
{
    match code {
        Some(c) => i64_to_decimal(c as i64),
        None => String::from_str("none"),
    }
}

/// Renders a boolean.
pub fn bool_string(b: bool) -> (s: String)
    ensures
        s@ == bool_text(b),
{
    if b {
        String::from_str("true")
    } else {
        String::from_str("false")
    }
}

impl RunResult {
    /// Whether the program ran to a successful exit.
    pub fn is_success(&self) -> (b: bool)
        ensures
            b == self.ok,
    {
        self.ok
    }

    /// `label: kind exit=… elapsed=…ms`, with the truncated streams named.
    pub fn status_line(&self) -> (s: String)
        ensures
            s@ == status_text(*self),
    {
        let mut line = String::new();
        line.append(self.label.as_str());
        line.append(": ");
        line.append(self.kind.as_str());
        line.append(" exit=");
        let exit = exit_code_text(self.exit_code);
        line.append(exit.as_str());
        line.append(" elapsed=");
        let elapsed = u128_to_decimal(self.elapsed_ms);
        line.append(elapsed.as_str());
        line.append("ms");
        if self.truncated_stdout {
            line.append(" stdout=truncated");
        }
        if self.truncated_stderr {
            line.append(" stderr=truncated");
        }
        line
    }

    /// A failure message: the context and status, then the diagnostic and
    /// the most useful captured stream.
    pub fn failure_report(&self, context: &str) -> (s: String)
        ensures
            s@ == failure_text(*self, context@),
    {
        let mut report = String::new();
        report.append(context);
        report.append(": ");
        let status = self.status_line();
        report.append(status.as_str());
        match &self.diagnostic {
            Some(diagnostic) => {
                report.append("\ndiagnostic:\n");
                report.append(diagnostic.as_str());
            },
            None => {},
        }
        if !self.stderr.as_str().is_empty() {
            report.append("\nstderr:\n");
            report.append(self.stderr.as_str());
        } else if !self.stdout.as_str().is_empty() {
            report.append("\nstdout:\n");
            report.append(self.stdout.as_str());
        }
        report
    }

    /// The status plus output sizes, stdout line count and SHA-256.
    pub fn summary_line(&self) -> (s: String)
        ensures
            s@ == summary_text(*self),
    {
        let mut line = self.status_line();
        line.append(" stdout_bytes=");
        let n = usize_to_decimal(self.stdout_bytes.len());
        line.append(n.as_str());
        line.append(" stdout_lines=");
        let lines = usize_to_decimal(count_lines(self.stdout_bytes.as_slice()));
        line.append(lines.as_str());
        line.append(" stdout_sha256=");
        let digest = sha256_hex(self.stdout_bytes.as_slice());
        line.append(digest.as_str());
        line.append(" stderr_bytes=");
        let e = usize_to_decimal(self.stderr_bytes.len());
        line.append(e.as_str());
        line.append(" stderr_nonempty=");
        let nonempty = bool_string(self.stderr_bytes.len() > 0);
        line.append(nonempty.as_str());
        line
    }
}

/// A program run by path, with fixed extra arguments.
#[derive(Clone, Debug)]
pub struct CommandProgram {
    pub path: String,
    pub extra_args: Vec<String>,
}

/// A C++ source compiled with the given arguments.
#[derive(Clone, Debug)]
pub struct CppProgram {
    pub path: String,
    pub compile_args: Vec<String>,
}

/// How a program is run.
#[derive(Clone, Debug)]
pub enum ProgramInfo {
    Command(CommandProgram),
    Cpp(CppProgram),
    Python(CommandProgram),
}

impl ProgramInfo {
    /// The path of the program or source.
    pub open spec fn path_of(self) -> Seq<char> {
        match self {
            ProgramInfo::Command(p) => p.path@,
            ProgramInfo::Cpp(p) => p.path@,
            ProgramInfo::Python(p) => p.path@,
        }
    }

    /// The path of the program or source.
    pub fn path(&self) -> (p: &String)
        ensures
            p@ == self.path_of(),
    {
        match self {
            ProgramInfo::Command(p) => &p.path,
            ProgramInfo::Cpp(p) => &p.path,
            ProgramInfo::Python(p) => &p.path,
        }
    }
}

/// The compile arguments a C++ program gets when none are given.
pub open spec fn default_compile_args_spec() -> Seq<Seq<char>> {
    seq!["-O2"@, "-std=c++20"@, "-Wall"@, "-Wextra"@, "-pedantic"@]
}

/// The compile arguments a C++ program gets when none are given.
pub fn default_compile_args() -> (v: Vec<String>)
    ensures
        crate::text::string_views(v@) == default_compile_args_spec(),
{
    let v = vec![
        String::from_str("-O2"),
        String::from_str("-std=c++20"),
        String::from_str("-Wall"),
        String::from_str("-Wextra"),
        String::from_str("-pedantic"),
    ];
    assert(crate::text::string_views(v@) =~= default_compile_args_spec());
    v
}

/// One case: the generator that produces its input and the arguments.
#[derive(Clone, Debug)]
pub struct TestCase {
    pub generator_name: String,
    pub args: Vec<String>,
}

/// A named group of cases.
#[derive(Clone, Debug)]
pub struct TestBundle {
    pub cases: Vec<TestCase>,
}

/// How the cases of a task combine into its score.
#[derive(Clone, Copy, Debug, PartialEq, Eq, Structural)]
pub enum TestTaskType {
    Sum,
    Min,
}

/// A task of the test: the bundles it scores, the tasks it depends on,
/// the programs expected to pass or fail its cases, and cases of its own.
/// A task is official when it carries a score.
#[derive(Clone, Debug)]
pub struct TestTask {
    pub name: String,
    pub official: bool,
    pub task_type: Option<TestTaskType>,
    pub bundles: Vec<String>,
    pub dependencies: Vec<String>,
    pub pass_programs: Vec<String>,
    pub fail_programs: Vec<String>,
    pub cases: Vec<TestCase>,
}

impl TestTask {
    /// Whether the task names programs that must pass or fail its cases.
    pub fn has_expectations(&self) -> (b: bool)
        ensures
            b == (self.pass_programs@.len() > 0 || self.fail_programs@.len() > 0),
    {
        self.pass_programs.len() > 0 || self.fail_programs.len() > 0
    }
}

/// Whether a stress plan expects its programs to agree or to differ.
#[derive(Clone, Copy, Debug, PartialEq, Eq, Structural)]
pub enum StressPlanExpectation {
    Pass,
    Fail,
}

/// A named stress plan: a generator, its arguments, the programs compared,
/// how many cases, and the expectation.
#[derive(Clone, Debug)]
pub struct StressPlan {
    pub name: String,
    pub generator: String,
    pub args: Vec<String>,
    pub against: Vec<String>,
    pub cases: usize,
    pub seed_base: Option<u64>,
    pub expect: StressPlanExpectation,
}

/// The stress section of a package.
#[derive(Clone, Debug)]
pub struct Stress {
    pub plans: Vec<StressPlan>,
}

/// Output options of a package.
#[derive(Clone, Copy, Debug)]
pub struct OutputConfig {
    pub allow_empty: bool,
}

/// A program of a package under its name.
#[derive(Clone, Debug)]
pub struct NamedProgram {
    pub name: String,
    pub info: ProgramInfo,
}

/// A bundle of a package under its name.
#[derive(Clone, Debug)]
pub struct NamedBundle {
    pub name: String,
    pub bundle: TestBundle,
}

/// The test section of a package: its bundles, by name, and its tasks.
#[derive(Clone, Debug)]
pub struct Test {
    pub bundles: Vec<NamedBundle>,
    pub tasks: Vec<TestTask>,
}

/// What a problem package declares: its programs by name, the roles they
/// play, its bundles and tasks, stress plans and output options. Time and
/// memory limits and task scores are not part of this model.
#[derive(Clone, Debug)]
pub struct Problem {
    pub name: String,
    pub output: OutputConfig,
    pub stress: Stress,
    pub programs: Vec<NamedProgram>,
    pub test: Test,
    pub solution_name: String,
    pub validator_name: Option<String>,
    pub validator_omitted_reason: Option<String>,
    pub checker_name: Option<String>,
    pub generator_name: Option<String>,
    pub cpp_compile_args: Vec<String>,
}

/// The number of cases a stress plan runs when it does not say.
pub const DEFAULT_STRESS_CASES: usize = 100;

} // verus!
