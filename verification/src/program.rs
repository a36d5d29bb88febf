//! Running programs: the arguments a C++ source is compiled with, the
//! capped capture of an output stream, the local headers a source
//! includes, and the hints printed for well-known abnormal exits.

use vstd::prelude::*;
use crate::schema::{bool_string, bool_text, default_compile_args, default_compile_args_spec,
    CommandProgram, CppProgram, ProgramInfo, RunResult};
use crate::text::{
    chars_of, join, lines, split_lines, string_from_chars, string_views, trim_start,
    trimmed_start, unified_newlines, unify_newlines,
};

verus! {

/// How many arguments are exactly `-static`.
pub open spec fn static_count(args: Seq<Seq<char>>) -> nat
    decreases args.len(),
{
    if args.len() == 0 {
        0
    } else {
        static_count(args.drop_last()) + if args.last() == "-static"@ {
            1nat
        } else {
            0nat
        }
    }
}

/// The arguments a C++ source is compiled with: the configured ones, then
/// `-static` on Windows when it is not there yet, then the source's
/// directory as an include path.
pub open spec fn effective_args_spec(
    source_dir: Option<Seq<char>>,
    args: Seq<Seq<char>>,
    windows: bool,
) -> Seq<Seq<char>> {
    args + (if windows && static_count(args) == 0 {
        seq!["-static"@]
    } else {
        Seq::empty()
    }) + match source_dir {
        Some(d) => seq!["-I"@, d],
        None => Seq::empty(),
    }
}

proof fn lemma_static_count_concat(a: Seq<Seq<char>>, b: Seq<Seq<char>>)
    ensures
        static_count(a + b) == static_count(a) + static_count(b),
    decreases b.len(),
{
    if b.len() == 0 {
        assert(a + b == a);
    } else {
        lemma_static_count_concat(a, b.drop_last());
        assert((a + b).drop_last() == a + b.drop_last());
    }
}

/// Law: the compile arguments hold `-static` as often as the configured
/// ones do, plus once on Windows when they held none; so on Windows there
/// is exactly one when none or one was configured.
pub proof fn lemma_static_added_once(source_dir: Option<Seq<char>>, args: Seq<Seq<char>>, windows: bool)
    requires
        source_dir is Some ==> source_dir->0 != "-static"@,
    ensures
        static_count(effective_args_spec(source_dir, args, windows)) == static_count(args) + if windows
            && static_count(args) == 0 {
            1nat
        } else {
            0nat
        },
{
    reveal_strlit("-static");
    reveal_strlit("-I");
    let extra = if windows && static_count(args) == 0 {
        seq!["-static"@]
    } else {
        Seq::<Seq<char>>::empty()
    };
    let tail = match source_dir {
        Some(d) => seq!["-I"@, d],
        None => Seq::<Seq<char>>::empty(),
    };
    lemma_static_count_concat(args, extra);
    lemma_static_count_concat(args + extra, tail);
    let one = seq!["-static"@];
    assert(one.drop_last() =~= Seq::<Seq<char>>::empty());
    assert(static_count(Seq::<Seq<char>>::empty()) == 0);
    assert(one.last() == "-static"@);
    assert(static_count(one) == 1);
    assert("-I"@ != "-static"@) by {
        assert("-I"@.len() != "-static"@.len());
    }
    if source_dir is Some {
        let d = source_dir->0;
        let two = seq!["-I"@, d];
        let first = seq!["-I"@];
        assert(two.drop_last() =~= first);
        assert(first.drop_last() =~= Seq::<Seq<char>>::empty());
        assert(first.last() == "-I"@);
        assert(static_count(first) == 0);
        assert(two.last() == d);
        assert(static_count(two) == 0);
    }
}

/// Whether one of the arguments is exactly `-static`.
fn has_static(args: &[String]) -> (b: bool)
    ensures
        b == (static_count(string_views(args@)) > 0),
{
    let target = String::from_str("-static");
    proof {
        reveal_strlit("-static");
    }
    let mut i: usize = 0;
    let mut found = false;
    while i < args.len()
        invariant
            i <= args@.len(),
            target@ == "-static"@,
            found == (static_count(string_views(args@.take(i as int))) > 0),
        decreases args@.len() - i,
    {
        assert(string_views(args@.take(i + 1)).drop_last() =~= string_views(args@.take(i as int)));
        assert(string_views(args@.take(i + 1)).last() == args@[i as int]@);
        if args[i] == target {
            found = true;
        }
        i = i + 1;
    }
    assert(args@.take(i as int) == args@);
    found
}

/// The arguments a C++ source is compiled with; `source_dir` is the
/// directory that holds the source, when it has one.
pub fn effective_cpp_compile_args(
    source_dir: Option<&str>,
    compile_args: &[String],
    windows: bool,
) -> (v: Vec<String>)
    ensures
        string_views(v@) == effective_args_spec(
            match source_dir {
                Some(d) => Some(d@),
                None => None,
            },
            string_views(compile_args@),
            windows,
        ),
{
    let mut args: Vec<String> = Vec::new();
    let mut i: usize = 0;
    while i < compile_args.len()
        invariant
            i <= compile_args@.len(),
            args@ == compile_args@.take(i as int),
        decreases compile_args@.len() - i,
    {
        args.push(compile_args[i].clone());
        assert(compile_args@.take(i + 1) == compile_args@.take(i as int).push(compile_args@[i as int]));
        i = i + 1;
    }
    assert(compile_args@.take(i as int) == compile_args@);
    proof {
        reveal_strlit("-static");
        reveal_strlit("-I");
    }
    let ghost base = string_views(args@);
    if windows && !has_static(compile_args) {
        args.push(String::from_str("-static"));
    }
    let ghost mid = string_views(args@);
    assert(mid =~= base + (if windows && static_count(base) == 0 {
        seq!["-static"@]
    } else {
        Seq::empty()
    }));
    match source_dir {
        Some(d) => {
            args.push(String::from_str("-I"));
            args.push(d.to_string());
            assert(string_views(args@) =~= mid + seq!["-I"@, d@]);
        },
        None => {
            assert(string_views(args@) =~= mid + Seq::empty());
        },
    }
    args
}

/// Arguments as printed: space separated, or `<none>`.
pub open spec fn args_text(args: Seq<Seq<char>>) -> Seq<char> {
    if args.len() == 0 {
        "<none>"@
    } else {
        join(args, " "@)
    }
}

/// Renders arguments for a diagnostic.
pub fn render_args(args: &Vec<String>) -> (s: String)
    ensures
        s@ == args_text(string_views(args@)),
{
    if args.len() == 0 {
        proof {
            reveal_strlit("<none>");
        }
        String::from_str("<none>")
    } else {
        crate::stress::join_strings(args, " ")
    }
}

/// What is printed about the C++ toolchain when a compile fails.
#[derive(Clone, Debug)]
pub struct CppCompileDiagnostics {
    pub gpp_path: String,
    pub gpp_version_first_line: Option<String>,
    pub compile_args: Vec<String>,
    pub has_static: bool,
    pub cache_key: String,
    pub exe_path: String,
}

/// The toolchain context of a failed compile, one fact per line.
pub open spec fn diagnostics_text(d: CppCompileDiagnostics) -> Seq<char> {
    "g++ path: "@ + d.gpp_path@ + "\ng++ version: "@ + (match d.gpp_version_first_line {
        Some(v) => v@,
        None => "<unavailable>"@,
    }) + "\ncompile args: "@ + args_text(string_views(d.compile_args@)) + "\ncontains -static: "@
        + bool_text(d.has_static) + "\ncache key: "@ + d.cache_key@ + "\ncache exe: "@ + d.exe_path@
}

impl CppCompileDiagnostics {
    /// Renders the toolchain context of a failed compile.
    pub fn render(&self) -> (s: String)
        ensures
            s@ == diagnostics_text(*self),
    {
        proof {
            reveal_strlit("g++ path: ");
            reveal_strlit("\ng++ version: ");
            reveal_strlit("<unavailable>");
            reveal_strlit("\ncompile args: ");
            reveal_strlit("\ncontains -static: ");
            reveal_strlit("\ncache key: ");
            reveal_strlit("\ncache exe: ");
        }
        let mut s = String::from_str("g++ path: ");
        s.append(self.gpp_path.as_str());
        s.append("\ng++ version: ");
        match &self.gpp_version_first_line {
            Some(v) => s.append(v.as_str()),
            None => s.append("<unavailable>"),
        }
        s.append("\ncompile args: ");
        s.append(render_args(&self.compile_args).as_str());
        s.append("\ncontains -static: ");
        s.append(bool_string(self.has_static).as_str());
        s.append("\ncache key: ");
        s.append(self.cache_key.as_str());
        s.append("\ncache exe: ");
        s.append(self.exe_path.as_str());
        s
    }
}

/// The diagnostics of a compile: toolchain, arguments and cache entry.
pub fn cpp_compile_diagnostics(
    cache_key: &str,
    exe_path: &str,
    compile_args: &[String],
    gpp_path: &String,
    gpp_version_first_line: &Option<String>,
) -> (d: CppCompileDiagnostics)
    ensures
        d.gpp_path@ == gpp_path@,
        crate::text::opt_view(d.gpp_version_first_line) == crate::text::opt_view(*gpp_version_first_line),
        d.compile_args@ == compile_args@,
        d.has_static == (static_count(string_views(compile_args@)) > 0),
        d.cache_key@ == cache_key@,
        d.exe_path@ == exe_path@,
{
    let mut args: Vec<String> = Vec::new();
    let mut i: usize = 0;
    while i < compile_args.len()
        invariant
            i <= compile_args@.len(),
            args@ == compile_args@.take(i as int),
        decreases compile_args@.len() - i,
    {
        args.push(compile_args[i].clone());
        assert(compile_args@.take(i + 1) == compile_args@.take(i as int).push(compile_args@[i as int]));
        i = i + 1;
    }
    assert(compile_args@.take(i as int) == compile_args@);
    let version = match gpp_version_first_line {
        Some(v) => Some(v.clone()),
        None => None,
    };
    CppCompileDiagnostics {
        gpp_path: gpp_path.clone(),
        gpp_version_first_line: version,
        compile_args: args,
        has_static: has_static(compile_args),
        cache_key: cache_key.to_string(),
        exe_path: exe_path.to_string(),
    }
}

/// The hint printed for an exit code that Windows uses for a well-known
/// fault; nothing on other platforms.
pub open spec fn exit_hint(exit_code: Option<i32>, windows: bool) -> Option<Seq<char>> {
    if !windows {
        None
    } else {
        match exit_code {
            Some(c) => if c == -1073741511 {
                Some("Windows NTSTATUS 0xC0000139: entry point or DLL load failure. Check that required runtime/DLL files are on PATH and match the compiled architecture."@)
            } else if c == -1073741819 {
                Some("Windows NTSTATUS 0xC0000005: access violation. The program tried to read, write, or execute invalid memory."@)
            } else {
                None
            },
            None => None,
        }
    }
}

/// The kind of a run: a timeout, a success, or a runtime error.
pub open spec fn run_kind(timed_out: bool, success: bool) -> Seq<char> {
    if timed_out {
        "timeout"@
    } else if success {
        "ok"@
    } else {
        "runtime_error"@
    }
}

/// The report of a finished or timed-out run: it succeeded when it
/// finished with success; a timeout has no exit code; a failed run gets
/// the hint for its exit code; the captured streams are kept as bytes and
/// as decoded text.
pub fn finished_run(
    label: String,
    timed_out: bool,
    success: bool,
    exit_code: Option<i32>,
    elapsed_ms: u128,
    stdout: LimitedOutput,
    stderr: LimitedOutput,
    windows: bool,
) -> (r: RunResult)
    ensures
        r.label == label,
        r.ok == (!timed_out && success),
        r.kind@ == run_kind(timed_out, success),
        r.exit_code == (if timed_out {
            None
        } else {
            exit_code
        }),
        crate::text::opt_view(r.diagnostic) == (if timed_out || success {
            None
        } else {
            exit_hint(exit_code, windows)
        }),
        r.elapsed_ms == elapsed_ms,
        r.stdout_bytes@ == stdout.bytes@,
        r.stderr_bytes@ == stderr.bytes@,
        r.stdout@ == unify_newlines(utf8_lossy(stdout.bytes@)),
        r.stderr@ == unify_newlines(utf8_lossy(stderr.bytes@)),
        r.truncated_stdout == stdout.truncated,
        r.truncated_stderr == stderr.truncated,
{
    proof {
        reveal_strlit("timeout");
        reveal_strlit("ok");
        reveal_strlit("runtime_error");
    }
    let stdout_text = decode_output(stdout.bytes.as_slice());
    let stderr_text = decode_output(stderr.bytes.as_slice());
    let kind = if timed_out {
        String::from_str("timeout")
    } else if success {
        String::from_str("ok")
    } else {
        String::from_str("runtime_error")
    };
    let diagnostic = if timed_out || success {
        None
    } else {
        runtime_exit_diagnostic(exit_code, windows)
    };
    RunResult {
        label,
        ok: !timed_out && success,
        kind,
        exit_code: if timed_out {
            None
        } else {
            exit_code
        },
        diagnostic,
        elapsed_ms,
        stdout_bytes: stdout.bytes,
        stderr_bytes: stderr.bytes,
        stdout: stdout_text,
        stderr: stderr_text,
        truncated_stdout: stdout.truncated,
        truncated_stderr: stderr.truncated,
    }
}

/// A hint for an exit code that names a well-known Windows fault.
pub fn runtime_exit_diagnostic(exit_code: Option<i32>, windows: bool) -> (r: Option<String>)
    ensures
        crate::text::opt_view(r) == exit_hint(exit_code, windows),
{
    if !windows {
        return None;
    }
    proof {
        reveal_strlit("Windows NTSTATUS 0xC0000139: entry point or DLL load failure. Check that required runtime/DLL files are on PATH and match the compiled architecture.");
        reveal_strlit("Windows NTSTATUS 0xC0000005: access violation. The program tried to read, write, or execute invalid memory.");
    }
    match exit_code {
        Some(c) => {
            if c == -1073741511 {
                Some(String::from_str("Windows NTSTATUS 0xC0000139: entry point or DLL load failure. Check that required runtime/DLL files are on PATH and match the compiled architecture."))
            } else if c == -1073741819 {
                Some(String::from_str("Windows NTSTATUS 0xC0000005: access violation. The program tried to read, write, or execute invalid memory."))
            } else {
                None
            }
        },
        None => None,
    }
}

/// The bytes of an output stream captured so far, up to a limit, and
/// whether anything beyond the limit was seen.
#[derive(Clone, Debug)]
pub struct LimitedOutput {
    pub bytes: Vec<u8>,
    pub truncated: bool,
}

/// The capture of a stream that produced `seen`: its first `limit` bytes,
/// and whether there were more.
pub open spec fn limited_capture(seen: Seq<u8>, limit: nat) -> (Seq<u8>, bool) {
    if seen.len() <= limit {
        (seen, false)
    } else {
        (seen.take(limit as int), true)
    }
}

impl LimitedOutput {
    /// An empty capture.
    pub fn new() -> (o: LimitedOutput)
        ensures
            o.bytes@ == Seq::<u8>::empty(),
            !o.truncated,
    {
        LimitedOutput { bytes: Vec::new(), truncated: false }
    }

    /// Takes the next chunk read from the stream: keeps what still fits
    /// under the limit and marks the capture truncated when some does not.
    pub fn accept(&mut self, chunk: &[u8], limit: usize)
        requires
            old(self).bytes@.len() <= limit,
        ensures
            final(self).bytes@ == (old(self).bytes@ + chunk@).take(
                if old(self).bytes@.len() + chunk@.len() <= limit {
                    (old(self).bytes@.len() + chunk@.len()) as int
                } else {
                    limit as int
                },
            ),
            final(self).truncated == (old(self).truncated || old(self).bytes@.len() + chunk@.len()
                > limit),
    {
        let remaining = limit - self.bytes.len();
        let ghost before = self.bytes@;
        let n = if remaining >= chunk.len() {
            chunk.len()
        } else {
            remaining
        };
        let mut i: usize = 0;
        while i < n
            invariant
                i <= n <= chunk@.len(),
                n <= remaining,
                remaining == limit - before.len(),
                self.bytes@ == before + chunk@.take(i as int),
                self.truncated == old(self).truncated,
            decreases n - i,
        {
            self.bytes.push(chunk[i]);
            assert(chunk@.take(i + 1) == chunk@.take(i as int).push(chunk@[i as int]));
            i = i + 1;
        }
        assert((before + chunk@).take(before.len() + n) =~= before + chunk@.take(n as int));
        if remaining < chunk.len() {
            self.truncated = true;
        }
    }
}

/// Law: taking a stream chunk by chunk captures what taking it whole
/// would: after a capture of `seen`, accepting `chunk` gives the capture of
/// `seen` followed by `chunk`.
pub proof fn lemma_capture_step(seen: Seq<u8>, chunk: Seq<u8>, limit: nat)
    ensures
        ({
            let (bytes, truncated) = limited_capture(seen, limit);
            let (next_bytes, next_truncated) = limited_capture(seen + chunk, limit);
            &&& next_bytes == (bytes + chunk).take(
                if bytes.len() + chunk.len() <= limit {
                    (bytes.len() + chunk.len()) as int
                } else {
                    limit as int
                },
            )
            &&& next_truncated == (truncated || bytes.len() + chunk.len() > limit)
        }),
{
    let (bytes, truncated) = limited_capture(seen, limit);
    if seen.len() <= limit {
        if seen.len() + chunk.len() <= limit {
            assert((seen + chunk).take((seen.len() + chunk.len()) as int) =~= seen + chunk);
        } else {
            assert((seen + chunk).take(limit as int) =~= (bytes + chunk).take(limit as int));
        }
    } else {
        assert(bytes.len() == limit);
        if chunk.len() == 0 {
            assert((bytes + chunk).take(limit as int) =~= bytes);
            assert((seen + chunk).take(limit as int) =~= seen.take(limit as int));
        } else {
            assert((bytes + chunk).take(limit as int) =~= bytes);
            assert((seen + chunk).take(limit as int) =~= seen.take(limit as int));
        }
    }
}

/// How a program is run when only its source is given: C++ for `cpp`,
/// `cc` and `cxx` (with the default compile arguments), Python for `py`.
pub open spec fn source_kind(extension: Option<Seq<char>>) -> Option<int> {
    match extension {
        Some(e) => if e == "cpp"@ || e == "cc"@ || e == "cxx"@ {
            Some(0)
        } else if e == "py"@ {
            Some(1)
        } else {
            None
        },
        None => None,
    }
}

/// The program a bare source stands for, from the source's path and its
/// extension; the error says that no type could be inferred.
pub fn program_from_source(path: &String, extension: Option<&str>) -> (r: Result<ProgramInfo, String>)
    ensures
        match source_kind(
            match extension {
                Some(e) => Some(e@),
                None => None,
            },
        ) {
            Some(k) => r is Ok && if k == 0 {
                r->Ok_0 matches ProgramInfo::Cpp(p) && p.path@ == path@ && string_views(
                    p.compile_args@,
                ) == default_compile_args_spec()
            } else {
                r->Ok_0 matches ProgramInfo::Python(p) && p.path@ == path@ && p.extra_args@.len()
                    == 0
            },
            None => r is Err && r->Err_0@ == "cannot infer program type from source `"@ + path@
                + "`"@,
        },
{
    proof {
        reveal_strlit("cpp");
        reveal_strlit("cc");
        reveal_strlit("cxx");
        reveal_strlit("py");
        reveal_strlit("cannot infer program type from source `");
        reveal_strlit("`");
    }
    let kind: Option<u8> = match extension {
        Some(e) => {
            let ext = e.to_string();
            if ext == String::from_str("cpp") || ext == String::from_str("cc") || ext
                == String::from_str("cxx") {
                Some(0)
            } else if ext == String::from_str("py") {
                Some(1)
            } else {
                None
            }
        },
        None => None,
    };
    match kind {
        Some(0) => Ok(
            ProgramInfo::Cpp(CppProgram { path: path.clone(), compile_args: default_compile_args() }),
        ),
        Some(_) => Ok(
            ProgramInfo::Python(CommandProgram { path: path.clone(), extra_args: Vec::new() }),
        ),
        None => {
            let mut s = String::from_str("cannot infer program type from source `");
            s.append(path.as_str());
            s.append("`");
            Err(s)
        },
    }
}

} // verus!

verus! {

/// The text `String::from_utf8_lossy` decodes from a byte string.
pub uninterp spec fn utf8_lossy(bytes: Seq<u8>) -> Seq<char>;

/// Calls `String::from_utf8_lossy`; the contract claims only that the text
/// is the function `utf8_lossy` of the bytes, which is what decoding with
/// replacement characters is: it depends on the bytes alone.
#[verifier::external_body]
fn decode_lossy(bytes: &[u8]) -> (s: String)
    ensures
        s@ == utf8_lossy(bytes@),
{
    String::from_utf8_lossy(bytes).into_owned()
}

/// Captured output as text: decoded with replacement characters, and
/// every `\r\n` or lone `\r` turned into `\n`.
pub fn decode_output(data: &[u8]) -> (s: String)
    ensures
        s@ == unify_newlines(utf8_lossy(data@)),
{
    let text = decode_lossy(data);
    let chars = chars_of(text.as_str());
    let unified = unified_newlines(chars.as_slice());
    string_from_chars(unified.as_slice())
}

/// An ASCII letter or digit, or `_`.
pub open spec fn is_ident_char(c: char) -> bool {
    ('a' <= c && c <= 'z') || ('A' <= c && c <= 'Z') || ('0' <= c && c <= '9') || c == '_'
}

/// The local header a line includes with `#include "..."`, if it does.
pub open spec fn quoted_include(line: Seq<char>) -> Option<Seq<char>> {
    let l = trim_start(line);
    if l.len() > 0 && l[0] == '#' {
        let d = trim_start(l.skip(1));
        if crate::text::starts_with(d, "include"@) {
            let rest = d.skip(7);
            if rest.len() > 0 && is_ident_char(rest[0]) {
                None
            } else {
                let r = trim_start(rest);
                if r.len() > 0 && r[0] == '"' {
                    match crate::text::split_once(r.skip(1), "\""@) {
                        Some((inc, _)) => if inc.len() > 0 {
                            Some(inc)
                        } else {
                            None
                        },
                        None => None,
                    }
                } else {
                    None
                }
            }
        } else {
            None
        }
    } else {
        None
    }
}

/// The local headers included by the lines, in order.
pub open spec fn quoted_includes(ls: Seq<Seq<char>>) -> Seq<Seq<char>>
    decreases ls.len(),
{
    if ls.len() == 0 {
        Seq::empty()
    } else {
        match quoted_include(ls.last()) {
            Some(inc) => quoted_includes(ls.drop_last()).push(inc),
            None => quoted_includes(ls.drop_last()),
        }
    }
}

/// The local header one line includes, if it does.
fn include_in_line(line: &[char]) -> (r: Option<Vec<char>>)
    ensures
        match r {
            Some(v) => quoted_include(line@) == Some(v@),
            None => quoted_include(line@) is None,
        },
{
    let l = trimmed_start(line);
    if l.len() == 0 || l[0] != '#' {
        return None;
    }
    let after_hash = crate::text::copy_range(l.as_slice(), 1, l.len());
    assert(after_hash@ == l@.skip(1));
    let d = trimmed_start(after_hash.as_slice());
    let word = chars_of("include");
    proof {
        reveal_strlit("include");
        reveal_strlit("\"");
    }
    if !crate::text::has_prefix(d.as_slice(), word.as_slice()) {
        return None;
    }
    let rest = crate::text::copy_range(d.as_slice(), 7, d.len());
    assert(rest@ == d@.skip(7));
    if rest.len() > 0 {
        let c = rest[0];
        if ('a' <= c && c <= 'z') || ('A' <= c && c <= 'Z') || ('0' <= c && c <= '9') || c == '_' {
            return None;
        }
    }
    let r = trimmed_start(rest.as_slice());
    if r.len() == 0 || r[0] != '"' {
        return None;
    }
    let inner = crate::text::copy_range(r.as_slice(), 1, r.len());
    assert(inner@ == r@.skip(1));
    let quote = chars_of("\"");
    match crate::text::split_once_chars(inner.as_slice(), quote.as_slice()) {
        Some((inc, _)) => {
            if inc.len() > 0 {
                Some(inc)
            } else {
                None
            }
        },
        None => None,
    }
}

/// The local headers a source includes with `#include "..."`, in order.
pub fn parse_quoted_includes(bytes: &[u8]) -> (v: Vec<String>)
    ensures
        string_views(v@) == quoted_includes(lines(utf8_lossy(bytes@))),
{
    let text = decode_lossy(bytes);
    let chars = chars_of(text.as_str());
    let ls = split_lines(chars.as_slice());
    let ghost all = crate::text::views(ls@);
    let mut v: Vec<String> = Vec::new();
    let mut i: usize = 0;
    while i < ls.len()
        invariant
            all == crate::text::views(ls@),
            all == lines(utf8_lossy(bytes@)),
            i <= ls@.len(),
            string_views(v@) == quoted_includes(all.take(i as int)),
        decreases ls@.len() - i,
    {
        assert(all.take(i + 1).drop_last() == all.take(i as int));
        assert(all.take(i + 1).last() == ls@[i as int]@);
        match include_in_line(ls[i].as_slice()) {
            Some(inc) => {
                let s = string_from_chars(inc.as_slice());
                let ghost before = string_views(v@);
                v.push(s);
                assert(string_views(v@) =~= before.push(s@));
            },
            None => {},
        }
        i = i + 1;
    }
    assert(all.take(i as int) == all);
    v
}

} // verus!

verus! {

/// The UTF-8 bytes of a text.
pub open spec fn utf8(s: Seq<char>) -> Seq<u8> {
    vstd::utf8::encode_utf8(s)
}

/// Pieces, each after a zero byte.
pub open spec fn framed(parts: Seq<Seq<u8>>) -> Seq<u8>
    decreases parts.len(),
{
    if parts.len() == 0 {
        Seq::empty()
    } else {
        framed(parts.drop_last()) + seq![0u8] + parts.last()
    }
}

/// The files of a compilation, each as its path and its bytes, each after
/// a zero byte.
pub open spec fn framed_inputs(inputs: Seq<(Seq<u8>, Seq<u8>)>) -> Seq<u8>
    decreases inputs.len(),
{
    if inputs.len() == 0 {
        Seq::empty()
    } else {
        framed_inputs(inputs.drop_last()) + seq![0u8] + inputs.last().0 + seq![0u8] + inputs.last().1
    }
}

/// What the cache key of a C++ build digests: a version tag, the
/// compiler's path and version line, the compile arguments, then each
/// source file's path and contents.
pub open spec fn cpp_cache_material(
    gpp_path: Seq<char>,
    version: Option<Seq<char>>,
    args: Seq<Seq<char>>,
    inputs: Seq<(Seq<char>, Seq<u8>)>,
) -> Seq<u8> {
    utf8("cptool-cpp-cache-v2"@) + seq![0u8] + utf8(gpp_path) + seq![0u8] + utf8(
        match version {
            Some(v) => v,
            None => "<unavailable>"@,
        },
    ) + framed(args.map_values(|a: Seq<char>| utf8(a))) + framed_inputs(
        inputs.map_values(|x: (Seq<char>, Seq<u8>)| (utf8(x.0), x.1)),
    )
}

fn append_bytes(v: &mut Vec<u8>, b: &[u8])
    ensures
        final(v)@ == old(v)@ + b@,
{
    let ghost start = v@;
    let mut i: usize = 0;
    while i < b.len()
        invariant
            i <= b@.len(),
            v@ == start + b@.subrange(0, i as int),
        decreases b@.len() - i,
    {
        v.push(b[i]);
        assert(b@.subrange(0, i + 1) =~= b@.subrange(0, i as int).push(b@[i as int]));
        i = i + 1;
    }
    assert(b@.subrange(0, i as int) =~= b@);
}

fn append_text(v: &mut Vec<u8>, s: &str)
    ensures
        final(v)@ == old(v)@ + utf8(s@),
{
    append_bytes(v, s.as_bytes());
}

/// The cache key of a C++ build: the SHA-256, in hexadecimal, of the
/// compiler's path and version line (when known), the compile arguments,
/// and each source file's path and contents.
pub fn cpp_cache_key(
    gpp_path: &str,
    version: Option<&str>,
    compile_args: &Vec<String>,
    inputs: &Vec<(String, Vec<u8>)>,
) -> (key: String)
    ensures
        key@ == crate::digest::hex(
            crate::digest::sha256(
                cpp_cache_material(
                    gpp_path@,
                    match version {
                        Some(v) => Some(v@),
                        None => None,
                    },
                    string_views(compile_args@),
                    inputs@.map_values(|x: (String, Vec<u8>)| (x.0@, x.1@)),
                ),
            ),
        ),
{
    let mut m: Vec<u8> = Vec::new();
    append_text(&mut m, "cptool-cpp-cache-v2");
    m.push(0u8);
    append_text(&mut m, gpp_path);
    m.push(0u8);
    match version {
        Some(v) => append_text(&mut m, v),
        None => append_text(&mut m, "<unavailable>"),
    }
    let ghost head = m@;
    let ghost args = string_views(compile_args@).map_values(|a: Seq<char>| utf8(a));
    let mut i: usize = 0;
    while i < compile_args.len()
        invariant
            i <= compile_args@.len(),
            args == string_views(compile_args@).map_values(|a: Seq<char>| utf8(a)),
            m@ == head + framed(args.take(i as int)),
        decreases compile_args@.len() - i,
    {
        assert(args.take(i + 1).drop_last() =~= args.take(i as int));
        assert(args.take(i + 1).last() == utf8(compile_args@[i as int]@));
        m.push(0u8);
        append_text(&mut m, compile_args[i].as_str());
        i = i + 1;
    }
    assert(args.take(i as int) =~= args);
    let ghost mid = m@;
    let ghost ins = inputs@.map_values(|x: (String, Vec<u8>)| (x.0@, x.1@)).map_values(
        |x: (Seq<char>, Seq<u8>)| (utf8(x.0), x.1),
    );
    let mut j: usize = 0;
    while j < inputs.len()
        invariant
            j <= inputs@.len(),
            ins == inputs@.map_values(|x: (String, Vec<u8>)| (x.0@, x.1@)).map_values(
                |x: (Seq<char>, Seq<u8>)| (utf8(x.0), x.1),
            ),
            m@ == mid + framed_inputs(ins.take(j as int)),
        decreases inputs@.len() - j,
    {
        assert(ins.take(j + 1).drop_last() =~= ins.take(j as int));
        assert(ins.take(j + 1).last() == (utf8(inputs@[j as int].0@), inputs@[j as int].1@));
        m.push(0u8);
        append_text(&mut m, inputs[j].0.as_str());
        m.push(0u8);
        append_bytes(&mut m, inputs[j].1.as_slice());
        j = j + 1;
    }
    assert(ins.take(j as int) =~= ins);
    let ghost vt: Seq<char> = match version {
        Some(v) => v@,
        None => "<unavailable>"@,
    };
    assert(head == utf8("cptool-cpp-cache-v2"@) + seq![0u8] + utf8(gpp_path@) + seq![0u8] + utf8(vt));
    assert(m@ =~= cpp_cache_material(
        gpp_path@,
        match version {
            Some(v) => Some(v@),
            None => None,
        },
        string_views(compile_args@),
        inputs@.map_values(|x: (String, Vec<u8>)| (x.0@, x.1@)),
    ));
    crate::digest::sha256_hex(m.as_slice())
}

} // verus!
