use cptool::program::{
    decode_output, effective_cpp_compile_args, finished_run, parse_quoted_includes,
    program_from_source, render_args, runtime_exit_diagnostic, CppCompileDiagnostics, LimitedOutput,
};
use cptool::schema::ProgramInfo;
use std::io::Read;

fn read_limited_output<R: Read>(mut reader: R, limit: usize) -> std::io::Result<LimitedOutput> {
    let mut output = LimitedOutput::new();
    let mut buffer = [0u8; 8192];
    loop {
        let read = reader.read(&mut buffer)?;
        if read == 0 {
            break;
        }
        output.accept(&buffer[..read], limit);
    }
    Ok(output)
}

#[test]
fn limited_output_keeps_prefix_and_drains_reader() {
    let output = read_limited_output(std::io::Cursor::new(b"abcdef"), 3).unwrap();

    assert_eq!(output.bytes, b"abc");
    assert!(output.truncated);
}

#[test]
fn limited_output_limit_zero_marks_non_empty_output_truncated() {
    let output = read_limited_output(std::io::Cursor::new(b"x"), 0).unwrap();

    assert!(output.bytes.is_empty());
    assert!(output.truncated);
}

#[test]
fn limited_output_accepts_chunks_up_to_the_limit() {
    let mut output = LimitedOutput::new();
    output.accept(b"ab", 4);
    output.accept(b"cd", 4);
    assert_eq!(output.bytes, b"abcd");
    assert!(!output.truncated);
    output.accept(b"", 4);
    assert!(!output.truncated);
    output.accept(b"e", 4);
    assert_eq!(output.bytes, b"abcd");
    assert!(output.truncated);
}

#[test]
fn effective_cpp_compile_args_adds_windows_static_linking_once() {
    let source_dir = Some("src");
    for windows in [false, true] {
        let args = effective_cpp_compile_args(source_dir, &["-O2".to_string()], windows);

        if windows {
            assert!(args.iter().any(|arg| arg == "-static"));
        } else {
            assert!(!args.iter().any(|arg| arg == "-static"));
        }

        let explicit_static = effective_cpp_compile_args(
            source_dir,
            &["-O2".to_string(), "-static".to_string()],
            windows,
        );
        assert_eq!(
            explicit_static
                .iter()
                .filter(|arg| arg.as_str() == "-static")
                .count(),
            1
        );
    }
}

#[test]
fn effective_cpp_compile_args_adds_source_directory_include() {
    assert_eq!(
        effective_cpp_compile_args(Some("src"), &["-O2".to_string()], true),
        vec!["-O2", "-static", "-I", "src"]
    );
    assert_eq!(effective_cpp_compile_args(None, &[], false), Vec::<String>::new());
}

#[test]
fn runtime_exit_diagnostic_names_common_windows_ntstatus_codes() {
    let dll_hint = runtime_exit_diagnostic(Some(-1073741511), true).unwrap();
    assert!(dll_hint.contains("0xC0000139"));
    assert!(dll_hint.contains("DLL"));

    let access_violation_hint = runtime_exit_diagnostic(Some(-1073741819), true).unwrap();
    assert!(access_violation_hint.contains("0xC0000005"));
    assert!(access_violation_hint.contains("access violation"));

    assert!(runtime_exit_diagnostic(Some(1), true).is_none());
}

#[test]
fn runtime_exit_diagnostic_is_silent_off_windows() {
    assert!(runtime_exit_diagnostic(Some(-1073741511), false).is_none());
    assert!(runtime_exit_diagnostic(None, true).is_none());
}

#[test]
fn cpp_compile_diagnostics_render_key_toolchain_and_cache_context() {
    let args = vec!["-O2".to_string(), "-std=c++20".to_string(), "-static".to_string()];
    let diagnostics = CppCompileDiagnostics {
        gpp_path: "C:\\tools\\mingw\\bin\\g++.exe".to_string(),
        gpp_version_first_line: Some("g++ (Rev1) 13.2.0".to_string()),
        compile_args: args.clone(),
        has_static: args.iter().any(|arg| arg == "-static"),
        cache_key: "abc".to_string(),
        exe_path: "D:\\work\\.cptool\\cache\\cpp\\abc\\main.exe".to_string(),
    };

    let rendered = diagnostics.render();

    assert!(rendered.contains("g++ path: C:\\tools\\mingw\\bin\\g++.exe"));
    assert!(rendered.contains("g++ version: g++ (Rev1) 13.2.0"));
    assert!(rendered.contains("compile args: -O2 -std=c++20 -static"));
    assert!(rendered.contains("contains -static: true"));
    assert!(rendered.contains("cache key: "));
    assert!(rendered.contains("cache exe: "));
}

#[test]
fn render_args_marks_empty_argument_lists() {
    assert_eq!(render_args(&Vec::new()), "<none>");
    assert_eq!(render_args(&vec!["a".to_string(), "b".to_string()]), "a b");
}

#[test]
fn quoted_includes_are_read_from_directives() {
    let source = b"#include <cstdio>\n  #  include \"a.h\"\n#include\"b/c.h\" // x\n#includes \"no.h\"\n#include \"\"\nint x;\n";
    assert_eq!(parse_quoted_includes(source), vec!["a.h", "b/c.h"]);
}

#[test]
fn decode_output_unifies_newlines() {
    assert_eq!(decode_output(b"a\r\nb\rc\n"), "a\nb\nc\n");
}

#[test]
fn program_type_is_inferred_from_the_extension() {
    match program_from_source(&"x.cc".to_string(), Some("cc")).unwrap() {
        ProgramInfo::Cpp(p) => {
            assert_eq!(p.path, "x.cc");
            assert_eq!(p.compile_args, vec!["-O2", "-std=c++20", "-Wall", "-Wextra", "-pedantic"]);
        }
        _ => panic!("expected a C++ program"),
    }
    assert!(matches!(
        program_from_source(&"x.py".to_string(), Some("py")).unwrap(),
        ProgramInfo::Python(_)
    ));
    assert_eq!(
        program_from_source(&"x.rb".to_string(), Some("rb")).unwrap_err(),
        "cannot infer program type from source `x.rb`"
    );
}

fn captured(bytes: &[u8], limit: usize) -> LimitedOutput {
    let mut output = LimitedOutput::new();
    output.accept(bytes, limit);
    output
}

#[test]
fn finished_run_reports_timeout_success_and_runtime_error() {
    let timeout = finished_run("slow".to_string(), true, false, Some(9), 1001, captured(b"a\r\nb", 64), captured(b"", 64), false);
    assert!(!timeout.ok);
    assert_eq!(timeout.kind, "timeout");
    assert_eq!(timeout.exit_code, None);
    assert_eq!(timeout.diagnostic, None);
    assert_eq!(timeout.stdout, "a\nb");
    assert_eq!(timeout.stdout_bytes, b"a\r\nb".to_vec());

    let ok = finished_run("std".to_string(), false, true, Some(0), 5, captured(b"42\n", 2), captured(b"", 64), false);
    assert!(ok.ok);
    assert_eq!(ok.kind, "ok");
    assert_eq!(ok.exit_code, Some(0));
    assert_eq!(ok.stdout, "42");
    assert!(ok.truncated_stdout);

    let crash = finished_run("bad".to_string(), false, false, Some(-1073741819), 5, captured(b"", 64), captured(b"boom", 64), true);
    assert!(!crash.ok);
    assert_eq!(crash.kind, "runtime_error");
    assert!(crash.diagnostic.unwrap().starts_with("Windows NTSTATUS 0xC0000005"));
    assert_eq!(crash.stderr, "boom");
}
