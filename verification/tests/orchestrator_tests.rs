use crabtime::codegen::{
    escape_source_text, format_clock_time, format_duration, gen_prelude, get_current_time,
    prepare_input_code,
};
use crabtime::config::InlineAttr;
use crabtime::orchestrator::{
    assemble_project, classify_run, function_impl, get_host_target, GeneratedProject,
    OrchestratorError, RunOutcome,
};
use crabtime::signature::{SigParam, SigType, TypeShape};
use crabtime::tokens::{Pos, Token};

// Durations of a minute and more print as minutes and seconds.
#[test]
fn duration_minutes() {
    assert_eq!(format_duration(65_000), "1m 5s");
    assert_eq!(format_duration(60_000), "1m 0s");
    assert_eq!(format_duration(125_999), "2m 5s");
}

// Durations under a minute print as seconds with two decimals.
#[test]
fn duration_seconds() {
    assert_eq!(format_duration(3_456), "3.46 s");
    assert_eq!(format_duration(0), "0.00 s");
    assert_eq!(format_duration(999), "1.00 s");
    assert_eq!(format_duration(59_996), "60.00 s");
}

// A clock time prints as two-digit fields with three-digit milliseconds.
#[test]
fn clock_time() {
    assert_eq!(format_clock_time(3_723_004), "01:02:03 (004)");
    assert_eq!(format_clock_time(0), "00:00:00 (000)");
    let now = get_current_time();
    assert_eq!(now.len(), 14);
}

// Source-literal escaping: quotes and backslashes are escaped, so the
// body text can stand inside a double-quoted constant.
#[test]
fn source_escaping() {
    assert_eq!(escape_source_text("a\"b"), "a\\\"b");
    assert_eq!(escape_source_text("a\\b"), "a\\\\b");
    assert_eq!(escape_source_text("line\nnext"), "line\\nnext");
}

// The prelude holds the protocol markers, and token-stream output support
// comes in only when asked.
#[test]
fn prelude_contents() {
    let plain = gen_prelude(false);
    assert!(plain.contains("const OUTPUT_PREFIX: &'static str = \"[OUTPUT]\";"));
    assert!(plain.contains("const WARNING_PREFIX: &'static str = \"[WARNING]\";"));
    assert!(plain.contains("const ERROR_PREFIX: &'static str = \"[ERROR]\";"));
    assert!(plain.contains("stringify_if_needed"));
    assert!(!plain.contains("proc_macro2::TokenStream"));
    let with_ts = gen_prelude(true);
    assert!(with_ts.contains("impl CodeFromOutput for proc_macro2::TokenStream"));
}

// The generated entry point embeds the escaped body as a constant and the
// raw body inside the result block.
#[test]
fn input_code_skeleton() {
    let code = prepare_input_code("#![allow(x)]", "say(\"hi\")", "()", false);
    assert!(code.contains("#![allow(x)]"));
    assert!(code.contains("const SOURCE_CODE: &str = \"say(\\\"hi\\\")\";"));
    assert!(code.contains("let result: () = {"));
    assert!(code.contains("say(\"hi\")"));
    assert!(code.contains("crabtime::prefix_lines_with_output(&__output_buffer__)"));
}

// The host target is read off the first host line of the toolchain's
// version output.
#[test]
fn host_target_line() {
    let out = "rustc 1.80.0\nbinary: rustc\nhost: x86_64-unknown-linux-gnu\nrelease: 1.80.0\n";
    assert_eq!(get_host_target(out).unwrap(), "x86_64-unknown-linux-gnu");
    assert_eq!(
        get_host_target("rustc 1.80.0\n").unwrap_err(),
        OrchestratorError::NoHostTarget
    );
}

// A successful run hands its standard output through.
#[test]
fn classify_success() {
    match classify_run(true, "[OUTPUT] x\n", "") {
        RunOutcome::Success { stdout } => assert_eq!(stdout, "[OUTPUT] x\n"),
        _ => panic!("expected success"),
    }
}

// A failed run with the runtime marker re-raises from the marker on.
#[test]
fn classify_runtime_panic() {
    let stderr = "warning: unused\nthread 'main' panicked at src/main.rs:3:5:\nboom\n";
    match classify_run(false, "", stderr) {
        RunOutcome::RuntimePanic { message } => {
            assert_eq!(message, "thread 'main' panicked at src/main.rs:3:5:\nboom\n");
        }
        _ => panic!("expected a runtime panic"),
    }
}

// A failed run without the marker is a plain build failure.
#[test]
fn classify_build_failure() {
    match classify_run(false, "", "error[E0308]: mismatched types\n") {
        RunOutcome::BuildFailure => {}
        _ => panic!("expected a build failure"),
    }
}

fn no_attrs() -> Vec<InlineAttr> {
    vec![]
}

// The assembled project merges the enclosing manifest, extracts inline
// attributes, and enables token-stream output exactly when the merged
// dependencies name the token crate.
#[test]
fn assemble_full_project() {
    let manifest = "[package]\nedition = \"2021\"\n[build-dependencies]\nproc-macro2 = \"1\"\n";
    let attrs = vec![InlineAttr {
        name: "dependency".to_string(),
        args_text: Some("serde = \"1.0\"".to_string()),
        full_text: "#![dependency(serde = \"1.0\")]".to_string(),
    }];
    let p: GeneratedProject =
        assemble_project(Some(manifest), attrs, "1 + 2", "usize").unwrap();
    assert!(p.manifest.contains("edition  = \"2021\""));
    assert!(p.manifest.contains("proc-macro2 = \"1\""));
    assert!(p.manifest.contains("serde = \"1.0\""));
    assert!(p.main_source.contains("impl CodeFromOutput for proc_macro2::TokenStream"));
    assert!(p.main_source.contains("let result: usize = {"));
    assert!(p.main_source.contains("1 + 2"));
}

// Without a manifest the defaults apply and token-stream support stays
// out.
#[test]
fn assemble_without_manifest() {
    let p = assemble_project(None, no_attrs(), "x", "()").unwrap();
    assert!(p.manifest.contains("edition  = \"2024\""));
    assert!(!p.main_source.contains("impl CodeFromOutput for proc_macro2::TokenStream"));
}

// The macro-rules wrapper carries the pattern, the evaluated definition,
// and the moved macro-export attribute.
#[test]
fn macro_rules_wrapper() {
    let params = vec![SigParam::Named {
        name: "n".to_string(),
        ty: SigType {
            text: "usize".to_string(),
            shape: TypeShape::Path { last: "usize".to_string(), type_args: vec![] },
        },
    }];
    let attrs = vec![InlineAttr {
        name: "macro_export".to_string(),
        args_text: Some("".to_string()),
        full_text: "#[macro_export]".to_string(),
    }];
    let p = Pos { line: 1, col: 0 };
    let body = vec![Token::Ident { text: "n".to_string(), start: p, end: p }];
    let text = function_impl("gen", "cache=true", &params, attrs, &body, "-> usize").unwrap();
    assert!(text.starts_with("#[macro_export]\nmacro_rules! gen {\n"));
    assert!(text.contains("($n_arg:literal$(,)?) => {"));
    assert!(text.contains("#[crabtime::eval_fn(cache=true)]"));
    assert!(text.contains("fn gen() -> usize {"));
    assert!(text.contains("let n: usize = $n_arg;"));
    assert!(text.contains("\nn \n"));
}
