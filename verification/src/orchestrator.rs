//! Orchestration decisions of the ephemeral build: what the generated
//! project's files hold, how the host target is read off the toolchain's
//! output, how a finished run is classified, and the text of the
//! macro-rules wrapper that a function-like definition expands to.

use vstd::prelude::*;
use crate::strutil::{
    to_chars, from_chars, lines_of, trim_of, starts_with, check_starts_with, split_lines,
    trim_chars, tail_from, match_at, contains_sub, find_sub,
};
use crate::config::{
    CargoConfig, InlineAttr, ConfigError, spec_extract_all, manifest_deps_of,
    manifest_edition_of, default_edition, manifest_text_of, deps_view, join_lines_of,
    attr_name_index, remove_macro_export_attribute,
};
use crate::codegen::{input_code_of, prepare_input_code};
use crate::signature::{SigParam, ArgsView, spec_parse_args, parse_args};
use crate::tokens::{Token, TokView, toks_view};
use crate::serializer::{render_of, print_tokens_internal};
use crate::expander::{spec_expand_splice, expand_expand_macro};

verus! {

/// Why the orchestrator could not run the generated project.
#[derive(Clone, Copy, PartialEq, Eq, Structural, Debug)]
pub enum OrchestratorError {
    /// The toolchain's output names no host target.
    NoHostTarget,
    /// The invocation signature is none of the supported forms.
    UnsupportedSignature,
}

/// The host target named in the toolchain's version output: the payload
/// of the first line that begins with the host prefix, trimmed.
pub open spec fn host_line_of(lines: Seq<Seq<char>>) -> Option<Seq<char>>
    decreases lines.len(),
{
    if lines.len() == 0 {
        None
    } else if starts_with(lines[0], "host:"@) {
        Some(trim_of(lines[0].skip(5)))
    } else {
        host_line_of(lines.drop_first())
    }
}

/// Read the host target off the toolchain's version output, so that the
/// generated program is always built for the machine it runs on.
pub fn get_host_target(rustc_output: &str) -> (r: Result<String, OrchestratorError>)
    ensures
        match r {
            Ok(s) => host_line_of(lines_of(rustc_output@)) matches Some(h) && s@ == h,
            Err(e) => e == OrchestratorError::NoHostTarget && host_line_of(
                lines_of(rustc_output@),
            ) is None,
        },
{
    let chars = to_chars(rustc_output);
    let lines = split_lines(chars.as_slice());
    let prefix = to_chars("host:");
    let ghost all = lines@.map_values(|l: Vec<char>| l@);
    let n = lines.len();
    let mut i: usize = 0;
    proof {
        assert(all.skip(0) =~= all);
    }
    while i < n
        invariant
            i <= n,
            n == lines@.len(),
            all == lines@.map_values(|l: Vec<char>| l@),
            all == lines_of(rustc_output@),
            all.len() == n,
            prefix@ == "host:"@,
            host_line_of(all) == host_line_of(all.skip(i as int)),
        decreases n - i,
    {
        proof {
            assert(all.skip(i as int)[0] == all[i as int]);
            assert(all.skip(i as int).drop_first() =~= all.skip(i + 1));
        }
        if check_starts_with(lines[i].as_slice(), prefix.as_slice()) {
            proof {
                assert("host:"@.len() == 5) by {
                    reveal_strlit("host:");
                }
                assert(all[i as int] == lines@[i as int]@);
                assert(all[i as int].len() >= 5);
                assert(host_line_of(all.skip(i as int)) == Some(
                    trim_of(all[i as int].skip(5)),
                ));
            }
            let payload = tail_from(lines[i].as_slice(), 5);
            let trimmed = trim_chars(payload.as_slice());
            return Ok(from_chars(trimmed.as_slice()));
        }
        i = i + 1;
    }
    proof {
        assert(all.skip(n as int) =~= Seq::<Seq<char>>::empty());
    }
    Err(OrchestratorError::NoHostTarget)
}

/// How a finished subprocess run reads: its captured standard output on
/// success; on failure, a runtime panic re-raised from the first
/// recognizable runtime-failure marker in standard error, or a plain
/// build failure when none is there.
pub enum RunOutcome {
    Success { stdout: String },
    RuntimePanic { message: String },
    BuildFailure,
}

/// The marker that a generated program's own runtime failure leaves in
/// standard error.
pub open spec fn panic_marker() -> Seq<char> {
    "thread 'main' panicked"@
}

/// Classify a finished run of the generated project.
pub fn classify_run(success: bool, stdout: &str, stderr: &str) -> (r: RunOutcome)
    ensures
        match r {
            RunOutcome::Success { stdout: s } => success && s@ == stdout@,
            RunOutcome::RuntimePanic { message } => !success && exists|i: int|
                {
                    &&& match_at(stderr@, panic_marker(), i)
                    &&& (forall|j: int| 0 <= j < i ==> !match_at(stderr@, panic_marker(), j))
                    &&& message@ == stderr@.skip(i)
                },
            RunOutcome::BuildFailure => !success && !contains_sub(stderr@, panic_marker()),
        },
{
    if success {
        return RunOutcome::Success { stdout: stdout.to_owned() };
    }
    let err_chars = to_chars(stderr);
    let marker = to_chars("thread 'main' panicked");
    match find_sub(err_chars.as_slice(), marker.as_slice()) {
        Some(i) => {
            proof {
                assert(match_at(stderr@, panic_marker(), i as int));
                assert(forall|j: int| 0 <= j < i ==> !match_at(stderr@, panic_marker(), j));
            }
            let rest = tail_from(err_chars.as_slice(), i);
            RunOutcome::RuntimePanic { message: from_chars(rest.as_slice()) }
        },
        None => RunOutcome::BuildFailure,
    }
}

/// The files of one working project: its manifest and its entry-point
/// source.
pub struct GeneratedProject {
    pub manifest: String,
    pub main_source: String,
}

/// What the project assembly yields once the manifest is merged: the
/// extraction outcome applied to the merged dependency list and edition.
pub open spec fn spec_assemble_rest(
    deps0: Seq<(Seq<char>, Seq<char>)>,
    edition0: Option<Seq<char>>,
    attrs: Seq<InlineAttr>,
    body: Seq<char>,
    output_tp: Seq<char>,
) -> Result<(Seq<char>, Seq<char>), ConfigError> {
    let out = spec_extract_all(attrs);
    match out.err {
        Some(e) => Err(e),
        None => {
            let deps = deps0 + out.new_deps;
            let edition = match out.edition {
                Some(e) => Some(e),
                None => edition0,
            };
            let include_ts = exists|i: int| 0 <= i < deps.len() && deps[i].0 == "proc-macro2"@;
            Ok(
                (
                    manifest_text_of(edition, None, deps),
                    input_code_of(join_lines_of(out.others), body, output_tp, include_ts),
                ),
            )
        },
    }
}

/// What the project assembly yields: the enclosing manifest, where there
/// is one, merged first; then the inline attributes extracted; then the
/// generated manifest printed and the entry-point source built around the
/// invocation body, with token-stream output support exactly when the
/// merged dependencies name the token crate.
pub open spec fn spec_assemble(
    manifest_text: Option<Seq<char>>,
    attrs: Seq<InlineAttr>,
    body: Seq<char>,
    output_tp: Seq<char>,
) -> Result<(Seq<char>, Seq<char>), ConfigError> {
    match manifest_text {
        None => spec_assemble_rest(Seq::empty(), None, attrs, body, output_tp),
        Some(t) => {
            if manifest_deps_of(t) is None || manifest_edition_of(t) is None {
                Err(ConfigError::ManifestParse)
            } else {
                spec_assemble_rest(
                    manifest_deps_of(t)->Some_0,
                    Some(
                        match manifest_edition_of(t)->Some_0 {
                            Some(e) => e,
                            None => default_edition(),
                        },
                    ),
                    attrs,
                    body,
                    output_tp,
                )
            }
        },
    }
}

/// Assemble the working project's files for one invocation: merge the
/// enclosing manifest where one resolved, extract the inline attributes,
/// and build the generated manifest and entry-point source.
pub fn assemble_project(
    manifest_text: Option<&str>,
    attrs: Vec<InlineAttr>,
    body: &str,
    output_tp: &str,
) -> (r: Result<GeneratedProject, ConfigError>)
    ensures
        ({
            let mt = match manifest_text {
                Some(t) => Some(t@),
                None => None,
            };
            match r {
                Ok(p) => spec_assemble(mt, attrs@, body@, output_tp@) matches Ok(s)
                    && p.manifest@ == s.0 && p.main_source@ == s.1,
                Err(e) => spec_assemble(mt, attrs@, body@, output_tp@) == Err::<
                    (Seq<char>, Seq<char>),
                    ConfigError,
                >(e),
            }
        }),
{
    let mut cfg = CargoConfig { edition: None, resolver: None, dependencies: Vec::new() };
    proof {
        assert(deps_view(cfg.dependencies@) =~= Seq::<(Seq<char>, Seq<char>)>::empty());
    }
    match manifest_text {
        Some(t) => {
            match cfg.fill_from_cargo_toml(t) {
                Ok(_) => {},
                Err(e) => {
                    return Err(e);
                },
            }
        },
        None => {},
    }
    let ghost deps0 = deps_view(cfg.dependencies@);
    let ghost edition0 = crate::config::opt_str_view(cfg.edition);
    let attributes = match cfg.extract_inline_attributes(attrs) {
        Ok(a) => a,
        Err(e) => {
            return Err(e);
        },
    };
    proof {
        assert(deps0 + spec_extract_all(attrs@).new_deps =~= deps_view(cfg.dependencies@));
    }
    let include_ts = cfg.contains_dependency("proc-macro2");
    proof {
        let deps = deps_view(cfg.dependencies@);
        assert(include_ts == exists|i: int| 0 <= i < deps.len() && deps[i].0 == "proc-macro2"@)
            by {
            if include_ts {
                let i = choose|i: int|
                    0 <= i < cfg.dependencies@.len() && cfg.dependencies@[i].label@
                        == "proc-macro2"@;
                assert(deps[i].0 == "proc-macro2"@);
            }
            if exists|i: int| 0 <= i < deps.len() && deps[i].0 == "proc-macro2"@ {
                let i = choose|i: int| 0 <= i < deps.len() && deps[i].0 == "proc-macro2"@;
                assert(cfg.dependencies@[i].label@ == "proc-macro2"@);
            }
        }
    }
    let main_source = prepare_input_code(attributes.as_str(), body, output_tp, include_ts);
    let manifest = cfg.print();
    Ok(GeneratedProject { manifest, main_source })
}

/// The matcher pattern of a binding form.
pub open spec fn args_pattern_of(a: ArgsView) -> Seq<char> {
    match a {
        ArgsView::TokenStream { ident } => "$($"@ + ident + ":tt)*"@,
        ArgsView::Pattern { pattern } => pattern,
    }
}

/// The setup code of a binding form.
pub open spec fn args_setup_of(a: ArgsView) -> Seq<char> {
    match a {
        ArgsView::TokenStream { ident } => "use proc_macro2::TokenStream;\nlet "@ + ident
            + ": TokenStream = stringify!($($"@ + ident + ")*).parse().unwrap();\n"@,
        ArgsView::Pattern { pattern } => Seq::empty(),
    }
}

/// The texts of a list of attributes, joined with line breaks.
pub open spec fn attr_texts_of(attrs: Seq<InlineAttr>) -> Seq<Seq<char>> {
    attrs.map_values(|a: InlineAttr| a.full_text@)
}

/// The macro-rules wrapper that a function-like definition expands to:
/// the kept attributes, the derived pattern, and an inner evaluated
/// definition holding the setup and decode code and the spliced body.
pub open spec fn macro_rules_text_of(
    name: Seq<char>,
    attr: Seq<char>,
    params: Seq<SigParam>,
    attrs: Seq<InlineAttr>,
    body: Seq<TokView>,
    output_tp: Seq<char>,
) -> Seq<char> {
    let i = attr_name_index(attrs, "macro_export"@);
    let export = if i >= 0 {
        attrs[i].full_text@ + "\n"@
    } else {
        Seq::<char>::empty()
    };
    let kept = if i >= 0 {
        attrs.remove(i)
    } else {
        attrs
    };
    let parsed = spec_parse_args(params);
    let body_text = render_of(spec_expand_splice(body)).text;
    export + "macro_rules! "@ + name + " {\n    ("@ + args_pattern_of(parsed.0)
        + ") => {\n        #[crabtime::eval_fn("@ + attr + ")]\n        fn "@ + name + "() "@
        + output_tp + " {\n"@ + join_lines_of(attr_texts_of(kept)) + "\n"@ + args_setup_of(
        parsed.0,
    ) + "\n"@ + parsed.1 + "\n"@ + body_text + "\n        }\n    };\n}\n"@
}

/// Build the macro-rules wrapper of one function-like definition: its
/// raw-splice forms resolved, its signature compiled into pattern and
/// decode code, and its `macro_export` attribute moved in front of the
/// definition.
pub fn function_impl(
    name: &str,
    attr: &str,
    params: &Vec<SigParam>,
    attrs: Vec<InlineAttr>,
    body: &Vec<Token>,
    output_tp: &str,
) -> (r: Result<String, OrchestratorError>)
    ensures
        r matches Ok(s) && s@ == macro_rules_text_of(
            name@,
            attr@,
            params@,
            attrs@,
            toks_view(body@),
            output_tp@,
        ),
{
    let ghost attrs0 = attrs@;
    let mut attrs_v = attrs;
    let export = remove_macro_export_attribute(&mut attrs_v);
    let parsed = match parse_args(params) {
        Some(p) => p,
        None => {
            proof {
                assert(false);
            }
            return Err(OrchestratorError::UnsupportedSignature);
        },
    };
    let (args, code) = parsed;
    let pattern = args.pattern();
    let setup = args.setup();
    let expanded = expand_expand_macro(body);
    let body_out = print_tokens_internal(&expanded);
    let mut joined = String::new();
    let c = attrs_v.len();
    let ghost olines = attr_texts_of(attrs_v@);
    let mut t: usize = 0;
    proof {
        assert(olines.skip(0) =~= olines);
        assert(joined@ + join_lines_of(olines) =~= join_lines_of(olines));
    }
    while t < c
        invariant
            t <= c,
            c == attrs_v@.len(),
            olines == attr_texts_of(attrs_v@),
            olines.len() == c,
            joined@ + join_lines_of(olines.skip(t as int)) == join_lines_of(olines),
        decreases c - t,
    {
        proof {
            assert(olines.skip(t as int)[0] == olines[t as int]);
            assert(olines.skip(t as int).drop_first() =~= olines.skip(t + 1));
        }
        joined.append(attrs_v[t].full_text.as_str());
        if t + 1 < c {
            joined.append("\n");
        }
        t = t + 1;
    }
    proof {
        assert(join_lines_of(olines.skip(c as int)) =~= Seq::<char>::empty());
    }
    let mut s = String::new();
    match &export {
        Some(a) => {
            s.append(a.full_text.as_str());
            s.append("\n");
        },
        None => {},
    }
    s.append("macro_rules! ");
    s.append(name);
    s.append(" {\n    (");
    s.append(pattern.as_str());
    s.append(") => {\n        #[crabtime::eval_fn(");
    s.append(attr);
    s.append(")]\n        fn ");
    s.append(name);
    s.append("() ");
    s.append(output_tp);
    s.append(" {\n");
    s.append(joined.as_str());
    s.append("\n");
    s.append(setup.as_str());
    s.append("\n");
    s.append(code.as_str());
    s.append("\n");
    s.append(body_out.output.as_str());
    s.append("\n        }\n    };\n}\n");
    proof {
        assert(s@ =~= macro_rules_text_of(
            name@,
            attr@,
            params@,
            attrs0,
            toks_view(body@),
            output_tp@,
        ));
    }
    Ok(s)
}

} // verus!
