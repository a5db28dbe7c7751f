//! Line-oriented output protocol: the generated program prints lines that
//! are either generated source (output marker), diagnostics (warning or
//! error marker), or plain informational text, and the parser splits raw
//! standard output back into those parts.

use vstd::prelude::*;
use crate::strutil::{
    lines_of, trim_of, starts_with, to_chars, from_chars, trim_chars, check_starts_with,
    tail_from, split_lines,
};

verus! {

/// The marker that tags a line of generated source.
pub open spec fn output_marker() -> Seq<char> {
    "[OUTPUT]"@
}

/// The marker that tags a compiler-warning line.
pub open spec fn warning_marker() -> Seq<char> {
    "[WARNING]"@
}

/// The marker that tags a compiler-error line.
pub open spec fn error_marker() -> Seq<char> {
    "[ERROR]"@
}

/// The output marker as a character vector.
pub fn output_marker_chars() -> (r: Vec<char>)
    ensures
        r@ == output_marker(),
{
    to_chars("[OUTPUT]")
}

/// The warning marker as a character vector.
pub fn warning_marker_chars() -> (r: Vec<char>)
    ensures
        r@ == warning_marker(),
{
    to_chars("[WARNING]")
}

/// The error marker as a character vector.
pub fn error_marker_chars() -> (r: Vec<char>)
    ensures
        r@ == error_marker(),
{
    to_chars("[ERROR]")
}

/// What one run's standard output decodes to: the generated source text,
/// the diagnostics, and the untagged lines to echo, each in order.
pub struct ParsedOutput {
    pub code: String,
    pub warnings: Vec<String>,
    pub errors: Vec<String>,
    pub echoed: Vec<String>,
}

/// The same split at the specification level.
pub ghost struct ProtocolSplit {
    pub code: Seq<char>,
    pub warnings: Seq<Seq<char>>,
    pub errors: Seq<Seq<char>>,
    pub echoed: Seq<Seq<char>>,
}

/// How a sequence of stdout lines decodes, line by line: a trimmed line
/// starting with the output marker contributes what follows the marker plus
/// a line break to the generated source; one starting with the warning or
/// error marker contributes what follows the marker to the diagnostics; any
/// other line that is not blank is echoed unchanged.
pub open spec fn protocol_of(lines: Seq<Seq<char>>) -> ProtocolSplit
    decreases lines.len(),
{
    if lines.len() == 0 {
        ProtocolSplit { code: Seq::empty(), warnings: Seq::empty(), errors: Seq::empty(), echoed: Seq::empty() }
    } else {
        let l = lines[0];
        let t = trim_of(l);
        let rest = protocol_of(lines.drop_first());
        if starts_with(t, output_marker()) {
            ProtocolSplit {
                code: t.skip(output_marker().len() as int) + seq!['\n'] + rest.code,
                ..rest
            }
        } else if starts_with(t, warning_marker()) {
            ProtocolSplit {
                warnings: seq![t.skip(warning_marker().len() as int)] + rest.warnings,
                ..rest
            }
        } else if starts_with(t, error_marker()) {
            ProtocolSplit {
                errors: seq![t.skip(error_marker().len() as int)] + rest.errors,
                ..rest
            }
        } else if t.len() != 0 {
            ProtocolSplit { echoed: seq![l] + rest.echoed, ..rest }
        } else {
            rest
        }
    }
}

/// How a whole stdout text decodes: its lines, split at line feeds, decoded
/// one by one.
pub open spec fn protocol_of_text(s: Seq<char>) -> ProtocolSplit {
    protocol_of(lines_of(s))
}

/// Decode a run's raw standard output into generated source text,
/// diagnostics, and lines to echo, preserving the order of the lines.
pub fn parse_output(output: &str) -> (r: ParsedOutput)
    ensures
        r.code@ == protocol_of_text(output@).code,
        r.warnings@.map_values(|w: String| w@) == protocol_of_text(output@).warnings,
        r.errors@.map_values(|w: String| w@) == protocol_of_text(output@).errors,
        r.echoed@.map_values(|w: String| w@) == protocol_of_text(output@).echoed,
{
    let chars = to_chars(output);
    let lines = split_lines(chars.as_slice());
    let out_marker = output_marker_chars();
    let warn_marker = warning_marker_chars();
    let err_marker = error_marker_chars();
    let mut code = String::new();
    let mut warnings: Vec<String> = Vec::new();
    let mut errors: Vec<String> = Vec::new();
    let mut echoed: Vec<String> = Vec::new();
    let n = lines.len();
    let ghost all = lines@.map_values(|l: Vec<char>| l@);
    let ghost total = protocol_of(all);
    proof {
        assert(all.skip(0) =~= all);
        assert(code@ + total.code =~= total.code);
        assert(warnings@.map_values(|w: String| w@) + total.warnings =~= total.warnings);
        assert(errors@.map_values(|w: String| w@) + total.errors =~= total.errors);
        assert(echoed@.map_values(|w: String| w@) + total.echoed =~= total.echoed);
    }
    for i in 0..n
        invariant
            n == lines@.len(),
            all == lines@.map_values(|l: Vec<char>| l@),
            total == protocol_of(all),
            out_marker@ == output_marker(),
            warn_marker@ == warning_marker(),
            err_marker@ == error_marker(),
            total.code == code@ + protocol_of(all.skip(i as int)).code,
            total.warnings == warnings@.map_values(|w: String| w@) + protocol_of(
                all.skip(i as int),
            ).warnings,
            total.errors == errors@.map_values(|w: String| w@) + protocol_of(
                all.skip(i as int),
            ).errors,
            total.echoed == echoed@.map_values(|w: String| w@) + protocol_of(
                all.skip(i as int),
            ).echoed,
    {
        proof {
            assert(all.skip(i as int).drop_first() =~= all.skip(i + 1));
            assert(all.skip(i as int)[0] == all[i as int]);
        }
        let line = &lines[i];
        let trimmed = trim_chars(line.as_slice());
        let ghost t = trim_of(all[i as int]);
        let ghost rest = protocol_of(all.skip(i + 1));
        if check_starts_with(trimmed.as_slice(), out_marker.as_slice()) {
            let payload = tail_from(trimmed.as_slice(), out_marker.len());
            let payload_str = from_chars(payload.as_slice());
            let ghost prev = code@;
            code.append(payload_str.as_str());
            crate::strutil::push_char(&mut code, '\n');
            proof {
                assert(protocol_of(all.skip(i as int)).code == t.skip(
                    output_marker().len() as int,
                ) + seq!['\n'] + rest.code);
                assert(code@ =~= prev + t.skip(output_marker().len() as int) + seq!['\n']);
                assert(code@ + rest.code =~= prev + (t.skip(output_marker().len() as int) + seq![
                    '\n',
                ] + rest.code));
            }
        } else if check_starts_with(trimmed.as_slice(), warn_marker.as_slice()) {
            let payload = tail_from(trimmed.as_slice(), warn_marker.len());
            let ghost prev = warnings@;
            warnings.push(from_chars(payload.as_slice()));
            proof {
                assert(warnings@.map_values(|w: String| w@) =~= prev.map_values(
                    |w: String| w@,
                ).push(t.skip(warning_marker().len() as int)));
                assert(warnings@.map_values(|w: String| w@) + rest.warnings =~= prev.map_values(
                    |w: String| w@,
                ) + (seq![t.skip(warning_marker().len() as int)] + rest.warnings));
            }
        } else if check_starts_with(trimmed.as_slice(), err_marker.as_slice()) {
            let payload = tail_from(trimmed.as_slice(), err_marker.len());
            let ghost prev = errors@;
            errors.push(from_chars(payload.as_slice()));
            proof {
                assert(errors@.map_values(|w: String| w@) =~= prev.map_values(
                    |w: String| w@,
                ).push(t.skip(error_marker().len() as int)));
                assert(errors@.map_values(|w: String| w@) + rest.errors =~= prev.map_values(
                    |w: String| w@,
                ) + (seq![t.skip(error_marker().len() as int)] + rest.errors));
            }
        } else if trimmed.len() != 0 {
            let ghost prev = echoed@;
            echoed.push(from_chars(line.as_slice()));
            proof {
                assert(echoed@.map_values(|w: String| w@) =~= prev.map_values(
                    |w: String| w@,
                ).push(all[i as int]));
                assert(echoed@.map_values(|w: String| w@) + rest.echoed =~= prev.map_values(
                    |w: String| w@,
                ) + (seq![all[i as int]] + rest.echoed));
            }
        }
    }
    proof {
        assert(all.skip(n as int) =~= Seq::<Seq<char>>::empty());
    }
    ParsedOutput { code, warnings, errors, echoed }
}

} // verus!
