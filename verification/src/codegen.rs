//! Text of the generated program: the fixed prelude that gives the
//! program its stringify-result capability and protocol helpers, the
//! entry-point skeleton around the invocation body, the compilation-stats
//! header of the final expansion, and the small formatters for durations
//! and clock times.

use vstd::prelude::*;
use crate::strutil::{to_chars, from_chars, dec_of, dec2_of, dec3_of, fmt_u64, fmt_u64_pad2, fmt_u64_pad3};
use crate::options::MacroOptions;

verus! {

/// What one character escapes to inside a double-quoted source literal.
pub uninterp spec fn char_escape_of(c: char) -> Seq<char>;

/// Relies on `char::escape_default`: the escape of a character depends on
/// the character alone.
#[verifier::external_body]
fn escape_char(c: char) -> (r: String)
    ensures
        r@ == char_escape_of(c),
{
    c.escape_default().collect()
}

/// The text with every character escaped for a double-quoted source
/// literal.
pub open spec fn escaped_of(s: Seq<char>) -> Seq<char>
    decreases s.len(),
{
    if s.len() == 0 {
        Seq::empty()
    } else {
        char_escape_of(s[0]) + escaped_of(s.drop_first())
    }
}

/// Escape a text for embedding in a double-quoted source literal.
pub fn escape_source_text(s: &str) -> (r: String)
    ensures
        r@ == escaped_of(s@),
{
    let chars = to_chars(s);
    let n = chars.len();
    let mut out = String::new();
    proof {
        assert(chars@.skip(0) =~= chars@);
        assert(out@ + escaped_of(chars@) =~= escaped_of(chars@));
    }
    for i in 0..n
        invariant
            n == chars@.len(),
            chars@ == s@,
            escaped_of(s@) == out@ + escaped_of(chars@.skip(i as int)),
    {
        let ghost prev = out@;
        proof {
            assert(chars@.skip(i as int)[0] == chars@[i as int]);
            assert(chars@.skip(i as int).drop_first() =~= chars@.skip(i + 1));
        }
        let e = escape_char(chars[i]);
        out.append(e.as_str());
        proof {
            assert(prev + (char_escape_of(chars@[i as int]) + escaped_of(chars@.skip(i + 1)))
                =~= out@ + escaped_of(chars@.skip(i + 1)));
        }
    }
    proof {
        assert(chars@.skip(n as int) =~= Seq::<char>::empty());
        assert(out@ + Seq::<char>::empty() =~= out@);
    }
    out
}

/// The prelude of the generated program: the protocol markers and
/// helpers, the stringify-result capability over the supported result
/// types (extended to token streams when asked), and the fixed utility
/// section.
pub open spec fn prelude_text_of(include_token_stream_impl: bool) -> Seq<char> {
    "\n        #[allow(unused_macros)]\n        #[allow(unused_imports)]\n        #[allow(clippy)]\n        mod crabtime {\n            #![allow(clippy::all)]\n\n            const OUTPUT_PREFIX: &'static str = \"[OUTPUT]\";\n            const WARNING_PREFIX: &'static str = \"[WARNING]\";\n            const ERROR_PREFIX: &'static str = \"[ERROR]\";\n\n            macro_rules! output_str {\n                ($($ts:tt)*) => {\n                    println!(\"{}\", crabtime::prefix_lines_with_output(&format!($($ts)*)));\n                };\n            }\n            pub(super) use output_str;\n\n            macro_rules! warning {\n                ($($ts:tt)*) => {\n                    println!(\"{}\", crabtime::prefix_lines_with_warning(&format!($($ts)*)));\n                };\n            }\n            pub(super) use warning;\n\n            macro_rules! error {\n                ($($ts:tt)*) => {\n                    println!(\"{}\", crabtime::prefix_lines_with_error(&format!($($ts)*)));\n                };\n            }\n            pub(super) use error;\n\n            \n    pub(super) trait CodeFromOutput {\n        fn code_from_output(output: Self) -> String;\n    }\n\n    impl CodeFromOutput for () {\n        fn code_from_output(_output: Self) -> String {\n            String::new()\n        }\n    }\n\n    impl<'t> CodeFromOutput for &'t str {\n        fn code_from_output(output: Self) -> String {\n            output.to_string()\n        }\n    }\n\n    impl CodeFromOutput for String {\n        fn code_from_output(output: Self) -> String {\n            output\n        }\n    }\n\n    impl CodeFromOutput for usize {\n        fn code_from_output(output: Self) -> String {\n            format!(\"{output}\")\n        }\n    }\n\n    impl CodeFromOutput for u8 {\n        fn code_from_output(output: Self) -> String {\n            format!(\"{output}\")\n        }\n    }\n\n    impl CodeFromOutput for u16 {\n        fn code_from_output(output: Self) -> String {\n            format!(\"{output}\")\n        }\n    }\n\n    impl CodeFromOutput for u32 {\n        fn code_from_output(output: Self) -> String {\n            format!(\"{output}\")\n        }\n    }\n\n    impl CodeFromOutput for u64 {\n        fn code_from_output(output: Self) -> String {\n            format!(\"{output}\")\n        }\n    }\n\n    impl CodeFromOutput for u128 {\n        fn code_from_output(output: Self) -> String {\n            format!(\"{output}\")\n        }\n    }\n\n    impl CodeFromOutput for f32 {\n        fn code_from_output(output: Self) -> String {\n            format!(\"{output}\")\n        }\n    }\n\n    impl CodeFromOutput for f64 {\n        fn code_from_output(output: Self) -> String {\n            format!(\"{output}\")\n        }\n    }\n\n    pub(super) fn code_from_output<T: CodeFromOutput>(output: T) -> String {\n        <T as CodeFromOutput>::code_from_output(output)\n    }\n\n    pub(super) fn prefix_lines_with(prefix: &str, input: &str) -> String {\n        input\n            .lines()\n            .map(|line| format!(\"{prefix} {line}\"))\n            .collect::<Vec<_>>()\n            .join(\"\\n\")\n    }\n\n    pub(super) fn prefix_lines_with_output(input: &str) -> String {\n        prefix_lines_with(OUTPUT_PREFIX, input)\n    }\n\n    pub(super) fn prefix_lines_with_warning(input: &str) -> String {\n        prefix_lines_with(WARNING_PREFIX, input)\n    }\n\n    pub(super) fn prefix_lines_with_error(input: &str) -> String {\n        prefix_lines_with(ERROR_PREFIX, input)\n    }\n\n    macro_rules! write_ln {\n        ($target:expr, $($ts:tt)*) => {\n            $target.push_str(&format!( $($ts)* ));\n            $target.push_str(\"\n\");\n        };\n    }\n    pub(super) use write_ln;\n\n    macro_rules! stringify_if_needed {\n        ($t:literal) => { $t };\n        ($t:expr) => { stringify!($t) };\n    }\n    pub(super) use stringify_if_needed;\n\n            "@
        + (if include_token_stream_impl {
        "\n    impl CodeFromOutput for proc_macro2::TokenStream {\n        fn code_from_output(output: Self) -> String {\n            output.to_string()\n        }\n    }\n"@
    } else {
        Seq::<char>::empty()
    }) + "\n        }\n\n        \n    #[allow(clippy)]\n    fn sum_combinations(n: usize) -> Vec<Vec<usize>> {\n        let mut result = Vec::new();\n\n        fn generate(n: usize, current: Vec<usize>, result: &mut Vec<Vec<usize>>) {\n            if n == 0 {\n                if current.len() > 1 {\n                    result.push(current);\n                }\n                return;\n            }\n\n            for i in 1..=n {\n                let mut next = current.clone();\n                next.push(i);\n                generate(n - i, next, result);\n            }\n        }\n\n        generate(n, vec![], &mut result);\n        result\n    }\n\n    "@
}

/// Build the generated program's prelude.
pub fn gen_prelude(include_token_stream_impl: bool) -> (r: String)
    ensures
        r@ == prelude_text_of(include_token_stream_impl),
{
    let mut s = "\n        #[allow(unused_macros)]\n        #[allow(unused_imports)]\n        #[allow(clippy)]\n        mod crabtime {\n            #![allow(clippy::all)]\n\n            const OUTPUT_PREFIX: &'static str = \"[OUTPUT]\";\n            const WARNING_PREFIX: &'static str = \"[WARNING]\";\n            const ERROR_PREFIX: &'static str = \"[ERROR]\";\n\n            macro_rules! output_str {\n                ($($ts:tt)*) => {\n                    println!(\"{}\", crabtime::prefix_lines_with_output(&format!($($ts)*)));\n                };\n            }\n            pub(super) use output_str;\n\n            macro_rules! warning {\n                ($($ts:tt)*) => {\n                    println!(\"{}\", crabtime::prefix_lines_with_warning(&format!($($ts)*)));\n                };\n            }\n            pub(super) use warning;\n\n            macro_rules! error {\n                ($($ts:tt)*) => {\n                    println!(\"{}\", crabtime::prefix_lines_with_error(&format!($($ts)*)));\n                };\n            }\n            pub(super) use error;\n\n            \n    pub(super) trait CodeFromOutput {\n        fn code_from_output(output: Self) -> String;\n    }\n\n    impl CodeFromOutput for () {\n        fn code_from_output(_output: Self) -> String {\n            String::new()\n        }\n    }\n\n    impl<'t> CodeFromOutput for &'t str {\n        fn code_from_output(output: Self) -> String {\n            output.to_string()\n        }\n    }\n\n    impl CodeFromOutput for String {\n        fn code_from_output(output: Self) -> String {\n            output\n        }\n    }\n\n    impl CodeFromOutput for usize {\n        fn code_from_output(output: Self) -> String {\n            format!(\"{output}\")\n        }\n    }\n\n    impl CodeFromOutput for u8 {\n        fn code_from_output(output: Self) -> String {\n            format!(\"{output}\")\n        }\n    }\n\n    impl CodeFromOutput for u16 {\n        fn code_from_output(output: Self) -> String {\n            format!(\"{output}\")\n        }\n    }\n\n    impl CodeFromOutput for u32 {\n        fn code_from_output(output: Self) -> String {\n            format!(\"{output}\")\n        }\n    }\n\n    impl CodeFromOutput for u64 {\n        fn code_from_output(output: Self) -> String {\n            format!(\"{output}\")\n        }\n    }\n\n    impl CodeFromOutput for u128 {\n        fn code_from_output(output: Self) -> String {\n            format!(\"{output}\")\n        }\n    }\n\n    impl CodeFromOutput for f32 {\n        fn code_from_output(output: Self) -> String {\n            format!(\"{output}\")\n        }\n    }\n\n    impl CodeFromOutput for f64 {\n        fn code_from_output(output: Self) -> String {\n            format!(\"{output}\")\n        }\n    }\n\n    pub(super) fn code_from_output<T: CodeFromOutput>(output: T) -> String {\n        <T as CodeFromOutput>::code_from_output(output)\n    }\n\n    pub(super) fn prefix_lines_with(prefix: &str, input: &str) -> String {\n        input\n            .lines()\n            .map(|line| format!(\"{prefix} {line}\"))\n            .collect::<Vec<_>>()\n            .join(\"\\n\")\n    }\n\n    pub(super) fn prefix_lines_with_output(input: &str) -> String {\n        prefix_lines_with(OUTPUT_PREFIX, input)\n    }\n\n    pub(super) fn prefix_lines_with_warning(input: &str) -> String {\n        prefix_lines_with(WARNING_PREFIX, input)\n    }\n\n    pub(super) fn prefix_lines_with_error(input: &str) -> String {\n        prefix_lines_with(ERROR_PREFIX, input)\n    }\n\n    macro_rules! write_ln {\n        ($target:expr, $($ts:tt)*) => {\n            $target.push_str(&format!( $($ts)* ));\n            $target.push_str(\"\n\");\n        };\n    }\n    pub(super) use write_ln;\n\n    macro_rules! stringify_if_needed {\n        ($t:literal) => { $t };\n        ($t:expr) => { stringify!($t) };\n    }\n    pub(super) use stringify_if_needed;\n\n            ".to_owned();
    if include_token_stream_impl {
        s.append("\n    impl CodeFromOutput for proc_macro2::TokenStream {\n        fn code_from_output(output: Self) -> String {\n            output.to_string()\n        }\n    }\n");
    }
    s.append("\n        }\n\n        \n    #[allow(clippy)]\n    fn sum_combinations(n: usize) -> Vec<Vec<usize>> {\n        let mut result = Vec::new();\n\n        fn generate(n: usize, current: Vec<usize>, result: &mut Vec<Vec<usize>>) {\n            if n == 0 {\n                if current.len() > 1 {\n                    result.push(current);\n                }\n                return;\n            }\n\n            for i in 1..=n {\n                let mut next = current.clone();\n                next.push(i);\n                generate(n - i, next, result);\n            }\n        }\n\n        generate(n, vec![], &mut result);\n        result\n    }\n\n    ");
    s
}

/// The generated program's source: the passthrough attributes, the
/// prelude, the escaped invocation-body text as a constant, and an entry
/// point that runs the body, stringifies its result and prints it through
/// the output marker helper.
pub open spec fn input_code_of(
    attributes: Seq<char>,
    body: Seq<char>,
    output_tp: Seq<char>,
    include_token_stream_impl: bool,
) -> Seq<char> {
    "\n        "@ + attributes + "\n        "@ + prelude_text_of(include_token_stream_impl) + "\n\n        const SOURCE_CODE: &str = \""@
        + escaped_of(body) + "\";\n\n        fn main() {\n            let mut __output_buffer__ = String::new();\n            let result: "@ + output_tp + " = {\n                "@ + body + "\n            };\n            __output_buffer__.push_str(&crabtime::code_from_output(result));\n            println!(\"{}\", crabtime::prefix_lines_with_output(&__output_buffer__));\n        }"@
}

/// Build the generated program's source around the invocation body.
pub fn prepare_input_code(
    attributes: &str,
    body: &str,
    output_tp: &str,
    include_token_stream_impl: bool,
) -> (r: String)
    ensures
        r@ == input_code_of(attributes@, body@, output_tp@, include_token_stream_impl),
{
    let mut s = "\n        ".to_owned();
    s.append(attributes);
    s.append("\n        ");
    let prelude = gen_prelude(include_token_stream_impl);
    s.append(prelude.as_str());
    s.append("\n\n        const SOURCE_CODE: &str = \"");
    let esc = escape_source_text(body);
    s.append(esc.as_str());
    s.append("\";\n\n        fn main() {\n            let mut __output_buffer__ = String::new();\n            let result: ");
    s.append(output_tp);
    s.append(" = {\n                ");
    s.append(body);
    s.append("\n            };\n            __output_buffer__.push_str(&crabtime::code_from_output(result));\n            println!(\"{}\", crabtime::prefix_lines_with_output(&__output_buffer__));\n        }");
    s
}

/// How a duration prints: minutes and seconds from one minute up, and
/// otherwise seconds with two decimals, the milliseconds rounded half
/// away from zero.
pub open spec fn duration_text_of(ms: nat) -> Seq<char> {
    let ts = ms / 1000;
    if ts >= 60 {
        dec_of(ts / 60) + "m "@ + dec_of(ts % 60) + "s"@
    } else {
        let centi = (ms % 1000 + 5) / 10;
        if centi >= 100 {
            dec_of(ts + 1) + "."@ + dec2_of(0) + " s"@
        } else {
            dec_of(ts) + "."@ + dec2_of(centi) + " s"@
        }
    }
}

/// Print a duration, given in milliseconds.
pub fn format_duration(total_millis: u64) -> (r: String)
    ensures
        r@ == duration_text_of(total_millis as nat),
{
    let total_seconds = total_millis / 1000;
    if total_seconds >= 60 {
        let mut s = fmt_u64(total_seconds / 60);
        s.append("m ");
        let sec = fmt_u64(total_seconds % 60);
        s.append(sec.as_str());
        s.append("s");
        s
    } else {
        let centi = (total_millis % 1000 + 5) / 10;
        if centi >= 100 {
            let mut s = fmt_u64(total_seconds + 1);
            s.append(".");
            let c = fmt_u64_pad2(0);
            s.append(c.as_str());
            s.append(" s");
            s
        } else {
            let mut s = fmt_u64(total_seconds);
            s.append(".");
            let c = fmt_u64_pad2(centi);
            s.append(c.as_str());
            s.append(" s");
            s
        }
    }
}

/// How a clock time prints: hours, minutes and seconds of the day, each
/// two digits, and the milliseconds in parentheses, three digits.
pub open spec fn clock_text_of(ms: nat) -> Seq<char> {
    let ts = ms / 1000;
    dec2_of((ts / 3600) % 24) + ":"@ + dec2_of((ts / 60) % 60) + ":"@ + dec2_of(ts % 60) + " ("@
        + dec3_of(ms % 1000) + ")"@
}

/// Print a time of day, given in milliseconds since the epoch.
pub fn format_clock_time(millis: u64) -> (r: String)
    ensures
        r@ == clock_text_of(millis as nat),
{
    let total_seconds = millis / 1000;
    let mut s = fmt_u64_pad2((total_seconds / 3600) % 24);
    s.append(":");
    let m = fmt_u64_pad2((total_seconds / 60) % 60);
    s.append(m.as_str());
    s.append(":");
    let sec = fmt_u64_pad2(total_seconds % 60);
    s.append(sec.as_str());
    s.append(" (");
    let ms = fmt_u64_pad3(millis % 1000);
    s.append(ms.as_str());
    s.append(")");
    s
}

/// Relies on `SystemTime::now` and `duration_since`: the milliseconds
/// since the epoch, or zero where the clock stands before it.
#[verifier::external_body]
fn now_unix_millis() -> u64 {
    std::time::SystemTime::now().duration_since(std::time::UNIX_EPOCH).map_or(
        0,
        |d| d.as_millis() as u64,
    )
}

/// Print the current time of day.
pub fn get_current_time() -> (r: String)
    ensures
        exists|ms: u64| r@ == clock_text_of(ms as nat),
{
    let now = now_unix_millis();
    let r = format_clock_time(now);
    proof {
        assert(r@ == clock_text_of(now as nat));
    }
    r
}

/// The text of a boolean.
pub open spec fn bool_text_of(b: bool) -> Seq<char> {
    if b {
        "true"@
    } else {
        "false"@
    }
}

/// Print a boolean.
pub fn fmt_bool(b: bool) -> (r: String)
    ensures
        r@ == bool_text_of(b),
{
    if b {
        "true".to_owned()
    } else {
        "false".to_owned()
    }
}

/// The options rendered as a documentation block: each field on its own
/// commented line.
pub open spec fn options_doc_of(o: MacroOptions) -> Seq<char> {
    "MacroOptions {\n///     cache: "@ + bool_text_of(o.cache)
        + ",\n///     content_base_name: "@ + bool_text_of(o.content_base_name) + ",\n/// }"@
}

/// The final expansion text: a compilation-stats documentation header
/// followed by the generated code.
pub open spec fn expansion_text_of(
    start_time: Seq<char>,
    duration: Seq<char>,
    was_cached: bool,
    output_dir_str: Seq<char>,
    options: MacroOptions,
    output_code: Seq<char>,
) -> Seq<char> {
    "\n        /// # Compilation Stats\n        /// Start: "@ + start_time + "\n        /// Duration: "@ + duration + "\n        /// Cached: "@ + bool_text_of(was_cached) + "\n        /// Output Dir: "@
        + output_dir_str + "\n        /// Macro Options: "@ + options_doc_of(options) + "\n        const _: () = ();\n        "@ + output_code + "\n    "@
}

/// Build the final expansion around the generated code.
pub fn compose_expansion(
    start_time: &str,
    duration: &str,
    was_cached: bool,
    output_dir_str: &str,
    options: MacroOptions,
    output_code: &str,
) -> (r: String)
    ensures
        r@ == expansion_text_of(
            start_time@,
            duration@,
            was_cached,
            output_dir_str@,
            options,
            output_code@,
        ),
{
    let mut s = "\n        /// # Compilation Stats\n        /// Start: ".to_owned();
    s.append(start_time);
    s.append("\n        /// Duration: ");
    s.append(duration);
    s.append("\n        /// Cached: ");
    let b = fmt_bool(was_cached);
    s.append(b.as_str());
    s.append("\n        /// Output Dir: ");
    s.append(output_dir_str);
    s.append("\n        /// Macro Options: ");
    s.append("MacroOptions {\n///     cache: ");
    let c = fmt_bool(options.cache);
    s.append(c.as_str());
    s.append(",\n///     content_base_name: ");
    let n = fmt_bool(options.content_base_name);
    s.append(n.as_str());
    s.append(",\n/// }");
    s.append("\n        const _: () = ();\n        ");
    s.append(output_code);
    s.append("\n    ");
    s
}

} // verus!
