use crabtime::signature::{
    parse_args, parse_args_for_pattern, parse_args_for_token_stream, Args, SigParam, SigType,
    TypeShape,
};

fn scalar(last: &str) -> SigType {
    SigType {
        text: last.to_string(),
        shape: TypeShape::Path { last: last.to_string(), type_args: vec![] },
    }
}

fn str_slice() -> SigType {
    SigType {
        text: "&str".to_string(),
        shape: TypeShape::Reference { elem_last: Some("str".to_string()) },
    }
}

fn vec_of(inner: SigType) -> SigType {
    SigType {
        text: format!("Vec<{}>", inner.text),
        shape: TypeShape::Path { last: "Vec".to_string(), type_args: vec![inner] },
    }
}

fn named(name: &str, ty: SigType) -> SigParam {
    SigParam::Named { name: name.to_string(), ty }
}

fn compile_one(name: &str, ty: SigType) -> (String, String) {
    let params = vec![named(name, ty)];
    let (args, code) = parse_args(&params).expect("a pattern is always derived");
    (args.pattern(), code)
}

// Pattern compiler coverage: every integer width matches a literal
// fragment that decodes to itself.
#[test]
fn integer_scalars() {
    let names = [
        "usize", "u8", "u16", "u32", "u64", "u128", "isize", "i8", "i16", "i32", "i64", "i128",
    ];
    for n in names {
        let (pat, code) = compile_one("x", scalar(n));
        assert_eq!(pat, "$x_arg:literal$(,)?");
        assert_eq!(code, format!("let x: {n} = $x_arg;\n"));
    }
}

// A string decodes through stringification, converted to an owned value.
#[test]
fn string_scalar() {
    let (pat, code) = compile_one("s", scalar("String"));
    assert_eq!(pat, "$s_arg:expr$(,)?");
    assert_eq!(
        code,
        "let s: String = crabtime::stringify_if_needed!($s_arg).to_string();\n"
    );
}

// A string slice decodes through stringification.
#[test]
fn str_slice_scalar() {
    let (pat, code) = compile_one("s", str_slice());
    assert_eq!(pat, "$s_arg:expr$(,)?");
    assert_eq!(code, "let s: &str = crabtime::stringify_if_needed!{$s_arg};\n");
}

// A list matches a bracketed comma-separated repetition and collects.
#[test]
fn vector_of_integers() {
    let (pat, code) = compile_one("v", vec_of(scalar("u32")));
    assert_eq!(pat, "[$($v_arg:literal),*$(,)?]$(,)?");
    assert_eq!(
        code,
        "let v: Vec<u32> = [$($v_arg),*].into_iter().collect();\n"
    );
}

// A list of string slices follows the scalar's expression pattern.
#[test]
fn vector_of_str() {
    let (pat, code) = compile_one("v", vec_of(str_slice()));
    assert_eq!(pat, "[$($v_arg:expr),*$(,)?]$(,)?");
    assert_eq!(
        code,
        "let v: Vec<&str> = [$(crabtime::stringify_if_needed!{$v_arg}),*].into_iter().collect();\n"
    );
}

// A list of strings collects its stringified elements.
#[test]
fn vector_of_strings() {
    let (pat, code) = compile_one("v", vec_of(scalar("String")));
    assert_eq!(pat, "[$($v_arg:expr),*$(,)?]$(,)?");
    assert_eq!(
        code,
        "let v: Vec<String> = [$(crabtime::stringify_if_needed!($v_arg).to_string()),*].into_iter().collect();\n"
    );
}

// An unsupported type binds its variable with no decode expression.
#[test]
fn unsupported_type_omits_decode() {
    let (pat, code) = compile_one("x", scalar("f32"));
    assert_eq!(pat, "$(,)?");
    assert_eq!(code, "let x: f32 = ;\n");
}

// Parameters join left to right with comma separators.
#[test]
fn two_parameters() {
    let params = vec![named("a", scalar("u8")), named("b", scalar("String"))];
    let (args, code) = parse_args(&params).unwrap();
    assert_eq!(args.pattern(), "$a_arg:literal, $b_arg:expr$(,)?");
    assert_eq!(
        code,
        "let a: u8 = $a_arg;\nlet b: String = crabtime::stringify_if_needed!($b_arg).to_string();\n"
    );
}

// No parameters degenerate to the empty pattern with no decode code.
#[test]
fn no_parameters() {
    let params: Vec<SigParam> = vec![];
    let (args, code) = parse_args(&params).unwrap();
    assert_eq!(args.pattern(), "");
    assert_eq!(code, "");
}

// An explicit pattern in first position is used verbatim.
#[test]
fn explicit_pattern() {
    let params = vec![SigParam::PatternLit { pattern: "$a:tt $b:tt".to_string() }];
    let (args, code) = parse_args(&params).unwrap();
    assert_eq!(args.pattern(), "$a:tt $b:tt");
    assert_eq!(code, "");
    assert!(parse_args_for_pattern(&params[0]).is_some());
}

// A raw token-stream parameter binds the whole call site and is
// reassembled in the setup code.
#[test]
fn token_stream_parameter() {
    let mut ts = scalar("TokenStream");
    ts.text = "TokenStream".to_string();
    let params = vec![named("input", ts)];
    let (args, code) = parse_args(&params).unwrap();
    assert_eq!(args.pattern(), "$($input:tt)*");
    assert_eq!(code, "");
    assert_eq!(
        args.setup(),
        "use proc_macro2::TokenStream;\nlet input: TokenStream = stringify!($($input)*).parse().unwrap();\n"
    );
    assert!(parse_args_for_token_stream(&params[0]).is_some());
    match args {
        Args::TokenStream { .. } => {}
        _ => panic!("expected the token-stream form"),
    }
}
