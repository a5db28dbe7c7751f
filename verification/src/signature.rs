//! Pattern compiler: turns a typed invocation signature into a matcher
//! pattern for call-site fragments together with the code that decodes the
//! matched fragments into typed values. A raw token-stream parameter binds
//! the whole call site; an explicit pattern is used verbatim; a typed
//! parameter list derives one fragment pattern and one decode expression
//! per parameter.

use vstd::prelude::*;
use crate::strutil::str_eq;

verus! {

/// The shape of a declared parameter type, as far as the pattern compiler
/// reads it: the last path segment and its angle-bracketed type arguments,
/// or the last path segment of a referenced type.
pub enum TypeShape {
    Path { last: String, type_args: Vec<SigType> },
    Reference { elem_last: Option<String> },
    Other,
}

/// A declared parameter type: its shape and its source text.
pub struct SigType {
    pub text: String,
    pub shape: TypeShape,
}

/// One parameter of an invocation signature.
pub enum SigParam {
    /// An explicit matcher pattern, supplied as `pattern!(<pattern>): _`.
    PatternLit { pattern: String },
    /// A named, typed parameter.
    Named { name: String, ty: SigType },
    /// A typed parameter whose binding is not a plain identifier.
    Unnamed,
}

/// How the call site binds: the whole token sequence to one name, or a
/// matcher pattern.
pub enum Args {
    TokenStream { ident: String },
    Pattern { pattern: String },
}

/// The specification-level view of `Args`.
pub ghost enum ArgsView {
    TokenStream { ident: Seq<char> },
    Pattern { pattern: Seq<char> },
}

/// The view of an `Args` value.
pub open spec fn args_view(a: Args) -> ArgsView {
    match a {
        Args::TokenStream { ident } => ArgsView::TokenStream { ident: ident@ },
        Args::Pattern { pattern } => ArgsView::Pattern { pattern: pattern@ },
    }
}

/// The fragment metavariable derived from a parameter name.
pub open spec fn arg_var_of(pfx: Seq<char>) -> Seq<char> {
    "$"@ + pfx + "_arg"@
}

/// Whether a path's last segment names a supported integer scalar type.
pub open spec fn is_int_name(s: Seq<char>) -> bool {
    ||| s == "usize"@
    ||| s == "u8"@
    ||| s == "u16"@
    ||| s == "u32"@
    ||| s == "u64"@
    ||| s == "u128"@
    ||| s == "isize"@
    ||| s == "i8"@
    ||| s == "i16"@
    ||| s == "i32"@
    ||| s == "i64"@
    ||| s == "i128"@
}

/// The pattern and decode expression of one scalar parameter type: a
/// string slice or string decodes through stringification of an
/// expression fragment, an integer is a literal fragment that decodes to
/// itself; anything else is unsupported.
pub open spec fn spec_inner_type(pfx: Seq<char>, ty: SigType) -> Option<(Seq<char>, Seq<char>)> {
    let v = arg_var_of(pfx);
    match ty.shape {
        TypeShape::Reference { elem_last } => match elem_last {
            Some(l) => if l@ == "str"@ {
                Some((v + ":expr"@, "crabtime::stringify_if_needed!{"@ + v + "}"@))
            } else {
                None
            },
            None => None,
        },
        TypeShape::Path { last, type_args } => if last@ == "String"@ {
            Some((v + ":expr"@, "crabtime::stringify_if_needed!("@ + v + ").to_string()"@))
        } else if is_int_name(last@) {
            Some((v + ":literal"@, v))
        } else {
            None
        },
        TypeShape::Other => None,
    }
}

/// The pattern and decode expression of one parameter type: a list type
/// matches a bracketed comma-separated repetition of its element's pattern
/// and collects the decoded elements; any other type follows the scalar
/// rules.
pub open spec fn spec_arg_type(pfx: Seq<char>, ty: SigType) -> Option<(Seq<char>, Seq<char>)> {
    match ty.shape {
        TypeShape::Path { last, type_args } => if last@ == "Vec"@ {
            if type_args.len() > 0 {
                match spec_inner_type(pfx, type_args[0]) {
                    Some((ip, ic)) => Some(
                        (
                            "[$("@ + ip + "),*$(,)?]"@,
                            "[$("@ + ic + "),*].into_iter().collect()"@,
                        ),
                    ),
                    None => None,
                }
            } else {
                None
            }
        } else {
            spec_inner_type(pfx, ty)
        },
        _ => spec_inner_type(pfx, ty),
    }
}

/// One step of the typed-parameter fold: parameters are joined left to
/// right with comma separators in both pattern and decode; a named
/// parameter always binds a variable of its declared type, with its decode
/// expression omitted when the type is unsupported.
pub open spec fn spec_args_loop(
    ps: Seq<SigParam>,
    pat: Seq<char>,
    code: Seq<char>,
    first: bool,
) -> (Seq<char>, Seq<char>)
    decreases ps.len(),
{
    if ps.len() == 0 {
        (pat, code)
    } else {
        let pat1 = if first {
            pat
        } else {
            pat + ", "@
        };
        match ps[0] {
            SigParam::Named { name, ty } => {
                let code1 = code + "let "@ + name@ + ": "@ + ty.text@ + " = "@;
                match spec_arg_type(name@, ty) {
                    Some((p, c)) => spec_args_loop(
                        ps.drop_first(),
                        pat1 + p,
                        code1 + c + ";\n"@,
                        false,
                    ),
                    None => spec_args_loop(ps.drop_first(), pat1, code1 + ";\n"@, false),
                }
            },
            _ => spec_args_loop(ps.drop_first(), pat1, code, false),
        }
    }
}

/// What the pattern compiler yields for a whole signature: no parameters
/// give the empty pattern; an explicit pattern is used verbatim; a raw
/// token-stream parameter binds the whole call site; a typed list folds
/// its parameters and tolerates one trailing comma.
pub open spec fn spec_parse_args(ps: Seq<SigParam>) -> (ArgsView, Seq<char>) {
    if ps.len() == 0 {
        (ArgsView::Pattern { pattern: Seq::empty() }, Seq::empty())
    } else if ps[0] is PatternLit {
        (ArgsView::Pattern { pattern: ps[0]->PatternLit_pattern@ }, Seq::empty())
    } else if ps[0] matches SigParam::Named { name, ty } && ty.text@ == "TokenStream"@ {
        (ArgsView::TokenStream { ident: ps[0]->Named_name@ }, Seq::empty())
    } else {
        let (pat, code) = spec_args_loop(ps, Seq::empty(), Seq::empty(), true);
        (ArgsView::Pattern { pattern: pat + "$(,)?"@ }, code)
    }
}

impl Args {
    /// The matcher pattern of this binding: a raw token-stream parameter
    /// matches any token sequence, an explicit pattern is itself.
    pub fn pattern(&self) -> (r: String)
        ensures
            match self {
                Args::TokenStream { ident } => r@ == "$($"@ + ident@ + ":tt)*"@,
                Args::Pattern { pattern } => r@ == pattern@,
            },
    {
        match self {
            Args::TokenStream { ident } => {
                let mut s = "$($".to_owned();
                s.append(ident.as_str());
                s.append(":tt)*");
                s
            },
            Args::Pattern { pattern } => pattern.clone(),
        }
    }

    /// The setup code of this binding: a raw token-stream parameter is
    /// reassembled from its fragments and reparsed as a token tree; a
    /// pattern needs none.
    pub fn setup(&self) -> (r: String)
        ensures
            match self {
                Args::TokenStream { ident } => r@ == "use proc_macro2::TokenStream;\nlet "@
                    + ident@ + ": TokenStream = stringify!($($"@ + ident@
                    + ")*).parse().unwrap();\n"@,
                Args::Pattern { pattern } => r@ == Seq::<char>::empty(),
            },
    {
        match self {
            Args::TokenStream { ident } => {
                let mut s = "use proc_macro2::TokenStream;\nlet ".to_owned();
                s.append(ident.as_str());
                s.append(": TokenStream = stringify!($($");
                s.append(ident.as_str());
                s.append(")*).parse().unwrap();\n");
                s
            },
            Args::Pattern { pattern } => String::new(),
        }
    }
}

/// Compile one scalar parameter type into its pattern and decode
/// expression.
pub fn parse_inner_type(pfx: &str, ty: &SigType) -> (r: Option<(String, String)>)
    ensures
        match r {
            Some(pc) => spec_inner_type(pfx@, *ty) matches Some(s) && pc.0@ == s.0 && pc.1@
                == s.1,
            None => spec_inner_type(pfx@, *ty) is None,
        },
{
    let mut v = "$".to_owned();
    v.append(pfx);
    v.append("_arg");
    proof {
        assert(v@ =~= arg_var_of(pfx@));
    }
    match &ty.shape {
        TypeShape::Reference { elem_last } => match elem_last {
            Some(l) => {
                if str_eq(l.as_str(), "str") {
                    let mut pat = v.clone();
                    pat.append(":expr");
                    let mut code = "crabtime::stringify_if_needed!{".to_owned();
                    code.append(v.as_str());
                    code.append("}");
                    proof {
                        assert(code@ =~= "crabtime::stringify_if_needed!{"@ + v@ + "}"@);
                    }
                    Some((pat, code))
                } else {
                    None
                }
            },
            None => None,
        },
        TypeShape::Path { last, type_args } => {
            if str_eq(last.as_str(), "String") {
                let mut pat = v.clone();
                pat.append(":expr");
                let mut code = "crabtime::stringify_if_needed!(".to_owned();
                code.append(v.as_str());
                code.append(").to_string()");
                Some((pat, code))
            } else if is_int_ident(last.as_str()) {
                let mut pat = v.clone();
                pat.append(":literal");
                Some((pat, v))
            } else {
                None
            }
        },
        TypeShape::Other => None,
    }
}

/// Decide whether a name is a supported integer scalar type.
fn is_int_ident(s: &str) -> (r: bool)
    ensures
        r == is_int_name(s@),
{
    str_eq(s, "usize") || str_eq(s, "u8") || str_eq(s, "u16") || str_eq(s, "u32") || str_eq(
        s,
        "u64",
    ) || str_eq(s, "u128") || str_eq(s, "isize") || str_eq(s, "i8") || str_eq(s, "i16") || str_eq(
        s,
        "i32",
    ) || str_eq(s, "i64") || str_eq(s, "i128")
}

/// Compile one parameter type into its pattern and decode expression,
/// handling both list types and scalar types.
pub fn parse_arg_type(pfx: &str, ty: &SigType) -> (r: Option<(String, String)>)
    ensures
        match r {
            Some(pc) => spec_arg_type(pfx@, *ty) matches Some(s) && pc.0@ == s.0 && pc.1@ == s.1,
            None => spec_arg_type(pfx@, *ty) is None,
        },
{
    match &ty.shape {
        TypeShape::Path { last, type_args } => {
            if str_eq(last.as_str(), "Vec") {
                if type_args.len() > 0 {
                    match parse_inner_type(pfx, &type_args[0]) {
                        Some((ip, ic)) => {
                            let mut pat = "[$(".to_owned();
                            pat.append(ip.as_str());
                            pat.append("),*$(,)?]");
                            let mut code = "[$(".to_owned();
                            code.append(ic.as_str());
                            code.append("),*].into_iter().collect()");
                            Some((pat, code))
                        },
                        None => None,
                    }
                } else {
                    None
                }
            } else {
                parse_inner_type(pfx, ty)
            }
        },
        _ => parse_inner_type(pfx, ty),
    }
}

/// Whether a parameter is the raw token-stream form.
fn is_token_stream_param(p: &SigParam) -> (r: bool)
    ensures
        r == (p matches SigParam::Named { name, ty } && ty.text@ == "TokenStream"@),
{
    match p {
        SigParam::Named { name, ty } => str_eq(ty.text.as_str(), "TokenStream"),
        _ => false,
    }
}

/// Recognize an explicit matcher pattern in first position.
pub fn parse_args_for_pattern(arg: &SigParam) -> (r: Option<Args>)
    ensures
        match r {
            Some(a) => arg is PatternLit && args_view(a) == (ArgsView::Pattern {
                pattern: arg->PatternLit_pattern@,
            }),
            None => !(arg is PatternLit),
        },
{
    match arg {
        SigParam::PatternLit { pattern } => Some(Args::Pattern { pattern: pattern.clone() }),
        _ => None,
    }
}

/// Recognize a raw token-stream parameter in first position.
pub fn parse_args_for_token_stream(arg: &SigParam) -> (r: Option<Args>)
    ensures
        match r {
            Some(a) => (arg matches SigParam::Named { name, ty } && ty.text@ == "TokenStream"@)
                && args_view(a) == (ArgsView::TokenStream { ident: arg->Named_name@ }),
            None => !(arg matches SigParam::Named { name, ty } && ty.text@ == "TokenStream"@),
        },
{
    match arg {
        SigParam::Named { name, ty } => {
            if str_eq(ty.text.as_str(), "TokenStream") {
                Some(Args::TokenStream { ident: name.clone() })
            } else {
                None
            }
        },
        _ => None,
    }
}

/// Compile a whole signature into its binding form and decode code.
pub fn parse_args(params: &Vec<SigParam>) -> (r: Option<(Args, String)>)
    ensures
        r matches Some(ac) && args_view(ac.0) == spec_parse_args(params@).0 && ac.1@
            == spec_parse_args(params@).1,
{
    if params.len() == 0 {
        return Some((Args::Pattern { pattern: String::new() }, String::new()));
    }
    match parse_args_for_pattern(&params[0]) {
        Some(a) => {
            return Some((a, String::new()));
        },
        None => {},
    }
    match parse_args_for_token_stream(&params[0]) {
        Some(a) => {
            return Some((a, String::new()));
        },
        None => {},
    }
    let n = params.len();
    let mut pat = String::new();
    let mut code = String::new();
    let mut is_first: bool = true;
    let ghost ps = params@;
    proof {
        assert(ps.skip(0) =~= ps);
    }
    let mut i: usize = 0;
    while i < n
        invariant
            i <= n,
            n == params@.len(),
            ps == params@,
            spec_args_loop(ps, Seq::empty(), Seq::empty(), true) == spec_args_loop(
                ps.skip(i as int),
                pat@,
                code@,
                is_first,
            ),
        decreases n - i,
    {
        proof {
            assert(ps.skip(i as int)[0] == ps[i as int]);
            assert(ps.skip(i as int).drop_first() =~= ps.skip(i + 1));
        }
        if !is_first {
            pat.append(", ");
        }
        match &params[i] {
            SigParam::Named { name, ty } => {
                code.append("let ");
                code.append(name.as_str());
                code.append(": ");
                code.append(ty.text.as_str());
                code.append(" = ");
                match parse_arg_type(name.as_str(), ty) {
                    Some((p, c)) => {
                        pat.append(p.as_str());
                        code.append(c.as_str());
                    },
                    None => {},
                }
                code.append(";\n");
            },
            _ => {},
        }
        is_first = false;
        i = i + 1;
    }
    proof {
        assert(ps.skip(n as int).len() == 0);
    }
    pat.append("$(,)?");
    Some((Args::Pattern { pattern: pat }, code))
}

} // verus!
