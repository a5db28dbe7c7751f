//! Invocation options: the attribute argument list of an invocation, a
//! comma-separated sequence of `name = bool` pairs with a boolean cache
//! flag (default on) and a flag selecting content-hash addressing of the
//! working directory (default off).

use vstd::prelude::*;
use crate::tokens::{Token, TokView, tok_view, toks_view, lemma_toks_view};
use crate::strutil::str_eq;

verus! {

/// The recognized invocation options.
#[derive(Clone, Copy, PartialEq, Eq, Structural, Debug)]
pub struct MacroOptions {
    pub cache: bool,
    pub content_base_name: bool,
}

/// Why an option list was rejected.
#[derive(Clone, Copy, PartialEq, Eq, Structural, Debug)]
pub enum OptionsError {
    /// An option name was expected.
    ExpectedOption,
    /// An equals sign was expected after the option name.
    ExpectedEq,
    /// A boolean literal was expected after the equals sign.
    ExpectedBool,
    /// The option name is not recognized.
    UnknownOption,
}

/// The default options: caching on, name-based addressing.
pub open spec fn default_options() -> MacroOptions {
    MacroOptions { cache: true, content_base_name: false }
}

impl Default for MacroOptions {
    /// Caching is on and name-based addressing is used unless asked
    /// otherwise.
    fn default() -> (r: Self)
        ensures
            r.cache == true,
            r.content_base_name == false,
    {
        Self { cache: true, content_base_name: false }
    }
}

/// How an option token sequence parses, starting from the options
/// gathered so far: each step takes one `name = bool` group and an
/// optional trailing comma; an unknown name is refused after its equals
/// sign, as is a missing equals sign or boolean.
pub open spec fn spec_parse_options(ts: Seq<TokView>, opts: MacroOptions) -> Result<
    MacroOptions,
    OptionsError,
>
    decreases ts.len(),
{
    if ts.len() == 0 {
        Ok(opts)
    } else if !(ts[0] is Ident) {
        Err(OptionsError::ExpectedOption)
    } else if !(ts.len() >= 2 && ts[1] is Punct && ts[1]->Punct_ch == '=') {
        Err(OptionsError::ExpectedEq)
    } else if !(ts[0]->Ident_text == "cache"@ || ts[0]->Ident_text == "content_base_name"@) {
        Err(OptionsError::UnknownOption)
    } else if !(ts.len() >= 3 && ts[2] is Ident && (ts[2]->Ident_text == "true"@
        || ts[2]->Ident_text == "false"@)) {
        Err(OptionsError::ExpectedBool)
    } else {
        let val = ts[2]->Ident_text == "true"@;
        let opts2 = if ts[0]->Ident_text == "cache"@ {
            MacroOptions { cache: val, ..opts }
        } else {
            MacroOptions { content_base_name: val, ..opts }
        };
        if ts.len() >= 4 && ts[3] is Punct && ts[3]->Punct_ch == ',' {
            spec_parse_options(ts.skip(4), opts2)
        } else {
            spec_parse_options(ts.skip(3), opts2)
        }
    }
}

impl MacroOptions {
    /// Parse an option token sequence, starting from the defaults.
    pub fn parse(tokens: &Vec<Token>) -> (r: Result<MacroOptions, OptionsError>)
        ensures
            r == spec_parse_options(toks_view(tokens@), default_options()),
    {
        let ghost vs = toks_view(tokens@);
        proof {
            lemma_toks_view(tokens@);
            assert(vs.skip(0) =~= vs);
        }
        let mut opts = MacroOptions { cache: true, content_base_name: false };
        let n = tokens.len();
        let mut i: usize = 0;
        while i < n
            invariant
                i <= n,
                n == tokens@.len(),
                vs == toks_view(tokens@),
                vs.len() == n,
                forall|j: int| 0 <= j < n ==> vs[j] == tok_view(tokens@[j]),
                spec_parse_options(vs, default_options()) == spec_parse_options(
                    vs.skip(i as int),
                    opts,
                ),
            decreases n - i,
        {
            let ghost s = vs.skip(i as int);
            proof {
                assert(s[0] == vs[i as int]);
                if s.len() >= 2 {
                    assert(s[1] == vs[i + 1]);
                }
                if s.len() >= 3 {
                    assert(s[2] == vs[i + 2]);
                }
                if s.len() >= 4 {
                    assert(s[3] == vs[i + 3]);
                }
            }
            let is_cache: bool;
            let is_cbn: bool;
            match &tokens[i] {
                Token::Ident { text, .. } => {
                    is_cache = str_eq(text.as_str(), "cache");
                    is_cbn = str_eq(text.as_str(), "content_base_name");
                },
                _ => {
                    return Err(OptionsError::ExpectedOption);
                },
            }
            let eq_ok: bool = if i + 1 < n {
                match &tokens[i + 1] {
                    Token::Punct { ch, .. } => *ch == '=',
                    _ => false,
                }
            } else {
                false
            };
            if !eq_ok {
                return Err(OptionsError::ExpectedEq);
            }
            if !is_cache && !is_cbn {
                return Err(OptionsError::UnknownOption);
            }
            let mut have_bool: bool = false;
            let mut val: bool = false;
            if i + 2 < n {
                match &tokens[i + 2] {
                    Token::Ident { text, .. } => {
                        if str_eq(text.as_str(), "true") {
                            have_bool = true;
                            val = true;
                        } else if str_eq(text.as_str(), "false") {
                            have_bool = true;
                            val = false;
                        }
                    },
                    _ => {},
                }
            }
            if !have_bool {
                return Err(OptionsError::ExpectedBool);
            }
            proof {
                reveal_strlit("true");
                reveal_strlit("false");
                assert("true"@ != "false"@) by {
                    assert("true"@.len() == 4 && "false"@.len() == 5);
                }
            }
            if is_cache {
                opts.cache = val;
            } else {
                opts.content_base_name = val;
            }
            let comma: bool = if i + 3 < n {
                match &tokens[i + 3] {
                    Token::Punct { ch, .. } => *ch == ',',
                    _ => false,
                }
            } else {
                false
            };
            if comma {
                proof {
                    assert(s.skip(4) =~= vs.skip(i + 4));
                }
                i = i + 4;
            } else {
                proof {
                    assert(s.skip(3) =~= vs.skip(i + 3));
                }
                i = i + 3;
            }
        }
        proof {
            assert(vs.skip(n as int).len() == 0);
        }
        Ok(opts)
    }
}

} // verus!
