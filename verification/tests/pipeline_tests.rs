use crabtime::expander::expand_output_macro;
use crabtime::protocol::parse_output;
use crabtime::tokens::{Delim, Pos, Token};

fn ident(text: &str, start: usize, end: usize) -> Token {
    Token::Ident {
        text: text.to_string(),
        start: Pos { line: 1, col: start },
        end: Pos { line: 1, col: end },
    }
}

fn punct(ch: char, at: usize) -> Token {
    Token::Punct { ch, start: Pos { line: 1, col: at }, end: Pos { line: 1, col: at + 1 } }
}

fn group(delim: Delim, tokens: Vec<Token>, start: usize, end: usize) -> Token {
    Token::Group {
        delim,
        tokens,
        start: Pos { line: 1, col: start },
        end: Pos { line: 1, col: end },
    }
}

/// Substitute named values into a brace template the way a formatting
/// pass does: doubled braces become literal braces, and a single-braced
/// name becomes its value.
fn format_template(template: &str, vars: &[(&str, &str)]) -> String {
    let chars: Vec<char> = template.chars().collect();
    let mut out = String::new();
    let mut i = 0;
    while i < chars.len() {
        if chars[i] == '{' && i + 1 < chars.len() && chars[i + 1] == '{' {
            out.push('{');
            i += 2;
        } else if chars[i] == '}' && i + 1 < chars.len() && chars[i + 1] == '}' {
            out.push('}');
            i += 2;
        } else if chars[i] == '{' {
            let mut j = i + 1;
            while j < chars.len() && chars[j] != '}' {
                j += 1;
            }
            let name: String = chars[i + 1..j].iter().collect();
            let value = vars
                .iter()
                .find(|(n, _)| *n == name)
                .map(|(_, v)| *v)
                .expect("placeholder bound");
            out.push_str(value);
            i = j + 1;
        } else {
            out.push(chars[i]);
            i += 1;
        }
    }
    out
}

// The whole pipeline on the looping example: an emit form whose template
// interpolates an index and a name yields, once per element, one line of
// generated enum source; re-parsed as tokens, the lines are exactly the
// expected definitions.
#[test]
fn end_to_end_two_enums() {
    // tokens of: crabtime :: output ! { enum Position{{ix}} { {{name}} } }
    let body = vec![
        ident("crabtime", 0, 8),
        punct(':', 8),
        punct(':', 9),
        ident("output", 10, 16),
        punct('!', 16),
        group(
            Delim::Brace,
            vec![
                ident("enum", 19, 23),
                ident("Position", 24, 32),
                group(
                    Delim::Brace,
                    vec![group(Delim::Brace, vec![ident("ix", 34, 36)], 33, 37)],
                    32,
                    38,
                ),
                group(
                    Delim::Brace,
                    vec![group(
                        Delim::Brace,
                        vec![group(Delim::Brace, vec![ident("name", 43, 47)], 42, 48)],
                        41,
                        49,
                    )],
                    39,
                    51,
                ),
            ],
            17,
            53,
        ),
    ];
    let expanded = expand_output_macro(&body);
    // the emit form became a write_ln with one template literal
    let template = match &expanded[5] {
        Token::Group { tokens, .. } => match &tokens[2] {
            Token::Lit { text, .. } => text.trim_matches('"').to_string(),
            _ => panic!("expected the template literal"),
        },
        _ => panic!("expected the argument group"),
    };
    assert_eq!(template, "enum Position{ix} {{{name}}} ");
    // the generated program loops over the elements and emits one line each
    let mut stdout = String::new();
    for (ix, name) in [("1", "X"), ("2", "Y")] {
        let line = format_template(&template, &[("ix", ix), ("name", name)]);
        stdout.push_str("[OUTPUT] ");
        stdout.push_str(&line);
        stdout.push('\n');
    }
    let parsed = parse_output(&stdout);
    assert!(parsed.warnings.is_empty());
    assert!(parsed.errors.is_empty());
    // the decoded source re-parses to exactly the expected definitions
    let got: proc_macro2::TokenStream = parsed.code.parse().expect("generated code parses");
    let want: proc_macro2::TokenStream =
        "enum Position1 { X }\nenum Position2 { Y }\n".parse().unwrap();
    assert_eq!(got.to_string(), want.to_string());
}
