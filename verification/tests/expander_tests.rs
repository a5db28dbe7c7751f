use crabtime::tokens::{Delim, Pos, Token};
use crabtime::expander::{expand_expand_macro, expand_output_macro, expand_quote_macro};

fn pos() -> Pos {
    Pos { line: 1, col: 0 }
}

fn ident(text: &str) -> Token {
    Token::Ident { text: text.to_string(), start: pos(), end: pos() }
}

fn punct(ch: char) -> Token {
    Token::Punct { ch, start: pos(), end: pos() }
}

fn group(delim: Delim, tokens: Vec<Token>) -> Token {
    Token::Group { delim, tokens, start: pos(), end: pos() }
}

fn emit_form(inner: Vec<Token>) -> Vec<Token> {
    vec![
        ident("crabtime"),
        punct(':'),
        punct(':'),
        ident("output"),
        punct('!'),
        group(Delim::Brace, inner),
    ]
}

fn texts(tokens: &[Token]) -> Vec<String> {
    tokens
        .iter()
        .map(|t| match t {
            Token::Ident { text, .. } => text.clone(),
            Token::Lit { text, .. } => text.clone(),
            Token::Punct { ch, .. } => ch.to_string(),
            Token::Group { .. } => "<group>".to_string(),
        })
        .collect()
}

// One emit form becomes a write to the output buffer holding the
// serialized interior as a template literal.
#[test]
fn emit_form_expands() {
    let input = emit_form(vec![ident("x")]);
    let out = expand_output_macro(&input);
    assert_eq!(
        texts(&out),
        vec!["crabtime", ":", ":", "write_ln", "!", "<group>", ";"]
    );
    match &out[5] {
        Token::Group { delim, tokens, .. } => {
            assert!(matches!(delim, Delim::Paren));
            assert_eq!(texts(tokens), vec!["__output_buffer__", ",", "\"x \""]);
        }
        _ => panic!("expected a group"),
    }
}

fn count_emit_forms(tokens: &[Token]) -> usize {
    let mut n = 0;
    let mut i = 0;
    while i < tokens.len() {
        if i + 5 < tokens.len() {
            if let (
                Token::Ident { text: t0, .. },
                Token::Ident { text: t3, .. },
                Token::Group { .. },
            ) = (&tokens[i], &tokens[i + 3], &tokens[i + 5])
            {
                if t0 == "crabtime" && t3 == "output" {
                    n += 1;
                    i += 6;
                    continue;
                }
            }
        }
        if let Token::Group { tokens: inner, .. } = &tokens[i] {
            n += count_emit_forms(inner);
        }
        i += 1;
    }
    n
}

// Expansion completeness: nested emit forms at several depths are all
// replaced, the innermost first, and a non-matching group keeps its
// delimiter around the rewritten interior.
#[test]
fn nested_emit_forms_all_replaced() {
    let inner_form = emit_form(vec![ident("a")]);
    let mut outer_inner = vec![ident("before")];
    outer_inner.extend(inner_form);
    let mut input = emit_form(outer_inner);
    input.push(group(Delim::Bracket, emit_form(vec![ident("b")])));
    let out = expand_output_macro(&input);
    // no emit form survives anywhere
    assert_eq!(count_emit_forms(&out), 0);
    // the trailing bracket group is still a bracket group
    match out.last().unwrap() {
        Token::Group { delim, tokens, .. } => {
            assert!(matches!(delim, Delim::Bracket));
            assert_eq!(count_emit_forms(tokens), 0);
        }
        _ => panic!("expected the bracket group to survive"),
    }
    // the innermost form was serialized into the outer template literal
    match &out[5] {
        Token::Group { tokens, .. } => match &tokens[2] {
            Token::Lit { text, .. } => {
                assert!(text.contains("write_ln"));
                assert!(text.contains("before"));
            }
            _ => panic!("expected the template literal"),
        },
        _ => panic!("expected a group"),
    }
}

// The capture form becomes a formatted-string expression.
#[test]
fn capture_form_expands() {
    let input = vec![
        ident("crabtime"),
        punct(':'),
        punct(':'),
        ident("quote"),
        punct('!'),
        group(Delim::Brace, vec![ident("v")]),
    ];
    let out = expand_quote_macro(&input);
    assert_eq!(texts(&out), vec!["format", "!", "<group>"]);
    match &out[2] {
        Token::Group { tokens, .. } => {
            assert_eq!(texts(tokens), vec!["\"v \""]);
        }
        _ => panic!("expected a group"),
    }
}

// An incomplete form is left alone.
#[test]
fn incomplete_form_untouched() {
    let input = vec![ident("crabtime"), punct(':'), punct(':'), ident("output")];
    let out = expand_output_macro(&input);
    assert_eq!(texts(&out), vec!["crabtime", ":", ":", "output"]);
}

// The raw-splice form substitutes its group's contents inline, without
// serialization, and other groups are still walked.
#[test]
fn raw_splice() {
    let input = vec![
        ident("a"),
        ident("expand"),
        punct('!'),
        group(Delim::Paren, vec![ident("b"), ident("c")]),
        group(
            Delim::Brace,
            vec![ident("expand"), punct('!'), group(Delim::Brace, vec![ident("d")])],
        ),
    ];
    let out = expand_expand_macro(&input);
    assert_eq!(texts(&out), vec!["a", "b", "c", "<group>"]);
    match &out[3] {
        Token::Group { tokens, .. } => assert_eq!(texts(tokens), vec!["d"]),
        _ => panic!("expected a group"),
    }
}

// A template literal escapes embedded quotes and backslashes.
#[test]
fn template_literal_escaping() {
    let input = emit_form(vec![Token::Lit {
        text: "\"hi\"".to_string(),
        start: pos(),
        end: pos(),
    }]);
    let out = expand_output_macro(&input);
    match &out[5] {
        Token::Group { tokens, .. } => match &tokens[2] {
            Token::Lit { text, .. } => assert_eq!(text, "\"\\\"hi\\\" \""),
            _ => panic!("expected the template literal"),
        },
        _ => panic!("expected a group"),
    }
}
