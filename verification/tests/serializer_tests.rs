use crabtime::tokens::{Delim, Pos, Token};
use crabtime::serializer::{print_tokens, print_tokens_internal};

fn pos(line: usize, col: usize) -> Pos {
    Pos { line, col }
}

fn ident(text: &str, line: usize, start: usize, end: usize) -> Token {
    Token::Ident { text: text.to_string(), start: pos(line, start), end: pos(line, end) }
}

fn group(delim: Delim, tokens: Vec<Token>, line: usize, start: usize, end: usize) -> Token {
    Token::Group { delim, tokens, start: pos(line, start), end: pos(line, end) }
}

// Brace compaction: `enum Position{{dim}}` with `dim` touching both brace
// pairs serializes without inserted spaces around `dim`.
#[test]
fn brace_compaction_touching() {
    let tokens = vec![
        ident("enum", 1, 0, 4),
        ident("Position", 1, 5, 13),
        group(
            Delim::Brace,
            vec![group(Delim::Brace, vec![ident("dim", 1, 15, 18)], 1, 14, 19)],
            1,
            13,
            20,
        ),
    ];
    let out = print_tokens_internal(&tokens);
    assert_eq!(out.output, "enum Position{{dim}} ");
    let template = print_tokens(&tokens);
    assert_eq!(template, "enum Position{dim} ");
}

// Brace compaction: a brace group that stood apart keeps its separating
// space.
#[test]
fn brace_compaction_separated() {
    let tokens = vec![
        ident("enum", 1, 0, 4),
        ident("Position", 1, 5, 13),
        group(Delim::Brace, vec![ident("x", 1, 16, 17)], 1, 14, 18),
    ];
    let out = print_tokens_internal(&tokens);
    assert_eq!(out.output, "enum Position {x} ");
}

// A lone apostrophe keeps no trailing space, so lifetimes survive.
#[test]
fn apostrophe_spacing() {
    let tokens = vec![
        Token::Punct { ch: '\'', start: pos(1, 0), end: pos(1, 1) },
        ident("a", 1, 1, 2),
    ];
    let out = print_tokens_internal(&tokens);
    assert_eq!(out.output, "'a ");
}

// Parenthesis and bracket groups keep their delimiters around the
// rewritten interior.
#[test]
fn non_brace_groups() {
    let tokens = vec![
        group(Delim::Paren, vec![ident("a", 1, 1, 2)], 1, 0, 3),
        group(Delim::Bracket, vec![ident("b", 1, 5, 6)], 1, 4, 7),
    ];
    let out = print_tokens_internal(&tokens);
    assert_eq!(out.output, "(a) [b] ");
}

fn same_tree(ours: &[Token], theirs: &[proc_macro2::TokenTree]) -> bool {
    if ours.len() != theirs.len() {
        return false;
    }
    for (a, b) in ours.iter().zip(theirs.iter()) {
        let ok = match (a, b) {
            (Token::Ident { text, .. }, proc_macro2::TokenTree::Ident(i)) => *text == i.to_string(),
            (Token::Lit { text, .. }, proc_macro2::TokenTree::Literal(l)) => *text == l.to_string(),
            (Token::Punct { ch, .. }, proc_macro2::TokenTree::Punct(p)) => *ch == p.as_char(),
            (Token::Group { delim, tokens, .. }, proc_macro2::TokenTree::Group(g)) => {
                let d_ok = match (delim, g.delimiter()) {
                    (Delim::Paren, proc_macro2::Delimiter::Parenthesis) => true,
                    (Delim::Bracket, proc_macro2::Delimiter::Bracket) => true,
                    (Delim::Brace, proc_macro2::Delimiter::Brace) => true,
                    (Delim::Invisible, proc_macro2::Delimiter::None) => true,
                    _ => false,
                };
                let inner: Vec<proc_macro2::TokenTree> = g.stream().into_iter().collect();
                d_ok && same_tree(tokens, &inner)
            }
            _ => false,
        };
        if !ok {
            return false;
        }
    }
    true
}

// Serializer round trip: re-parsing the serialized text yields a tree
// structurally equal to the input, whitespace aside.
#[test]
fn serializer_round_trip() {
    let tokens = vec![
        ident("enum", 1, 0, 4),
        ident("Color", 1, 5, 10),
        group(
            Delim::Brace,
            vec![
                ident("Red", 1, 13, 16),
                Token::Punct { ch: ',', start: pos(1, 16), end: pos(1, 17) },
                ident("Blue", 1, 18, 22),
            ],
            1,
            11,
            23,
        ),
        group(
            Delim::Paren,
            vec![Token::Lit {
                text: "42".to_string(),
                start: pos(1, 25),
                end: pos(1, 27),
            }],
            1,
            24,
            28,
        ),
    ];
    let text = print_tokens_internal(&tokens).output;
    let reparsed: proc_macro2::TokenStream = text.parse().expect("serialized text parses");
    let trees: Vec<proc_macro2::TokenTree> = reparsed.into_iter().collect();
    assert!(same_tree(&tokens, &trees));
}

// An empty group serializes to its bare delimiters.
#[test]
fn empty_group() {
    let tokens = vec![group(Delim::Brace, vec![], 1, 0, 2)];
    let out = print_tokens_internal(&tokens);
    assert_eq!(out.output, "{} ");
}
