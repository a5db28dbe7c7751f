//! The token-tree model: a tagged tree of identifiers, literals,
//! punctuation and delimited groups, each carrying its source start and end
//! position (line and column), together with its specification-level view.

use vstd::prelude::*;

verus! {

/// A source position: a line and a column.
#[derive(Clone, Copy, PartialEq, Eq, Structural, Debug)]
pub struct Pos {
    pub line: usize,
    pub col: usize,
}

/// The delimiter of a token group.
#[derive(Clone, Copy, PartialEq, Eq, Structural, Debug)]
pub enum Delim {
    Paren,
    Bracket,
    Brace,
    Invisible,
}

/// One node of a token tree.
#[derive(Debug)]
pub enum Token {
    Ident { text: String, start: Pos, end: Pos },
    Lit { text: String, start: Pos, end: Pos },
    Punct { ch: char, start: Pos, end: Pos },
    Group { delim: Delim, tokens: Vec<Token>, start: Pos, end: Pos },
}

/// A source position at the specification level, with unbounded
/// coordinates.
pub ghost struct GPos {
    pub line: int,
    pub col: int,
}

/// The specification-level view of one token-tree node.
pub ghost enum TokView {
    Ident { text: Seq<char>, start: GPos, end: GPos },
    Lit { text: Seq<char>, start: GPos, end: GPos },
    Punct { ch: char, start: GPos, end: GPos },
    Group { delim: Delim, tokens: Seq<TokView>, start: GPos, end: GPos },
}

/// The view of a position.
pub open spec fn pos_view(p: Pos) -> GPos {
    GPos { line: p.line as int, col: p.col as int }
}

/// The view of a token-tree node.
pub open spec fn tok_view(t: Token) -> TokView
    decreases t,
{
    match t {
        Token::Ident { text, start, end } => TokView::Ident {
            text: text@,
            start: pos_view(start),
            end: pos_view(end),
        },
        Token::Lit { text, start, end } => TokView::Lit {
            text: text@,
            start: pos_view(start),
            end: pos_view(end),
        },
        Token::Punct { ch, start, end } => TokView::Punct {
            ch,
            start: pos_view(start),
            end: pos_view(end),
        },
        Token::Group { delim, tokens, start, end } => TokView::Group {
            delim,
            tokens: toks_view(tokens@),
            start: pos_view(start),
            end: pos_view(end),
        },
    }
}

/// The view of a sequence of token-tree nodes.
pub open spec fn toks_view(ts: Seq<Token>) -> Seq<TokView>
    decreases ts,
{
    if ts.len() == 0 {
        Seq::empty()
    } else {
        seq![tok_view(ts.first())] + toks_view(ts.drop_first())
    }
}

/// The views of a token sequence, element by element.
pub proof fn lemma_toks_view(ts: Seq<Token>)
    ensures
        toks_view(ts).len() == ts.len(),
        forall|i: int| 0 <= i < ts.len() ==> toks_view(ts)[i] == tok_view(ts[i]),
    decreases ts.len(),
{
    if ts.len() > 0 {
        lemma_toks_view(ts.drop_first());
        assert forall|i: int| 0 <= i < ts.len() implies toks_view(ts)[i] == tok_view(ts[i]) by {
            if i > 0 {
                assert(ts.drop_first()[i - 1] == ts[i]);
            }
        }
    }
}

/// The size of one token-tree node: the number of nodes in it.
pub open spec fn tv_size(t: TokView) -> nat
    decreases t,
{
    match t {
        TokView::Group { tokens, .. } => 1 + tvs_size(tokens),
        _ => 1,
    }
}

/// The size of a sequence of token-tree nodes.
pub open spec fn tvs_size(ts: Seq<TokView>) -> nat
    decreases ts,
{
    if ts.len() == 0 {
        0
    } else {
        tv_size(ts.first()) + tvs_size(ts.drop_first())
    }
}

/// Every node of a sequence fits inside the sequence's size.
pub proof fn lemma_tvs_size_elem(ts: Seq<TokView>, i: int)
    requires
        0 <= i < ts.len(),
    ensures
        tv_size(ts[i]) <= tvs_size(ts),
    decreases ts.len(),
{
    if i > 0 {
        lemma_tvs_size_elem(ts.drop_first(), i - 1);
        assert(ts.drop_first()[i - 1] == ts[i]);
    }
}

/// The view of a pushed sequence.
pub proof fn lemma_toks_view_push(ts: Seq<Token>, t: Token)
    ensures
        toks_view(ts.push(t)) == toks_view(ts).push(tok_view(t)),
{
    lemma_toks_view(ts.push(t));
    lemma_toks_view(ts);
    assert forall|i: int| 0 <= i < ts.len() + 1 implies toks_view(ts.push(t))[i] == toks_view(
        ts,
    ).push(tok_view(t))[i] by {
        if i < ts.len() {
            assert(ts.push(t)[i] == ts[i]);
        } else {
            assert(ts.push(t)[i] == t);
        }
    }
    assert(toks_view(ts.push(t)) =~= toks_view(ts).push(tok_view(t)));
}

/// The view of a concatenation.
pub proof fn lemma_toks_view_concat(a: Seq<Token>, b: Seq<Token>)
    ensures
        toks_view(a + b) == toks_view(a) + toks_view(b),
{
    lemma_toks_view(a + b);
    lemma_toks_view(a);
    lemma_toks_view(b);
    assert forall|i: int| 0 <= i < a.len() + b.len() implies toks_view(a + b)[i] == (toks_view(a)
        + toks_view(b))[i] by {
        if i < a.len() {
            assert((a + b)[i] == a[i]);
        } else {
            assert((a + b)[i] == b[i - a.len()]);
        }
    }
    assert(toks_view(a + b) =~= toks_view(a) + toks_view(b));
}

/// The size of a sequence of token-tree nodes is at least its length.
pub proof fn lemma_tvs_size_ge_len(ts: Seq<TokView>)
    ensures
        tvs_size(ts) >= ts.len(),
    decreases ts.len(),
{
    if ts.len() > 0 {
        lemma_tvs_size_ge_len(ts.drop_first());
        let t = ts.first();
        assert(tv_size(t) >= 1) by {
            match t {
                TokView::Group { .. } => {},
                _ => {},
            }
        }
    }
}

/// Copy a token tree; the copy has the same view.
pub fn clone_token(t: &Token) -> (r: Token)
    ensures
        tok_view(r) == tok_view(*t),
    decreases tv_size(tok_view(*t)), 0nat,
{
    match t {
        Token::Ident { text, start, end } => Token::Ident {
            text: text.clone(),
            start: *start,
            end: *end,
        },
        Token::Lit { text, start, end } => Token::Lit {
            text: text.clone(),
            start: *start,
            end: *end,
        },
        Token::Punct { ch, start, end } => Token::Punct { ch: *ch, start: *start, end: *end },
        Token::Group { delim, tokens, start, end } => {
            let copied = clone_tokens(tokens);
            Token::Group { delim: *delim, tokens: copied, start: *start, end: *end }
        },
    }
}

/// Copy a token sequence; the copy has the same view.
pub fn clone_tokens(tokens: &Vec<Token>) -> (r: Vec<Token>)
    ensures
        toks_view(r@) == toks_view(tokens@),
    decreases tvs_size(toks_view(tokens@)), 1nat,
{
    let ghost vs = toks_view(tokens@);
    proof {
        lemma_toks_view(tokens@);
    }
    let mut r: Vec<Token> = Vec::new();
    let n = tokens.len();
    let mut i: usize = 0;
    proof {
        lemma_toks_view(r@);
        assert(toks_view(r@) =~= vs.take(0));
    }
    while i < n
        invariant
            i <= n,
            n == tokens@.len(),
            vs == toks_view(tokens@),
            vs.len() == n,
            forall|j: int| 0 <= j < n ==> vs[j] == tok_view(tokens@[j]),
            toks_view(r@) == vs.take(i as int),
        decreases n - i,
    {
        proof {
            lemma_tvs_size_elem(vs, i as int);
        }
        let ghost prev = r@;
        let c = clone_token(&tokens[i]);
        r.push(c);
        proof {
            lemma_toks_view_push(prev, c);
            assert(toks_view(r@) =~= vs.take(i + 1)) by {
                assert(vs.take(i + 1) =~= vs.take(i as int).push(vs[i as int]));
            }
        }
        i = i + 1;
    }
    proof {
        assert(vs.take(n as int) =~= vs);
    }
    r
}

/// Splitting a sequence splits its size.
pub proof fn lemma_tvs_size_split(ts: Seq<TokView>, i: int)
    requires
        0 <= i <= ts.len(),
    ensures
        tvs_size(ts) == tvs_size(ts.take(i)) + tvs_size(ts.skip(i)),
    decreases i,
{
    if i == 0 {
        assert(ts.take(0) =~= Seq::<TokView>::empty());
        assert(ts.skip(0) =~= ts);
    } else {
        lemma_tvs_size_split(ts.drop_first(), i - 1);
        assert(ts.take(i).drop_first() =~= ts.drop_first().take(i - 1));
        assert(ts.take(i).first() == ts.first());
        assert(ts.take(i).len() == i);
        assert(ts.skip(i) =~= ts.drop_first().skip(i - 1));
    }
}

} // verus!
