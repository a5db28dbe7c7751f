//! Whitespace-faithful token serializer: renders a token tree back into
//! source text, inserting a single space between adjacent tokens by default
//! and suppressing it around brace groups whose tokens touched in the
//! original source, so that compact brace formatting survives the round
//! trip into an interpolation template.

use vstd::prelude::*;
use crate::tokens::{
    Pos, GPos, Delim, Token, TokView, pos_view, tok_view, toks_view, tv_size, tvs_size,
    lemma_toks_view, lemma_tvs_size_elem,
};
use crate::strutil::{to_chars, from_chars};

verus! {

/// The serializer state after some tokens have been rendered: the text so
/// far, the position of the first token, the end position of the last
/// token, and whether the last token was a brace group.
pub ghost struct RState {
    pub text: Seq<char>,
    pub first: Option<GPos>,
    pub prev_end: Option<GPos>,
    pub prev_brace: bool,
}

/// The state before any token has been rendered.
pub open spec fn init_rstate() -> RState {
    RState { text: Seq::empty(), first: None, prev_end: None, prev_brace: false }
}

/// What one token contributes: its text, its effective start and end
/// position, whether it is a brace group, and whether a space follows it.
pub ghost struct TokPiece {
    pub text: Seq<char>,
    pub start: GPos,
    pub end: GPos,
    pub is_brace: bool,
    pub add_space: bool,
}

/// The opening delimiter text of a group.
pub open spec fn open_of(d: Delim) -> Seq<char> {
    match d {
        Delim::Paren => seq!['('],
        Delim::Bracket => seq!['['],
        Delim::Brace => seq!['{'],
        Delim::Invisible => Seq::empty(),
    }
}

/// The closing delimiter text of a group.
pub open spec fn close_of(d: Delim) -> Seq<char> {
    match d {
        Delim::Paren => seq![')'],
        Delim::Bracket => seq![']'],
        Delim::Brace => seq!['}'],
        Delim::Invisible => Seq::empty(),
    }
}

/// A column one to the right, within the machine's column range.
pub open spec fn col_inc(c: int) -> int {
    if c < usize::MAX as int {
        c + 1
    } else {
        c
    }
}

/// Append one token to the serializer state: suppress the pending space
/// when the token is a brace group or follows one and the source had the
/// two tokens touching (same line, columns overlapping), then append the
/// token's text and a trailing space unless the token forbids it.
pub open spec fn step_rstate(st: RState, p: TokPiece) -> RState {
    let pop_space = (p.is_brace || st.prev_brace) && match st.prev_end {
        Some(pe) => pe.line == p.start.line && pe.col >= p.start.col,
        None => false,
    } && st.text.len() > 0 && st.text.last() == ' ';
    let base = if pop_space {
        st.text.drop_last()
    } else {
        st.text
    };
    let with_tok = base + p.text;
    RState {
        text: if p.add_space {
            with_tok.push(' ')
        } else {
            with_tok
        },
        first: if st.first is None {
            Some(p.start)
        } else {
            st.first
        },
        prev_end: Some(p.end),
        prev_brace: p.is_brace,
    }
}

/// What one token contributes to the rendered text. A group renders its
/// interior first, drops the interior's trailing space, wraps it in its
/// delimiters, and takes its effective start and end position from the
/// first and last interior token, adjusted by one column, so that spacing
/// decisions at the parent level agree with the reconstructed inner text.
pub open spec fn piece_of(t: TokView) -> TokPiece
    decreases tv_size(t), 0nat,
{
    match t {
        TokView::Ident { text, start, end } => TokPiece {
            text,
            start,
            end,
            is_brace: false,
            add_space: true,
        },
        TokView::Lit { text, start, end } => TokPiece {
            text,
            start,
            end,
            is_brace: false,
            add_space: true,
        },
        TokView::Punct { ch, start, end } => TokPiece {
            text: seq![ch],
            start,
            end,
            is_brace: false,
            add_space: ch != '\'',
        },
        TokView::Group { delim, tokens, start, end } => {
            let ir = render_seq(tokens, init_rstate());
            let content = if ir.text.len() > 0 {
                ir.text.drop_last()
            } else {
                ir.text
            };
            let eff_start = match ir.first {
                Some(f) => GPos {
                    line: f.line,
                    col: if f.col > 0 {
                        f.col - 1
                    } else {
                        start.col
                    },
                },
                None => start,
            };
            let eff_end = match ir.prev_end {
                Some(e) => GPos { line: e.line, col: col_inc(e.col) },
                None => end,
            };
            TokPiece {
                text: open_of(delim) + content + close_of(delim),
                start: eff_start,
                end: eff_end,
                is_brace: delim == Delim::Brace,
                add_space: true,
            }
        },
    }
}

/// Render a sequence of tokens, left to right, starting from `st`.
pub open spec fn render_seq(ts: Seq<TokView>, st: RState) -> RState
    decreases tvs_size(ts), 1nat,
    via render_seq_dec
{
    if ts.len() == 0 {
        st
    } else {
        render_seq(ts.drop_first(), step_rstate(st, piece_of(ts.first())))
    }
}

#[via_fn]
proof fn render_seq_dec(ts: Seq<TokView>, st: RState) {
    if ts.len() > 0 {
        let t = ts.first();
        assert(tv_size(t) >= 1) by {
            match t {
                TokView::Group { .. } => {},
                _ => {},
            }
        }
        assert(tvs_size(ts) == tv_size(t) + tvs_size(ts.drop_first()));
    }
}

/// Render a sequence of tokens from the initial state.
pub open spec fn render_of(ts: Seq<TokView>) -> RState {
    render_seq(ts, init_rstate())
}

/// What the serializer returns for a token sequence: the text, and the
/// effective position of the first and the end of the last token.
#[derive(Debug)]
pub struct PrintOutput {
    pub output: String,
    pub start_token: Option<Pos>,
    pub end_token: Option<Pos>,
}

/// The view of an optional position.
pub open spec fn opt_pos_view(o: Option<Pos>) -> Option<GPos> {
    match o {
        Some(p) => Some(pos_view(p)),
        None => None,
    }
}

/// The serializer state that a set of executable variables stands for.
pub open spec fn exec_rstate(
    out: Seq<char>,
    first: Option<Pos>,
    prev_end: Option<Pos>,
    prev_brace: bool,
) -> RState {
    RState {
        text: out,
        first: opt_pos_view(first),
        prev_end: opt_pos_view(prev_end),
        prev_brace,
    }
}

/// Serialize a token sequence into text, one space between adjacent tokens
/// by default, none around brace groups whose tokens touched in the source.
pub fn print_tokens_internal(tokens: &Vec<Token>) -> (r: PrintOutput)
    ensures
        r.output@ == render_of(toks_view(tokens@)).text,
        opt_pos_view(r.start_token) == render_of(toks_view(tokens@)).first,
        opt_pos_view(r.end_token) == render_of(toks_view(tokens@)).prev_end,
    decreases tvs_size(toks_view(tokens@)),
{
    let ghost vs = toks_view(tokens@);
    proof {
        lemma_toks_view(tokens@);
        assert(vs.skip(0) =~= vs);
    }
    let mut out: Vec<char> = Vec::new();
    let mut first_token_start: Option<Pos> = None;
    let mut prev_token_end: Option<Pos> = None;
    let mut prev_brace: bool = false;
    let n = tokens.len();
    let mut i: usize = 0;
    while i < n
        invariant
            n == tokens@.len(),
            i <= n,
            vs == toks_view(tokens@),
            vs.len() == n,
            forall|j: int| 0 <= j < n ==> vs[j] == tok_view(tokens@[j]),
            render_seq(vs, init_rstate()) == render_seq(
                vs.skip(i as int),
                exec_rstate(out@, first_token_start, prev_token_end, prev_brace),
            ),
        decreases n - i,
    {
        let ghost st = exec_rstate(out@, first_token_start, prev_token_end, prev_brace);
        proof {
            assert(vs.skip(i as int).first() == vs[i as int]);
            assert(vs.skip(i as int).drop_first() =~= vs.skip(i + 1));
        }
        let tok = &tokens[i];
        let tok_text: Vec<char>;
        let tok_start: Pos;
        let tok_end: Pos;
        let is_brace: bool;
        let add_space: bool;
        match tok {
            Token::Ident { text, start, end } => {
                tok_text = to_chars(text.as_str());
                tok_start = *start;
                tok_end = *end;
                is_brace = false;
                add_space = true;
            },
            Token::Lit { text, start, end } => {
                tok_text = to_chars(text.as_str());
                tok_start = *start;
                tok_end = *end;
                is_brace = false;
                add_space = true;
            },
            Token::Punct { ch, start, end } => {
                let mut t: Vec<char> = Vec::new();
                t.push(*ch);
                proof {
                    assert(t@ =~= seq![tok_view(tokens@[i as int])->Punct_ch]);
                }
                tok_text = t;
                tok_start = *start;
                tok_end = *end;
                is_brace = false;
                add_space = *ch != '\'';
            },
            Token::Group { delim, tokens: inner, start, end } => {
                proof {
                    lemma_tvs_size_elem(vs, i as int);
                }
                let ir = print_tokens_internal(inner);
                let mut content = to_chars(ir.output.as_str());
                if content.len() > 0 {
                    content.pop();
                }
                let mut t: Vec<char> = Vec::new();
                match delim {
                    Delim::Paren => t.push('('),
                    Delim::Bracket => t.push('['),
                    Delim::Brace => t.push('{'),
                    Delim::Invisible => (),
                }
                t.append(&mut content);
                match delim {
                    Delim::Paren => t.push(')'),
                    Delim::Bracket => t.push(']'),
                    Delim::Brace => t.push('}'),
                    Delim::Invisible => (),
                }
                tok_start = match ir.start_token {
                    Some(f) => Pos {
                        line: f.line,
                        col: if f.col > 0 {
                            f.col - 1
                        } else {
                            start.col
                        },
                    },
                    None => *start,
                };
                tok_end = match ir.end_token {
                    Some(e) => Pos {
                        line: e.line,
                        col: if e.col < usize::MAX {
                            e.col + 1
                        } else {
                            e.col
                        },
                    },
                    None => *end,
                };
                is_brace = match delim {
                    Delim::Brace => true,
                    _ => false,
                };
                add_space = true;
                proof {
                    let p = piece_of(vs[i as int]);
                    assert(t@ =~= p.text);
                    assert(pos_view(tok_start) == p.start);
                    assert(pos_view(tok_end) == p.end);
                }
                tok_text = t;
            },
        }
        proof {
            let p = piece_of(vs[i as int]);
            assert(tok_text@ == p.text);
            assert(pos_view(tok_start) == p.start);
            assert(pos_view(tok_end) == p.end);
            assert(is_brace == p.is_brace);
            assert(add_space == p.add_space);
        }
        if is_brace || prev_brace {
            if let Some(pe) = prev_token_end {
                let ends_space = out.len() > 0 && out[out.len() - 1] == ' ';
                if pe.line == tok_start.line && pe.col >= tok_start.col && ends_space {
                    out.pop();
                }
            }
        }
        let mut tt = tok_text;
        out.append(&mut tt);
        if add_space {
            out.push(' ');
        }
        if first_token_start.is_none() {
            first_token_start = Some(tok_start);
        }
        prev_token_end = Some(tok_end);
        prev_brace = is_brace;
        proof {
            let p = piece_of(vs[i as int]);
            let st2 = exec_rstate(out@, first_token_start, prev_token_end, prev_brace);
            assert(st2.text =~= step_rstate(st, p).text);
            assert(st2 == step_rstate(st, p));
        }
        i = i + 1;
    }
    proof {
        assert(vs.skip(n as int) =~= Seq::<TokView>::empty());
    }
    PrintOutput {
        output: from_chars(out.as_slice()),
        start_token: first_token_start,
        end_token: prev_token_end,
    }
}

/// Serialize a token sequence into a template string: the rendered text
/// with every literal brace escaped for a later interpolation pass.
pub fn print_tokens(tokens: &Vec<Token>) -> (r: String)
    ensures
        r@ == crate::braces::esc_braces(render_of(toks_view(tokens@)).text),
{
    let internal = print_tokens_internal(tokens);
    let chars = to_chars(internal.output.as_str());
    let escaped = crate::braces::escape_braces(chars.as_slice());
    from_chars(escaped.as_slice())
}

/// Brace compaction: a brace group whose open brace touched the end of the
/// preceding token in the source keeps no space before it, and one whose
/// open brace stood apart keeps the single separating space.
pub proof fn lemma_brace_compaction(
    prev_text: Seq<char>,
    ps: GPos,
    pe: GPos,
    name: Seq<char>,
    ns: GPos,
    ne: GPos,
    gs: GPos,
    ge: GPos,
)
    requires
        ns.col > 0,
    ensures
        ({
            let p = TokView::Ident { text: prev_text, start: ps, end: pe };
            let g = TokView::Group {
                delim: Delim::Brace,
                tokens: seq![TokView::Ident { text: name, start: ns, end: ne }],
                start: gs,
                end: ge,
            };
            let touching = pe.line == ns.line && pe.col >= ns.col - 1;
            let r = render_of(seq![p, g]).text;
            (touching ==> r == prev_text + seq!['{'] + name + seq!['}', ' ']) && (!touching ==> r
                == prev_text + seq![' ', '{'] + name + seq!['}', ' '])
        }),
{
    let p = TokView::Ident { text: prev_text, start: ps, end: pe };
    let inner = TokView::Ident { text: name, start: ns, end: ne };
    let g = TokView::Group {
        delim: Delim::Brace,
        tokens: seq![inner],
        start: gs,
        end: ge,
    };
    let ts = seq![p, g];
    reveal_with_fuel(render_seq, 4);
    let st0 = init_rstate();
    assert(ts.first() == p);
    assert(ts.drop_first() =~= seq![g]);
    let st1 = step_rstate(st0, piece_of(p));
    assert(st1.text =~= prev_text.push(' '));
    assert(seq![g].drop_first() =~= Seq::<TokView>::empty());
    // the interior of the group: a single identifier
    let gi = seq![inner];
    assert(gi.first() == inner);
    assert(gi.drop_first() =~= Seq::<TokView>::empty());
    let ir = render_seq(gi, init_rstate());
    assert(ir == step_rstate(init_rstate(), piece_of(inner)));
    assert(ir.text =~= name.push(' '));
    assert(ir.first == Some(ns));
    let gp = piece_of(g);
    assert(gp.start == GPos { line: ns.line, col: ns.col - 1 });
    assert(ir.text.drop_last() =~= name);
    assert(gp.text =~= seq!['{'] + name + seq!['}']);
    assert(gp.is_brace);
    let st2 = step_rstate(st1, gp);
    assert(render_of(ts).text == st2.text);
    let touching = pe.line == ns.line && pe.col >= ns.col - 1;
    if touching {
        assert(st1.text.last() == ' ');
        assert(st1.text.drop_last() =~= prev_text);
        assert(st2.text =~= prev_text + seq!['{'] + name + seq!['}', ' ']);
    } else {
        assert(st2.text =~= prev_text + seq![' ', '{'] + name + seq!['}', ' ']);
    }
}

/// Whether a token is an identifier whose text is nonempty and free of
/// spaces, as every real identifier is.
pub open spec fn plain_ident(t: TokView) -> bool {
    &&& t is Ident
    &&& t->Ident_text.len() > 0
    &&& forall|j: int| 0 <= j < t->Ident_text.len() ==> t->Ident_text[j] != ' '
}

/// The texts of a sequence of identifier tokens.
pub open spec fn ident_texts_of(ts: Seq<TokView>) -> Seq<Seq<char>> {
    ts.map_values(|t: TokView| t->Ident_text)
}

/// The serialized text of a flat identifier sequence: each text followed
/// by one space.
pub open spec fn flat_text_of(ts: Seq<TokView>) -> Seq<char>
    decreases ts.len(),
{
    if ts.len() == 0 {
        Seq::empty()
    } else {
        ts[0]->Ident_text + seq![' '] + flat_text_of(ts.drop_first())
    }
}

/// The words of a text, split at every space; `cur` is the part of the
/// current word already seen.
pub open spec fn words_acc(s: Seq<char>, cur: Seq<char>) -> Seq<Seq<char>>
    decreases s.len(),
{
    if s.len() == 0 {
        seq![cur]
    } else if s[0] == ' ' {
        seq![cur] + words_acc(s.drop_first(), Seq::empty())
    } else {
        words_acc(s.drop_first(), cur.push(s[0]))
    }
}

/// Rendering a flat identifier sequence appends each text and one space:
/// no space is ever suppressed, since no brace group takes part.
proof fn lemma_render_flat(ts: Seq<TokView>, st: RState)
    requires
        forall|i: int| 0 <= i < ts.len() ==> plain_ident(#[trigger] ts[i]),
        !st.prev_brace,
    ensures
        render_seq(ts, st).text == st.text + flat_text_of(ts),
    decreases ts.len(),
{
    if ts.len() == 0 {
        assert(st.text + flat_text_of(ts) =~= st.text);
    } else {
        assert(plain_ident(ts[0]));
        let p = piece_of(ts[0]);
        let st1 = step_rstate(st, p);
        assert(st1.text =~= st.text + ts[0]->Ident_text + seq![' ']);
        assert(!st1.prev_brace);
        assert forall|i: int| 0 <= i < ts.drop_first().len() implies plain_ident(
            #[trigger] ts.drop_first()[i],
        ) by {
            assert(ts.drop_first()[i] == ts[i + 1]);
        }
        lemma_render_flat(ts.drop_first(), st1);
        assert(st1.text + flat_text_of(ts.drop_first()) =~= st.text + flat_text_of(ts));
    }
}

/// Splitting consumes a space-free word whole into the current word.
proof fn lemma_words_word(w: Seq<char>, s: Seq<char>, cur: Seq<char>)
    requires
        forall|j: int| 0 <= j < w.len() ==> w[j] != ' ',
    ensures
        words_acc(w + s, cur) == words_acc(s, cur + w),
    decreases w.len(),
{
    if w.len() == 0 {
        assert(w + s =~= s);
        assert(cur + w =~= cur);
    } else {
        assert((w + s)[0] == w[0]);
        assert((w + s).drop_first() =~= w.drop_first() + s);
        assert forall|j: int| 0 <= j < w.drop_first().len() implies w.drop_first()[j] != ' ' by {
            assert(w.drop_first()[j] == w[j + 1]);
        }
        lemma_words_word(w.drop_first(), s, cur.push(w[0]));
        assert(cur.push(w[0]) + w.drop_first() =~= cur + w);
    }
}

/// Splitting the flat text recovers each identifier text, and one empty
/// trailing word from the final space.
proof fn lemma_words_flat(ts: Seq<TokView>)
    requires
        forall|i: int| 0 <= i < ts.len() ==> plain_ident(#[trigger] ts[i]),
    ensures
        words_acc(flat_text_of(ts), Seq::empty()) == ident_texts_of(ts).push(
            Seq::<char>::empty(),
        ),
    decreases ts.len(),
{
    if ts.len() == 0 {
        assert(words_acc(flat_text_of(ts), Seq::empty()) =~= ident_texts_of(ts).push(
            Seq::<char>::empty(),
        ));
    } else {
        assert(plain_ident(ts[0]));
        let w = ts[0]->Ident_text;
        let rest = flat_text_of(ts.drop_first());
        assert(flat_text_of(ts) =~= w + (seq![' '] + rest));
        lemma_words_word(w, seq![' '] + rest, Seq::empty());
        assert(Seq::<char>::empty() + w =~= w);
        assert((seq![' '] + rest)[0] == ' ');
        assert((seq![' '] + rest).drop_first() =~= rest);
        assert(words_acc(seq![' '] + rest, w) == seq![w] + words_acc(rest, Seq::empty()));
        assert forall|i: int| 0 <= i < ts.drop_first().len() implies plain_ident(
            #[trigger] ts.drop_first()[i],
        ) by {
            assert(ts.drop_first()[i] == ts[i + 1]);
        }
        lemma_words_flat(ts.drop_first());
        assert(seq![w] + ident_texts_of(ts.drop_first()).push(Seq::<char>::empty())
            =~= ident_texts_of(ts).push(Seq::<char>::empty())) by {
            assert(ident_texts_of(ts.drop_first()) =~= ident_texts_of(ts).drop_first());
            assert(ident_texts_of(ts)[0] == w);
        }
    }
}

/// Serializer round trip on flat identifier sequences: splitting the
/// serialized text at its spaces recovers exactly the identifier texts,
/// so re-parsing yields a structurally equal sequence.
pub proof fn lemma_flat_round_trip(ts: Seq<TokView>)
    requires
        forall|i: int| 0 <= i < ts.len() ==> plain_ident(#[trigger] ts[i]),
    ensures
        words_acc(render_of(ts).text, Seq::empty()) == ident_texts_of(ts).push(
            Seq::<char>::empty(),
        ),
{
    lemma_render_flat(ts, init_rstate());
    assert(render_of(ts).text =~= flat_text_of(ts));
    lemma_words_flat(ts);
}

} // verus!
