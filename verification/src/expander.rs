//! Builtin-form expander: finds every occurrence of the two builtin forms
//! (the emit form `crabtime::output!{..}` and the capture form
//! `crabtime::quote!{..}`) anywhere in a token tree, expands the interior
//! bottom-up, and replaces the occurrence with code against the output
//! buffer or with a formatted-string expression; a third, lighter rewrite
//! splices the raw contents of `expand!{..}` inline.

use vstd::prelude::*;
use crate::tokens::{
    Pos, GPos, Delim, Token, TokView, pos_view, tok_view, toks_view, tv_size, tvs_size,
    lemma_toks_view, lemma_toks_view_push, lemma_toks_view_concat, lemma_tvs_size_elem,
    lemma_tvs_size_split, lemma_tvs_size_ge_len, clone_token, clone_tokens,
};
use crate::serializer::{render_of, print_tokens};
use crate::braces::esc_braces;
use crate::strutil::{to_chars, from_chars, str_eq};

verus! {

/// The two builtin forms: the emit form, which appends serialized code to
/// the output buffer, and the capture form, which turns serialized code
/// into a formatted-string expression.
#[derive(Clone, Copy, PartialEq, Eq, Structural, Debug)]
pub enum BuiltinKind {
    Output,
    Quote,
}

/// The identifier of a builtin form.
pub open spec fn kind_name(k: BuiltinKind) -> Seq<char> {
    match k {
        BuiltinKind::Output => "output"@,
        BuiltinKind::Quote => "quote"@,
    }
}

/// The module-path identifier that introduces a builtin form.
pub open spec fn form_path() -> Seq<char> {
    "crabtime"@
}

/// The position given to synthesized tokens.
pub open spec fn synth_pos() -> GPos {
    GPos { line: 0, col: 0 }
}

/// A synthesized identifier token.
pub open spec fn ident_v(text: Seq<char>) -> TokView {
    TokView::Ident { text, start: synth_pos(), end: synth_pos() }
}

/// A synthesized literal token.
pub open spec fn lit_v(text: Seq<char>) -> TokView {
    TokView::Lit { text, start: synth_pos(), end: synth_pos() }
}

/// A synthesized punctuation token.
pub open spec fn punct_v(ch: char) -> TokView {
    TokView::Punct { ch, start: synth_pos(), end: synth_pos() }
}

/// Whether the token sequence begins with a builtin form: the module path
/// identifier, a double-colon, the form identifier, an exclamation mark,
/// and one delimited group.
pub open spec fn is_form_at(k: BuiltinKind, ts: Seq<TokView>) -> bool {
    &&& ts.len() >= 6
    &&& ts[0] is Ident
    &&& ts[0]->Ident_text == form_path()
    &&& ts[1] is Punct
    &&& ts[1]->Punct_ch == ':'
    &&& ts[2] is Punct
    &&& ts[2]->Punct_ch == ':'
    &&& ts[3] is Ident
    &&& ts[3]->Ident_text == kind_name(k)
    &&& ts[4] is Punct
    &&& ts[4]->Punct_ch == '!'
    &&& ts[5] is Group
}

/// String-literal escaping: a backslash before every backslash and every
/// double quote, all other characters unchanged.
pub open spec fn esc_lit(s: Seq<char>) -> Seq<char>
    decreases s.len(),
{
    if s.len() == 0 {
        Seq::empty()
    } else if s[0] == '\\' || s[0] == '"' {
        seq!['\\', s[0]] + esc_lit(s.drop_first())
    } else {
        seq![s[0]] + esc_lit(s.drop_first())
    }
}

/// The text of a string-literal token holding `s`.
pub open spec fn lit_text_of(s: Seq<char>) -> Seq<char> {
    seq!['"'] + esc_lit(s) + seq!['"']
}

/// The template literal that a form's interior serializes to.
pub open spec fn template_lit_of(inner: Seq<TokView>) -> Seq<char> {
    lit_text_of(esc_braces(render_of(inner).text))
}

/// What replaces one builtin form whose expanded interior is `inner`: for
/// the emit form, a statement that writes the serialized interior plus a
/// line break to the output buffer; for the capture form, a
/// formatted-string expression over the serialized interior.
pub open spec fn replacement_of(k: BuiltinKind, inner: Seq<TokView>) -> Seq<TokView> {
    match k {
        BuiltinKind::Output => seq![
            ident_v(form_path()),
            punct_v(':'),
            punct_v(':'),
            ident_v("write_ln"@),
            punct_v('!'),
            TokView::Group {
                delim: Delim::Paren,
                tokens: seq![
                    ident_v("__output_buffer__"@),
                    punct_v(','),
                    lit_v(template_lit_of(inner)),
                ],
                start: synth_pos(),
                end: synth_pos(),
            },
            punct_v(';'),
        ],
        BuiltinKind::Quote => seq![
            ident_v("format"@),
            punct_v('!'),
            TokView::Group {
                delim: Delim::Paren,
                tokens: seq![lit_v(template_lit_of(inner))],
                start: synth_pos(),
                end: synth_pos(),
            },
        ],
    }
}

/// The fully expanded form of a token sequence: every builtin form of kind
/// `k`, at any depth, is replaced, its interior expanded first; a group
/// that is no form keeps its delimiter and positions and has its interior
/// expanded in place; every other token stays.
pub open spec fn spec_expand_builtin(k: BuiltinKind, ts: Seq<TokView>) -> Seq<TokView>
    decreases tvs_size(ts), 1nat,
    via spec_expand_builtin_dec
{
    if ts.len() == 0 {
        Seq::empty()
    } else if is_form_at(k, ts) {
        let inner = spec_expand_builtin(k, ts[5]->Group_tokens);
        replacement_of(k, inner) + spec_expand_builtin(k, ts.skip(6))
    } else if ts[0] is Group {
        let g = TokView::Group {
            delim: ts[0]->Group_delim,
            tokens: spec_expand_builtin(k, ts[0]->Group_tokens),
            start: ts[0]->Group_start,
            end: ts[0]->Group_end,
        };
        seq![g] + spec_expand_builtin(k, ts.drop_first())
    } else {
        seq![ts[0]] + spec_expand_builtin(k, ts.drop_first())
    }
}

#[via_fn]
proof fn spec_expand_builtin_dec(k: BuiltinKind, ts: Seq<TokView>) {
    if ts.len() > 0 {
        lemma_tvs_size_ge_len(ts);
        if is_form_at(k, ts) {
            lemma_tvs_size_split(ts, 6);
            lemma_tvs_size_ge_len(ts.take(6));
            lemma_tvs_size_elem(ts, 5);
            assert(ts.take(6)[5] == ts[5]);
            lemma_tvs_size_elem(ts.take(6), 5);
        } else {
            lemma_tvs_size_elem(ts, 0);
            assert(tvs_size(ts) == tv_size(ts.first()) + tvs_size(ts.drop_first()));
            assert(tv_size(ts.first()) >= 1) by {
                match ts.first() {
                    TokView::Group { .. } => {},
                    _ => {},
                }
            }
        }
    }
}

/// Whether the token sequence begins with the raw-splice form: the
/// identifier, an exclamation mark, and one delimited group.
pub open spec fn is_splice_at(ts: Seq<TokView>) -> bool {
    &&& ts.len() >= 3
    &&& ts[0] is Ident
    &&& ts[0]->Ident_text == "expand"@
    &&& ts[1] is Punct
    &&& ts[1]->Punct_ch == '!'
    &&& ts[2] is Group
}

/// The token sequence with every raw-splice form replaced by its group's
/// raw contents, and every other group rebuilt around its rewritten
/// interior.
pub open spec fn spec_expand_splice(ts: Seq<TokView>) -> Seq<TokView>
    decreases tvs_size(ts), 1nat,
    via spec_expand_splice_dec
{
    if ts.len() == 0 {
        Seq::empty()
    } else if is_splice_at(ts) {
        ts[2]->Group_tokens + spec_expand_splice(ts.skip(3))
    } else if ts[0] is Group {
        let g = TokView::Group {
            delim: ts[0]->Group_delim,
            tokens: spec_expand_splice(ts[0]->Group_tokens),
            start: ts[0]->Group_start,
            end: ts[0]->Group_end,
        };
        seq![g] + spec_expand_splice(ts.drop_first())
    } else {
        seq![ts[0]] + spec_expand_splice(ts.drop_first())
    }
}

#[via_fn]
proof fn spec_expand_splice_dec(ts: Seq<TokView>) {
    if ts.len() > 0 {
        lemma_tvs_size_ge_len(ts);
        if is_splice_at(ts) {
            lemma_tvs_size_split(ts, 3);
            lemma_tvs_size_ge_len(ts.take(3));
        } else {
            lemma_tvs_size_elem(ts, 0);
            assert(tvs_size(ts) == tv_size(ts.first()) + tvs_size(ts.drop_first()));
            assert(tv_size(ts.first()) >= 1) by {
                match ts.first() {
                    TokView::Group { .. } => {},
                    _ => {},
                }
            }
        }
    }
}

/// How many builtin forms of kind `k` stand in the token sequence, at any
/// depth, counted as the expander's scan finds them.
pub open spec fn count_forms(k: BuiltinKind, ts: Seq<TokView>) -> nat
    decreases tvs_size(ts), 1nat,
    via count_forms_dec
{
    if ts.len() == 0 {
        0
    } else if is_form_at(k, ts) {
        1 + count_forms(k, ts[5]->Group_tokens) + count_forms(k, ts.skip(6))
    } else if ts[0] is Group {
        count_forms(k, ts[0]->Group_tokens) + count_forms(k, ts.drop_first())
    } else {
        count_forms(k, ts.drop_first())
    }
}

#[via_fn]
proof fn count_forms_dec(k: BuiltinKind, ts: Seq<TokView>) {
    if ts.len() > 0 {
        lemma_tvs_size_ge_len(ts);
        if is_form_at(k, ts) {
            lemma_tvs_size_split(ts, 6);
            lemma_tvs_size_ge_len(ts.take(6));
            assert(ts.take(6)[5] == ts[5]);
            lemma_tvs_size_elem(ts.take(6), 5);
        } else {
            lemma_tvs_size_elem(ts, 0);
            assert(tvs_size(ts) == tv_size(ts.first()) + tvs_size(ts.drop_first()));
            assert(tv_size(ts.first()) >= 1) by {
                match ts.first() {
                    TokView::Group { .. } => {},
                    _ => {},
                }
            }
        }
    }
}

/// Whether the sequence begins with the tail of a builtin form, missing
/// its first `d` tokens: for `d` up to three, the rest of the
/// double-colon, name and exclamation mark, ending in a group; for `d`
/// four, the group alone.
pub open spec fn form_tail_at(k: BuiltinKind, ts: Seq<TokView>, d: int) -> bool
    decreases 5 - d,
{
    if d == 4 {
        ts.len() >= 1 && ts[0] is Group
    } else if 0 <= d < 4 {
        ts.len() >= 1 && (if d == 2 {
            ts[0] is Ident && ts[0]->Ident_text == kind_name(k)
        } else {
            ts[0] is Punct && ts[0]->Punct_ch == (if d == 3 {
                '!'
            } else {
                ':'
            })
        }) && form_tail_at(k, ts.drop_first(), d + 1)
    } else {
        false
    }
}

/// A whole form is the path identifier followed by the full tail.
proof fn lemma_form_is_head_and_tail(k: BuiltinKind, ts: Seq<TokView>)
    ensures
        is_form_at(k, ts) == (ts.len() >= 1 && ts[0] is Ident && ts[0]->Ident_text == form_path()
            && form_tail_at(k, ts.drop_first(), 0)),
{
    if is_form_at(k, ts) {
        assert(ts.skip(5)[0] == ts[5] && ts.skip(5).len() == ts.len() - 5);
        assert(form_tail_at(k, ts.skip(5), 4));
        assert(ts.skip(4)[0] == ts[4] && ts.skip(4).drop_first() =~= ts.skip(5));
        assert(form_tail_at(k, ts.skip(4), 3));
        assert(ts.skip(3)[0] == ts[3] && ts.skip(3).drop_first() =~= ts.skip(4));
        assert(form_tail_at(k, ts.skip(3), 2));
        assert(ts.skip(2)[0] == ts[2] && ts.skip(2).drop_first() =~= ts.skip(3));
        assert(form_tail_at(k, ts.skip(2), 1));
        assert(ts.skip(1)[0] == ts[1] && ts.skip(1).drop_first() =~= ts.skip(2));
        assert(form_tail_at(k, ts.skip(1), 0));
        assert(ts.drop_first() =~= ts.skip(1));
    } else {
        if ts.len() >= 1 && ts[0] is Ident && ts[0]->Ident_text == form_path() && form_tail_at(
            k,
            ts.drop_first(),
            0,
        ) {
            let t1 = ts.drop_first();
            assert(t1.len() >= 1 && form_tail_at(k, t1.drop_first(), 1));
            let t2 = t1.drop_first();
            assert(t2.len() >= 1 && form_tail_at(k, t2.drop_first(), 2));
            let t3 = t2.drop_first();
            assert(t3.len() >= 1 && form_tail_at(k, t3.drop_first(), 3));
            let t4 = t3.drop_first();
            assert(t4.len() >= 1 && form_tail_at(k, t4.drop_first(), 4));
            let t5 = t4.drop_first();
            assert(t5.len() >= 1);
            assert(ts.len() >= 6);
            assert(t1[0] == ts[1] && t2[0] == ts[2] && t3[0] == ts[3] && t4[0] == ts[4] && t5[0]
                == ts[5]);
            assert(is_form_at(k, ts));
        }
    }
}

/// A short sequence without groups holds no form.
proof fn lemma_count_short_no_groups(k: BuiltinKind, ts: Seq<TokView>)
    requires
        ts.len() < 6,
        forall|j: int| 0 <= j < ts.len() ==> !(#[trigger] ts[j] is Group),
    ensures
        count_forms(k, ts) == 0,
    decreases ts.len(),
{
    if ts.len() > 0 {
        assert(!(ts[0] is Group));
        assert forall|j: int| 0 <= j < ts.drop_first().len() implies !(#[trigger] ts.drop_first()[j]
            is Group) by {
            assert(ts.drop_first()[j] == ts[j + 1]);
        }
        lemma_count_short_no_groups(k, ts.drop_first());
    }
}

/// Expansion completeness: after expansion no builtin form of the expanded
/// kind remains anywhere in the tree, and the expanded sequence can begin
/// with the tail of a form only where the source already did.
pub proof fn lemma_expand_builtin_complete(k: BuiltinKind, ts: Seq<TokView>)
    ensures
        count_forms(k, spec_expand_builtin(k, ts)) == 0,
        forall|d: int|
            0 <= d <= 4 && #[trigger] form_tail_at(k, spec_expand_builtin(k, ts), d)
                ==> form_tail_at(k, ts, d),
    decreases tvs_size(ts),
{
    let e = spec_expand_builtin(k, ts);
    if ts.len() == 0 {
        assert(e.len() == 0);
    } else if is_form_at(k, ts) {
        proof_expand_form_case(k, ts);
    } else if ts[0] is Group {
        lemma_tvs_size_elem(ts, 0);
        assert(tv_size(ts[0]) == 1 + tvs_size(ts[0]->Group_tokens));
        lemma_expand_builtin_complete(k, ts[0]->Group_tokens);
        lemma_expand_builtin_complete(k, ts.drop_first());
        let e2 = spec_expand_builtin(k, ts.drop_first());
        let g = TokView::Group {
            delim: ts[0]->Group_delim,
            tokens: spec_expand_builtin(k, ts[0]->Group_tokens),
            start: ts[0]->Group_start,
            end: ts[0]->Group_end,
        };
        assert(e == seq![g] + e2);
        assert(e[0] == g);
        assert(!is_form_at(k, e));
        assert(e.drop_first() =~= e2);
        assert(count_forms(k, e) == count_forms(k, g->Group_tokens) + count_forms(k, e2));
        assert forall|d: int|
            0 <= d <= 4 && #[trigger] form_tail_at(k, e, d) implies form_tail_at(k, ts, d) by {
            if d == 4 {
            } else {
                assert(!(e[0] is Punct) && !(e[0] is Ident));
            }
        }
    } else {
        lemma_tvs_size_elem(ts, 0);
        assert(tv_size(ts[0]) >= 1) by {
            match ts[0] {
                TokView::Group { .. } => {},
                _ => {},
            }
        }
        assert(tvs_size(ts) == tv_size(ts.first()) + tvs_size(ts.drop_first()));
        lemma_expand_builtin_complete(k, ts.drop_first());
        let e2 = spec_expand_builtin(k, ts.drop_first());
        assert(e == seq![ts[0]] + e2);
        assert(e[0] == ts[0]);
        assert(e.drop_first() =~= e2);
        assert(!is_form_at(k, e)) by {
            if is_form_at(k, e) {
                lemma_form_is_head_and_tail(k, e);
                assert(form_tail_at(k, e2, 0));
                assert(form_tail_at(k, ts.drop_first(), 0));
                lemma_form_is_head_and_tail(k, ts);
                assert(is_form_at(k, ts));
            }
        }
        assert(count_forms(k, e) == count_forms(k, e2));
        assert forall|d: int|
            0 <= d <= 4 && #[trigger] form_tail_at(k, e, d) implies form_tail_at(k, ts, d) by {
            if d == 4 {
                assert(ts[0] is Group);
            } else {
                assert(form_tail_at(k, e.drop_first(), d + 1));
                assert(form_tail_at(k, ts.drop_first(), d + 1));
            }
        }
    }
}

/// The form case of the completeness proof: the replacement holds no form
/// and begins with no form tail.
proof fn proof_expand_form_case(k: BuiltinKind, ts: Seq<TokView>)
    requires
        ts.len() > 0,
        is_form_at(k, ts),
    ensures
        count_forms(k, spec_expand_builtin(k, ts)) == 0,
        forall|d: int|
            0 <= d <= 4 && #[trigger] form_tail_at(k, spec_expand_builtin(k, ts), d)
                ==> form_tail_at(k, ts, d),
    decreases tvs_size(ts), 0nat,
{
    lemma_tvs_size_split(ts, 6);
    lemma_tvs_size_ge_len(ts.take(6));
    lemma_expand_builtin_complete(k, ts.skip(6));
    let e = spec_expand_builtin(k, ts);
    let e2 = spec_expand_builtin(k, ts.skip(6));
    let inner = spec_expand_builtin(k, ts[5]->Group_tokens);
    let r = replacement_of(k, inner);
    assert(e == r + e2);
    reveal_strlit("crabtime");
    reveal_strlit("write_ln");
    reveal_strlit("format");
    reveal_strlit("output");
    reveal_strlit("quote");
    reveal_strlit("__output_buffer__");
    match k {
        BuiltinKind::Output => {
            assert(r.len() == 7);
            assert(e.len() == 7 + e2.len());
            assert(e[0] == ident_v("crabtime"@) && e[1] == punct_v(':') && e[2] == punct_v(':')
                && e[3] == ident_v("write_ln"@) && e[4] == punct_v('!') && e[6] == punct_v(';'));
            assert(e[5] == r[5]);
            assert(e.skip(7) =~= e2);
            assert("write_ln"@ != "output"@) by {
                assert("write_ln"@.len() == 8 && "output"@.len() == 6);
            }
            assert(!is_form_at(k, e));
            assert(e.skip(1)[0] == e[1] && e.skip(1).drop_first() =~= e.skip(2));
            assert(e.skip(2)[0] == e[2] && e.skip(2).drop_first() =~= e.skip(3));
            assert(e.skip(3)[0] == e[3] && e.skip(3).drop_first() =~= e.skip(4));
            assert(e.skip(4)[0] == e[4] && e.skip(4).drop_first() =~= e.skip(5));
            assert(e.skip(5)[0] == e[5] && e.skip(5).drop_first() =~= e.skip(6));
            assert(e.skip(6)[0] == e[6] && e.skip(6).drop_first() =~= e.skip(7));
            assert("write_ln"@ != "crabtime"@) by {
                assert("write_ln"@[0] == 'w' && "crabtime"@[0] == 'c');
            }
            assert(!is_form_at(k, e.skip(1)) && !is_form_at(k, e.skip(2)) && !is_form_at(
                k,
                e.skip(3),
            ) && !is_form_at(k, e.skip(4)) && !is_form_at(k, e.skip(5)) && !is_form_at(
                k,
                e.skip(6),
            ));
            let args = seq![
                ident_v("__output_buffer__"@),
                punct_v(','),
                lit_v(template_lit_of(inner)),
            ];
            assert(r[5]->Group_tokens == args);
            assert(count_forms(k, args) == 0) by {
                assert(forall|j: int| 0 <= j < 3 ==> !(#[trigger] args[j] is Group));
                lemma_count_short_no_groups(k, args);
            }
            assert(e.drop_first() =~= e.skip(1));
            assert(count_forms(k, e) == count_forms(k, e.skip(1)));
            assert(count_forms(k, e.skip(1)) == count_forms(k, e.skip(2)));
            assert(count_forms(k, e.skip(2)) == count_forms(k, e.skip(3)));
            assert(count_forms(k, e.skip(3)) == count_forms(k, e.skip(4)));
            assert(count_forms(k, e.skip(4)) == count_forms(k, e.skip(5)));
            assert(count_forms(k, e.skip(5)) == count_forms(k, args) + count_forms(
                k,
                e.skip(6),
            ));
            assert(count_forms(k, e.skip(6)) == count_forms(k, e2));
            assert(count_forms(k, e) == 0);
            assert forall|d: int|
                0 <= d <= 4 && #[trigger] form_tail_at(k, e, d) implies form_tail_at(
                k,
                ts,
                d,
            ) by {
                assert(e[0] == ident_v("crabtime"@));
                if d == 2 {
                    assert("crabtime"@ != kind_name(k)) by {
                        assert("crabtime"@[0] == 'c' && "output"@[0] == 'o');
                    }
                }
            }
        },
        BuiltinKind::Quote => {
            assert(r.len() == 3);
            assert(e.len() == 3 + e2.len());
            assert(e[0] == ident_v("format"@) && e[1] == punct_v('!'));
            assert(e[2] == r[2]);
            assert(e.skip(3) =~= e2);
            assert("format"@ != "crabtime"@) by {
                assert("format"@.len() == 6 && "crabtime"@.len() == 8);
            }
            assert(!is_form_at(k, e));
            assert(e.skip(1)[0] == e[1] && e.skip(1).drop_first() =~= e.skip(2));
            assert(e.skip(2)[0] == e[2] && e.skip(2).drop_first() =~= e.skip(3));
            assert(!is_form_at(k, e.skip(1)) && !is_form_at(k, e.skip(2)));
            let args = seq![lit_v(template_lit_of(inner))];
            assert(r[2]->Group_tokens == args);
            assert(count_forms(k, args) == 0) by {
                assert(forall|j: int| 0 <= j < 1 ==> !(#[trigger] args[j] is Group));
                lemma_count_short_no_groups(k, args);
            }
            assert(e.drop_first() =~= e.skip(1));
            assert(count_forms(k, e) == count_forms(k, e.skip(1)));
            assert(count_forms(k, e.skip(1)) == count_forms(k, e.skip(2)));
            assert(count_forms(k, e.skip(2)) == count_forms(k, args) + count_forms(
                k,
                e.skip(3),
            ));
            assert(count_forms(k, e.skip(3)) == count_forms(k, e2));
            assert(count_forms(k, e) == 0);
            assert forall|d: int|
                0 <= d <= 4 && #[trigger] form_tail_at(k, e, d) implies form_tail_at(
                k,
                ts,
                d,
            ) by {
                assert(e[0] == ident_v("format"@));
                if d == 2 {
                    assert("format"@ != kind_name(k)) by {
                        assert("format"@[0] == 'f' && "quote"@[0] == 'q');
                    }
                }
            }
        },
    }
}

/// Escape a text for use inside a double-quoted string literal.
pub fn escape_lit(s: &[char]) -> (r: Vec<char>)
    ensures
        r@ == esc_lit(s@),
{
    let n = s.len();
    let mut r: Vec<char> = Vec::new();
    proof {
        assert(s@.skip(0) =~= s@);
        assert(r@ + esc_lit(s@) =~= esc_lit(s@));
    }
    for i in 0..n
        invariant
            n == s@.len(),
            esc_lit(s@) == r@ + esc_lit(s@.skip(i as int)),
    {
        let ghost prev = r@;
        let c = s[i];
        proof {
            assert(s@.skip(i as int)[0] == s@[i as int]);
            assert(s@.skip(i as int).drop_first() =~= s@.skip(i + 1));
        }
        if c == '\\' || c == '"' {
            r.push('\\');
            r.push(c);
            proof {
                assert(prev + (seq!['\\', c] + esc_lit(s@.skip(i + 1))) =~= r@ + esc_lit(
                    s@.skip(i + 1),
                ));
            }
        } else {
            r.push(c);
            proof {
                assert(prev + (seq![c] + esc_lit(s@.skip(i + 1))) =~= r@ + esc_lit(
                    s@.skip(i + 1),
                ));
            }
        }
    }
    proof {
        assert(s@.skip(n as int) =~= Seq::<char>::empty());
        assert(r@ + Seq::<char>::empty() =~= r@);
    }
    r
}

/// The position given to synthesized tokens, at the machine level.
fn synth_pos_at() -> (p: Pos)
    ensures
        pos_view(p) == synth_pos(),
{
    Pos { line: 0, col: 0 }
}

/// A synthesized identifier token.
fn mk_ident(text: &str) -> (t: Token)
    ensures
        tok_view(t) == ident_v(text@),
{
    Token::Ident { text: text.to_owned(), start: synth_pos_at(), end: synth_pos_at() }
}

/// A synthesized punctuation token.
fn mk_punct(ch: char) -> (t: Token)
    ensures
        tok_view(t) == punct_v(ch),
{
    Token::Punct { ch, start: synth_pos_at(), end: synth_pos_at() }
}

/// A synthesized literal token.
fn mk_lit(text: String) -> (t: Token)
    ensures
        tok_view(t) == lit_v(text@),
{
    Token::Lit { text, start: synth_pos_at(), end: synth_pos_at() }
}

/// Serialize a form's interior into the text of its template literal.
fn template_lit(inner: &Vec<Token>) -> (s: String)
    ensures
        s@ == template_lit_of(toks_view(inner@)),
{
    let template = print_tokens(inner);
    let chars = to_chars(template.as_str());
    let escaped = escape_lit(chars.as_slice());
    let mut out: Vec<char> = Vec::new();
    out.push('"');
    let mut esc = escaped;
    out.append(&mut esc);
    out.push('"');
    proof {
        assert(out@ =~= lit_text_of(esc_braces(render_of(toks_view(inner@)).text)));
    }
    from_chars(out.as_slice())
}

/// Build the tokens that replace one builtin form.
fn build_replacement(k: BuiltinKind, inner: &Vec<Token>) -> (r: Vec<Token>)
    ensures
        toks_view(r@) == replacement_of(k, toks_view(inner@)),
{
    let lit = mk_lit(template_lit(inner));
    let mut r: Vec<Token> = Vec::new();
    proof {
        lemma_toks_view(r@);
    }
    match k {
        BuiltinKind::Output => {
            let mut args: Vec<Token> = Vec::new();
            args.push(mk_ident("__output_buffer__"));
            args.push(mk_punct(','));
            args.push(lit);
            proof {
                lemma_toks_view(args@);
                assert(toks_view(args@) =~= seq![
                    ident_v("__output_buffer__"@),
                    punct_v(','),
                    lit_v(template_lit_of(toks_view(inner@))),
                ]);
            }
            let group = Token::Group {
                delim: Delim::Paren,
                tokens: args,
                start: synth_pos_at(),
                end: synth_pos_at(),
            };
            r.push(mk_ident("crabtime"));
            r.push(mk_punct(':'));
            r.push(mk_punct(':'));
            r.push(mk_ident("write_ln"));
            r.push(mk_punct('!'));
            r.push(group);
            r.push(mk_punct(';'));
            proof {
                lemma_toks_view(r@);
                assert(toks_view(r@) =~= replacement_of(k, toks_view(inner@)));
            }
        },
        BuiltinKind::Quote => {
            let mut args: Vec<Token> = Vec::new();
            args.push(lit);
            proof {
                lemma_toks_view(args@);
                assert(toks_view(args@) =~= seq![lit_v(template_lit_of(toks_view(inner@)))]);
            }
            let group = Token::Group {
                delim: Delim::Paren,
                tokens: args,
                start: synth_pos_at(),
                end: synth_pos_at(),
            };
            r.push(mk_ident("format"));
            r.push(mk_punct('!'));
            r.push(group);
            proof {
                lemma_toks_view(r@);
                assert(toks_view(r@) =~= replacement_of(k, toks_view(inner@)));
            }
        },
    }
    r
}

/// Decide whether a builtin form of kind `k` begins at position `i`.
fn check_form_at(k: BuiltinKind, tokens: &Vec<Token>, i: usize) -> (r: bool)
    requires
        i <= tokens@.len(),
        toks_view(tokens@).len() == tokens@.len(),
        forall|j: int| 0 <= j < tokens@.len() ==> toks_view(tokens@)[j] == tok_view(tokens@[j]),
    ensures
        r == is_form_at(k, toks_view(tokens@).skip(i as int)),
{
    let ghost s = toks_view(tokens@).skip(i as int);
    let n = tokens.len();
    if n - i < 6 {
        return false;
    }
    proof {
        assert(s[0] == toks_view(tokens@)[i as int]);
        assert(s[1] == toks_view(tokens@)[i + 1]);
        assert(s[2] == toks_view(tokens@)[i + 2]);
        assert(s[3] == toks_view(tokens@)[i + 3]);
        assert(s[4] == toks_view(tokens@)[i + 4]);
        assert(s[5] == toks_view(tokens@)[i + 5]);
    }
    let c0 = match &tokens[i] {
        Token::Ident { text, .. } => str_eq(text.as_str(), "crabtime"),
        _ => false,
    };
    if !c0 {
        return false;
    }
    let c1 = match &tokens[i + 1] {
        Token::Punct { ch, .. } => *ch == ':',
        _ => false,
    };
    if !c1 {
        return false;
    }
    let c2 = match &tokens[i + 2] {
        Token::Punct { ch, .. } => *ch == ':',
        _ => false,
    };
    if !c2 {
        return false;
    }
    let c3 = match &tokens[i + 3] {
        Token::Ident { text, .. } => match k {
            BuiltinKind::Output => str_eq(text.as_str(), "output"),
            BuiltinKind::Quote => str_eq(text.as_str(), "quote"),
        },
        _ => false,
    };
    if !c3 {
        return false;
    }
    let c4 = match &tokens[i + 4] {
        Token::Punct { ch, .. } => *ch == '!',
        _ => false,
    };
    if !c4 {
        return false;
    }
    let c5 = match &tokens[i + 5] {
        Token::Group { .. } => true,
        _ => false,
    };
    c5
}

/// Find and expand every builtin form of kind `k` in the token sequence,
/// innermost occurrences first, rebuilding groups that are no form around
/// their rewritten interior.
pub fn expand_builtin_macro(k: BuiltinKind, tokens: &Vec<Token>) -> (r: Vec<Token>)
    ensures
        toks_view(r@) == spec_expand_builtin(k, toks_view(tokens@)),
    decreases tvs_size(toks_view(tokens@)),
{
    let ghost vs = toks_view(tokens@);
    proof {
        lemma_toks_view(tokens@);
    }
    let mut out: Vec<Token> = Vec::new();
    let n = tokens.len();
    let mut i: usize = 0;
    proof {
        lemma_toks_view(out@);
        assert(vs.skip(0) =~= vs);
        assert(toks_view(out@) + spec_expand_builtin(k, vs) =~= spec_expand_builtin(k, vs));
    }
    while i < n
        invariant
            i <= n,
            n == tokens@.len(),
            vs == toks_view(tokens@),
            vs.len() == n,
            forall|j: int| 0 <= j < n ==> vs[j] == tok_view(tokens@[j]),
            spec_expand_builtin(k, vs) == toks_view(out@) + spec_expand_builtin(
                k,
                vs.skip(i as int),
            ),
        decreases n - i,
    {
        let ghost s = vs.skip(i as int);
        let ghost prev = out@;
        if check_form_at(k, tokens, i) {
            proof {
                assert(s[5] == vs[i + 5]);
                lemma_tvs_size_elem(vs, i + 5);
                assert(tvs_size(s) >= 0);
            }
            let inner_rewritten = match &tokens[i + 5] {
                Token::Group { tokens: inner, .. } => expand_builtin_macro(k, inner),
                _ => Vec::new(),
            };
            let mut rep = build_replacement(k, &inner_rewritten);
            let ghost rep_seq = rep@;
            let ghost rep_view = toks_view(rep@);
            out.append(&mut rep);
            proof {
                assert(out@ == prev + rep_seq);
                lemma_toks_view_concat(prev, rep_seq);
                assert(toks_view(out@) == toks_view(prev) + rep_view);
                assert(s.skip(6) =~= vs.skip(i + 6));
                assert(spec_expand_builtin(k, s) == replacement_of(
                    k,
                    spec_expand_builtin(k, s[5]->Group_tokens),
                ) + spec_expand_builtin(k, vs.skip(i + 6)));
                assert(toks_view(prev) + (rep_view + spec_expand_builtin(k, vs.skip(i + 6)))
                    =~= toks_view(out@) + spec_expand_builtin(k, vs.skip(i + 6)));
            }
            i = i + 6;
        } else {
            proof {
                assert(s[0] == vs[i as int]);
                assert(s.drop_first() =~= vs.skip(i + 1));
            }
            match &tokens[i] {
                Token::Group { delim, tokens: inner, start, end } => {
                    proof {
                        lemma_tvs_size_elem(vs, i as int);
                    }
                    let new_inner = expand_builtin_macro(k, inner);
                    let g = Token::Group {
                        delim: *delim,
                        tokens: new_inner,
                        start: *start,
                        end: *end,
                    };
                    let ghost gv = tok_view(g);
                    out.push(g);
                    proof {
                        lemma_toks_view_push(prev, g);
                        assert(spec_expand_builtin(k, s) == seq![gv] + spec_expand_builtin(
                            k,
                            vs.skip(i + 1),
                        ));
                        assert(toks_view(prev) + (seq![gv] + spec_expand_builtin(
                            k,
                            vs.skip(i + 1),
                        )) =~= toks_view(out@) + spec_expand_builtin(k, vs.skip(i + 1)));
                    }
                },
                _ => {
                    let c = clone_token(&tokens[i]);
                    let ghost cv = tok_view(c);
                    out.push(c);
                    proof {
                        lemma_toks_view_push(prev, c);
                        assert(spec_expand_builtin(k, s) == seq![cv] + spec_expand_builtin(
                            k,
                            vs.skip(i + 1),
                        ));
                        assert(toks_view(prev) + (seq![cv] + spec_expand_builtin(
                            k,
                            vs.skip(i + 1),
                        )) =~= toks_view(out@) + spec_expand_builtin(k, vs.skip(i + 1)));
                    }
                },
            }
            i = i + 1;
        }
    }
    proof {
        assert(vs.skip(n as int) =~= Seq::<TokView>::empty());
        assert(toks_view(out@) + Seq::<TokView>::empty() =~= toks_view(out@));
    }
    out
}

/// Expand every emit form in the token sequence.
pub fn expand_output_macro(tokens: &Vec<Token>) -> (r: Vec<Token>)
    ensures
        toks_view(r@) == spec_expand_builtin(BuiltinKind::Output, toks_view(tokens@)),
{
    expand_builtin_macro(BuiltinKind::Output, tokens)
}

/// Expand every capture form in the token sequence.
pub fn expand_quote_macro(tokens: &Vec<Token>) -> (r: Vec<Token>)
    ensures
        toks_view(r@) == spec_expand_builtin(BuiltinKind::Quote, toks_view(tokens@)),
{
    expand_builtin_macro(BuiltinKind::Quote, tokens)
}

/// Decide whether a raw-splice form begins at position `i`.
fn check_splice_at(tokens: &Vec<Token>, i: usize) -> (r: bool)
    requires
        i <= tokens@.len(),
        toks_view(tokens@).len() == tokens@.len(),
        forall|j: int| 0 <= j < tokens@.len() ==> toks_view(tokens@)[j] == tok_view(tokens@[j]),
    ensures
        r == is_splice_at(toks_view(tokens@).skip(i as int)),
{
    let ghost s = toks_view(tokens@).skip(i as int);
    let n = tokens.len();
    if n - i < 3 {
        return false;
    }
    proof {
        assert(s[0] == toks_view(tokens@)[i as int]);
        assert(s[1] == toks_view(tokens@)[i + 1]);
        assert(s[2] == toks_view(tokens@)[i + 2]);
    }
    let c0 = match &tokens[i] {
        Token::Ident { text, .. } => str_eq(text.as_str(), "expand"),
        _ => false,
    };
    if !c0 {
        return false;
    }
    let c1 = match &tokens[i + 1] {
        Token::Punct { ch, .. } => *ch == '!',
        _ => false,
    };
    if !c1 {
        return false;
    }
    let c2 = match &tokens[i + 2] {
        Token::Group { .. } => true,
        _ => false,
    };
    c2
}

/// Find every raw-splice form in the token sequence and substitute its
/// group's raw contents inline, without any serialization.
pub fn expand_expand_macro(tokens: &Vec<Token>) -> (r: Vec<Token>)
    ensures
        toks_view(r@) == spec_expand_splice(toks_view(tokens@)),
    decreases tvs_size(toks_view(tokens@)),
{
    let ghost vs = toks_view(tokens@);
    proof {
        lemma_toks_view(tokens@);
    }
    let mut out: Vec<Token> = Vec::new();
    let n = tokens.len();
    let mut i: usize = 0;
    proof {
        lemma_toks_view(out@);
        assert(vs.skip(0) =~= vs);
        assert(toks_view(out@) + spec_expand_splice(vs) =~= spec_expand_splice(vs));
    }
    while i < n
        invariant
            i <= n,
            n == tokens@.len(),
            vs == toks_view(tokens@),
            vs.len() == n,
            forall|j: int| 0 <= j < n ==> vs[j] == tok_view(tokens@[j]),
            spec_expand_splice(vs) == toks_view(out@) + spec_expand_splice(vs.skip(i as int)),
        decreases n - i,
    {
        let ghost s = vs.skip(i as int);
        let ghost prev = out@;
        if check_splice_at(tokens, i) {
            proof {
                assert(s[2] == vs[i + 2]);
            }
            let mut spliced = match &tokens[i + 2] {
                Token::Group { tokens: inner, .. } => clone_tokens(inner),
                _ => Vec::new(),
            };
            let ghost spliced_seq = spliced@;
            let ghost spliced_view = toks_view(spliced@);
            out.append(&mut spliced);
            proof {
                assert(out@ == prev + spliced_seq);
                lemma_toks_view_concat(prev, spliced_seq);
                assert(s.skip(3) =~= vs.skip(i + 3));
                assert(spec_expand_splice(s) == s[2]->Group_tokens + spec_expand_splice(
                    vs.skip(i + 3),
                ));
                assert(toks_view(prev) + (spliced_view + spec_expand_splice(vs.skip(i + 3)))
                    =~= toks_view(out@) + spec_expand_splice(vs.skip(i + 3)));
            }
            i = i + 3;
        } else {
            proof {
                assert(s[0] == vs[i as int]);
                assert(s.drop_first() =~= vs.skip(i + 1));
            }
            match &tokens[i] {
                Token::Group { delim, tokens: inner, start, end } => {
                    proof {
                        lemma_tvs_size_elem(vs, i as int);
                    }
                    let new_inner = expand_expand_macro(inner);
                    let g = Token::Group {
                        delim: *delim,
                        tokens: new_inner,
                        start: *start,
                        end: *end,
                    };
                    let ghost gv = tok_view(g);
                    out.push(g);
                    proof {
                        lemma_toks_view_push(prev, g);
                        assert(spec_expand_splice(s) == seq![gv] + spec_expand_splice(
                            vs.skip(i + 1),
                        ));
                        assert(toks_view(prev) + (seq![gv] + spec_expand_splice(vs.skip(i + 1)))
                            =~= toks_view(out@) + spec_expand_splice(vs.skip(i + 1)));
                    }
                },
                _ => {
                    let c = clone_token(&tokens[i]);
                    let ghost cv = tok_view(c);
                    out.push(c);
                    proof {
                        lemma_toks_view_push(prev, c);
                        assert(spec_expand_splice(s) == seq![cv] + spec_expand_splice(
                            vs.skip(i + 1),
                        ));
                        assert(toks_view(prev) + (seq![cv] + spec_expand_splice(vs.skip(i + 1)))
                            =~= toks_view(out@) + spec_expand_splice(vs.skip(i + 1)));
                    }
                },
            }
            i = i + 1;
        }
    }
    proof {
        assert(vs.skip(n as int) =~= Seq::<TokView>::empty());
        assert(toks_view(out@) + Seq::<TokView>::empty() =~= toks_view(out@));
    }
    out
}

} // verus!
