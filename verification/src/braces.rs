//! Brace escaping for interpolation templates: every literal brace of the
//! serialized text is doubled, and a quadruple brace produced by doubling
//! an already doubled occurrence collapses back, so the whole text is safe
//! as a format template whose own placeholders are written with double
//! braces.

use vstd::prelude::*;

verus! {

/// The length of the run of `c` at the front of `s`.
pub open spec fn run_len(s: Seq<char>, c: char) -> nat
    decreases s.len(),
{
    if s.len() == 0 || s[0] != c {
        0
    } else {
        1 + run_len(s.drop_first(), c)
    }
}

/// `m` copies of `c`.
pub open spec fn rep_char(c: char, m: nat) -> Seq<char> {
    Seq::new(m, |i: int| c)
}

/// What a run of `k` braces becomes: doubling gives `2k`, and collapsing
/// every quadruple to a single brace leaves `k/2` braces for even `k` and
/// `(k-1)/2 + 2` for odd `k`.
pub open spec fn brace_run_out(c: char, k: nat) -> Seq<char> {
    if k % 2 == 0 {
        rep_char(c, k / 2)
    } else {
        rep_char(c, (k - 1) as nat / 2 + 2)
    }
}

/// The run of `c` at the front fits in `s`, covers only `c`, and ends at
/// the first other character.
pub proof fn lemma_run_len(s: Seq<char>, c: char)
    ensures
        run_len(s, c) <= s.len(),
        forall|j: int| 0 <= j < run_len(s, c) ==> s[j] == c,
        run_len(s, c) < s.len() ==> s[run_len(s, c) as int] != c,
    decreases s.len(),
{
    if s.len() == 0 || s[0] != c {
    } else {
        lemma_run_len(s.drop_first(), c);
        assert forall|j: int| 0 <= j < run_len(s, c) implies s[j] == c by {
            if j > 0 {
                assert(s.drop_first()[j - 1] == s[j]);
            }
        }
        if run_len(s, c) < s.len() {
            assert(s.drop_first()[run_len(s, c) - 1] == s[run_len(s, c) as int]);
        }
    }
}

/// A prefix of `k` copies of `c` bounded by another character is the run.
pub proof fn lemma_run_len_exact(s: Seq<char>, c: char, k: nat)
    requires
        k <= s.len(),
        forall|j: int| 0 <= j < k ==> s[j] == c,
        k < s.len() ==> s[k as int] != c,
    ensures
        run_len(s, c) == k,
    decreases s.len(),
{
    if k == 0 {
    } else {
        assert(s[0] == c);
        assert forall|j: int| 0 <= j < k - 1 implies s.drop_first()[j] == c by {
            assert(s.drop_first()[j] == s[j + 1]);
        }
        if k - 1 < s.drop_first().len() {
            assert(s.drop_first()[k - 1] == s[k as int]);
        }
        lemma_run_len_exact(s.drop_first(), c, (k - 1) as nat);
    }
}

/// The brace-escaped form of `s`: each maximal run of braces becomes its
/// collapsed doubled form, all other characters stay.
pub open spec fn esc_braces(s: Seq<char>) -> Seq<char>
    decreases s.len(),
    via esc_braces_dec
{
    if s.len() == 0 {
        Seq::empty()
    } else if s[0] == '{' {
        brace_run_out('{', run_len(s, '{')) + esc_braces(s.skip(run_len(s, '{') as int))
    } else if s[0] == '}' {
        brace_run_out('}', run_len(s, '}')) + esc_braces(s.skip(run_len(s, '}') as int))
    } else {
        seq![s[0]] + esc_braces(s.drop_first())
    }
}

#[via_fn]
proof fn esc_braces_dec(s: Seq<char>) {
    if s.len() > 0 {
        lemma_run_len(s, '{');
        lemma_run_len(s, '}');
    }
}

/// Escape the braces of a text for use as a format template.
pub fn escape_braces(s: &[char]) -> (r: Vec<char>)
    ensures
        r@ == esc_braces(s@),
{
    let n = s.len();
    let mut r: Vec<char> = Vec::new();
    let mut i: usize = 0;
    proof {
        assert(s@.skip(0) =~= s@);
        assert(r@ + esc_braces(s@) =~= esc_braces(s@));
    }
    while i < n
        invariant
            i <= n,
            n == s@.len(),
            esc_braces(s@) == r@ + esc_braces(s@.skip(i as int)),
        decreases n - i,
    {
        let c = s[i];
        if c == '{' || c == '}' {
            let mut j: usize = i;
            while j < n && s[j] == c
                invariant
                    i <= j <= n,
                    n == s@.len(),
                    forall|t: int| i <= t < j ==> s@[t] == c,
                decreases n - j,
            {
                j = j + 1;
            }
            let k = j - i;
            proof {
                let tail = s@.skip(i as int);
                assert forall|t: int| 0 <= t < k implies tail[t] == c by {
                    assert(tail[t] == s@[i + t]);
                }
                if k < tail.len() {
                    assert(tail[k as int] == s@[j as int]);
                }
                lemma_run_len_exact(tail, c, k as nat);
                assert(tail.skip(k as int) =~= s@.skip(j as int));
            }
            let m: usize = if k % 2 == 0 {
                k / 2
            } else {
                (k - 1) / 2 + 2
            };
            let ghost prev = r@;
            let mut t: usize = 0;
            while t < m
                invariant
                    t <= m,
                    r@ == prev + rep_char(c, t as nat),
                decreases m - t,
            {
                r.push(c);
                proof {
                    assert(prev + rep_char(c, (t + 1) as nat) =~= (prev + rep_char(
                        c,
                        t as nat,
                    )).push(c));
                }
                t = t + 1;
            }
            proof {
                assert(rep_char(c, m as nat) == brace_run_out(c, k as nat));
                assert(esc_braces(s@) == prev + brace_run_out(c, k as nat) + esc_braces(
                    s@.skip(j as int),
                )) by {
                    assert(prev + (brace_run_out(c, k as nat) + esc_braces(s@.skip(j as int)))
                        =~= prev + brace_run_out(c, k as nat) + esc_braces(s@.skip(j as int)));
                }
            }
            i = j;
        } else {
            let ghost prev = r@;
            r.push(c);
            proof {
                assert(s@.skip(i as int).drop_first() =~= s@.skip(i + 1));
                assert(s@.skip(i as int)[0] == s@[i as int]);
                assert(prev + (seq![c] + esc_braces(s@.skip(i + 1))) =~= r@ + esc_braces(
                    s@.skip(i + 1),
                ));
            }
            i = i + 1;
        }
    }
    proof {
        assert(s@.skip(n as int) =~= Seq::<char>::empty());
        assert(r@ + Seq::<char>::empty() =~= r@);
    }
    r
}

/// What a later formatting pass makes of a template that holds only
/// literal text and doubled braces: each doubled brace becomes one literal
/// brace, every other character stays.
pub open spec fn fmt_unbrace(s: Seq<char>) -> Seq<char>
    decreases s.len(),
{
    if s.len() == 0 {
        Seq::empty()
    } else if (s[0] == '{' || s[0] == '}') && s.len() >= 2 && s[1] == s[0] {
        seq![s[0]] + fmt_unbrace(s.skip(2))
    } else {
        seq![s[0]] + fmt_unbrace(s.drop_first())
    }
}

/// Double-brace escaping round trip: on a text with no two adjacent equal
/// braces, escaping and then formatting reproduces every literal brace
/// exactly once.
pub proof fn lemma_escape_format_round_trip(s: Seq<char>)
    requires
        forall|i: int|
            0 <= i < s.len() - 1 ==> !((#[trigger] s[i] == '{' || s[i] == '}') && s[i + 1]
                == s[i]),
    ensures
        fmt_unbrace(esc_braces(s)) == s,
    decreases s.len(),
{
    if s.len() == 0 {
        assert(fmt_unbrace(esc_braces(s)) =~= s);
    } else {
        let c = s[0];
        let rest = s.drop_first();
        assert forall|i: int|
            0 <= i < rest.len() - 1 implies !((#[trigger] rest[i] == '{' || rest[i] == '}')
            && rest[i + 1] == rest[i]) by {
            assert(rest[i] == s[i + 1]);
            assert(rest[i + 1] == s[i + 2]);
        }
        lemma_escape_format_round_trip(rest);
        if c == '{' || c == '}' {
            assert(run_len(s, c) == 1) by {
                if s.len() > 1 {
                    assert(s[1] != c);
                }
                lemma_run_len_exact(s, c, 1);
            }
            assert(s.skip(1) =~= rest);
            assert(esc_braces(s) == brace_run_out(c, 1) + esc_braces(rest));
            assert(brace_run_out(c, 1) =~= seq![c, c]);
            let e = esc_braces(s);
            assert(e =~= seq![c, c] + esc_braces(rest));
            assert(e[0] == c && e.len() >= 2 && e[1] == c);
            assert(e.skip(2) =~= esc_braces(rest));
            assert(fmt_unbrace(e) == seq![c] + fmt_unbrace(esc_braces(rest)));
            assert(seq![c] + rest =~= s);
        } else {
            let e = esc_braces(s);
            assert(e =~= seq![c] + esc_braces(rest));
            assert(e[0] == c);
            assert(e.drop_first() =~= esc_braces(rest));
            assert(fmt_unbrace(e) == seq![c] + fmt_unbrace(esc_braces(rest)));
            assert(seq![c] + rest =~= s);
        }
    }
}

} // verus!
