//! Shared verified string utilities: conversions between `String` and
//! `Vec<char>`, decimal and hexadecimal rendering of integers, whitespace
//! trimming, and substring search.

use vstd::prelude::*;

verus! {

/// Relies on `String::push`: appends one character at the end.
#[verifier::external_body]
pub fn push_char(s: &mut String, c: char)
    ensures
        final(s)@ == old(s)@.push(c),
{
    s.push(c);
}

/// Collect the characters of a string slice into a vector.
pub fn to_chars(s: &str) -> (r: Vec<char>)
    ensures
        r@ == s@,
{
    let n = s.unicode_len();
    let mut r: Vec<char> = Vec::new();
    for i in 0..n
        invariant
            n == s@.len(),
            r@ == s@.subrange(0, i as int),
    {
        r.push(s.get_char(i));
        proof {
            assert(s@.subrange(0, i + 1) =~= s@.subrange(0, i as int).push(s@[i as int]));
        }
    }
    proof {
        assert(s@.subrange(0, n as int) =~= s@);
    }
    r
}

/// Build a string out of a slice of characters.
pub fn from_chars(v: &[char]) -> (r: String)
    ensures
        r@ == v@,
{
    let mut r = String::new();
    let n = v.len();
    for i in 0..n
        invariant
            n == v@.len(),
            r@ == v@.subrange(0, i as int),
    {
        push_char(&mut r, v[i]);
        proof {
            assert(v@.subrange(0, i + 1) =~= v@.subrange(0, i as int).push(v@[i as int]));
        }
    }
    proof {
        assert(v@.subrange(0, n as int) =~= v@);
    }
    r
}

pub const DEC_DIGITS: [char; 10] = ['0', '1', '2', '3', '4', '5', '6', '7', '8', '9'];

pub const HEX_DIGITS: [char; 16] = [
    '0', '1', '2', '3', '4', '5', '6', '7', '8', '9', 'a', 'b', 'c', 'd', 'e', 'f',
];

/// Decimal rendering of a natural number, most significant digit first.
pub open spec fn dec_of(n: nat) -> Seq<char>
    decreases n,
{
    if n < 10 {
        seq![DEC_DIGITS[n as int]]
    } else {
        dec_of(n / 10).push(DEC_DIGITS[(n % 10) as int])
    }
}

/// Render a number in decimal.
pub fn fmt_u64(n: u64) -> (s: String)
    ensures
        s@ == dec_of(n as nat),
    decreases n,
{
    if n < 10 {
        let mut s = String::new();
        push_char(&mut s, DEC_DIGITS[n as usize]);
        proof {
            assert(Seq::<char>::empty().push(DEC_DIGITS[n as int]) =~= seq![
                DEC_DIGITS[n as int],
            ]);
        }
        s
    } else {
        let mut s = fmt_u64(n / 10);
        push_char(&mut s, DEC_DIGITS[(n % 10) as usize]);
        s
    }
}

/// Decimal rendering padded with zeroes on the left to at least two digits.
pub open spec fn dec2_of(n: nat) -> Seq<char> {
    if n < 10 {
        seq![DEC_DIGITS[0]] + dec_of(n)
    } else {
        dec_of(n)
    }
}

/// Decimal rendering padded with zeroes on the left to at least three digits.
pub open spec fn dec3_of(n: nat) -> Seq<char> {
    if n < 10 {
        seq![DEC_DIGITS[0], DEC_DIGITS[0]] + dec_of(n)
    } else if n < 100 {
        seq![DEC_DIGITS[0]] + dec_of(n)
    } else {
        dec_of(n)
    }
}

/// Render a number in decimal with at least two digits.
pub fn fmt_u64_pad2(n: u64) -> (s: String)
    ensures
        s@ == dec2_of(n as nat),
{
    if n < 10 {
        let mut s = String::new();
        push_char(&mut s, DEC_DIGITS[0]);
        let t = fmt_u64(n);
        s.append(t.as_str());
        proof {
            assert(Seq::<char>::empty().push(DEC_DIGITS[0]) + dec_of(n as nat) =~= seq![
                DEC_DIGITS[0],
            ] + dec_of(n as nat));
        }
        s
    } else {
        fmt_u64(n)
    }
}

/// Render a number in decimal with at least three digits.
pub fn fmt_u64_pad3(n: u64) -> (s: String)
    ensures
        s@ == dec3_of(n as nat),
{
    if n < 10 {
        let mut s = String::new();
        push_char(&mut s, DEC_DIGITS[0]);
        push_char(&mut s, DEC_DIGITS[0]);
        let t = fmt_u64(n);
        s.append(t.as_str());
        proof {
            assert(Seq::<char>::empty().push(DEC_DIGITS[0]).push(DEC_DIGITS[0]) + dec_of(
                n as nat,
            ) =~= seq![DEC_DIGITS[0], DEC_DIGITS[0]] + dec_of(n as nat));
        }
        s
    } else if n < 100 {
        let mut s = String::new();
        push_char(&mut s, DEC_DIGITS[0]);
        let t = fmt_u64(n);
        s.append(t.as_str());
        proof {
            assert(Seq::<char>::empty().push(DEC_DIGITS[0]) + dec_of(n as nat) =~= seq![
                DEC_DIGITS[0],
            ] + dec_of(n as nat));
        }
        s
    } else {
        fmt_u64(n)
    }
}

/// The nibble of `n` that stands `i` nibbles from the most significant end.
pub open spec fn nibble_of(n: u64, i: u64) -> u64
    recommends
        i < 16,
{
    (n >> (((15 - i) * 4) as u64)) & 15
}

/// Hexadecimal rendering of a 64-bit number, sixteen digits, zero padded.
pub open spec fn hex16_of(n: u64) -> Seq<char> {
    Seq::new(16, |i: int| HEX_DIGITS[nibble_of(n, i as u64) as int])
}

/// Render a number as sixteen hexadecimal digits.
pub fn fmt_u64_hex16(n: u64) -> (s: String)
    ensures
        s@ == hex16_of(n),
{
    let mut s = String::new();
    for i in 0..16u64
        invariant
            s@ == hex16_of(n).subrange(0, i as int),
    {
        let sh: u64 = (15 - i) * 4;
        let d: u64 = (n >> sh) & 15;
        proof {
            assert((n >> sh) & 15 < 16) by (bit_vector);
        }
        push_char(&mut s, HEX_DIGITS[d as usize]);
        proof {
            assert(hex16_of(n)[i as int] == HEX_DIGITS[nibble_of(n, i) as int]);
            assert(hex16_of(n).subrange(0, i + 1) =~= hex16_of(n).subrange(0, i as int).push(
                hex16_of(n)[i as int],
            ));
        }
    }
    proof {
        assert(hex16_of(n).subrange(0, 16) =~= hex16_of(n));
    }
    s
}

/// The characters with the Unicode `White_Space` property, the ones that
/// trimming removes at either end of a line.
pub open spec fn is_space_char(c: char) -> bool {
    c == ' ' || c == '\t' || c == '\n' || c == '\u{b}' || c == '\u{c}' || c == '\r' || c
        == '\u{85}' || c == '\u{a0}' || c == '\u{1680}' || ('\u{2000}' <= c && c <= '\u{200a}') || c
        == '\u{2028}' || c == '\u{2029}' || c == '\u{202f}' || c == '\u{205f}' || c == '\u{3000}'
}

/// Decide whether a character counts as whitespace for trimming.
pub fn is_space(c: char) -> (r: bool)
    ensures
        r == is_space_char(c),
{
    c == ' ' || c == '\t' || c == '\n' || c == '\u{b}' || c == '\u{c}' || c == '\r' || c
        == '\u{85}' || c == '\u{a0}' || c == '\u{1680}' || ('\u{2000}' <= c && c <= '\u{200a}') || c
        == '\u{2028}' || c == '\u{2029}' || c == '\u{202f}' || c == '\u{205f}' || c == '\u{3000}'
}

/// How many whitespace characters stand at the front of `s`.
pub open spec fn lead_spaces_of(s: Seq<char>) -> nat
    decreases s.len(),
{
    if s.len() == 0 || !is_space_char(s[0]) {
        0
    } else {
        1 + lead_spaces_of(s.drop_first())
    }
}

/// How many whitespace characters stand at the back of `s`.
pub open spec fn trail_spaces_of(s: Seq<char>) -> nat
    decreases s.len(),
{
    if s.len() == 0 || !is_space_char(s[s.len() - 1]) {
        0
    } else {
        1 + trail_spaces_of(s.drop_last())
    }
}

/// `s` with whitespace removed from both ends; empty when all of `s` is
/// whitespace.
pub open spec fn trim_of(s: Seq<char>) -> Seq<char> {
    if lead_spaces_of(s) == s.len() {
        Seq::empty()
    } else {
        s.subrange(lead_spaces_of(s) as int, s.len() - trail_spaces_of(s))
    }
}

proof fn lemma_lead_spaces(s: Seq<char>)
    ensures
        lead_spaces_of(s) <= s.len(),
        forall|k: int| 0 <= k < lead_spaces_of(s) ==> is_space_char(s[k]),
        lead_spaces_of(s) < s.len() ==> !is_space_char(s[lead_spaces_of(s) as int]),
    decreases s.len(),
{
    if s.len() == 0 || !is_space_char(s[0]) {
    } else {
        lemma_lead_spaces(s.drop_first());
        assert forall|k: int| 0 <= k < lead_spaces_of(s) implies is_space_char(s[k]) by {
            if k > 0 {
                assert(s.drop_first()[k - 1] == s[k]);
            }
        }
    }
}

proof fn lemma_trail_spaces(s: Seq<char>)
    ensures
        trail_spaces_of(s) <= s.len(),
        forall|k: int| s.len() - trail_spaces_of(s) <= k < s.len() ==> is_space_char(s[k]),
        trail_spaces_of(s) < s.len() ==> !is_space_char(
            s[s.len() - trail_spaces_of(s) - 1],
        ),
    decreases s.len(),
{
    if s.len() == 0 || !is_space_char(s[s.len() - 1]) {
    } else {
        lemma_trail_spaces(s.drop_last());
        assert forall|k: int| s.len() - trail_spaces_of(s) <= k < s.len() implies is_space_char(
            s[k],
        ) by {
            if k < s.len() - 1 {
                assert(s.drop_last()[k] == s[k]);
            }
        }
    }
}

/// Remove whitespace from both ends of a character vector.
pub fn trim_chars(s: &[char]) -> (r: Vec<char>)
    ensures
        r@ == trim_of(s@),
{
    proof {
        lemma_lead_spaces(s@);
        lemma_trail_spaces(s@);
    }
    let n = s.len();
    let mut a: usize = 0;
    while a < n && is_space(s[a])
        invariant
            a <= n,
            n == s@.len(),
            forall|k: int| 0 <= k < a ==> is_space_char(s@[k]),
        decreases n - a,
    {
        a = a + 1;
    }
    assert(a == lead_spaces_of(s@));
    if a == n {
        let r: Vec<char> = Vec::new();
        return r;
    }
    let mut b: usize = n;
    while b > a && is_space(s[b - 1])
        invariant
            a <= b <= n,
            n == s@.len(),
            a == lead_spaces_of(s@),
            a < n,
            forall|k: int| b <= k < n ==> is_space_char(s@[k]),
        decreases b,
    {
        b = b - 1;
    }
    assert(b == s@.len() - trail_spaces_of(s@)) by {
        let t = trail_spaces_of(s@);
        if b < n - t {
            assert(is_space_char(s@[b as int]));
        }
        if b > n - t {
            assert(is_space_char(s@[b - 1]));
        }
    }
    let mut r: Vec<char> = Vec::new();
    let mut i: usize = a;
    while i < b
        invariant
            a <= i <= b <= n,
            n == s@.len(),
            r@ == s@.subrange(a as int, i as int),
        decreases b - i,
    {
        r.push(s[i]);
        proof {
            assert(s@.subrange(a as int, i + 1) =~= s@.subrange(a as int, i as int).push(
                s@[i as int],
            ));
        }
        i = i + 1;
    }
    r
}

/// The slice of `pat` stands in `s` at position `i`.
pub open spec fn match_at(s: Seq<char>, pat: Seq<char>, i: int) -> bool {
    0 <= i && i + pat.len() <= s.len() && s.subrange(i, i + pat.len()) == pat
}

/// Decide whether `pat` stands in `s` at position `i`.
fn check_match_at(s: &[char], pat: &[char], i: usize) -> (r: bool)
    requires
        i + pat@.len() <= s@.len(),
    ensures
        r == match_at(s@, pat@, i as int),
{
    let m = pat.len();
    let nlen = s.len();
    let mut k: usize = 0;
    while k < m
        invariant
            k <= m,
            m == pat@.len(),
            nlen == s@.len(),
            i + m <= nlen,
            s@.subrange(i as int, i + k) =~= pat@.subrange(0, k as int),
        decreases m - k,
    {
        if s[i + k] != pat[k] {
            assert(!match_at(s@, pat@, i as int)) by {
                if s@.subrange(i as int, i + pat@.len()) == pat@ {
                    assert(s@.subrange(i as int, i + pat@.len())[k as int] == pat@[k as int]);
                }
            }
            return false;
        }
        proof {
            assert(s@.subrange(i as int, i + k + 1) =~= s@.subrange(i as int, i + k).push(
                s@[i + k],
            ));
            assert(pat@.subrange(0, k + 1) =~= pat@.subrange(0, k as int).push(pat@[k as int]));
        }
        k = k + 1;
    }
    proof {
        assert(pat@.subrange(0, m as int) =~= pat@);
    }
    true
}

/// Whether `pat` stands anywhere in `s`.
pub open spec fn contains_sub(s: Seq<char>, pat: Seq<char>) -> bool {
    exists|i: int| match_at(s, pat, i)
}

/// Find the first position where `pat` stands in `s`.
pub fn find_sub(s: &[char], pat: &[char]) -> (r: Option<usize>)
    ensures
        match r {
            Some(i) => match_at(s@, pat@, i as int) && forall|j: int|
                0 <= j < i ==> !match_at(s@, pat@, j),
            None => !contains_sub(s@, pat@),
        },
{
    let n = s.len();
    let m = pat.len();
    if m > n {
        return None;
    }
    if m == 0 {
        proof {
            assert(s@.subrange(0, 0) =~= pat@);
        }
        return Some(0);
    }
    let mut i: usize = 0;
    while i <= n - m
        invariant
            1 <= m <= n,
            n == s@.len(),
            m == pat@.len(),
            i <= n - m + 1,
            forall|j: int| 0 <= j < i ==> !match_at(s@, pat@, j),
        decreases n + 1 - i,
    {
        if check_match_at(s, pat, i) {
            return Some(i);
        }
        i = i + 1;
    }
    assert forall|j: int| !match_at(s@, pat@, j) by {
        if 0 <= j && j + pat@.len() <= s@.len() {
            assert(j < i);
        }
    }
    None
}

/// Whether `pat` is a prefix of `s`.
pub open spec fn starts_with(s: Seq<char>, pat: Seq<char>) -> bool {
    match_at(s, pat, 0)
}

/// Decide whether `pat` is a prefix of `s`.
pub fn check_starts_with(s: &[char], pat: &[char]) -> (r: bool)
    ensures
        r == starts_with(s@, pat@),
{
    if pat.len() > s.len() {
        return false;
    }
    check_match_at(s, pat, 0)
}

/// `s` with every plain space removed.
pub open spec fn remove_spaces_of(s: Seq<char>) -> Seq<char>
    decreases s.len(),
{
    if s.len() == 0 {
        Seq::empty()
    } else if s[0] == ' ' {
        remove_spaces_of(s.drop_first())
    } else {
        seq![s[0]] + remove_spaces_of(s.drop_first())
    }
}

/// Remove every plain space from a string.
pub fn remove_spaces(s: &str) -> (r: String)
    ensures
        r@ == remove_spaces_of(s@),
{
    let chars = to_chars(s);
    let n = chars.len();
    let mut out: Vec<char> = Vec::new();
    proof {
        assert(chars@.skip(0) =~= chars@);
        assert(out@ + remove_spaces_of(chars@) =~= remove_spaces_of(chars@));
    }
    for i in 0..n
        invariant
            n == chars@.len(),
            chars@ == s@,
            remove_spaces_of(s@) == out@ + remove_spaces_of(chars@.skip(i as int)),
    {
        let ghost prev = out@;
        proof {
            assert(chars@.skip(i as int)[0] == chars@[i as int]);
            assert(chars@.skip(i as int).drop_first() =~= chars@.skip(i + 1));
        }
        if chars[i] != ' ' {
            out.push(chars[i]);
            proof {
                assert(prev + (seq![chars@[i as int]] + remove_spaces_of(chars@.skip(i + 1)))
                    =~= out@ + remove_spaces_of(chars@.skip(i + 1)));
            }
        }
    }
    proof {
        assert(chars@.skip(n as int) =~= Seq::<char>::empty());
        assert(out@ + Seq::<char>::empty() =~= out@);
    }
    from_chars(out.as_slice())
}

/// The position of the first occurrence of `c` in `s`, or minus one.
pub open spec fn first_index_of(s: Seq<char>, c: char) -> int
    decreases s.len(),
{
    if s.len() == 0 {
        -1
    } else if s[0] == c {
        0
    } else if first_index_of(s.drop_first(), c) < 0 {
        -1
    } else {
        1 + first_index_of(s.drop_first(), c)
    }
}

/// The first occurrence is an occurrence, and nothing before it is one.
pub proof fn lemma_first_index(s: Seq<char>, c: char)
    ensures
        first_index_of(s, c) >= 0 ==> first_index_of(s, c) < s.len() && s[first_index_of(s, c)]
            == c,
        forall|j: int| 0 <= j < first_index_of(s, c) ==> s[j] != c,
        first_index_of(s, c) < 0 ==> forall|j: int| 0 <= j < s.len() ==> s[j] != c,
    decreases s.len(),
{
    if s.len() > 0 && s[0] != c {
        lemma_first_index(s.drop_first(), c);
        assert forall|j: int| 0 <= j < first_index_of(s, c) implies s[j] != c by {
            if j > 0 {
                assert(s.drop_first()[j - 1] == s[j]);
            }
        }
        if first_index_of(s, c) < 0 {
            assert forall|j: int| 0 <= j < s.len() implies s[j] != c by {
                if j > 0 {
                    assert(s.drop_first()[j - 1] == s[j]);
                }
            }
        }
    }
}

/// Find the first occurrence of `c` in a character vector.
pub fn find_char(s: &[char], c: char) -> (r: Option<usize>)
    ensures
        match r {
            Some(i) => i == first_index_of(s@, c),
            None => first_index_of(s@, c) < 0,
        },
{
    let n = s.len();
    let mut i: usize = 0;
    while i < n
        invariant
            i <= n,
            n == s@.len(),
            forall|j: int| 0 <= j < i ==> s@[j] != c,
        decreases n - i,
    {
        if s[i] == c {
            proof {
                lemma_first_index(s@, c);
                let f = first_index_of(s@, c);
                if 0 <= f < i {
                    assert(s@[f] != c);
                }
                if f > i || f < 0 {
                    assert(s@[i as int] != c);
                }
            }
            return Some(i);
        }
        i = i + 1;
    }
    proof {
        lemma_first_index(s@, c);
        if first_index_of(s@, c) >= 0 {
            assert(s@[first_index_of(s@, c)] != c);
        }
    }
    None
}

/// Decide whether two string slices hold the same characters.
pub fn str_eq(a: &str, b: &str) -> (r: bool)
    ensures
        r == (a@ == b@),
{
    let va = to_chars(a);
    let vb = to_chars(b);
    if va.len() != vb.len() {
        return false;
    }
    let mut i: usize = 0;
    let n = va.len();
    while i < n
        invariant
            i <= n,
            n == va@.len() == vb@.len(),
            va@ == a@,
            vb@ == b@,
            forall|j: int| 0 <= j < i ==> va@[j] == vb@[j],
        decreases n - i,
    {
        if va[i] != vb[i] {
            return false;
        }
        i = i + 1;
    }
    proof {
        assert(a@ =~= b@);
    }
    true
}

/// Copy the characters of `s` from position `a` on.
pub fn tail_from(s: &[char], a: usize) -> (r: Vec<char>)
    requires
        a <= s@.len(),
    ensures
        r@ == s@.skip(a as int),
{
    let n = s.len();
    let mut r: Vec<char> = Vec::new();
    let mut i: usize = a;
    while i < n
        invariant
            a <= i <= n,
            n == s@.len(),
            r@ == s@.subrange(a as int, i as int),
        decreases n - i,
    {
        r.push(s[i]);
        proof {
            assert(s@.subrange(a as int, i + 1) =~= s@.subrange(a as int, i as int).push(
                s@[i as int],
            ));
        }
        i = i + 1;
    }
    proof {
        assert(s@.subrange(a as int, n as int) =~= s@.skip(a as int));
    }
    r
}

/// The lines of `s`, split at every line feed; `cur` is the part of the
/// current line already seen.
pub open spec fn split_acc(s: Seq<char>, cur: Seq<char>) -> Seq<Seq<char>>
    decreases s.len(),
{
    if s.len() == 0 {
        seq![cur]
    } else if s[0] == '\n' {
        seq![cur] + split_acc(s.drop_first(), Seq::empty())
    } else {
        split_acc(s.drop_first(), cur.push(s[0]))
    }
}

/// The lines of `s`, as `str::split` with a line-feed separator yields them:
/// splitting the empty text gives one empty line, and a trailing line feed
/// gives a trailing empty line.
pub open spec fn lines_of(s: Seq<char>) -> Seq<Seq<char>> {
    split_acc(s, Seq::empty())
}

/// Split a character vector into its lines at every line feed.
pub fn split_lines(s: &[char]) -> (r: Vec<Vec<char>>)
    ensures
        r@.map_values(|l: Vec<char>| l@) == lines_of(s@),
{
    let n = s.len();
    let mut done: Vec<Vec<char>> = Vec::new();
    let mut cur: Vec<char> = Vec::new();
    proof {
        assert(s@.skip(0) =~= s@);
    }
    for i in 0..n
        invariant
            n == s@.len(),
            lines_of(s@) == done@.map_values(|l: Vec<char>| l@) + split_acc(
                s@.skip(i as int),
                cur@,
            ),
    {
        proof {
            assert(s@.skip(i as int).drop_first() =~= s@.skip(i + 1));
            assert(s@.skip(i as int)[0] == s@[i as int]);
        }
        if s[i] == '\n' {
            let ghost prev_done = done@;
            let ghost prev_cur = cur@;
            done.push(cur);
            cur = Vec::new();
            proof {
                assert(done@.map_values(|l: Vec<char>| l@) =~= prev_done.map_values(
                    |l: Vec<char>| l@,
                ).push(prev_cur));
                assert(prev_done.map_values(|l: Vec<char>| l@) + (seq![prev_cur] + split_acc(
                    s@.skip(i + 1),
                    Seq::empty(),
                )) =~= done@.map_values(|l: Vec<char>| l@) + split_acc(
                    s@.skip(i + 1),
                    Seq::empty(),
                ));
            }
        } else {
            cur.push(s[i]);
        }
    }
    proof {
        assert(s@.skip(n as int) =~= Seq::<char>::empty());
    }
    let ghost prev_done = done@;
    let ghost prev_cur = cur@;
    done.push(cur);
    proof {
        assert(done@.map_values(|l: Vec<char>| l@) =~= prev_done.map_values(
            |l: Vec<char>| l@,
        ).push(prev_cur));
        assert(prev_done.map_values(|l: Vec<char>| l@) + seq![prev_cur] =~= done@.map_values(
            |l: Vec<char>| l@,
        ));
    }
    done
}

} // verus!
