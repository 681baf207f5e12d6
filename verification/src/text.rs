//! Characters, case folding, and the whitespace tokenizer that the whole
//! pipeline works on. Text is handled as sequences of `char`; tokens are
//! the maximal runs of non-whitespace characters.

use vstd::prelude::*;

verus! {

/// True for the whitespace characters that separate words in a transcript.
pub open spec fn is_space_char(c: char) -> bool {
    c == ' ' || c == '\t' || c == '\n' || c == '\r'
}

/// Whether a character separates words.
pub fn is_space(c: char) -> (r: bool)
    ensures
        r == is_space_char(c),
{
    c == ' ' || c == '\t' || c == '\n' || c == '\r'
}

/// ASCII lower-casing of a single character; other characters are unchanged.
pub open spec fn lower_char_spec(c: char) -> char {
    if 'A' <= c && c <= 'Z' {
        (c as u8 + 32) as char
    } else {
        c
    }
}

/// Lower-case one character (ASCII only; the canon and the vocabulary are ASCII).
pub fn lower_char(c: char) -> (r: char)
    ensures
        r == lower_char_spec(c),
{
    if 'A' <= c && c <= 'Z' {
        (c as u8 + 32) as char
    } else {
        c
    }
}

/// ASCII lower-casing of a whole sequence.
pub open spec fn lower_seq(s: Seq<char>) -> Seq<char> {
    s.map_values(|c: char| lower_char_spec(c))
}

/// The characters of a string slice, as a vector.
pub fn chars_of(s: &str) -> (r: Vec<char>)
    ensures
        r@ == s@,
{
    let n = s.unicode_len();
    let mut r: Vec<char> = Vec::new();
    let mut i: usize = 0;
    while i < n
        invariant
            n == s@.len(),
            i <= n,
            r@ == s@.subrange(0, i as int),
        decreases n - i,
    {
        r.push(s.get_char(i));
        i = i + 1;
        proof {
            assert(r@ =~= s@.subrange(0, i as int));
        }
    }
    proof {
        assert(r@ =~= s@);
    }
    r
}

/// Lower-case every character of a vector.
pub fn lower_vec(s: &Vec<char>) -> (r: Vec<char>)
    ensures
        r@ == lower_seq(s@),
{
    let mut r: Vec<char> = Vec::new();
    let mut i: usize = 0;
    while i < s.len()
        invariant
            i <= s@.len(),
            r@ == lower_seq(s@.subrange(0, i as int)),
        decreases s@.len() - i,
    {
        r.push(lower_char(s[i]));
        i = i + 1;
        proof {
            assert(r@ =~= lower_seq(s@.subrange(0, i as int)));
        }
    }
    proof {
        assert(s@.subrange(0, s@.len() as int) =~= s@);
    }
    r
}

/// Whether the characters of `t` are exactly those of the string slice `s`.
pub fn token_is(t: &Vec<char>, s: &str) -> (r: bool)
    ensures
        r == (t@ == s@),
{
    let n = s.unicode_len();
    if t.len() != n {
        proof {
            assert(t@ != s@);
        }
        return false;
    }
    let mut i: usize = 0;
    while i < n
        invariant
            n == s@.len(),
            t@.len() == n,
            i <= n,
            forall|k: int| 0 <= k < i ==> t@[k] == s@[k],
        decreases n - i,
    {
        if t[i] != s.get_char(i) {
            return false;
        }
        i = i + 1;
    }
    proof {
        assert(t@ =~= s@);
    }
    true
}

/// Whether two character vectors hold the same characters.
pub fn tokens_eq(a: &Vec<char>, b: &Vec<char>) -> (r: bool)
    ensures
        r == (a@ == b@),
{
    if a.len() != b.len() {
        proof {
            assert(a@ != b@);
        }
        return false;
    }
    let mut i: usize = 0;
    while i < a.len()
        invariant
            a@.len() == b@.len(),
            i <= a@.len(),
            forall|k: int| 0 <= k < i ==> a@[k] == b@[k],
        decreases a@.len() - i,
    {
        if a[i] != b[i] {
            return false;
        }
        i = i + 1;
    }
    proof {
        assert(a@ =~= b@);
    }
    true
}

/// Whether two string slices hold the same characters.
pub fn str_eq(a: &str, b: &str) -> (r: bool)
    ensures
        r == (a@ == b@),
{
    let n = a.unicode_len();
    if b.unicode_len() != n {
        proof {
            assert(a@ != b@);
        }
        return false;
    }
    let mut i: usize = 0;
    while i < n
        invariant
            n == a@.len(),
            b@.len() == n,
            i <= n,
            forall|k: int| 0 <= k < i ==> a@[k] == b@[k],
        decreases n - i,
    {
        if a.get_char(i) != b.get_char(i) {
            return false;
        }
        i = i + 1;
    }
    proof {
        assert(a@ =~= b@);
    }
    true
}

/// A copy of a character vector.
pub fn copy_token(t: &Vec<char>) -> (r: Vec<char>)
    ensures
        r@ == t@,
{
    let mut r: Vec<char> = Vec::new();
    let mut i: usize = 0;
    while i < t.len()
        invariant
            i <= t@.len(),
            r@ == t@.subrange(0, i as int),
        decreases t@.len() - i,
    {
        r.push(t[i]);
        i = i + 1;
        proof {
            assert(r@ =~= t@.subrange(0, i as int));
        }
    }
    proof {
        assert(r@ =~= t@);
    }
    r
}

/// Append the characters of `tail` to `out`.
pub fn extend_chars(out: &mut Vec<char>, tail: &Vec<char>)
    ensures
        final(out)@ == old(out)@ + tail@,
{
    let mut i: usize = 0;
    while i < tail.len()
        invariant
            i <= tail@.len(),
            out@ == old(out)@ + tail@.subrange(0, i as int),
        decreases tail@.len() - i,
    {
        out.push(tail[i]);
        i = i + 1;
        proof {
            assert(out@ =~= old(out)@ + tail@.subrange(0, i as int));
        }
    }
    proof {
        assert(old(out)@ + tail@.subrange(0, tail@.len() as int) =~= old(out)@ + tail@);
    }
}

/// Relies on std's `FromIterator<char> for String`: collecting characters
/// yields the string made of exactly those characters, in order.
#[verifier::external_body]
pub fn string_from_chars(v: &Vec<char>) -> (r: String)
    ensures
        r@ == v@,
{
    v.iter().collect()
}

/// First index at or after `i` that ends the current run of non-space
/// characters (the index of the next space, or the end of the text).
pub open spec fn run_end(s: Seq<char>, i: int) -> int
    decreases s.len() - i,
{
    if i < 0 || i >= s.len() || is_space_char(s[i]) {
        i
    } else {
        run_end(s, i + 1)
    }
}

pub proof fn lemma_run_end(s: Seq<char>, i: int)
    requires
        0 <= i <= s.len(),
    ensures
        i <= run_end(s, i) <= s.len(),
        i < s.len() && !is_space_char(s[i]) ==> run_end(s, i) > i,
        forall|k: int| i <= k < run_end(s, i) ==> !is_space_char(s[k]),
        run_end(s, i) < s.len() ==> is_space_char(s[run_end(s, i)]),
    decreases s.len() - i,
{
    if i < s.len() && !is_space_char(s[i]) {
        lemma_run_end(s, i + 1);
    }
}

/// The whitespace-separated tokens of `s`, starting at position `i`.
pub open spec fn tokens_from(s: Seq<char>, i: int) -> Seq<Seq<char>>
    decreases s.len() - i,
    via tokens_from_dec
{
    if i < 0 || i >= s.len() {
        Seq::empty()
    } else if is_space_char(s[i]) {
        tokens_from(s, i + 1)
    } else {
        seq![s.subrange(i, run_end(s, i))] + tokens_from(s, run_end(s, i))
    }
}

#[via_fn]
proof fn tokens_from_dec(s: Seq<char>, i: int) {
    if 0 <= i < s.len() && !is_space_char(s[i]) {
        lemma_run_end(s, i);
    }
}

/// The whitespace-separated tokens of a text.
pub open spec fn tokens_of(s: Seq<char>) -> Seq<Seq<char>> {
    tokens_from(s, 0)
}

/// Split a text into its whitespace-separated tokens.
pub fn tokenize(s: &Vec<char>) -> (r: Vec<Vec<char>>)
    ensures
        r.deep_view() == tokens_of(s@),
{
    let n = s.len();
    let mut r: Vec<Vec<char>> = Vec::new();
    let mut i: usize = 0;
    while i < n
        invariant
            n == s@.len(),
            i <= n,
            tokens_of(s@) == r.deep_view() + tokens_from(s@, i as int),
        decreases n - i,
    {
        if is_space(s[i]) {
            i = i + 1;
        } else {
            proof {
                lemma_run_end(s@, i as int);
            }
            let start = i;
            let mut tok: Vec<char> = Vec::new();
            while i < n && !is_space(s[i])
                invariant
                    n == s@.len(),
                    start <= i <= n,
                    forall|k: int| start <= k < i ==> !is_space_char(s@[k]),
                    tok@ == s@.subrange(start as int, i as int),
                decreases n - i,
            {
                tok.push(s[i]);
                i = i + 1;
                proof {
                    assert(tok@ =~= s@.subrange(start as int, i as int));
                }
            }
            proof {
                lemma_run_end_exact(s@, start as int, i as int);
            }
            let ghost old_r = r.deep_view();
            let ghost tok_view = tok@;
            r.push(tok);
            proof {
                assert(r.deep_view() =~~= old_r + seq![tok_view]);
                assert(old_r + (seq![tok_view] + tokens_from(s@, i as int)) =~= (old_r
                    + seq![tok_view]) + tokens_from(s@, i as int));
            }
        }
    }
    proof {
        assert(r.deep_view() + tokens_from(s@, n as int) =~= r.deep_view());
    }
    r
}

/// Every token is non-empty and free of whitespace.
pub proof fn lemma_tokens_wf(s: Seq<char>, i: int)
    requires
        0 <= i <= s.len(),
    ensures
        forall|t: int|
            0 <= t < tokens_from(s, i).len() ==> (#[trigger] tokens_from(s, i)[t]).len() > 0,
        forall|t: int, j: int|
            0 <= t < tokens_from(s, i).len() && 0 <= j < tokens_from(s, i)[t].len()
                ==> !is_space_char(#[trigger] tokens_from(s, i)[t][j]),
    decreases s.len() - i,
{
    if i < s.len() {
        if is_space_char(s[i]) {
            lemma_tokens_wf(s, i + 1);
            assert(tokens_from(s, i) == tokens_from(s, i + 1));
        } else {
            lemma_run_end(s, i);
            lemma_tokens_wf(s, run_end(s, i));
            let toks = tokens_from(s, i);
            let rest = tokens_from(s, run_end(s, i));
            assert(toks == seq![s.subrange(i, run_end(s, i))] + rest);
            assert forall|t: int| 0 <= t < toks.len() implies (#[trigger] toks[t]).len() > 0 by {
                if t == 0 {
                    assert(toks[0] == s.subrange(i, run_end(s, i)));
                } else {
                    assert(toks[t] == rest[t - 1]);
                }
            }
            assert forall|t: int, j: int|
                0 <= t < toks.len() && 0 <= j < toks[t].len() implies !is_space_char(
                #[trigger] toks[t][j],
            ) by {
                if t == 0 {
                    assert(toks[0] == s.subrange(i, run_end(s, i)));
                    assert(toks[0][j] == s[i + j]);
                } else {
                    assert(toks[t] == rest[t - 1]);
                }
            }
        }
    }
}

/// Every character of every token satisfies what every character of the
/// text satisfies.
pub proof fn lemma_tokens_chars(s: Seq<char>, i: int, p: spec_fn(char) -> bool)
    requires
        0 <= i <= s.len(),
        forall|k: int| 0 <= k < s.len() ==> p(#[trigger] s[k]),
    ensures
        forall|t: int, j: int|
            0 <= t < tokens_from(s, i).len() && 0 <= j < tokens_from(s, i)[t].len() ==> p(
                #[trigger] tokens_from(s, i)[t][j],
            ),
    decreases s.len() - i,
{
    if i < s.len() {
        if is_space_char(s[i]) {
            lemma_tokens_chars(s, i + 1, p);
            assert(tokens_from(s, i) == tokens_from(s, i + 1));
        } else {
            lemma_run_end(s, i);
            lemma_tokens_chars(s, run_end(s, i), p);
            let toks = tokens_from(s, i);
            let rest = tokens_from(s, run_end(s, i));
            assert(toks == seq![s.subrange(i, run_end(s, i))] + rest);
            assert forall|t: int, j: int|
                0 <= t < toks.len() && 0 <= j < toks[t].len() implies p(
                #[trigger] toks[t][j],
            ) by {
                if t == 0 {
                    assert(toks[0] == s.subrange(i, run_end(s, i)));
                    assert(toks[0][j] == s[i + j]);
                } else {
                    assert(toks[t] == rest[t - 1]);
                }
            }
        }
    }
}

/// Runs are position-independent: a run inside the tail of a compound text
/// is the tail's own run.
pub proof fn lemma_run_end_shift(a: Seq<char>, b: Seq<char>, k: int)
    requires
        0 <= k <= b.len(),
    ensures
        run_end(a + b, a.len() + k) == a.len() + run_end(b, k),
    decreases b.len() - k,
{
    if k < b.len() {
        assert((a + b)[a.len() + k] == b[k]);
        if !is_space_char(b[k]) {
            lemma_run_end_shift(a, b, k + 1);
        }
    }
}

/// Tokens are position-independent: the tokens of the tail of a compound
/// text, read inside it, are the tail's own tokens.
pub proof fn lemma_tokens_from_shift(a: Seq<char>, b: Seq<char>, k: int)
    requires
        0 <= k <= b.len(),
    ensures
        tokens_from(a + b, a.len() + k) == tokens_from(b, k),
    decreases b.len() - k,
{
    if k >= b.len() {
        assert(tokens_from(a + b, a.len() + k) =~= tokens_from(b, k));
    } else {
        assert((a + b)[a.len() + k] == b[k]);
        if is_space_char(b[k]) {
            lemma_tokens_from_shift(a, b, k + 1);
        } else {
            lemma_run_end(b, k);
            lemma_run_end_shift(a, b, k);
            lemma_tokens_from_shift(a, b, run_end(b, k));
            assert((a + b).subrange(a.len() + k, a.len() + run_end(b, k)) =~= b.subrange(
                k,
                run_end(b, k),
            ));
            assert(tokens_from(a + b, a.len() + k) =~= tokens_from(b, k));
        }
    }
}

/// Splitting undoes joining: the tokens of non-empty, whitespace-free
/// words joined by single spaces are exactly those words.
pub proof fn lemma_tokens_of_join(ts: Seq<Seq<char>>)
    requires
        forall|t: int| 0 <= t < ts.len() ==> (#[trigger] ts[t]).len() > 0,
        forall|t: int, j: int|
            0 <= t < ts.len() && 0 <= j < ts[t].len() ==> !is_space_char(#[trigger] ts[t][j]),
    ensures
        tokens_of(crate::norm::join_tokens(ts)) == ts,
    decreases ts.len(),
{
    let u = crate::norm::join_tokens(ts);
    if ts.len() == 0 {
        assert(tokens_of(u) =~= ts);
    } else if ts.len() == 1 {
        assert(u == ts[0]);
        assert(u.len() > 0);
        assert forall|k: int| 0 <= k < u.len() implies !is_space_char(u[k]) by {
            assert(!is_space_char(ts[0][k]));
        }
        lemma_run_end_exact(u, 0, u.len() as int);
        assert(tokens_of(u) == seq![u.subrange(0, run_end(u, 0))] + tokens_from(
            u,
            u.len() as int,
        ));
        assert(u.subrange(0, u.len() as int) =~= u);
        assert(tokens_from(u, u.len() as int) =~= Seq::<Seq<char>>::empty());
        assert(tokens_of(u) =~= ts);
    } else {
        let head = ts[0];
        let rest = crate::norm::join_tokens(ts.drop_first());
        assert(u == head + seq![' '] + rest);
        let n0 = head.len() as int;
        assert(forall|j: int| 0 <= j < n0 ==> u[j] == head[j]);
        assert(u[n0] == ' ');
        lemma_run_end_exact(u, 0, n0);
        assert(u.subrange(0, n0) =~= head);
        // after the separator the tail's tokens stand alone
        assert(u =~= (head + seq![' ']) + rest);
        lemma_tokens_from_shift(head + seq![' '], rest, 0);
        assert((head + seq![' ']).len() == n0 + 1);
        assert(forall|t: int| 0 <= t < ts.drop_first().len() ==> ts.drop_first()[t] == ts[t + 1]);
        lemma_tokens_of_join(ts.drop_first());
        assert(tokens_from(u, n0) == tokens_from(u, n0 + 1));
        assert(tokens_of(u) =~= seq![head] + tokens_from(u, n0));
        assert(seq![head] + ts.drop_first() =~= ts);
    }
}

/// If every character in `[i, j)` is not a space and `j` is the end of the
/// text or a space, then `j` is exactly the end of the run starting at `i`.
pub proof fn lemma_run_end_exact(s: Seq<char>, i: int, j: int)
    requires
        0 <= i <= j <= s.len(),
        forall|k: int| i <= k < j ==> !is_space_char(s[k]),
        j < s.len() ==> is_space_char(s[j]),
    ensures
        run_end(s, i) == j,
    decreases j - i,
{
    if i < j {
        lemma_run_end_exact(s, i + 1, j);
    }
}

} // verus!
