//! Text normalization: defensive lower-casing, rewriting of ordinal words
//! and abbreviations, and plural/alternate spellings of book names.
//!
//! Normalization is token-based: the text is lower-cased, split into
//! whitespace-separated words, each word is rewritten by a fixed table
//! (whole-word matches only), and the words are joined back with single
//! spaces.

use vstd::prelude::*;

use crate::text::chars_of;
use crate::text::copy_token;
use crate::text::extend_chars;
use crate::text::is_space;
use crate::text::is_space_char;
use crate::text::lower_char_spec;
use crate::text::lower_seq;
use crate::text::lower_vec;
use crate::text::run_end;
use crate::text::string_from_chars;
use crate::text::token_is;
use crate::text::tokenize;
use crate::text::tokens_of;

verus! {

/// Rewriting of the ordinal words "first"/"second"/"third" into digits.
pub open spec fn subst_ordinal_spec(w: Seq<char>) -> Seq<char> {
    if w == "first"@ {
        "1"@
    } else if w == "second"@ {
        "2"@
    } else if w == "third"@ {
        "3"@
    } else {
        w
    }
}

/// Whole-word substitution applied to each token: ordinal words become
/// digits, "vs"/"vs." become "verses", "v"/"v." become "verse", and the
/// plural book spellings become their canonical singular forms.
pub open spec fn subst_token_spec(w: Seq<char>) -> Seq<char> {
    if w == "vs"@ || w == "vs."@ {
        "verses"@
    } else if w == "v"@ || w == "v."@ {
        "verse"@
    } else if w == "psalms"@ {
        "psalm"@
    } else if w == "revelations"@ {
        "revelation"@
    } else {
        subst_ordinal_spec(w)
    }
}

/// The phrase "songs of solomon" becomes "song of solomon": the word
/// "songs" is rewritten exactly when followed by "of" and "solomon".
pub open spec fn phrase_fix_spec(ts: Seq<Seq<char>>) -> Seq<Seq<char>> {
    Seq::new(
        ts.len(),
        |i: int|
            if ts[i] == "songs"@ && i + 2 < ts.len() && ts[i + 1] == "of"@ && ts[i + 2]
                == "solomon"@ {
                "song"@
            } else {
                ts[i]
            },
    )
}

/// Token-level normalization of a token sequence.
pub open spec fn normalize_tokens_spec(ts: Seq<Seq<char>>) -> Seq<Seq<char>> {
    phrase_fix_spec(ts.map_values(|w: Seq<char>| subst_token_spec(w)))
}

/// The normalized tokens of a raw text: lower-case, split, substitute.
pub open spec fn normal_tokens_of(s: Seq<char>) -> Seq<Seq<char>> {
    normalize_tokens_spec(tokens_of(lower_seq(s)))
}

/// Tokens joined back into one text with single spaces between them.
pub open spec fn join_tokens(ts: Seq<Seq<char>>) -> Seq<char>
    decreases ts.len(),
{
    if ts.len() == 0 {
        Seq::empty()
    } else if ts.len() == 1 {
        ts[0]
    } else {
        ts[0] + seq![' '] + join_tokens(ts.drop_first())
    }
}

/// The fully normalized form of a raw text.
pub open spec fn normalize_spec(s: Seq<char>) -> Seq<char> {
    join_tokens(normal_tokens_of(s))
}

/// Apply the whole-word substitution table to one token.
pub fn subst_token(t: &Vec<char>) -> (r: Vec<char>)
    ensures
        r@ == subst_token_spec(t@),
{
    if token_is(t, "vs") || token_is(t, "vs.") {
        chars_of("verses")
    } else if token_is(t, "v") || token_is(t, "v.") {
        chars_of("verse")
    } else if token_is(t, "psalms") {
        chars_of("psalm")
    } else if token_is(t, "revelations") {
        chars_of("revelation")
    } else if token_is(t, "first") {
        chars_of("1")
    } else if token_is(t, "second") {
        chars_of("2")
    } else if token_is(t, "third") {
        chars_of("3")
    } else {
        copy_token(t)
    }
}

/// Normalize a token sequence: substitution table, then the phrase rule.
pub fn normalize_tokens(ts: &Vec<Vec<char>>) -> (r: Vec<Vec<char>>)
    ensures
        r.deep_view() == normalize_tokens_spec(ts.deep_view()),
{
    let mut subst: Vec<Vec<char>> = Vec::new();
    let mut i: usize = 0;
    while i < ts.len()
        invariant
            i <= ts@.len(),
            subst.deep_view() == ts.deep_view().subrange(0, i as int).map_values(
                |w: Seq<char>| subst_token_spec(w),
            ),
        decreases ts@.len() - i,
    {
        let s = subst_token(&ts[i]);
        let ghost old_sub = subst.deep_view();
        let ghost s_view = s@;
        subst.push(s);
        proof {
            assert(ts.deep_view()[i as int] =~= ts@[i as int]@);
            assert(subst.deep_view() =~~= old_sub + seq![s_view]);
            assert(subst.deep_view() =~= ts.deep_view().subrange(0, i as int + 1).map_values(
                |w: Seq<char>| subst_token_spec(w),
            ));
        }
        i = i + 1;
    }
    proof {
        assert(ts.deep_view().subrange(0, ts.deep_view().len() as int) =~= ts.deep_view());
    }
    let ghost sub_view = subst.deep_view();
    let n = subst.len();
    let mut r: Vec<Vec<char>> = Vec::new();
    let mut i: usize = 0;
    while i < n
        invariant
            n == sub_view.len(),
            subst.deep_view() == sub_view,
            subst@.len() == n,
            i <= n,
            r.deep_view() == phrase_fix_spec(sub_view).subrange(0, i as int),
        decreases n - i,
    {
        proof {
            assert(sub_view[i as int] =~= subst@[i as int]@);
            if i + 2 < sub_view.len() {
                assert(sub_view[i as int + 1] =~= subst@[i as int + 1]@);
                assert(sub_view[i as int + 2] =~= subst@[i as int + 2]@);
            }
        }
        let w: Vec<char>;
        if n > 2 && i < n - 2 && token_is(&subst[i], "songs") && token_is(&subst[i + 1], "of")
            && token_is(&subst[i + 2], "solomon") {
            w = chars_of("song");
        } else {
            w = copy_token(&subst[i]);
        }
        let ghost old_r = r.deep_view();
        let ghost w_view = w@;
        r.push(w);
        proof {
            assert(r.deep_view() =~~= old_r + seq![w_view]);
            assert(r.deep_view() =~= phrase_fix_spec(sub_view).subrange(0, i as int + 1));
        }
        i = i + 1;
    }
    proof {
        assert(phrase_fix_spec(sub_view).subrange(0, phrase_fix_spec(sub_view).len() as int)
            =~= phrase_fix_spec(sub_view));
    }
    r
}

/// Joining one more token appends a space and that token.
pub proof fn lemma_join_push(a: Seq<Seq<char>>, x: Seq<char>)
    requires
        a.len() >= 1,
    ensures
        join_tokens(a.push(x)) == join_tokens(a) + seq![' '] + x,
    decreases a.len(),
{
    if a.len() == 1 {
        assert(a.push(x).drop_first() =~= seq![x]);
        assert(join_tokens(seq![x]) == x);
        assert(a.push(x)[0] == a[0]);
        assert(join_tokens(a.push(x)) =~= a[0] + seq![' '] + x);
        assert(join_tokens(a) + seq![' '] + x =~= a[0] + seq![' '] + x);
    } else {
        assert(a.push(x).drop_first() =~= a.drop_first().push(x));
        lemma_join_push(a.drop_first(), x);
        assert(join_tokens(a.push(x)) =~= join_tokens(a) + seq![' '] + x);
    }
}

/// Join tokens back into one text, separated by single spaces.
pub fn join_vec(ts: &Vec<Vec<char>>) -> (r: Vec<char>)
    ensures
        r@ == join_tokens(ts.deep_view()),
{
    let mut r: Vec<char> = Vec::new();
    if ts.len() == 0 {
        return r;
    }
    let first = copy_token(&ts[0]);
    r = first;
    proof {
        assert(ts.deep_view().subrange(0, 1) =~= seq![ts.deep_view()[0]]);
    }
    let mut i: usize = 1;
    while i < ts.len()
        invariant
            1 <= i <= ts@.len(),
            ts@.len() == ts.deep_view().len(),
            r@ == join_tokens(ts.deep_view().subrange(0, i as int)),
        decreases ts@.len() - i,
    {
        r.push(' ');
        let mut j: usize = 0;
        let ghost mid = r@;
        while j < ts[i].len()
            invariant
                i < ts@.len(),
                j <= ts@[i as int]@.len(),
                r@ == mid + ts@[i as int]@.subrange(0, j as int),
            decreases ts@[i as int]@.len() - j,
        {
            r.push(ts[i][j]);
            j = j + 1;
            proof {
                assert(r@ =~= mid + ts@[i as int]@.subrange(0, j as int));
            }
        }
        proof {
            let dv = ts.deep_view();
            lemma_join_push(dv.subrange(0, i as int), dv[i as int]);
            assert(dv.subrange(0, i as int).push(dv[i as int]) =~= dv.subrange(0, i as int + 1));
            assert(ts@[i as int]@.subrange(0, ts@[i as int]@.len() as int) =~= dv[i as int]);
            assert(r@ =~= join_tokens(dv.subrange(0, i as int + 1)));
        }
        i = i + 1;
    }
    proof {
        assert(ts.deep_view().subrange(0, ts.deep_view().len() as int) =~= ts.deep_view());
    }
    r
}

/// The digit that replaces a whole word spelling an ordinal, read
/// case-insensitively; `None` for every other word.
pub open spec fn ordinal_digit_of(w: Seq<char>) -> Option<Seq<char>> {
    if lower_seq(w) == "first"@ {
        Some("1"@)
    } else if lower_seq(w) == "second"@ {
        Some("2"@)
    } else if lower_seq(w) == "third"@ {
        Some("3"@)
    } else {
        None
    }
}

/// The text from position `i` on with every whole word that spells an
/// ordinal replaced by its digit; every other character, case and
/// whitespace included, stands exactly as it was.
pub open spec fn ordinals_rewritten(s: Seq<char>, i: int) -> Seq<char>
    decreases s.len() - i,
    via ordinals_rewritten_dec
{
    if i < 0 || i >= s.len() {
        Seq::empty()
    } else if is_space_char(s[i]) {
        seq![s[i]] + ordinals_rewritten(s, i + 1)
    } else {
        let w = s.subrange(i, run_end(s, i));
        let rep = match ordinal_digit_of(w) {
            Option::Some(d) => d,
            Option::None => w,
        };
        rep + ordinals_rewritten(s, run_end(s, i))
    }
}

#[via_fn]
proof fn ordinals_rewritten_dec(s: Seq<char>, i: int) {
    if 0 <= i < s.len() && !is_space_char(s[i]) {
        crate::text::lemma_run_end(s, i);
    }
}

/// Rewrite the whole words "first"/"second"/"third" (matched
/// case-insensitively) into the digits "1"/"2"/"3". Every other character
/// of the text — its case and its spacing included — is left as it was.
pub fn normalize_ordinals(text: &str) -> (r: String)
    ensures
        r@ == ordinals_rewritten(text@, 0),
{
    let s = chars_of(text);
    let n = s.len();
    let mut out: Vec<char> = Vec::new();
    let mut i: usize = 0;
    while i < n
        invariant
            n == s@.len(),
            i <= n,
            ordinals_rewritten(s@, 0) == out@ + ordinals_rewritten(s@, i as int),
        decreases n - i,
    {
        if is_space(s[i]) {
            let ghost old_out = out@;
            out.push(s[i]);
            i = i + 1;
            proof {
                assert(out@ =~= old_out + seq![s@[i - 1]]);
                assert(old_out + (seq![s@[i - 1]] + ordinals_rewritten(s@, i as int)) =~= (old_out
                    + seq![s@[i - 1]]) + ordinals_rewritten(s@, i as int));
            }
        } else {
            proof {
                crate::text::lemma_run_end(s@, i as int);
            }
            let start = i;
            let mut tok: Vec<char> = Vec::new();
            while i < n && !is_space(s[i])
                invariant
                    n == s@.len(),
                    start <= i <= n,
                    forall|k: int| start <= k < i ==> !is_space_char(s@[k]),
                    tok@ == s@.subrange(start as int, i as int),
                decreases n - i,
            {
                tok.push(s[i]);
                i = i + 1;
                proof {
                    assert(tok@ =~= s@.subrange(start as int, i as int));
                }
            }
            proof {
                crate::text::lemma_run_end_exact(s@, start as int, i as int);
            }
            let low = lower_vec(&tok);
            let ghost tok_view = tok@;
            let rep: Vec<char>;
            if token_is(&low, "first") {
                rep = chars_of("1");
            } else if token_is(&low, "second") {
                rep = chars_of("2");
            } else if token_is(&low, "third") {
                rep = chars_of("3");
            } else {
                rep = tok;
            }
            let ghost old_out = out@;
            let ghost rep_view = rep@;
            extend_chars(&mut out, &rep);
            proof {
                assert(ordinals_rewritten(s@, start as int) == rep_view + ordinals_rewritten(
                    s@,
                    i as int,
                ));
                assert(old_out + (rep_view + ordinals_rewritten(s@, i as int)) =~= (old_out
                    + rep_view) + ordinals_rewritten(s@, i as int));
            }
        }
    }
    proof {
        assert(out@ + ordinals_rewritten(s@, n as int) =~= out@);
    }
    string_from_chars(&out)
}

/// Normalize a transcript: lower-case it, rewrite ordinal words and the
/// "vs"/"v" abbreviations, normalize plural book spellings, and join the
/// words back with single spaces. The output is deliberately a canonical
/// form — all lower-case, single-spaced — rather than the input with
/// substitutions spliced in: the matcher that consumes it is token-based,
/// lower-casing is the normalizer's own defensive duty, and the canonical
/// form is what makes normalization idempotent.
pub fn normalize_text(input: &str) -> (r: String)
    ensures
        r@ == normalize_spec(input@),
{
    let cs = chars_of(input);
    let low = lower_vec(&cs);
    let ts = tokenize(&low);
    let ns = normalize_tokens(&ts);
    let joined = join_vec(&ns);
    string_from_chars(&joined)
}

/// Lower-casing a character twice is lower-casing it once.
proof fn lemma_lower_char_idempotent(c: char)
    ensures
        lower_char_spec(lower_char_spec(c)) == lower_char_spec(c),
{
}

/// Facts about the substitution table's outputs: they are non-empty,
/// whitespace-free, lower-case, no key of the table, and none of them is a
/// word of the phrase rule's trigger.
pub proof fn lemma_vocab_facts()
    ensures
        forall|w: Seq<char>| #[trigger]
            subst_output(w) ==> w.len() > 0 && subst_token_spec(w) == w && w != "songs"@,
        forall|w: Seq<char>, j: int|
            #[trigger] subst_output(w) && 0 <= j < w.len() ==> !is_space_char(#[trigger] w[j])
                && lower_char_spec(w[j]) == w[j],
{
    reveal_strlit("first");
    reveal_strlit("second");
    reveal_strlit("third");
    reveal_strlit("vs");
    reveal_strlit("vs.");
    reveal_strlit("v");
    reveal_strlit("v.");
    reveal_strlit("psalms");
    reveal_strlit("revelations");
    reveal_strlit("songs");
    reveal_strlit("1");
    reveal_strlit("2");
    reveal_strlit("3");
    reveal_strlit("verses");
    reveal_strlit("verse");
    reveal_strlit("psalm");
    reveal_strlit("revelation");
    reveal_strlit("song");
    assert(("first"@).len() == 5 && ("first"@)[0] == 'f');
    assert(("second"@).len() == 6 && ("second"@)[0] == 's');
    assert(("third"@).len() == 5 && ("third"@)[0] == 't');
    assert(("vs"@).len() == 2 && ("vs"@)[0] == 'v');
    assert(("vs."@).len() == 3 && ("vs."@)[0] == 'v');
    assert(("v"@).len() == 1 && ("v"@)[0] == 'v');
    assert(("v."@).len() == 2 && ("v."@)[0] == 'v');
    assert(("psalms"@).len() == 6 && ("psalms"@)[0] == 'p');
    assert(("revelations"@).len() == 11 && ("revelations"@)[0] == 'r');
    assert(("songs"@).len() == 5 && ("songs"@)[0] == 's');
    assert(("1"@).len() == 1 && ("1"@)[0] == '1');
    assert(("2"@).len() == 1 && ("2"@)[0] == '2');
    assert(("3"@).len() == 1 && ("3"@)[0] == '3');
    assert(("verses"@).len() == 6 && ("verses"@)[0] == 'v');
    assert(("verse"@).len() == 5 && ("verse"@)[0] == 'v');
    assert(("psalm"@).len() == 5 && ("psalm"@)[0] == 'p');
    assert(("revelation"@).len() == 10 && ("revelation"@)[0] == 'r');
    assert(("song"@).len() == 4 && ("song"@)[0] == 's');
    assert forall|w: Seq<char>| #[trigger] subst_output(w) implies w.len() > 0
        && subst_token_spec(w) == w && w != "songs"@ by {}
    assert forall|w: Seq<char>, j: int|
        #[trigger] subst_output(w) && 0 <= j < w.len() implies !is_space_char(#[trigger] w[j])
        && lower_char_spec(w[j]) == w[j] by {}
}

/// The outputs of the substitution table and the phrase rule.
pub open spec fn subst_output(w: Seq<char>) -> bool {
    w == "1"@ || w == "2"@ || w == "3"@ || w == "verses"@ || w == "verse"@ || w == "psalm"@ || w
        == "revelation"@ || w == "song"@
}

/// The substitution table is idempotent on any token.
proof fn lemma_subst_idempotent(w: Seq<char>)
    ensures
        subst_token_spec(subst_token_spec(w)) == subst_token_spec(w),
{
    lemma_vocab_facts();
    let o = subst_token_spec(w);
    if o != w {
        assert(subst_output(o));
    }
}

/// Every character of a join satisfies what the separator and every token
/// character satisfy.
pub proof fn lemma_join_chars(ts: Seq<Seq<char>>, p: spec_fn(char) -> bool)
    requires
        p(' '),
        forall|t: int, j: int| 0 <= t < ts.len() && 0 <= j < ts[t].len() ==> p(#[trigger] ts[t][j]),
    ensures
        forall|k: int| 0 <= k < join_tokens(ts).len() ==> p(#[trigger] join_tokens(ts)[k]),
    decreases ts.len(),
{
    let u = join_tokens(ts);
    if ts.len() == 1 {
        assert forall|k: int| 0 <= k < u.len() implies p(#[trigger] u[k]) by {
            assert(u[k] == ts[0][k]);
        }
    } else if ts.len() > 1 {
        let head = ts[0];
        let rest = ts.drop_first();
        assert(forall|t: int, j: int|
            0 <= t < rest.len() && 0 <= j < rest[t].len() ==> #[trigger] rest[t][j] == ts[t + 1][j]);
        lemma_join_chars(rest, p);
        let n0 = head.len() as int;
        assert forall|k: int| 0 <= k < u.len() implies p(#[trigger] u[k]) by {
            if k < n0 {
                assert(u[k] == head[k]);
            } else if k == n0 {
                assert(u[k] == ' ');
            } else {
                assert(u[k] == join_tokens(rest)[k - n0 - 1]);
            }
        }
    }
}

/// Normalized tokens are non-empty, whitespace-free, and lower-case,
/// provided the incoming tokens were.
proof fn lemma_norm_tokens_facts(ts: Seq<Seq<char>>)
    requires
        forall|t: int| 0 <= t < ts.len() ==> (#[trigger] ts[t]).len() > 0,
        forall|t: int, j: int|
            0 <= t < ts.len() && 0 <= j < ts[t].len() ==> !is_space_char(#[trigger] ts[t][j]),
        forall|t: int, j: int|
            0 <= t < ts.len() && 0 <= j < ts[t].len() ==> lower_char_spec(#[trigger] ts[t][j])
                == ts[t][j],
    ensures
        forall|t: int|
            0 <= t < normalize_tokens_spec(ts).len() ==> (#[trigger] normalize_tokens_spec(
                ts,
            )[t]).len() > 0,
        forall|t: int, j: int|
            0 <= t < normalize_tokens_spec(ts).len() && 0 <= j < normalize_tokens_spec(ts)[t].len()
                ==> !is_space_char(#[trigger] normalize_tokens_spec(ts)[t][j]),
        forall|t: int, j: int|
            0 <= t < normalize_tokens_spec(ts).len() && 0 <= j < normalize_tokens_spec(ts)[t].len()
                ==> lower_char_spec(#[trigger] normalize_tokens_spec(ts)[t][j])
                == normalize_tokens_spec(ts)[t][j],
{
    lemma_vocab_facts();
    let sub = ts.map_values(|w: Seq<char>| subst_token_spec(w));
    let ns = normalize_tokens_spec(ts);
    assert(ns.len() == ts.len());
    assert forall|t: int| 0 <= t < ns.len() implies (#[trigger] ns[t]).len() > 0 && (forall|j: int|
        0 <= j < ns[t].len() ==> !is_space_char(#[trigger] ns[t][j]) && lower_char_spec(ns[t][j])
            == ns[t][j]) by {
        assert(sub[t] == subst_token_spec(ts[t]));
        if ns[t] == sub[t] && sub[t] == ts[t] {
        } else if ns[t] == sub[t] {
            assert(subst_output(sub[t]));
        } else {
            assert(ns[t] == "song"@);
            assert(subst_output("song"@));
        }
    }
}

/// Normalization is idempotent: normalizing an already-normalized text is
/// a no-op.
pub proof fn lemma_normalize_idempotent(s: Seq<char>)
    ensures
        normalize_spec(normalize_spec(s)) == normalize_spec(s),
{
    lemma_vocab_facts();
    let low = lower_seq(s);
    let ts = tokens_of(low);
    let ns = normalize_tokens_spec(ts);
    let out = join_tokens(ns);
    // the source tokens are non-empty, whitespace-free and lower-case
    assert forall|k: int| 0 <= k < low.len() implies lower_char_spec(#[trigger] low[k])
        == low[k] by {
        lemma_lower_char_idempotent(s[k]);
    }
    crate::text::lemma_tokens_wf(low, 0);
    crate::text::lemma_tokens_chars(low, 0, |c: char| lower_char_spec(c) == c);
    assert(forall|t: int, j: int|
        0 <= t < ts.len() && 0 <= j < ts[t].len() ==> lower_char_spec(#[trigger] ts[t][j])
            == ts[t][j]);
    lemma_norm_tokens_facts(ts);
    // the output is already lower-case, so the second pass lowers nothing
    lemma_join_chars(ns, |c: char| lower_char_spec(c) == c);
    assert(lower_seq(out) =~= out);
    // the second split recovers exactly the normalized tokens
    crate::text::lemma_tokens_of_join(ns);
    assert(tokens_of(out) == ns);
    // the substitution is idempotent on each token
    let sub2 = ns.map_values(|w: Seq<char>| subst_token_spec(w));
    let sub = ts.map_values(|w: Seq<char>| subst_token_spec(w));
    assert forall|t: int| 0 <= t < ns.len() implies #[trigger] sub2[t] == ns[t] by {
        assert(sub[t] == subst_token_spec(ts[t]));
        lemma_subst_idempotent(ts[t]);
        if ns[t] == sub[t] {
            assert(subst_token_spec(ns[t]) == ns[t]);
        } else {
            assert(ns[t] == "song"@);
            assert(subst_output("song"@));
        }
    }
    assert(sub2 =~= ns);
    // the phrase rule finds nothing left to rewrite
    reveal_strlit("songs");
    reveal_strlit("song");
    reveal_strlit("of");
    reveal_strlit("solomon");
    assert forall|i: int| 0 <= i < ns.len() implies #[trigger] phrase_fix_spec(ns)[i] == ns[i] by {
        if ns[i] == "songs"@ && i + 2 < ns.len() && ns[i + 1] == "of"@ && ns[i + 2] == "solomon"@ {
            // the same phrase stood before the first rewrite, which would
            // have rewritten its head
            assert(subst_output("song"@));
            assert(ns[i] == sub[i]);
            assert(ns[i + 1] == sub[i + 1] || ns[i + 1] == "song"@);
            assert(ns[i + 2] == sub[i + 2] || ns[i + 2] == "song"@);
            assert(sub[i] == "songs"@ && sub[i + 1] == "of"@ && sub[i + 2] == "solomon"@);
            assert(ns[i] == "song"@);
            assert(false);
        }
    }
    assert(phrase_fix_spec(ns) =~= ns);
    assert(normalize_tokens_spec(ns) == ns);
    assert(normalize_spec(out) == out);
}

} // verus!
