//! Laws of the library, stated and proved over the specification
//! functions that the executable contracts use.

use vstd::prelude::*;

use crate::canon::lookup_from;
use crate::canon::lookup_spec;
use crate::canon::name_words;
use crate::digits::all_digits;
use crate::digits::dec_rep;
use crate::fuzzy::ACCEPT_SCORE;
use crate::fuzzy::best_book_spec;
use crate::fuzzy::best_upto;
use crate::fuzzy::book_score;
use crate::norm::join_tokens;
use crate::norm::normal_tokens_of;
use crate::norm::phrase_fix_spec;
use crate::norm::subst_token_spec;
use crate::numbers::hyphens_to_spaces;
use crate::numbers::number_words_of;
use crate::numbers::spoken_number;
use crate::recency::drop_matching;
use crate::recency::record_all;
use crate::recency::record_spec;
use crate::refs::extract_spec;
use crate::refs::format_spec;
use crate::refs::ordinal_num;
use crate::refs::ordinal_rule_max;
use crate::refs::refs_of_candidates;
use crate::refs::resolve_book;
use crate::refs::resolve_key;
use crate::refs::validate_spec;
use crate::scan::CandidateSpec;
use crate::scan::after_book;
use crate::scan::book_at_from;
use crate::scan::book_at_spec;
use crate::scan::candidate_at;
use crate::scan::is_number_token;
use crate::scan::is_ordinalish;
use crate::scan::number_run_end;
use crate::scan::scan_from;
use crate::scan::scan_spec;
use crate::scan::tokens_match_at;
use crate::text::is_space_char;
use crate::text::lower_char_spec;
use crate::text::lower_seq;
use crate::text::tokens_of;
use crate::word_to_num::word_value;

verus! {

/// A candidate whose verse phrase parses to a number beyond the chapter's
/// verse count yields no reference.
pub proof fn lemma_out_of_range_verse_rejected(
    cv: Seq<(Seq<char>, Seq<u32>)>,
    cand: CandidateSpec,
    k: int,
    c: int,
)
    requires
        resolve_book(cv, cand) == Some(k),
        0 <= k < cv.len(),
        spoken_number(cand.chapter) == Some(c),
        1 <= c <= cv[k].1.len(),
        cand.verse.len() > 0,
        spoken_number(cand.verse) is Some,
        spoken_number(cand.verse)->Some_0 > cv[k].1[c - 1],
    ensures
        validate_spec(cv, cand) is None,
{
}

/// A candidate whose chapter phrase parses to a number beyond the book's
/// chapter count yields no reference.
pub proof fn lemma_out_of_range_chapter_rejected(
    cv: Seq<(Seq<char>, Seq<u32>)>,
    cand: CandidateSpec,
    k: int,
    c: int,
)
    requires
        resolve_book(cv, cand) == Some(k),
        0 <= k < cv.len(),
        spoken_number(cand.chapter) == Some(c),
        c < 1 || c > cv[k].1.len(),
    ensures
        validate_spec(cv, cand) is None,
{
}

/// Every candidate whose book resolves and whose chapter and verse lie
/// within the canon's bounds yields exactly the canonical reference
/// string of that book, chapter and verse.
pub proof fn lemma_valid_candidate_accepted(
    cv: Seq<(Seq<char>, Seq<u32>)>,
    cand: CandidateSpec,
    k: int,
    c: int,
    v: int,
)
    requires
        resolve_book(cv, cand) == Some(k),
        0 <= k < cv.len(),
        spoken_number(cand.chapter) == Some(c),
        1 <= c <= cv[k].1.len(),
        cand.verse.len() > 0 ==> spoken_number(cand.verse) == Some(v),
        cand.verse.len() == 0 ==> v == 1,
        1 <= v <= cv[k].1[c - 1],
        cand.verse_end.len() == 0,
    ensures
        validate_spec(cv, cand) == Some(format_spec(cv[k].0, c, v, None)),
{
}

/// A book family under an ordinal rule admits no candidate without an
/// ordinal, nor one whose ordinal lies outside the rule's range.
pub proof fn lemma_ordinal_rule_enforced(
    cv: Seq<(Seq<char>, Seq<u32>)>,
    cand: CandidateSpec,
    b: int,
)
    requires
        best_book_spec(cv, lower_seq(cand.book_raw)) == Some(b),
        0 <= b < cv.len(),
        lower_seq(cv[b].0) != "john"@,
        ordinal_rule_max(lower_seq(cv[b].0)) is Some,
        ordinal_num(cand.ordinal) is None || ordinal_num(cand.ordinal)->Some_0 < 1 || ordinal_num(
            cand.ordinal,
        )->Some_0 > ordinal_rule_max(lower_seq(cv[b].0))->Some_0,
    ensures
        validate_spec(cv, cand) is None,
{
}

/// A resolved book and ordinal whose lookup key names no canon book yield
/// no reference; this is what rejects an out-of-range ordinal before a
/// book that itself carries ordinals, such as a spoken "fourth john".
pub proof fn lemma_unknown_key_rejected(
    cv: Seq<(Seq<char>, Seq<u32>)>,
    cand: CandidateSpec,
    b: int,
    key: Seq<char>,
)
    requires
        best_book_spec(cv, lower_seq(cand.book_raw)) == Some(b),
        0 <= b < cv.len(),
        resolve_key(lower_seq(cv[b].0), cand.ordinal) == Some(key),
        crate::canon::lookup_spec(cv, key) is None,
    ensures
        validate_spec(cv, cand) is None,
{
}

/// What the running best of the fuzzy resolver means: it scores, no book
/// before `n` outscores it, and every earlier book scores strictly less.
pub proof fn lemma_best_upto_props(cv: Seq<(Seq<char>, Seq<u32>)>, pattern: Seq<char>, n: int)
    requires
        n <= cv.len(),
    ensures
        best_upto(cv, pattern, n) is None ==> forall|j: int|
            0 <= j < n ==> (#[trigger] book_score(cv, j, pattern)) is None,
        best_upto(cv, pattern, n) matches Some(p) ==> {
            &&& 0 <= p.0 < n
            &&& book_score(cv, p.0, pattern) == Some(p.1)
            &&& forall|j: int|
                0 <= j < n && (#[trigger] book_score(cv, j, pattern)) is Some ==> book_score(
                    cv,
                    j,
                    pattern,
                )->Some_0 <= p.1
            &&& forall|j: int|
                0 <= j < p.0 && (#[trigger] book_score(cv, j, pattern)) is Some ==> book_score(
                    cv,
                    j,
                    pattern,
                )->Some_0 < p.1
        },
    decreases n,
{
    if n > 0 {
        lemma_best_upto_props(cv, pattern, n - 1);
    }
}

/// Fuzzy resolution accepts exactly at the threshold: a resolved book
/// scores at least the acceptance score, no book outscores it, and every
/// earlier book scores strictly less (ties break to first-seen order).
pub proof fn lemma_resolution_threshold(cv: Seq<(Seq<char>, Seq<u32>)>, pattern: Seq<char>, b: int)
    requires
        best_book_spec(cv, pattern) == Some(b),
    ensures
        0 <= b < cv.len(),
        book_score(cv, b, pattern) is Some,
        book_score(cv, b, pattern)->Some_0 >= ACCEPT_SCORE,
        forall|j: int|
            0 <= j < cv.len() && (#[trigger] book_score(cv, j, pattern)) is Some ==> book_score(
                cv,
                j,
                pattern,
            )->Some_0 <= book_score(cv, b, pattern)->Some_0,
        forall|j: int|
            0 <= j < b && (#[trigger] book_score(cv, j, pattern)) is Some ==> book_score(
                cv,
                j,
                pattern,
            )->Some_0 < book_score(cv, b, pattern)->Some_0,
{
    lemma_best_upto_props(cv, pattern, cv.len() as int);
}

/// When fuzzy resolution rejects a pattern, no book reached the
/// acceptance threshold.
pub proof fn lemma_resolution_rejects(cv: Seq<(Seq<char>, Seq<u32>)>, pattern: Seq<char>)
    requires
        best_book_spec(cv, pattern) is None,
    ensures
        forall|j: int|
            0 <= j < cv.len() && (#[trigger] book_score(cv, j, pattern)) is Some ==> book_score(
                cv,
                j,
                pattern,
            )->Some_0 < ACCEPT_SCORE,
{
    lemma_best_upto_props(cv, pattern, cv.len() as int);
}

/// Dropping the occurrences of an absent entry keeps a buffer whole.
proof fn lemma_drop_matching_absent(s: Seq<Seq<char>>, r: Seq<char>)
    requires
        !s.contains(r),
    ensures
        drop_matching(s, r) == s,
    decreases s.len(),
{
    if s.len() > 0 {
        assert(s.last() != r);
        assert(!s.drop_last().contains(r)) by {
            if s.drop_last().contains(r) {
                let w = choose|w: int| 0 <= w < s.drop_last().len() && s.drop_last()[w] == r;
                assert(s[w] == r);
            }
        }
        lemma_drop_matching_absent(s.drop_last(), r);
        assert(s.drop_last().push(s.last()) =~= s);
    }
}

/// What remains after dropping an entry never holds that entry.
proof fn lemma_drop_matching_pred(s: Seq<Seq<char>>, r: Seq<char>)
    ensures
        forall|i: int|
            0 <= i < drop_matching(s, r).len() ==> #[trigger] drop_matching(s, r)[i] != r,
    decreases s.len(),
{
    if s.len() > 0 {
        lemma_drop_matching_pred(s.drop_last(), r);
        let dl = drop_matching(s.drop_last(), r);
        if s.last() != r {
            assert forall|i: int| 0 <= i < drop_matching(s, r).len() implies #[trigger] drop_matching(
                s,
                r,
            )[i] != r by {
                if i < dl.len() {
                    assert(drop_matching(s, r)[i] == dl[i]);
                } else {
                    assert(drop_matching(s, r)[i] == s.last());
                }
            }
        }
    }
}

/// Recording a reference puts it at the tail, exactly once: no earlier
/// entry equals it, and the rest is the old buffer with its occurrence
/// removed, in order.
pub proof fn lemma_record_moves_to_tail(s: Seq<Seq<char>>, r: Seq<char>)
    ensures
        record_spec(s, r).len() >= 1,
        record_spec(s, r).last() == r,
        forall|i: int| 0 <= i < record_spec(s, r).len() - 1 ==> record_spec(s, r)[i] != r,
        record_spec(s, r).drop_last() == drop_matching(s, r),
{
    let out = record_spec(s, r);
    assert(out.drop_last() =~= drop_matching(s, r));
    lemma_drop_matching_pred(s, r);
}

/// Recording references that are pairwise distinct and absent from the
/// buffer appends them in exactly the order they were recorded.
pub proof fn lemma_record_all_distinct(s: Seq<Seq<char>>, rs: Seq<Seq<char>>)
    requires
        forall|i: int, j: int| 0 <= i < j < rs.len() ==> rs[i] != rs[j],
        forall|i: int| 0 <= i < rs.len() ==> !s.contains(#[trigger] rs[i]),
    ensures
        record_all(s, rs) == s + rs,
    decreases rs.len(),
{
    if rs.len() == 0 {
        assert(s + rs =~= s);
    } else {
        lemma_drop_matching_absent(s, rs[0]);
        let s1 = s.push(rs[0]);
        assert(record_spec(s, rs[0]) == s1);
        assert forall|i: int| 0 <= i < rs.drop_first().len() implies !s1.contains(
            #[trigger] rs.drop_first()[i],
        ) by {
            let x = rs.drop_first()[i];
            assert(x == rs[i + 1]);
            assert(x != rs[0]);
            if s1.contains(x) {
                let w = choose|w: int| 0 <= w < s1.len() && s1[w] == x;
                assert(w < s.len() ==> s.contains(x));
            }
            assert(!s.contains(rs[i + 1]));
        }
        lemma_record_all_distinct(s1, rs.drop_first());
        assert(s1 + rs.drop_first() =~= s + rs);
    }
}

/// One token sequence begins another.
pub open spec fn words_prefix(a: Seq<Seq<char>>, b: Seq<Seq<char>>) -> bool {
    a.len() <= b.len() && forall|k: int| 0 <= k < a.len() ==> a[k] == b[k]
}

/// The canon's names scan cleanly: every book has name words; no book's
/// words begin another's; lower-cased names are distinct; a digit word
/// stands only first in a name; and no name word collides with the
/// scanner's keywords or is rewritten by the normalizer.
pub open spec fn canon_scan_clean(cv: Seq<(Seq<char>, Seq<u32>)>) -> bool {
    &&& forall|i: int| 0 <= i < cv.len() ==> (#[trigger] name_words(cv[i].0)).len() > 0
    &&& forall|i: int, j: int|
        0 <= i < cv.len() && 0 <= j < cv.len() && i != j ==> !words_prefix(
            #[trigger] name_words(cv[i].0),
            #[trigger] name_words(cv[j].0),
        )
    &&& forall|i: int, j: int|
        0 <= i < cv.len() && 0 <= j < cv.len() && i != j ==> lower_seq(#[trigger] cv[i].0)
            != lower_seq(#[trigger] cv[j].0)
    &&& forall|i: int, k: int|
        0 <= i < cv.len() && 1 <= k < name_words(cv[i].0).len() ==> !all_digits(
            #[trigger] name_words(cv[i].0)[k],
        )
    &&& forall|i: int, k: int|
        0 <= i < cv.len() && 0 <= k < name_words(cv[i].0).len() ==> {
            let w = #[trigger] name_words(cv[i].0)[k];
            &&& subst_token_spec(w) == w
            &&& w != "songs"@
            &&& w != "verse"@
            &&& w != "verses"@
            &&& w != "chapter"@
        }
}

/// Whether the token sequence `a` begins the part of `b` after its first
/// word.
fn words_prefix_of_tail(a: &Vec<Vec<char>>, b: &Vec<Vec<char>>) -> (r: bool)
    requires
        b@.len() >= 1,
    ensures
        r == words_prefix(a.deep_view(), b.deep_view().skip(1)),
{
    let bn = b.len();
    if a.len() > bn - 1 {
        return false;
    }
    let mut k: usize = 0;
    while k < a.len()
        invariant
            a@.len() <= b@.len() - 1,
            k <= a@.len(),
            forall|m: int| 0 <= m < k ==> a.deep_view()[m] == b.deep_view().skip(1)[m],
        decreases a@.len() - k,
    {
        let eq = crate::text::tokens_eq(&a[k], &b[k + 1]);
        proof {
            assert(a.deep_view()[k as int] =~= a@[k as int]@);
            assert(b.deep_view()[k as int + 1] =~= b@[k as int + 1]@);
            assert(b.deep_view().skip(1)[k as int] == b.deep_view()[k as int + 1]);
        }
        if !eq {
            return false;
        }
        k = k + 1;
    }
    true
}

/// Whether the token sequence `a` begins the token sequence `b`.
fn words_prefix_check(a: &Vec<Vec<char>>, b: &Vec<Vec<char>>) -> (r: bool)
    ensures
        r == words_prefix(a.deep_view(), b.deep_view()),
{
    if a.len() > b.len() {
        return false;
    }
    let mut k: usize = 0;
    while k < a.len()
        invariant
            a@.len() <= b@.len(),
            k <= a@.len(),
            forall|m: int| 0 <= m < k ==> a.deep_view()[m] == b.deep_view()[m],
        decreases a@.len() - k,
    {
        let eq = crate::text::tokens_eq(&a[k], &b[k]);
        proof {
            assert(a.deep_view()[k as int] =~= a@[k as int]@);
            assert(b.deep_view()[k as int] =~= b@[k as int]@);
        }
        if !eq {
            return false;
        }
        k = k + 1;
    }
    true
}

/// Whether one book's name words pass every per-word condition of
/// `canon_scan_clean`.
fn book_words_clean(c: &crate::canon::Canon, i: usize) -> (r: bool)
    requires
        c.wf(),
        i < c@.len(),
    ensures
        r ==> {
            &&& name_words(c@[i as int].0).len() > 0
            &&& forall|k: int|
                1 <= k < name_words(c@[i as int].0).len() ==> !all_digits(
                    #[trigger] name_words(c@[i as int].0)[k],
                )
            &&& forall|k: int|
                0 <= k < name_words(c@[i as int].0).len() ==> {
                    let w = #[trigger] name_words(c@[i as int].0)[k];
                    &&& subst_token_spec(w) == w
                    &&& w != "songs"@
                    &&& w != "verse"@
                    &&& w != "verses"@
                    &&& w != "chapter"@
                }
        },
{
    let words = &c.books[i].words;
    let ghost wsv = name_words(c@[i as int].0);
    if words.len() == 0 {
        return false;
    }
    let mut k: usize = 0;
    while k < words.len()
        invariant
            c.wf(),
            i < c@.len(),
            c@.len() == c.books@.len(),
            words == &c.books@[i as int].words,
            words.deep_view() == wsv,
            words@.len() == wsv.len(),
            k <= wsv.len(),
            forall|m: int| 1 <= m < k ==> !all_digits(#[trigger] wsv[m]),
            forall|m: int|
                0 <= m < k ==> {
                    let w = #[trigger] wsv[m];
                    &&& subst_token_spec(w) == w
                    &&& w != "songs"@
                    &&& w != "verse"@
                    &&& w != "verses"@
                    &&& w != "chapter"@
                },
        decreases words@.len() - k,
    {
        proof {
            assert(wsv[k as int] =~= words@[k as int]@);
        }
        if k >= 1 && crate::numbers::all_digits_exec(&words[k]) {
            return false;
        }
        let sub = crate::norm::subst_token(&words[k]);
        if !crate::text::tokens_eq(&sub, &words[k]) {
            return false;
        }
        if crate::text::token_is(&words[k], "songs") || crate::text::token_is(&words[k], "verse")
            || crate::text::token_is(&words[k], "verses") || crate::text::token_is(
            &words[k],
            "chapter",
        ) {
            return false;
        }
        k = k + 1;
    }
    true
}

/// Check, on a canon value, the name-shape conditions that the
/// recognition law assumes; success witnesses `canon_scan_clean`.
pub fn scan_clean_check(c: &crate::canon::Canon) -> (r: bool)
    requires
        c.wf(),
    ensures
        r ==> canon_scan_clean(c@),
{
    let n = c.books.len();
    let mut i: usize = 0;
    while i < n
        invariant
            c.wf(),
            n == c@.len(),
            n == c.books@.len(),
            i <= n,
            forall|a: int|
                0 <= a < i ==> (#[trigger] name_words(c@[a].0)).len() > 0 && (forall|k: int|
                    1 <= k < name_words(c@[a].0).len() ==> !all_digits(
                        #[trigger] name_words(c@[a].0)[k],
                    )) && (forall|k: int|
                    0 <= k < name_words(c@[a].0).len() ==> {
                        let w = #[trigger] name_words(c@[a].0)[k];
                        &&& subst_token_spec(w) == w
                        &&& w != "songs"@
                        &&& w != "verse"@
                        &&& w != "verses"@
                        &&& w != "chapter"@
                    }),
            forall|a: int, b: int|
                0 <= a < i && 0 <= b < i && a != b ==> !words_prefix(
                    #[trigger] name_words(c@[a].0),
                    #[trigger] name_words(c@[b].0),
                ),
            forall|a: int, b: int|
                0 <= a < i && 0 <= b < i && a != b ==> lower_seq(#[trigger] c@[a].0) != lower_seq(
                    #[trigger] c@[b].0,
                ),
        decreases n - i,
    {
        if !book_words_clean(c, i) {
            return false;
        }
        let mut j: usize = 0;
        while j < n
            invariant
                c.wf(),
                n == c@.len(),
                n == c.books@.len(),
                i < n,
                j <= n,
                forall|b: int|
                    0 <= b < j && b != i ==> !words_prefix(
                        name_words(c@[i as int].0),
                        #[trigger] name_words(c@[b].0),
                    ) && !words_prefix(
                        #[trigger] name_words(c@[b].0),
                        name_words(c@[i as int].0),
                    ) && lower_seq(c@[i as int].0) != lower_seq(#[trigger] c@[b].0),
            decreases n - j,
        {
            if j != i {
                if words_prefix_check(&c.books[i].words, &c.books[j].words) {
                    return false;
                }
                if words_prefix_check(&c.books[j].words, &c.books[i].words) {
                    return false;
                }
                if crate::text::tokens_eq(&c.books[i].lower, &c.books[j].lower) {
                    return false;
                }
            }
            j = j + 1;
        }
        i = i + 1;
    }
    true
}

/// Check that one book anchors the scanner unshadowed and falls under no
/// ordinal rule: the canon-side conditions of the recognition law that
/// vary per book.
pub fn anchor_check(c: &crate::canon::Canon, bi: usize) -> (r: bool)
    requires
        c.wf(),
        bi < c@.len(),
    ensures
        r ==> anchor_unshadowed(c@, bi as int) && ordinal_rule_max(
            lower_seq(c@[bi as int].0),
        ) is None,
{
    if crate::refs::ordinal_rule_max_exec(&c.books[bi].lower).is_some() {
        return false;
    }
    let words = &c.books[bi].words;
    proof {
        assert(words.deep_view() == name_words(c@[bi as int].0));
        if words@.len() > 0 {
            assert(words.deep_view()[0] =~= words@[0]@);
        }
    }
    if words.len() == 0 {
        return false;
    }
    if !crate::scan::is_ordinalish_exec(&words[0]) {
        return true;
    }
    if words.len() < 2 {
        return false;
    }
    let n = c.books.len();
    let mut j: usize = 0;
    while j < n
        invariant
            c.wf(),
            n == c@.len(),
            n == c.books@.len(),
            bi < n,
            j <= n,
            name_words(c@[bi as int].0).len() >= 2,
            forall|b: int|
                0 <= b < j ==> !words_prefix(
                    #[trigger] name_words(c@[b].0),
                    name_words(c@[bi as int].0).skip(1),
                ),
        decreases n - j,
    {
        if words_prefix_of_tail(&c.books[j].words, &c.books[bi].words) {
            return false;
        }
        j = j + 1;
    }
    true
}

/// Looking a book's own lower-cased name up finds that book, when
/// lower-cased names are distinct.
proof fn lemma_lookup_from_self(cv: Seq<(Seq<char>, Seq<u32>)>, bi: int, i: int)
    requires
        0 <= i <= bi < cv.len(),
        forall|j: int, l: int|
            0 <= j < cv.len() && 0 <= l < cv.len() && j != l ==> lower_seq(#[trigger] cv[j].0)
                != lower_seq(#[trigger] cv[l].0),
    ensures
        lookup_from(cv, lower_seq(cv[bi].0), i) == Some(bi),
    decreases bi - i,
{
    if i < bi {
        assert(lower_seq(cv[i].0) != lower_seq(cv[bi].0));
        lemma_lookup_from_self(cv, bi, i + 1);
    }
}

/// A digit string is rewritten by no rule of the normalizer.
proof fn lemma_digits_subst_stable(w: Seq<char>)
    requires
        all_digits(w),
    ensures
        subst_token_spec(w) == w,
        w != "songs"@,
        w != "chapter"@,
        w != "verse"@,
        w != "verses"@,
{
    reveal_strlit("first");
    reveal_strlit("second");
    reveal_strlit("third");
    reveal_strlit("vs");
    reveal_strlit("vs.");
    reveal_strlit("v");
    reveal_strlit("v.");
    reveal_strlit("psalms");
    reveal_strlit("revelations");
    reveal_strlit("songs");
    reveal_strlit("chapter");
    reveal_strlit("verse");
    reveal_strlit("verses");
    assert(crate::digits::is_digit_char(w[0]));
}

/// The word "verse" is no number word and no digit string, so it ends a
/// number phrase.
proof fn lemma_verse_not_number()
    ensures
        !is_number_token("verse"@),
        ("verse"@).len() == 5,
        forall|j: int| 0 <= j < 5 ==> !is_space_char(#[trigger] ("verse"@)[j]),
{
    reveal_strlit("verse");
    reveal_strlit("o");
    reveal_strlit("oh");
    reveal_strlit("zero");
    reveal_strlit("one");
    reveal_strlit("two");
    reveal_strlit("three");
    reveal_strlit("four");
    reveal_strlit("five");
    reveal_strlit("six");
    reveal_strlit("seven");
    reveal_strlit("eight");
    reveal_strlit("nine");
    reveal_strlit("ten");
    reveal_strlit("eleven");
    reveal_strlit("twelve");
    reveal_strlit("thirteen");
    reveal_strlit("fourteen");
    reveal_strlit("fifteen");
    reveal_strlit("sixteen");
    reveal_strlit("seventeen");
    reveal_strlit("eighteen");
    reveal_strlit("nineteen");
    reveal_strlit("twenty");
    reveal_strlit("thirty");
    reveal_strlit("forty");
    reveal_strlit("fifty");
    reveal_strlit("sixty");
    reveal_strlit("seventy");
    reveal_strlit("eighty");
    reveal_strlit("ninety");
    reveal_strlit("hundred");
    let w = "verse"@;
    assert(w.len() == 5 && w[0] == 'v');
    assert(("three"@)[0] == 't' && ("seven"@)[0] == 's' && ("forty"@)[0] == 'f' && ("fifty"@)[0]
        == 'f' && ("sixty"@)[0] == 's');
    assert(hyphens_to_spaces(w) =~= w);
    assert(join_tokens(seq![w]) == w);
    assert forall|t: int| 0 <= t < seq![w].len() implies (#[trigger] seq![w][t]).len() > 0 by {
        assert(seq![w][t] == w);
    }
    assert forall|t: int, j: int|
        0 <= t < seq![w].len() && 0 <= j < seq![w][t].len() implies !is_space_char(
        #[trigger] seq![w][t][j],
    ) by {
        assert(seq![w][t] == w);
    }
    crate::text::lemma_tokens_of_join(seq![w]);
    assert(number_words_of(w) == seq![w]);
    assert(number_words_of(w)[0] == w);
    assert(word_value(w) is None);
    assert(!all_digits(w));
}

/// A rendered decimal number is one whole number token.
proof fn lemma_digits_number_token(n: int)
    requires
        n >= 0,
    ensures
        is_number_token(dec_rep(n)),
        number_words_of(dec_rep(n)) == seq![dec_rep(n)],
        dec_rep(n).len() > 0,
        all_digits(dec_rep(n)),
        forall|j: int| 0 <= j < dec_rep(n).len() ==> !is_space_char(#[trigger] dec_rep(n)[j]),
        forall|j: int|
            0 <= j < dec_rep(n).len() ==> lower_char_spec(#[trigger] dec_rep(n)[j]) == dec_rep(
                n,
            )[j],
{
    crate::digits::lemma_dec_rep_val(n);
    let w = dec_rep(n);
    assert forall|j: int| 0 <= j < w.len() implies crate::digits::is_digit_char(
        #[trigger] w[j],
    ) by {}
    assert(hyphens_to_spaces(w) =~= w);
    assert(join_tokens(seq![w]) == w);
    assert forall|t: int| 0 <= t < seq![w].len() implies (#[trigger] seq![w][t]).len() > 0 by {
        assert(seq![w][t] == w);
    }
    assert forall|t: int, j: int|
        0 <= t < seq![w].len() && 0 <= j < seq![w][t].len() implies !is_space_char(
        #[trigger] seq![w][t][j],
    ) by {
        assert(seq![w][t] == w);
    }
    crate::text::lemma_tokens_of_join(seq![w]);
    assert(number_words_of(w) == seq![w]);
    assert(number_words_of(w)[0] == w);
}

/// No book matches at `i` when none fulfills the match condition there.
proof fn lemma_book_at_none(cv: Seq<(Seq<char>, Seq<u32>)>, ts: Seq<Seq<char>>, i: int, b: int)
    requires
        0 <= b,
        forall|j: int|
            b <= j < cv.len() ==> !((#[trigger] name_words(cv[j].0)).len() > 0 && tokens_match_at(
                ts,
                i,
                name_words(cv[j].0),
            )),
    ensures
        book_at_from(cv, ts, i, b) is None,
    decreases cv.len() - b,
{
    if b < cv.len() {
        lemma_book_at_none(cv, ts, i, b + 1);
    }
}

/// A book's name anchors the scanner unshadowed: either its first word is
/// no ordinal token, or (for a name that itself carries an ordinal digit)
/// no book's name words begin the rest of its name, so the scanner falls
/// back to the full name.
pub open spec fn anchor_unshadowed(cv: Seq<(Seq<char>, Seq<u32>)>, bi: int) -> bool {
    ||| !is_ordinalish(name_words(cv[bi].0)[0])
    ||| (name_words(cv[bi].0).len() >= 2 && forall|j: int|
        0 <= j < cv.len() ==> !words_prefix(
            #[trigger] name_words(cv[j].0),
            name_words(cv[bi].0).skip(1),
        ))
}

/// The scanner anchors on book `bi` at the head of a text that begins
/// with that book's name words, when the canon scans cleanly and what
/// follows the name is a digit token.
proof fn lemma_book_at_finds(cv: Seq<(Seq<char>, Seq<u32>)>, ts: Seq<Seq<char>>, bi: int, b: int)
    requires
        canon_scan_clean(cv),
        0 <= b <= bi < cv.len(),
        ts.len() == name_words(cv[bi].0).len() + 3,
        forall|k: int|
            0 <= k < name_words(cv[bi].0).len() ==> ts[k] == #[trigger] name_words(cv[bi].0)[k],
        all_digits(ts[name_words(cv[bi].0).len() as int]),
    ensures
        book_at_from(cv, ts, 0, b) == Some(bi),
    decreases bi - b,
{
    let ws = name_words(cv[bi].0);
    if b == bi {
        assert(tokens_match_at(ts, 0, ws));
    } else {
        let wb = name_words(cv[b].0);
        if wb.len() > 0 && tokens_match_at(ts, 0, wb) {
            if wb.len() <= ws.len() {
                assert(words_prefix(wb, ws)) by {
                    assert(forall|k: int| 0 <= k < wb.len() ==> #[trigger] wb[k] == ts[k]);
                }
                assert(false);
            } else {
                assert(wb[ws.len() as int] == ts[ws.len() as int]);
                assert(!all_digits(wb[ws.len() as int]));
                assert(false);
            }
        }
        lemma_book_at_finds(cv, ts, bi, b + 1);
    }
}

/// The scanner and the validator accept the shaped token sequence — the
/// book's name words, the chapter digits, the word "verse", the verse
/// digits — and yield exactly the canonical reference.
proof fn lemma_shaped_tokens_recognized(cv: Seq<(Seq<char>, Seq<u32>)>, bi: int, c: int, v: int)
    requires
        canon_scan_clean(cv),
        0 <= bi < cv.len(),
        anchor_unshadowed(cv, bi),
        ordinal_rule_max(lower_seq(cv[bi].0)) is None,
        best_book_spec(cv, lower_seq(join_tokens(name_words(cv[bi].0)))) == Some(bi),
        1 <= c <= cv[bi].1.len(),
        1 <= v <= cv[bi].1[c - 1],
    ensures
        refs_of_candidates(
            cv,
            scan_spec(cv, name_words(cv[bi].0) + seq![dec_rep(c), "verse"@, dec_rep(v)]),
        ) == seq![format_spec(cv[bi].0, c, v, None)],
{
    let ws = name_words(cv[bi].0);
    let nw = ws.len() as int;
    let ts = ws + seq![dec_rep(c), "verse"@, dec_rep(v)];
    lemma_digits_number_token(c);
    lemma_digits_number_token(v);
    lemma_digits_subst_stable(dec_rep(c));
    lemma_digits_subst_stable(dec_rep(v));
    lemma_verse_not_number();
    // the scanner finds exactly one candidate: this book, this chapter
    // phrase, this verse phrase
    assert(ts[0] == ws[0]);
    assert(ts[nw] == dec_rep(c));
    assert(all_digits(ts[nw]));
    if is_ordinalish(ts[0]) {
        // the ordinal-prefixed anchor finds no book one token further in
        assert(ws.len() >= 2);
        assert forall|j: int|
            0 <= j < cv.len() implies !((#[trigger] name_words(cv[j].0)).len() > 0
            && tokens_match_at(ts, 1, name_words(cv[j].0))) by {
            let wj = name_words(cv[j].0);
            if wj.len() > 0 && tokens_match_at(ts, 1, wj) {
                if wj.len() <= ws.len() - 1 {
                    assert(words_prefix(wj, ws.skip(1))) by {
                        assert(forall|k: int| 0 <= k < wj.len() ==> #[trigger] wj[k] == ts[1 + k]);
                        assert(forall|k: int|
                            0 <= k < ws.skip(1).len() ==> #[trigger] ws.skip(1)[k] == ts[1 + k]);
                    }
                    assert(false);
                } else {
                    assert(wj[ws.len() - 1] == ts[nw]);
                    assert(!all_digits(wj[ws.len() - 1]));
                    assert(false);
                }
            }
        }
        lemma_book_at_none(cv, ts, 1, 0);
        assert(book_at_spec(cv, ts, 1) is None);
    }
    lemma_book_at_finds(cv, ts, bi, 0);
    assert(book_at_spec(cv, ts, 0) == Some(bi));
    assert(ts[nw] != "chapter"@);
    assert(ts[nw + 1] == "verse"@);
    assert(is_number_token(ts[nw]));
    assert(!is_number_token(ts[nw + 1]));
    assert(number_run_end(ts, nw + 1) == nw + 1);
    assert(number_run_end(ts, nw) == nw + 1);
    assert(ts.subrange(nw, nw + 1) =~= seq![dec_rep(c)]);
    assert(join_tokens(seq![dec_rep(c)]) == dec_rep(c));
    assert(ts[nw + 2] == dec_rep(v));
    assert(is_number_token(ts[nw + 2]));
    assert(number_run_end(ts, nw + 3) == nw + 3);
    assert(number_run_end(ts, nw + 2) == nw + 3);
    assert(ts.subrange(nw + 2, nw + 3) =~= seq![dec_rep(v)]);
    assert(join_tokens(seq![dec_rep(v)]) == dec_rep(v));
    let cand = CandidateSpec {
        ordinal: Seq::empty(),
        book_raw: join_tokens(ws),
        chapter: dec_rep(c),
        verse: dec_rep(v),
        verse_end: Seq::empty(),
    };
    assert(after_book(ts, nw, Seq::empty(), join_tokens(ws)) == Some((cand, ts.len() as int)));
    assert(candidate_at(cv, ts, 0) == Some((cand, ts.len() as int)));
    assert(scan_from(cv, ts, ts.len() as int) == Seq::<CandidateSpec>::empty());
    assert(scan_spec(cv, ts) =~= seq![cand]);
    // the validator accepts the candidate and formats the reference
    crate::numbers::lemma_spoken_number_of_digits(c);
    crate::numbers::lemma_spoken_number_of_digits(v);
    assert(ordinal_num(Seq::<char>::empty()) is None) by {
        reveal_strlit("fourth");
        reveal_strlit("fifth");
        reveal_strlit("sixth");
        reveal_strlit("seventh");
        reveal_strlit("eighth");
        reveal_strlit("ninth");
        reveal_strlit("tenth");
        assert(("fourth"@).len() == 6);
        assert(("fifth"@).len() == 5);
        assert(("sixth"@).len() == 5);
        assert(("seventh"@).len() == 7);
        assert(("eighth"@).len() == 6);
        assert(("ninth"@).len() == 5);
        assert(("tenth"@).len() == 5);
    }
    let fb = lower_seq(cv[bi].0);
    assert(resolve_key(fb, Seq::empty()) == Some(fb));
    lemma_lookup_from_self(cv, bi, 0);
    assert(lookup_spec(cv, fb) == Some(bi));
    assert(resolve_book(cv, cand) == Some(bi));
    assert(dec_rep(v).len() > 0);
    assert(spoken_number(cand.chapter) == Some(c));
    assert(!(c < 1 || c > cv[bi].1.len()));
    assert(cand.verse.len() > 0);
    assert(spoken_number(cand.verse) == Some(v));
    assert(v >= 1 && v <= cv[bi].1[c - 1] as int);
    assert(cand.verse_end.len() == 0);
    assert(validate_spec(cv, cand) == Some(format_spec(cv[bi].0, c, v, None)));
    assert(seq![cand][0] == cand);
    assert(seq![cand].drop_first() =~= Seq::<CandidateSpec>::empty());
    assert(refs_of_candidates(cv, Seq::<CandidateSpec>::empty()) == Seq::<Seq<char>>::empty());
    let r = format_spec(cv[bi].0, c, v, None);
    assert(refs_of_candidates(cv, seq![cand]) == seq![r] + refs_of_candidates(
        cv,
        seq![cand].drop_first(),
    ));
    assert(seq![r] + Seq::<Seq<char>>::empty() =~= seq![r]);
}

/// Every valid book, chapter and verse within the canon is recognized: a
/// transcript that names the book and gives the chapter and verse as
/// digits yields exactly that canonical reference. The canon must scan
/// cleanly, the book's own name must carry no ordinal-word prefix and fall
/// under no ordinal rule, and fuzzy resolution must map the book's own
/// name to the book (the acceptance threshold decides that; the scenario
/// tests exercise it on the real matcher).
pub proof fn lemma_valid_reference_recognized(
    cv: Seq<(Seq<char>, Seq<u32>)>,
    bi: int,
    c: int,
    v: int,
)
    requires
        canon_scan_clean(cv),
        0 <= bi < cv.len(),
        anchor_unshadowed(cv, bi),
        ordinal_rule_max(lower_seq(cv[bi].0)) is None,
        best_book_spec(cv, lower_seq(join_tokens(name_words(cv[bi].0)))) == Some(bi),
        1 <= c <= cv[bi].1.len(),
        1 <= v <= cv[bi].1[c - 1],
    ensures
        extract_spec(
            cv,
            join_tokens(name_words(cv[bi].0) + seq![dec_rep(c), "verse"@, dec_rep(v)]),
        ) == seq![format_spec(cv[bi].0, c, v, None)],
{
    let ws = name_words(cv[bi].0);
    let nw = ws.len() as int;
    let ts = ws + seq![dec_rep(c), "verse"@, dec_rep(v)];
    let input = join_tokens(ts);
    lemma_digits_number_token(c);
    lemma_digits_number_token(v);
    lemma_digits_subst_stable(dec_rep(c));
    lemma_digits_subst_stable(dec_rep(v));
    lemma_verse_not_number();
    crate::norm::lemma_vocab_facts();
    reveal_strlit("verse");
    assert(crate::norm::subst_output("verse"@));
    // the name words are the tokens of the lower-cased name: non-empty,
    // whitespace-free and already lower-case
    let low = lower_seq(cv[bi].0);
    crate::text::lemma_tokens_wf(low, 0);
    assert forall|k: int| 0 <= k < low.len() implies lower_char_spec(#[trigger] low[k])
        == low[k] by {
        assert(low[k] == lower_char_spec(cv[bi].0[k]));
    }
    crate::text::lemma_tokens_chars(low, 0, |ch: char| lower_char_spec(ch) == ch);
    // facts about every token of the shaped text
    assert forall|t: int| 0 <= t < ts.len() implies (#[trigger] ts[t]).len() > 0 && (forall|j: int|
        0 <= j < ts[t].len() ==> !is_space_char(#[trigger] ts[t][j]) && lower_char_spec(ts[t][j])
            == ts[t][j]) by {
        if t < nw {
            assert(ts[t] == ws[t]);
        } else if t == nw {
            assert(ts[t] == dec_rep(c));
        } else if t == nw + 1 {
            assert(ts[t] == "verse"@);
        } else {
            assert(ts[t] == dec_rep(v));
        }
    }
    // the input normalizes to exactly these tokens
    crate::norm::lemma_join_chars(ts, |ch: char| lower_char_spec(ch) == ch);
    assert(lower_seq(input) =~= input);
    crate::text::lemma_tokens_of_join(ts);
    assert(tokens_of(lower_seq(input)) == ts);
    let sub = ts.map_values(|w: Seq<char>| subst_token_spec(w));
    assert forall|i: int| 0 <= i < ts.len() implies #[trigger] sub[i] == ts[i] by {
        assert(sub[i] == subst_token_spec(ts[i]));
        if i < nw {
            assert(ts[i] == ws[i]);
        } else if i == nw {
            assert(ts[i] == dec_rep(c));
        } else if i == nw + 1 {
            assert(ts[i] == "verse"@);
        } else {
            assert(ts[i] == dec_rep(v));
        }
    }
    assert(sub =~= ts);
    assert forall|i: int| 0 <= i < ts.len() implies #[trigger] phrase_fix_spec(ts)[i]
        == ts[i] by {
        if ts[i] == "songs"@ {
            if i < nw {
                assert(ts[i] == ws[i]);
            } else if i == nw {
                assert(ts[i] == dec_rep(c));
            } else if i == nw + 1 {
                assert(ts[i] == "verse"@);
            } else {
                assert(ts[i] == dec_rep(v));
            }
            assert(false);
        }
    }
    assert(phrase_fix_spec(ts) =~= ts);
    assert(normal_tokens_of(input) == ts);
    lemma_shaped_tokens_recognized(cv, bi, c, v);

}

/// Every valid book, chapter and verse is recognized also when the book's
/// ordinal prefix is spoken as a word: "first"/"second"/"third" before the
/// rest of the name normalizes to the digit the canon name carries, and
/// the same single reference comes out.
pub proof fn lemma_valid_reference_recognized_spoken_ordinal(
    cv: Seq<(Seq<char>, Seq<u32>)>,
    bi: int,
    c: int,
    v: int,
)
    requires
        canon_scan_clean(cv),
        0 <= bi < cv.len(),
        anchor_unshadowed(cv, bi),
        name_words(cv[bi].0).len() >= 2,
        name_words(cv[bi].0)[0] == "1"@ || name_words(cv[bi].0)[0] == "2"@ || name_words(
            cv[bi].0,
        )[0] == "3"@,
        ordinal_rule_max(lower_seq(cv[bi].0)) is None,
        best_book_spec(cv, lower_seq(join_tokens(name_words(cv[bi].0)))) == Some(bi),
        1 <= c <= cv[bi].1.len(),
        1 <= v <= cv[bi].1[c - 1],
    ensures
        ({
            let ws = name_words(cv[bi].0);
            let spoken: Seq<char> = if ws[0] == "1"@ {
                "first"@
            } else if ws[0] == "2"@ {
                "second"@
            } else {
                "third"@
            };
            extract_spec(
                cv,
                join_tokens(seq![spoken] + ws.skip(1) + seq![dec_rep(c), "verse"@, dec_rep(v)]),
            ) == seq![format_spec(cv[bi].0, c, v, None)]
        }),
{
    let ws = name_words(cv[bi].0);
    let nw = ws.len() as int;
    let spoken: Seq<char> = if ws[0] == "1"@ {
        "first"@
    } else if ws[0] == "2"@ {
        "second"@
    } else {
        "third"@
    };
    let ts0 = seq![spoken] + ws.skip(1) + seq![dec_rep(c), "verse"@, dec_rep(v)];
    let ts = ws + seq![dec_rep(c), "verse"@, dec_rep(v)];
    let input = join_tokens(ts0);
    lemma_digits_number_token(c);
    lemma_digits_number_token(v);
    lemma_digits_subst_stable(dec_rep(c));
    lemma_digits_subst_stable(dec_rep(v));
    crate::norm::lemma_vocab_facts();
    reveal_strlit("verse");
    assert(crate::norm::subst_output("verse"@));
    // the spoken ordinal word is rewritten to the name's leading digit
    reveal_strlit("first");
    reveal_strlit("second");
    reveal_strlit("third");
    reveal_strlit("vs");
    reveal_strlit("vs.");
    reveal_strlit("v");
    reveal_strlit("v.");
    reveal_strlit("psalms");
    reveal_strlit("revelations");
    reveal_strlit("songs");
    reveal_strlit("1");
    reveal_strlit("2");
    reveal_strlit("3");
    assert(("first"@).len() == 5 && ("first"@)[0] == 'f');
    assert(("second"@).len() == 6 && ("second"@)[0] == 's');
    assert(("third"@).len() == 5 && ("third"@)[0] == 't');
    assert(("vs"@).len() == 2);
    assert(("vs."@).len() == 3);
    assert(("v"@).len() == 1);
    assert(("v."@).len() == 2);
    assert(("psalms"@).len() == 6 && ("psalms"@)[0] == 'p');
    assert(("revelations"@).len() == 11);
    assert(("songs"@).len() == 5 && ("songs"@)[0] == 's' && ("songs"@)[1] == 'o');
    assert(("second"@)[1] == 'e');
    assert(subst_token_spec(spoken) == ws[0]);
    assert(spoken.len() > 0 && spoken != "songs"@);
    assert(forall|j: int| 0 <= j < spoken.len() ==> !is_space_char(#[trigger] spoken[j]));
    assert(forall|j: int|
        0 <= j < spoken.len() ==> lower_char_spec(#[trigger] spoken[j]) == spoken[j]);
    // the name words are the tokens of the lower-cased name: non-empty,
    // whitespace-free and already lower-case
    let low = lower_seq(cv[bi].0);
    crate::text::lemma_tokens_wf(low, 0);
    assert forall|k: int| 0 <= k < low.len() implies lower_char_spec(#[trigger] low[k])
        == low[k] by {
        assert(low[k] == lower_char_spec(cv[bi].0[k]));
    }
    crate::text::lemma_tokens_chars(low, 0, |ch: char| lower_char_spec(ch) == ch);
    // facts about every token of the spoken text
    assert(ts0.len() == nw + 3);
    assert forall|t: int| 0 <= t < ts0.len() implies (#[trigger] ts0[t]).len() > 0 && (forall|
        j: int,
    |
        0 <= j < ts0[t].len() ==> !is_space_char(#[trigger] ts0[t][j]) && lower_char_spec(
            ts0[t][j],
        ) == ts0[t][j]) by {
        if t == 0 {
            assert(ts0[t] == spoken);
        } else if t < nw {
            assert(ts0[t] == ws[t]);
        } else if t == nw {
            assert(ts0[t] == dec_rep(c));
        } else if t == nw + 1 {
            assert(ts0[t] == "verse"@);
        } else {
            assert(ts0[t] == dec_rep(v));
        }
    }
    // the input normalizes to the digit-form token sequence
    crate::norm::lemma_join_chars(ts0, |ch: char| lower_char_spec(ch) == ch);
    assert(lower_seq(input) =~= input);
    crate::text::lemma_tokens_of_join(ts0);
    assert(tokens_of(lower_seq(input)) == ts0);
    let sub = ts0.map_values(|w: Seq<char>| subst_token_spec(w));
    assert forall|i: int| 0 <= i < ts0.len() implies #[trigger] sub[i] == ts[i] by {
        assert(sub[i] == subst_token_spec(ts0[i]));
        if i == 0 {
            assert(ts0[i] == spoken && ts[i] == ws[0]);
        } else if i < nw {
            assert(ts0[i] == ws[i] && ts[i] == ws[i]);
        } else if i == nw {
            assert(ts0[i] == dec_rep(c) && ts[i] == dec_rep(c));
        } else if i == nw + 1 {
            assert(ts0[i] == "verse"@ && ts[i] == "verse"@);
        } else {
            assert(ts0[i] == dec_rep(v) && ts[i] == dec_rep(v));
        }
    }
    assert(sub =~= ts);
    assert forall|i: int| 0 <= i < ts.len() implies #[trigger] phrase_fix_spec(ts)[i]
        == ts[i] by {
        if ts[i] == "songs"@ {
            if i == 0 {
                assert(ts[i] == ws[0]);
            } else if i < nw {
                assert(ts[i] == ws[i]);
            } else if i == nw {
                assert(ts[i] == dec_rep(c));
            } else if i == nw + 1 {
                assert(ts[i] == "verse"@);
            } else {
                assert(ts[i] == dec_rep(v));
            }
            assert(false);
        }
    }
    assert(phrase_fix_spec(ts) =~= ts);
    assert(normal_tokens_of(input) == ts);
    lemma_shaped_tokens_recognized(cv, bi, c, v);
}

/// What remains after dropping an entry is exactly the other entries.
proof fn lemma_drop_matching_contains(s: Seq<Seq<char>>, r: Seq<char>, x: Seq<char>)
    ensures
        drop_matching(s, r).contains(x) <==> (s.contains(x) && x != r),
    decreases s.len(),
{
    if s.len() > 0 {
        lemma_drop_matching_contains(s.drop_last(), r, x);
        let dl = drop_matching(s.drop_last(), r);
        if s.last() != r {
            assert(drop_matching(s, r) == dl.push(s.last()));
            assert(dl.push(s.last()).contains(x) <==> (dl.contains(x) || x == s.last())) by {
                assert(dl.push(s.last())[dl.len() as int] == s.last());
                if dl.contains(x) {
                    let w = choose|w: int| 0 <= w < dl.len() && dl[w] == x;
                    assert(dl.push(s.last())[w] == x);
                }
                if dl.push(s.last()).contains(x) {
                    let w = choose|w: int|
                        0 <= w < dl.push(s.last()).len() && dl.push(s.last())[w] == x;
                    if w < dl.len() {
                        assert(dl[w] == x);
                    }
                }
            }
        }
        assert(s.contains(x) <==> (s.drop_last().contains(x) || x == s.last())) by {
            if s.drop_last().contains(x) {
                let w = choose|w: int| 0 <= w < s.drop_last().len() && s.drop_last()[w] == x;
                assert(s[w] == x);
            }
            if s.contains(x) {
                let w = choose|w: int| 0 <= w < s.len() && s[w] == x;
                if w < s.len() - 1 {
                    assert(s.drop_last()[w] == x);
                }
            }
        }
    }
}

/// Dropping an entry keeps the remaining entries distinct.
proof fn lemma_drop_matching_distinct(s: Seq<Seq<char>>, r: Seq<char>)
    requires
        forall|i: int, j: int| 0 <= i < j < s.len() ==> s[i] != s[j],
    ensures
        forall|i: int, j: int|
            0 <= i < j < drop_matching(s, r).len() ==> drop_matching(s, r)[i] != drop_matching(
                s,
                r,
            )[j],
    decreases s.len(),
{
    if s.len() > 0 {
        assert(forall|i: int, j: int|
            0 <= i < j < s.drop_last().len() ==> s.drop_last()[i] != s.drop_last()[j]);
        lemma_drop_matching_distinct(s.drop_last(), r);
        let dl = drop_matching(s.drop_last(), r);
        if s.last() != r {
            assert forall|i: int, j: int|
                0 <= i < j < dl.push(s.last()).len() implies dl.push(s.last())[i] != dl.push(
                s.last(),
            )[j] by {
                if j < dl.len() {
                    assert(dl.push(s.last())[i] == dl[i] && dl.push(s.last())[j] == dl[j]);
                } else {
                    assert(dl.push(s.last())[j] == s.last());
                    assert(dl.push(s.last())[i] == dl[i]);
                    lemma_drop_matching_contains(s.drop_last(), r, dl[i]);
                    assert(s.drop_last().contains(dl[i]));
                    let w = choose|w: int|
                        0 <= w < s.drop_last().len() && s.drop_last()[w] == dl[i];
                    assert(s[w] == dl[i] && s[s.len() - 1] == s.last());
                }
            }
        }
    }
}

/// As a set, recording adds exactly the recorded reference: an entry stands
/// in the new buffer exactly when it stood in the old one or is the one
/// recorded; and a buffer of distinct entries stays distinct.
pub proof fn lemma_record_set(s: Seq<Seq<char>>, r: Seq<char>)
    ensures
        forall|x: Seq<char>|
            record_spec(s, r).contains(x) <==> (s.contains(x) || x == r),
        (forall|i: int, j: int| 0 <= i < j < s.len() ==> s[i] != s[j]) ==> (forall|i: int, j: int|
            0 <= i < j < record_spec(s, r).len() ==> record_spec(s, r)[i] != record_spec(s, r)[j]),
{
    let dm = drop_matching(s, r);
    let out = record_spec(s, r);
    assert forall|x: Seq<char>| out.contains(x) <==> (s.contains(x) || x == r) by {
        lemma_drop_matching_contains(s, r, x);
        assert(out[out.len() - 1] == r);
        if dm.contains(x) {
            let w = choose|w: int| 0 <= w < dm.len() && dm[w] == x;
            assert(out[w] == x);
        }
        if out.contains(x) && x != r {
            let w = choose|w: int| 0 <= w < out.len() && out[w] == x;
            assert(w < dm.len() && dm[w] == x);
        }
    }
    if forall|i: int, j: int| 0 <= i < j < s.len() ==> s[i] != s[j] {
        lemma_drop_matching_distinct(s, r);
        lemma_drop_matching_pred(s, r);
        assert forall|i: int, j: int| 0 <= i < j < out.len() implies out[i] != out[j] by {
            if j < dm.len() {
                assert(out[i] == dm[i] && out[j] == dm[j]);
            } else {
                assert(out[j] == r && out[i] == dm[i]);
            }
        }
    }
}

/// Recording distinct references into an empty buffer yields exactly that
/// order, least recent first.
pub proof fn lemma_record_distinct_order(rs: Seq<Seq<char>>)
    requires
        forall|i: int, j: int| 0 <= i < j < rs.len() ==> rs[i] != rs[j],
    ensures
        record_all(Seq::empty(), rs) == rs,
{
    lemma_record_all_distinct(Seq::empty(), rs);
    assert(Seq::empty() + rs =~= rs);
}

} // verus!
