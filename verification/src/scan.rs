//! The reference pattern matcher: scans normalized transcript tokens for
//! book/chapter/verse(-range) candidate spans.
//!
//! A candidate anchors on an exact occurrence of a canonical book name
//! (optionally preceded by an ordinal token), followed by an optional
//! "chapter" keyword, a required chapter-number phrase, an optional
//! "verse"/"verses" keyword with a start-number phrase, and an optional
//! range connector with an end-number phrase. A capture with no chapter
//! phrase is dropped, and scanning resumes one token further.

use vstd::prelude::*;

use crate::canon::Canon;
use crate::canon::name_words;
use crate::digits::all_digits;
use crate::norm::join_tokens;
use crate::numbers::all_digits_exec;
use crate::numbers::hyphens_out;
use crate::numbers::number_words_of;
use crate::text::token_is;
use crate::text::tokenize;
use crate::text::tokens_eq;
use crate::word_to_num::word_value;
use crate::word_to_num::word_value_of;

verus! {

/// One candidate reference span, as raw captured text: the optional
/// ordinal token, the text that named the book, and the chapter, verse and
/// verse-end phrases (empty when absent). Candidates are transient: the
/// validator consumes them immediately.
pub struct Candidate {
    pub ordinal: Vec<char>,
    pub book_raw: Vec<char>,
    pub chapter: Vec<char>,
    pub verse: Vec<char>,
    pub verse_end: Vec<char>,
}

/// The abstract form of a candidate.
pub ghost struct CandidateSpec {
    pub ordinal: Seq<char>,
    pub book_raw: Seq<char>,
    pub chapter: Seq<char>,
    pub verse: Seq<char>,
    pub verse_end: Seq<char>,
}

impl View for Candidate {
    type V = CandidateSpec;

    open spec fn view(&self) -> CandidateSpec {
        CandidateSpec {
            ordinal: self.ordinal@,
            book_raw: self.book_raw@,
            chapter: self.chapter@,
            verse: self.verse@,
            verse_end: self.verse_end@,
        }
    }
}

impl DeepView for Candidate {
    type V = CandidateSpec;

    open spec fn deep_view(&self) -> CandidateSpec {
        self.view()
    }
}

/// Value of an ordinal word beyond those the normalizer rewrites. These
/// are recognized so that a spoken out-of-range ordinal ("fourth john") is
/// captured and then rejected, rather than mistaken for a plain reference.
pub open spec fn ordinal_word_value(w: Seq<char>) -> Option<u32> {
    if w == "fourth"@ {
        Some(4u32)
    } else if w == "fifth"@ {
        Some(5u32)
    } else if w == "sixth"@ {
        Some(6u32)
    } else if w == "seventh"@ {
        Some(7u32)
    } else if w == "eighth"@ {
        Some(8u32)
    } else if w == "ninth"@ {
        Some(9u32)
    } else if w == "tenth"@ {
        Some(10u32)
    } else {
        None
    }
}

/// Whether a token can stand as an ordinal prefix before a book name.
pub open spec fn is_ordinalish(w: Seq<char>) -> bool {
    all_digits(w) || ordinal_word_value(w) is Some
}

/// Whether a token can stand in a number phrase: every hyphen-separated
/// part is a digit string or a recognized number word.
pub open spec fn is_number_token(w: Seq<char>) -> bool {
    let parts = number_words_of(w);
    parts.len() > 0 && forall|p: int|
        0 <= p < parts.len() ==> all_digits(#[trigger] parts[p]) || word_value(parts[p]) is Some
}

/// Whether a token connects a verse range ("-", a dash, "to", "through",
/// "and").
pub open spec fn is_connector(w: Seq<char>) -> bool {
    w == "to"@ || w == "through"@ || w == "and"@ || w == seq!['-'] || w == seq!['–'] || w
        == seq!['—']
}

/// Whether the token sequence `ws` occurs in `ts` starting at `i`.
pub open spec fn tokens_match_at(ts: Seq<Seq<char>>, i: int, ws: Seq<Seq<char>>) -> bool {
    &&& 0 <= i
    &&& i + ws.len() <= ts.len()
    &&& forall|k: int| 0 <= k < ws.len() ==> ts[i + k] == #[trigger] ws[k]
}

/// First book at or after index `b` whose name words occur at `i`; book
/// names without words never match.
pub open spec fn book_at_from(
    cv: Seq<(Seq<char>, Seq<u32>)>,
    ts: Seq<Seq<char>>,
    i: int,
    b: int,
) -> Option<int>
    decreases cv.len() - b,
{
    if b < 0 || b >= cv.len() {
        None
    } else if name_words(cv[b].0).len() > 0 && tokens_match_at(ts, i, name_words(cv[b].0)) {
        Some(b)
    } else {
        book_at_from(cv, ts, i, b + 1)
    }
}

/// First book whose name words occur at `i`.
pub open spec fn book_at_spec(cv: Seq<(Seq<char>, Seq<u32>)>, ts: Seq<Seq<char>>, i: int) -> Option<
    int,
> {
    book_at_from(cv, ts, i, 0)
}

/// End of the run of number tokens starting at `j`.
pub open spec fn number_run_end(ts: Seq<Seq<char>>, j: int) -> int
    decreases ts.len() - j,
{
    if j < 0 || j >= ts.len() || !is_number_token(ts[j]) {
        j
    } else {
        number_run_end(ts, j + 1)
    }
}

pub proof fn lemma_number_run_end(ts: Seq<Seq<char>>, j: int)
    requires
        0 <= j <= ts.len(),
    ensures
        j <= number_run_end(ts, j) <= ts.len(),
    decreases ts.len() - j,
{
    if j < ts.len() && is_number_token(ts[j]) {
        lemma_number_run_end(ts, j + 1);
    }
}

/// The rest of a candidate after its book name was matched ending at `j`:
/// an optional "chapter" keyword, the chapter phrase (required), an
/// optional verse part, and an optional range part. Returns the candidate
/// and the position where scanning resumes.
pub open spec fn after_book(
    ts: Seq<Seq<char>>,
    j: int,
    ordinal: Seq<char>,
    book_raw: Seq<char>,
) -> Option<(CandidateSpec, int)> {
    let j1 = if j < ts.len() && ts[j] == "chapter"@ {
        j + 1
    } else {
        j
    };
    let ce = number_run_end(ts, j1);
    if ce == j1 {
        None
    } else {
        let chapter = join_tokens(ts.subrange(j1, ce));
        if ce < ts.len() && (ts[ce] == "verse"@ || ts[ce] == "verses"@) {
            let vs = ce + 1;
            let ve = number_run_end(ts, vs);
            let verse = join_tokens(ts.subrange(vs, ve));
            if ve > vs && ve < ts.len() && is_connector(ts[ve]) && number_run_end(ts, ve + 1) > ve
                + 1 {
                let ee = number_run_end(ts, ve + 1);
                let verse_end = join_tokens(ts.subrange(ve + 1, ee));
                Some((CandidateSpec { ordinal, book_raw, chapter, verse, verse_end }, ee))
            } else {
                Some(
                    (
                        CandidateSpec {
                            ordinal,
                            book_raw,
                            chapter,
                            verse,
                            verse_end: Seq::empty(),
                        },
                        ve,
                    ),
                )
            }
        } else {
            Some(
                (
                    CandidateSpec {
                        ordinal,
                        book_raw,
                        chapter,
                        verse: Seq::empty(),
                        verse_end: Seq::empty(),
                    },
                    ce,
                ),
            )
        }
    }
}

/// The candidate anchored at position `i`, if any: an ordinal token
/// followed by a book name, or a book name alone.
pub open spec fn candidate_at(cv: Seq<(Seq<char>, Seq<u32>)>, ts: Seq<Seq<char>>, i: int) -> Option<
    (CandidateSpec, int),
> {
    if 0 <= i < ts.len() && is_ordinalish(ts[i]) && book_at_spec(cv, ts, i + 1) is Some {
        let b = book_at_spec(cv, ts, i + 1)->Some_0;
        let ws = name_words(cv[b].0);
        after_book(ts, i + 1 + ws.len(), ts[i], join_tokens(ws))
    } else if book_at_spec(cv, ts, i) is Some {
        let b = book_at_spec(cv, ts, i)->Some_0;
        let ws = name_words(cv[b].0);
        after_book(ts, i + ws.len(), Seq::empty(), join_tokens(ws))
    } else {
        None
    }
}

/// A matched book name occurrence ends within the text.
pub proof fn lemma_book_at_bounds(cv: Seq<(Seq<char>, Seq<u32>)>, ts: Seq<Seq<char>>, i: int, b: int)
    requires
        book_at_from(cv, ts, i, b) is Some,
    ensures
        ({
            let bi = book_at_from(cv, ts, i, b)->Some_0;
            &&& 0 <= bi < cv.len()
            &&& name_words(cv[bi].0).len() > 0
            &&& 0 <= i
            &&& i + name_words(cv[bi].0).len() <= ts.len()
        }),
    decreases cv.len() - b,
{
    if !(b < 0 || b >= cv.len()) {
        if !(name_words(cv[b].0).len() > 0 && tokens_match_at(ts, i, name_words(cv[b].0))) {
            lemma_book_at_bounds(cv, ts, i, b + 1);
        }
    }
}

/// A candidate's resume position lies strictly beyond its anchor.
pub proof fn lemma_candidate_at_bounds(cv: Seq<(Seq<char>, Seq<u32>)>, ts: Seq<Seq<char>>, i: int)
    requires
        0 <= i,
        candidate_at(cv, ts, i) is Some,
    ensures
        i < candidate_at(cv, ts, i)->Some_0.1 <= ts.len(),
{
    if 0 <= i < ts.len() && is_ordinalish(ts[i]) && book_at_spec(cv, ts, i + 1) is Some {
        let b = book_at_spec(cv, ts, i + 1)->Some_0;
        lemma_book_at_bounds(cv, ts, i + 1, 0);
        let j = i + 1 + name_words(cv[b].0).len();
        lemma_after_book_bounds(ts, j);
    } else {
        let b = book_at_spec(cv, ts, i)->Some_0;
        lemma_book_at_bounds(cv, ts, i, 0);
        let j = i + name_words(cv[b].0).len();
        lemma_after_book_bounds(ts, j);
    }
}

/// The resume position of a matched candidate tail lies beyond `j`.
pub proof fn lemma_after_book_bounds(ts: Seq<Seq<char>>, j: int)
    requires
        0 <= j <= ts.len(),
    ensures
        forall|o: Seq<char>, b: Seq<char>|
            (#[trigger] after_book(ts, j, o, b)) is Some ==> j < after_book(ts, j, o, b)->Some_0.1
                <= ts.len(),
{
    let j1 = if j < ts.len() && ts[j] == "chapter"@ {
        j + 1
    } else {
        j
    };
    lemma_number_run_end(ts, j1);
    let ce = number_run_end(ts, j1);
    if ce != j1 && ce < ts.len() && (ts[ce] == "verse"@ || ts[ce] == "verses"@) {
        lemma_number_run_end(ts, ce + 1);
        let ve = number_run_end(ts, ce + 1);
        if ve > ce + 1 && ve < ts.len() && is_connector(ts[ve]) {
            lemma_number_run_end(ts, ve + 1);
        }
    }
}

/// All candidates of the token sequence, scanning left to right from `i`;
/// scanning resumes after each candidate's captured span.
pub open spec fn scan_from(cv: Seq<(Seq<char>, Seq<u32>)>, ts: Seq<Seq<char>>, i: int) -> Seq<
    CandidateSpec,
>
    decreases ts.len() - i,
    via scan_from_dec
{
    if i < 0 || i >= ts.len() {
        Seq::empty()
    } else {
        match candidate_at(cv, ts, i) {
            Option::None => scan_from(cv, ts, i + 1),
            Option::Some(p) => seq![p.0] + scan_from(cv, ts, p.1),
        }
    }
}

#[via_fn]
proof fn scan_from_dec(cv: Seq<(Seq<char>, Seq<u32>)>, ts: Seq<Seq<char>>, i: int) {
    if 0 <= i < ts.len() && candidate_at(cv, ts, i) is Some {
        lemma_candidate_at_bounds(cv, ts, i);
    }
}

/// All candidates of the token sequence.
pub open spec fn scan_spec(cv: Seq<(Seq<char>, Seq<u32>)>, ts: Seq<Seq<char>>) -> Seq<
    CandidateSpec,
> {
    scan_from(cv, ts, 0)
}

/// Whether a token can stand in a number phrase.
pub fn is_number_token_exec(w: &Vec<char>) -> (r: bool)
    ensures
        r == is_number_token(w@),
{
    let flat = hyphens_out(w);
    let parts = tokenize(&flat);
    let ghost pv = parts.deep_view();
    if parts.len() == 0 {
        return false;
    }
    let mut i: usize = 0;
    while i < parts.len()
        invariant
            parts.deep_view() == pv,
            parts@.len() == pv.len(),
            pv == number_words_of(w@),
            i <= pv.len(),
            forall|p: int| 0 <= p < i ==> all_digits(#[trigger] pv[p]) || word_value(pv[p]) is Some,
        decreases parts@.len() - i,
    {
        proof {
            assert(pv[i as int] =~= parts@[i as int]@);
        }
        if !all_digits_exec(&parts[i]) {
            if word_value_of(&parts[i]).is_none() {
                return false;
            }
        }
        i = i + 1;
    }
    true
}

/// Whether a token can stand as an ordinal prefix before a book name.
pub fn is_ordinalish_exec(w: &Vec<char>) -> (r: bool)
    ensures
        r == is_ordinalish(w@),
{
    if all_digits_exec(w) {
        return true;
    }
    token_is(w, "fourth") || token_is(w, "fifth") || token_is(w, "sixth") || token_is(w, "seventh")
        || token_is(w, "eighth") || token_is(w, "ninth") || token_is(w, "tenth")
}

/// Whether a token connects a verse range.
pub fn is_connector_exec(w: &Vec<char>) -> (r: bool)
    ensures
        r == is_connector(w@),
{
    if token_is(w, "to") || token_is(w, "through") || token_is(w, "and") {
        return true;
    }
    let r = w.len() == 1 && (w[0] == '-' || w[0] == '–' || w[0] == '—');
    proof {
        if r {
            assert(w@ =~= seq![w@[0]]);
        } else {
            assert(w@ != seq!['-'] && w@ != seq!['–'] && w@ != seq!['—']) by {
                if w@.len() == 1 {
                    assert(w@[0] != '-' && w@[0] != '–' && w@[0] != '—');
                }
            }
        }
    }
    r
}

/// Whether the words `ws` occur in `ts` at position `i`.
fn tokens_match_at_exec(ts: &Vec<Vec<char>>, i: usize, ws: &Vec<Vec<char>>) -> (r: bool)
    requires
        i <= ts@.len(),
    ensures
        r == tokens_match_at(ts.deep_view(), i as int, ws.deep_view()),
{
    let n = ts.len();
    if n - i < ws.len() {
        return false;
    }
    let mut k: usize = 0;
    while k < ws.len()
        invariant
            n == ts@.len(),
            i + ws@.len() <= ts@.len(),
            k <= ws@.len(),
            forall|m: int|
                0 <= m < k ==> ts.deep_view()[i + m] == #[trigger] ws.deep_view()[m],
        decreases ws@.len() - k,
    {
        let eq = tokens_eq(&ts[i + k], &ws[k]);
        proof {
            assert(ts.deep_view()[i as int + k as int] =~= ts@[i as int + k as int]@);
            assert(ws.deep_view()[k as int] =~= ws@[k as int]@);
        }
        if !eq {
            return false;
        }
        k = k + 1;
    }
    true
}

/// Find the first book whose name words occur at position `i`.
fn book_at_exec(c: &Canon, ts: &Vec<Vec<char>>, i: usize) -> (r: Option<usize>)
    requires
        c.wf(),
        i <= ts@.len(),
    ensures
        match r {
            Some(b) => b < c@.len() && book_at_spec(c@, ts.deep_view(), i as int) == Some(b as int),
            None => book_at_spec(c@, ts.deep_view(), i as int) is None,
        },
{
    let mut b: usize = 0;
    while b < c.books.len()
        invariant
            c.wf(),
            i <= ts@.len(),
            b <= c@.len(),
            c@.len() == c.books@.len(),
            book_at_spec(c@, ts.deep_view(), i as int) == book_at_from(
                c@,
                ts.deep_view(),
                i as int,
                b as int,
            ),
        decreases c@.len() - b,
    {
        if c.books[b].words.len() > 0 && tokens_match_at_exec(ts, i, &c.books[b].words) {
            return Some(b);
        }
        b = b + 1;
    }
    None
}

/// End of the run of number tokens starting at `j`.
fn number_run_end_exec(ts: &Vec<Vec<char>>, j: usize) -> (r: usize)
    requires
        j <= ts@.len(),
    ensures
        r as int == number_run_end(ts.deep_view(), j as int),
        j <= r <= ts@.len(),
{
    let mut k: usize = j;
    while k < ts.len()
        invariant
            j <= k <= ts@.len(),
            ts@.len() == ts.deep_view().len(),
            number_run_end(ts.deep_view(), j as int) == number_run_end(ts.deep_view(), k as int),
        decreases ts@.len() - k,
    {
        proof {
            assert(ts.deep_view()[k as int] =~= ts@[k as int]@);
        }
        if !is_number_token_exec(&ts[k]) {
            proof {
                lemma_number_run_end(ts.deep_view(), j as int);
            }
            return k;
        }
        k = k + 1;
    }
    proof {
        lemma_number_run_end(ts.deep_view(), j as int);
    }
    k
}

/// Copy the token range `[a, b)`.
fn subrange_tokens(ts: &Vec<Vec<char>>, a: usize, b: usize) -> (r: Vec<Vec<char>>)
    requires
        a <= b <= ts@.len(),
    ensures
        r.deep_view() == ts.deep_view().subrange(a as int, b as int),
{
    let mut r: Vec<Vec<char>> = Vec::new();
    let mut k: usize = a;
    while k < b
        invariant
            a <= k <= b <= ts@.len(),
            ts@.len() == ts.deep_view().len(),
            r.deep_view() == ts.deep_view().subrange(a as int, k as int),
        decreases b - k,
    {
        let t = crate::text::copy_token(&ts[k]);
        let ghost old_r = r.deep_view();
        let ghost tv = t@;
        r.push(t);
        k = k + 1;
        proof {
            assert(ts.deep_view()[k as int - 1] =~= ts@[k as int - 1]@);
            assert(r.deep_view() =~~= old_r + seq![tv]);
            assert(r.deep_view() =~= ts.deep_view().subrange(a as int, k as int));
        }
    }
    r
}

/// Join the token range `[a, b)` into one phrase with single spaces.
fn join_range(ts: &Vec<Vec<char>>, a: usize, b: usize) -> (r: Vec<char>)
    requires
        a <= b <= ts@.len(),
    ensures
        r@ == join_tokens(ts.deep_view().subrange(a as int, b as int)),
{
    let part = subrange_tokens(ts, a, b);
    crate::norm::join_vec(&part)
}

/// Extract the candidate tail after a matched book name ending at `j`.
fn after_book_exec(ts: &Vec<Vec<char>>, j: usize, ordinal: Vec<char>, book_raw: Vec<char>) -> (r:
    Option<(Candidate, usize)>)
    requires
        j <= ts@.len(),
    ensures
        ({
            let spec = after_book(ts.deep_view(), j as int, ordinal@, book_raw@);
            match r {
                Some(p) => spec == Some((p.0@, p.1 as int)),
                None => spec is None,
            }
        }),
{
    let ghost tsv = ts.deep_view();
    let ghost ord_v = ordinal@;
    let ghost braw_v = book_raw@;
    let mut j1 = j;
    if j < ts.len() {
        proof {
            assert(tsv[j as int] =~= ts@[j as int]@);
        }
        if token_is(&ts[j], "chapter") {
            j1 = j + 1;
        }
    }
    let ce = number_run_end_exec(ts, j1);
    if ce == j1 {
        return None;
    }
    let chapter = join_range(ts, j1, ce);
    let mut has_verse_kw = false;
    if ce < ts.len() {
        proof {
            assert(tsv[ce as int] =~= ts@[ce as int]@);
        }
        has_verse_kw = token_is(&ts[ce], "verse") || token_is(&ts[ce], "verses");
    }
    if has_verse_kw {
        let vs = ce + 1;
        let ve = number_run_end_exec(ts, vs);
        let verse = join_range(ts, vs, ve);
        if ve > vs && ve < ts.len() {
            proof {
                assert(tsv[ve as int] =~= ts@[ve as int]@);
            }
            if is_connector_exec(&ts[ve]) {
                let ee = number_run_end_exec(ts, ve + 1);
                if ee > ve + 1 {
                    let verse_end = join_range(ts, ve + 1, ee);
                    return Some((Candidate { ordinal, book_raw, chapter, verse, verse_end }, ee));
                }
            }
        }
        let verse_end: Vec<char> = Vec::new();
        return Some((Candidate { ordinal, book_raw, chapter, verse, verse_end }, ve));
    }
    let verse: Vec<char> = Vec::new();
    let verse_end: Vec<char> = Vec::new();
    Some((Candidate { ordinal, book_raw, chapter, verse, verse_end }, ce))
}

/// Extract the candidate anchored at position `i`, if any.
fn candidate_at_exec(c: &Canon, ts: &Vec<Vec<char>>, i: usize) -> (r: Option<(Candidate, usize)>)
    requires
        c.wf(),
        i < ts@.len(),
    ensures
        ({
            let spec = candidate_at(c@, ts.deep_view(), i as int);
            match r {
                Some(p) => spec == Some((p.0@, p.1 as int)),
                None => spec is None,
            }
        }),
{
    let ghost tsv = ts.deep_view();
    let n = ts.len();
    proof {
        assert(tsv[i as int] =~= ts@[i as int]@);
    }
    if is_ordinalish_exec(&ts[i]) {
        match book_at_exec(c, ts, i + 1) {
            Some(b) => {
                proof {
                    lemma_book_at_bounds(c@, tsv, i as int + 1, 0);
                }
                let j = i + 1 + c.books[b].words.len();
                let ord = crate::text::copy_token(&ts[i]);
                let braw = crate::norm::join_vec(&c.books[b].words);
                return after_book_exec(ts, j, ord, braw);
            },
            None => {},
        }
    }
    match book_at_exec(c, ts, i) {
        Some(b) => {
            proof {
                lemma_book_at_bounds(c@, tsv, i as int, 0);
            }
            let j = i + c.books[b].words.len();
            let ord: Vec<char> = Vec::new();
            let braw = crate::norm::join_vec(&c.books[b].words);
            after_book_exec(ts, j, ord, braw)
        },
        None => None,
    }
}

/// Scan a normalized token sequence for all candidate reference spans.
pub fn scan(c: &Canon, ts: &Vec<Vec<char>>) -> (r: Vec<Candidate>)
    requires
        c.wf(),
    ensures
        r.deep_view() == scan_spec(c@, ts.deep_view()),
{
    let ghost tsv = ts.deep_view();
    let mut r: Vec<Candidate> = Vec::new();
    let mut i: usize = 0;
    while i < ts.len()
        invariant
            c.wf(),
            tsv == ts.deep_view(),
            ts@.len() == tsv.len(),
            i <= tsv.len(),
            scan_spec(c@, tsv) == r.deep_view() + scan_from(c@, tsv, i as int),
        decreases ts@.len() - i,
    {
        match candidate_at_exec(c, ts, i) {
            None => {
                i = i + 1;
            },
            Some((cand, next)) => {
                proof {
                    lemma_candidate_at_bounds(c@, tsv, i as int);
                }
                let ghost cand_v = cand@;
                let ghost old_r = r.deep_view();
                r.push(cand);
                proof {
                    assert(r.deep_view() =~= old_r + seq![cand_v]);
                    assert(old_r + (seq![cand_v] + scan_from(c@, tsv, next as int)) =~= (old_r
                        + seq![cand_v]) + scan_from(c@, tsv, next as int));
                }
                i = next;
            },
        }
    }
    proof {
        assert(r.deep_view() + scan_from(c@, tsv, i as int) =~= r.deep_view());
    }
    r
}

} // verus!
