//! Fuzzy resolution of a noisy book-name candidate against the canon.
//!
//! Scoring is done by an outside fuzzy matcher; what it returns is given a
//! name here, and the resolver's own contract is exact over that name: the
//! single best-scoring book is chosen, first-seen order breaking ties, and
//! only accepted at or above the acceptance threshold.

use vstd::prelude::*;

use fuzzy_matcher::FuzzyMatcher;

use crate::canon::Canon;
use crate::text::lower_seq;
use crate::text::lower_vec;

verus! {

/// The acceptance threshold of the fuzzy resolver: a tunable constant.
pub const ACCEPT_SCORE: i64 = 80;

/// The score that the outside fuzzy matcher assigns to a (choice, pattern)
/// pair; `None` when the pattern does not match the choice at all.
pub uninterp spec fn skim_score(choice: Seq<char>, pattern: Seq<char>) -> Option<i64>;

/// Relies on fuzzy_matcher's `SkimMatcherV2::fuzzy_match` in its default
/// configuration: a deterministic dynamic program whose score depends on
/// the two strings alone.
#[verifier::external_body]
fn skim_fuzzy_match(choice: &Vec<char>, pattern: &Vec<char>) -> (r: Option<i64>)
    ensures
        r == skim_score(choice@, pattern@),
{
    let c: String = choice.iter().collect();
    let p: String = pattern.iter().collect();
    let matcher = fuzzy_matcher::skim::SkimMatcherV2::default();
    matcher.fuzzy_match(&c, &p)
}

/// The score of one book's lower-cased name against a pattern.
pub open spec fn book_score(
    cv: Seq<(Seq<char>, Seq<u32>)>,
    i: int,
    pattern: Seq<char>,
) -> Option<i64> {
    skim_score(lower_seq(cv[i].0), pattern)
}

/// Best-scoring book among the first `n`, as an index/score pair; an
/// earlier book wins ties.
pub open spec fn best_upto(
    cv: Seq<(Seq<char>, Seq<u32>)>,
    pattern: Seq<char>,
    n: int,
) -> Option<(int, i64)>
    decreases n,
{
    if n <= 0 {
        None
    } else {
        let prev = best_upto(cv, pattern, n - 1);
        match book_score(cv, n - 1, pattern) {
            Option::None => prev,
            Option::Some(s) => match prev {
                Option::None => Some((n - 1, s)),
                Option::Some(p) => if s > p.1 {
                    Some((n - 1, s))
                } else {
                    prev
                },
            },
        }
    }
}

/// The resolved book for a pattern: the single best-scoring book, if its
/// score reaches the acceptance threshold.
pub open spec fn best_book_spec(cv: Seq<(Seq<char>, Seq<u32>)>, pattern: Seq<char>) -> Option<
    int,
> {
    match best_upto(cv, pattern, cv.len() as int) {
        Option::None => None,
        Option::Some(p) => if p.1 >= ACCEPT_SCORE {
            Some(p.0)
        } else {
            None
        },
    }
}

/// Resolve a noisy candidate to the index of the nearest book name, or
/// `None` when no book scores at or above the acceptance threshold.
pub fn fuzzy_book_match(c: &Canon, candidate: &Vec<char>) -> (r: Option<usize>)
    requires
        c.wf(),
    ensures
        match r {
            Some(bi) => bi < c@.len() && best_book_spec(c@, lower_seq(candidate@)) == Some(
                bi as int,
            ),
            None => best_book_spec(c@, lower_seq(candidate@)) is None,
        },
{
    let pattern = lower_vec(candidate);
    let mut best_idx: usize = 0;
    let mut best_score: i64 = 0;
    let mut have_best: bool = false;
    let mut i: usize = 0;
    while i < c.books.len()
        invariant
            c.wf(),
            i <= c@.len(),
            c@.len() == c.books@.len(),
            pattern@ == lower_seq(candidate@),
            have_best ==> best_idx < i,
            best_upto(c@, pattern@, i as int) == if have_best {
                Some((best_idx as int, best_score))
            } else {
                Option::<(int, i64)>::None
            },
        decreases c@.len() - i,
    {
        match skim_fuzzy_match(&c.books[i].lower, &pattern) {
            Some(score) => {
                if !have_best || score > best_score {
                    best_idx = i;
                    best_score = score;
                    have_best = true;
                }
            },
            None => {},
        }
        i = i + 1;
    }
    if have_best && best_score >= ACCEPT_SCORE {
        Some(best_idx)
    } else {
        None
    }
}

} // verus!
