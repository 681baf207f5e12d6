//! Reference validation and formatting: candidates are resolved against
//! the canon, their numbers parsed and bounds-checked, and the survivors
//! formatted as canonical reference strings.
//!
//! Every validation failure silently discards the candidate: transcript
//! noise is the expected steady state. A captured verse-range end that
//! fails to parse or lies out of bounds only degrades the reference to a
//! single verse; it never discards the whole candidate.

use vstd::prelude::*;

use crate::canon::Canon;
use crate::canon::canon;
use crate::canon::canon_table;
use crate::canon::lookup;
use crate::canon::lookup_spec;
use crate::digits::all_digits;
use crate::digits::dec_rep;
use crate::digits::digits_val;
use crate::digits::parse_digits;
use crate::digits::u64_to_chars;
use crate::fuzzy::best_book_spec;
use crate::fuzzy::fuzzy_book_match;
use crate::norm::normal_tokens_of;
use crate::norm::normalize_tokens;
use crate::numbers::all_digits_exec;
use crate::numbers::parse_phrase;
use crate::numbers::spoken_number;
use crate::scan::Candidate;
use crate::scan::CandidateSpec;
use crate::scan::ordinal_word_value;
use crate::scan::scan;
use crate::scan::scan_spec;
use crate::text::chars_of;
use crate::text::extend_chars;
use crate::text::lower_seq;
use crate::text::lower_vec;
use crate::text::string_from_chars;
use crate::text::token_is;
use crate::text::tokenize;

verus! {

/// Numeric value of a captured ordinal token: a digit string that fits the
/// machine range, or a recognized ordinal word.
pub open spec fn ordinal_num(w: Seq<char>) -> Option<u64> {
    if all_digits(w) && digits_val(w) <= u64::MAX {
        Some(digits_val(w) as u64)
    } else {
        match ordinal_word_value(w) {
            Option::Some(n) => Some(n as u64),
            Option::None => None,
        }
    }
}

/// Numeric value of a captured ordinal token.
pub fn ordinal_num_exec(w: &Vec<char>) -> (r: Option<u64>)
    ensures
        r == ordinal_num(w@),
{
    match parse_digits(w) {
        Some(n) => Some(n),
        None => {
            if all_digits_exec(w) {
                // all digits, but too large for the machine range; a digit
                // string is no ordinal word
                proof {
                    crate::digits::lemma_digits_val_nonneg(w@);
                    reveal_strlit("fourth");
                    reveal_strlit("fifth");
                    reveal_strlit("sixth");
                    reveal_strlit("seventh");
                    reveal_strlit("eighth");
                    reveal_strlit("ninth");
                    reveal_strlit("tenth");
                    assert(crate::digits::is_digit_char(w@[0]));
                }
                None
            } else if token_is(w, "fourth") {
                Some(4)
            } else if token_is(w, "fifth") {
                Some(5)
            } else if token_is(w, "sixth") {
                Some(6)
            } else if token_is(w, "seventh") {
                Some(7)
            } else if token_is(w, "eighth") {
                Some(8)
            } else if token_is(w, "ninth") {
                Some(9)
            } else if token_is(w, "tenth") {
                Some(10)
            } else {
                None
            }
        },
    }
}

/// The largest ordinal prefix an ordinal book family admits.
pub open spec fn ordinal_rule_max(base: Seq<char>) -> Option<u64> {
    if base == "samuel"@ || base == "kings"@ || base == "chronicles"@ || base == "corinthians"@
        || base == "thessalonians"@ || base == "timothy"@ || base == "peter"@ {
        Some(2u64)
    } else {
        None
    }
}

/// The largest ordinal prefix an ordinal book family admits.
pub fn ordinal_rule_max_exec(base: &Vec<char>) -> (r: Option<u64>)
    ensures
        r == ordinal_rule_max(base@),
{
    if token_is(base, "samuel") || token_is(base, "kings") || token_is(base, "chronicles")
        || token_is(base, "corinthians") || token_is(base, "thessalonians") || token_is(
        base,
        "timothy",
    ) || token_is(base, "peter") {
        Some(2)
    } else {
        None
    }
}

/// The lower-cased lookup key a resolved book and captured ordinal yield:
/// "john" admits ordinals one to three (whose absence means the gospel);
/// the ordinal book families require an ordinal within their rule; any
/// other resolved name stands alone. `None` means the candidate is
/// rejected outright.
pub open spec fn resolve_key(fb: Seq<char>, ordinal: Seq<char>) -> Option<Seq<char>> {
    if fb == "john"@ {
        match ordinal_num(ordinal) {
            Option::Some(n) => Some(dec_rep(n as int) + seq![' '] + fb),
            Option::None => Some(fb),
        }
    } else {
        match ordinal_rule_max(fb) {
            Option::Some(mx) => match ordinal_num(ordinal) {
                Option::Some(n) => if 1 <= n <= mx {
                    Some(dec_rep(n as int) + seq![' '] + fb)
                } else {
                    None
                },
                Option::None => None,
            },
            Option::None => Some(fb),
        }
    }
}

/// The canon book a candidate resolves to: fuzzy resolution of the raw
/// book text, ordinal-rule enforcement, and lookup of the resulting key.
pub open spec fn resolve_book(cv: Seq<(Seq<char>, Seq<u32>)>, cand: CandidateSpec) -> Option<int> {
    match best_book_spec(cv, lower_seq(cand.book_raw)) {
        Option::None => None,
        Option::Some(b) => match resolve_key(lower_seq(cv[b].0), cand.ordinal) {
            Option::None => None,
            Option::Some(key) => lookup_spec(cv, key),
        },
    }
}

/// The canonical textual form of a validated reference.
pub open spec fn format_spec(name: Seq<char>, c: int, v: int, e: Option<int>) -> Seq<char> {
    let base = name + seq![' '] + dec_rep(c) + seq![':'] + dec_rep(v);
    match e {
        Option::None => base,
        Option::Some(x) => base + seq!['-'] + dec_rep(x),
    }
}

/// The reference a candidate validates to, if any: the book must resolve,
/// the chapter and verse must parse and lie within the canon's bounds, and
/// a captured end verse is kept only when it parses and `verse-start <=
/// end <= ` the chapter's verse count (otherwise the range alone is
/// dropped).
pub open spec fn validate_spec(cv: Seq<(Seq<char>, Seq<u32>)>, cand: CandidateSpec) -> Option<
    Seq<char>,
> {
    match resolve_book(cv, cand) {
        Option::None => None,
        Option::Some(k) => {
            let name = cv[k].0;
            let chapters = cv[k].1;
            match spoken_number(cand.chapter) {
                Option::None => None,
                Option::Some(c) => if c < 1 || c > chapters.len() {
                    None
                } else {
                    let limit = chapters[c - 1] as int;
                    let vopt = if cand.verse.len() == 0 {
                        Some(1int)
                    } else {
                        spoken_number(cand.verse)
                    };
                    match vopt {
                        Option::None => None,
                        Option::Some(v) => if v < 1 || v > limit {
                            None
                        } else {
                            let e = if cand.verse_end.len() == 0 {
                                Option::<int>::None
                            } else {
                                match spoken_number(cand.verse_end) {
                                    Option::None => None,
                                    Option::Some(x) => if v <= x <= limit {
                                        Some(x)
                                    } else {
                                        None
                                    },
                                }
                            };
                            Some(format_spec(name, c, v, e))
                        },
                    }
                },
            }
        },
    }
}

/// Validate one candidate against the canon, formatting the survivor.
pub fn validate_candidate(c: &Canon, cand: &Candidate) -> (r: Option<String>)
    requires
        c.wf(),
    ensures
        match r {
            Some(s) => validate_spec(c@, cand@) == Some(s@),
            None => validate_spec(c@, cand@) is None,
        },
{
    let b = match fuzzy_book_match(c, &cand.book_raw) {
        Some(b) => b,
        None => {
            return None;
        },
    };
    // build the lookup key from the resolved lower-cased name and ordinal
    let fb = &c.books[b].lower;
    let ord = ordinal_num_exec(&cand.ordinal);
    let mut key: Vec<char>;
    if token_is(fb, "john") {
        match ord {
            Some(n) => {
                key = u64_to_chars(n);
                key.push(' ');
                extend_chars(&mut key, fb);
                proof {
                    assert(key@ =~= dec_rep(ord->Some_0 as int) + seq![' '] + fb@);
                }
            },
            None => {
                key = crate::text::copy_token(fb);
            },
        }
    } else {
        match ordinal_rule_max_exec(fb) {
            Some(mx) => {
                match ord {
                    Some(n) => {
                        if !(1 <= n && n <= mx) {
                            return None;
                        }
                        key = u64_to_chars(n);
                        key.push(' ');
                        extend_chars(&mut key, fb);
                        proof {
                            assert(key@ =~= dec_rep(ord->Some_0 as int) + seq![' '] + fb@);
                        }
                    },
                    None => {
                        return None;
                    },
                }
            },
            None => {
                key = crate::text::copy_token(fb);
            },
        }
    }
    let k = match lookup(c, &key) {
        Some(k) => k,
        None => {
            return None;
        },
    };
    // chapter
    let chapters = &c.books[k].chapters;
    let nch = chapters.len();
    let chap_low = lower_vec(&cand.chapter);
    let chap = match parse_phrase(&chap_low) {
        Some(v) => v,
        None => {
            return None;
        },
    };
    if chap < 1 || chap > nch as u64 {
        return None;
    }
    let limit: u32 = chapters[(chap - 1) as usize];
    // verse start (defaults to one when the phrase was absent)
    let verse: u64;
    if cand.verse.len() == 0 {
        verse = 1;
    } else {
        let verse_low = lower_vec(&cand.verse);
        match parse_phrase(&verse_low) {
            Some(v) => {
                verse = v;
            },
            None => {
                return None;
            },
        }
    }
    if verse < 1 || verse > limit as u64 {
        return None;
    }
    // verse end: kept only when it parses and lies within bounds
    let mut vend: Option<u64> = None;
    if cand.verse_end.len() > 0 {
        let end_low = lower_vec(&cand.verse_end);
        match parse_phrase(&end_low) {
            Some(x) => {
                if verse <= x && x <= limit as u64 {
                    vend = Some(x);
                }
            },
            None => {},
        }
    }
    // format
    let mut out = chars_of(c.books[k].name.as_str());
    out.push(' ');
    let cd = u64_to_chars(chap);
    extend_chars(&mut out, &cd);
    out.push(':');
    let vd = u64_to_chars(verse);
    extend_chars(&mut out, &vd);
    match vend {
        Some(x) => {
            out.push('-');
            let ed = u64_to_chars(x);
            extend_chars(&mut out, &ed);
            proof {
                assert(out@ =~= format_spec(
                    c@[k as int].0,
                    chap as int,
                    verse as int,
                    Some(x as int),
                ));
            }
        },
        None => {
            proof {
                assert(out@ =~= format_spec(
                    c@[k as int].0,
                    chap as int,
                    verse as int,
                    Option::<int>::None,
                ));
            }
        },
    }
    Some(string_from_chars(&out))
}

/// All validated references of a candidate sequence, in order.
pub open spec fn refs_of_candidates(
    cv: Seq<(Seq<char>, Seq<u32>)>,
    cs: Seq<CandidateSpec>,
) -> Seq<Seq<char>>
    decreases cs.len(),
{
    if cs.len() == 0 {
        Seq::empty()
    } else {
        match validate_spec(cv, cs[0]) {
            Option::None => refs_of_candidates(cv, cs.drop_first()),
            Option::Some(r) => seq![r] + refs_of_candidates(cv, cs.drop_first()),
        }
    }
}

/// Every canonical reference a transcript yields: normalization, scanning,
/// resolution, validation, formatting, in order of appearance.
pub open spec fn extract_spec(cv: Seq<(Seq<char>, Seq<u32>)>, input: Seq<char>) -> Seq<Seq<char>> {
    refs_of_candidates(cv, scan_spec(cv, normal_tokens_of(input)))
}

/// Extract every validated reference of a transcript against a canon.
pub fn extract_refs(c: &Canon, input: &str) -> (r: Vec<String>)
    requires
        c.wf(),
    ensures
        r.deep_view() == extract_spec(c@, input@),
{
    let cs = chars_of(input);
    let low = lower_vec(&cs);
    let ts = tokenize(&low);
    let ns = normalize_tokens(&ts);
    let cands = scan(c, &ns);
    let ghost cv = c@;
    let ghost candsv = cands.deep_view();
    proof {
        assert(candsv.skip(0) =~= candsv);
    }
    let mut r: Vec<String> = Vec::new();
    let mut i: usize = 0;
    while i < cands.len()
        invariant
            c.wf(),
            c@ == cv,
            cands.deep_view() == candsv,
            cands@.len() == candsv.len(),
            i <= candsv.len(),
            refs_of_candidates(cv, candsv) == r.deep_view() + refs_of_candidates(
                cv,
                candsv.skip(i as int),
            ),
        decreases cands@.len() - i,
    {
        proof {
            assert(candsv[i as int] == cands@[i as int]@);
            assert(candsv.skip(i as int)[0] == candsv[i as int]);
            assert(candsv.skip(i as int).drop_first() =~= candsv.skip(i as int + 1));
        }
        match validate_candidate(c, &cands[i]) {
            Some(s) => {
                let ghost sv = s@;
                let ghost old_r = r.deep_view();
                r.push(s);
                proof {
                    assert(r.deep_view() =~~= old_r + seq![sv]);
                    assert(old_r + (seq![sv] + refs_of_candidates(cv, candsv.skip(i as int + 1)))
                        =~= (old_r + seq![sv]) + refs_of_candidates(cv, candsv.skip(i as int + 1)));
                }
            },
            None => {},
        }
        i = i + 1;
    }
    proof {
        assert(candsv.skip(candsv.len() as int) =~= Seq::<CandidateSpec>::empty());
        assert(r.deep_view() + refs_of_candidates(cv, candsv.skip(candsv.len() as int))
            =~= r.deep_view());
    }
    r
}

/// Extract every scripture reference a transcript fragment yields, as
/// canonical strings, in order of appearance.
pub fn extract_bible_reference(input: &str) -> (r: Vec<String>)
    ensures
        r.deep_view() == extract_spec(canon_table(), input@),
{
    let c = canon();
    extract_refs(&c, input)
}

/// Extract every scripture reference a transcript fragment yields. The
/// same recognition pipeline as `extract_bible_reference`, under the name
/// the transcript consumer uses.
pub fn bible_verse(input: &str) -> (r: Vec<String>)
    ensures
        r.deep_view() == extract_spec(canon_table(), input@),
{
    extract_bible_reference(input)
}

} // verus!
