//! Parsing of spoken number phrases ("twenty one", "one hundred five") and
//! of plain digit tokens into numbers.

use vstd::prelude::*;

use crate::digits::all_digits;
use crate::digits::dec_rep;
use crate::digits::digits_val;
use crate::digits::parse_digits;
use crate::digits::u64_to_chars;
use crate::text::chars_of;
use crate::text::lower_seq;
use crate::text::lower_vec;
use crate::text::string_from_chars;
use crate::text::tokenize;
use crate::text::tokens_of;
use crate::word_to_num::word_value;
use crate::word_to_num::word_value_of;

verus! {

/// Hyphens become spaces, so that hyphenated compounds split into words.
pub open spec fn hyphens_to_spaces(s: Seq<char>) -> Seq<char> {
    s.map_values(|c: char| if c == '-' { ' ' } else { c })
}

/// The words of a number phrase: split on whitespace and hyphens.
pub open spec fn number_words_of(s: Seq<char>) -> Seq<Seq<char>> {
    tokens_of(hyphens_to_spaces(s))
}

/// Left-to-right accumulation of number words into a running subtotal:
/// units and tens add into it; "hundred" multiplies the subtotal (or one,
/// if nothing was accumulated yet) by one hundred. Any unrecognized word
/// yields no value.
pub open spec fn accum_words(ws: Seq<Seq<char>>, cur: int) -> Option<int>
    decreases ws.len(),
{
    if ws.len() == 0 {
        Some(cur)
    } else {
        match word_value(ws[0]) {
            Option::None => Option::None,
            Option::Some(v) => if v == 100 {
                accum_words(ws.drop_first(), (if cur == 0 { 1 } else { cur }) * 100)
            } else {
                accum_words(ws.drop_first(), cur + v)
            },
        }
    }
}

/// Accumulation never shrinks the subtotal.
pub proof fn lemma_accum_lower_bound(ws: Seq<Seq<char>>, cur: int)
    requires
        cur >= 0,
        accum_words(ws, cur) is Some,
    ensures
        accum_words(ws, cur)->Some_0 >= cur,
    decreases ws.len(),
{
    if ws.len() > 0 {
        match word_value(ws[0]) {
            Option::None => {},
            Option::Some(v) => {
                if v == 100 {
                    lemma_accum_lower_bound(ws.drop_first(), (if cur == 0 {
                        1int
                    } else {
                        cur
                    }) * 100);
                } else {
                    lemma_accum_lower_bound(ws.drop_first(), cur + v);
                }
            },
        }
    }
}

/// Value of a spoken number phrase. A single word of digits is read as a
/// plain number; otherwise every word must be a recognized number word and
/// the words accumulate left to right. An empty phrase has no value.
pub open spec fn phrase_value(s: Seq<char>) -> Option<int> {
    let ws = number_words_of(s);
    if ws.len() == 0 {
        Option::None
    } else if ws.len() == 1 && all_digits(ws[0]) {
        Option::Some(digits_val(ws[0]))
    } else {
        accum_words(ws, 0)
    }
}

/// The value of a spoken number phrase, lower-cased defensively first.
pub open spec fn spoken_number(s: Seq<char>) -> Option<int> {
    phrase_value(lower_seq(s))
}

/// A rendered decimal number reads back as itself when spoken.
pub proof fn lemma_spoken_number_of_digits(n: int)
    requires
        n >= 0,
    ensures
        spoken_number(dec_rep(n)) == Some(n),
{
    crate::digits::lemma_dec_rep_val(n);
    let w = dec_rep(n);
    assert forall|j: int| 0 <= j < w.len() implies crate::digits::is_digit_char(
        #[trigger] w[j],
    ) by {}
    assert(lower_seq(w) =~= w);
    assert(hyphens_to_spaces(w) =~= w);
    assert(crate::norm::join_tokens(seq![w]) == w);
    assert forall|t: int| 0 <= t < seq![w].len() implies (#[trigger] seq![w][t]).len() > 0 by {
        assert(seq![w][t] == w);
    }
    assert forall|t: int, j: int|
        0 <= t < seq![w].len() && 0 <= j < seq![w][t].len() implies !crate::text::is_space_char(
        #[trigger] seq![w][t][j],
    ) by {
        assert(seq![w][t] == w);
    }
    crate::text::lemma_tokens_of_join(seq![w]);
    assert(number_words_of(w) == seq![w]);
    assert(number_words_of(w)[0] == w);
}

/// Replace hyphens by spaces.
pub fn hyphens_out(s: &Vec<char>) -> (r: Vec<char>)
    ensures
        r@ == hyphens_to_spaces(s@),
{
    let mut r: Vec<char> = Vec::new();
    let mut i: usize = 0;
    while i < s.len()
        invariant
            i <= s@.len(),
            r@ == hyphens_to_spaces(s@.subrange(0, i as int)),
        decreases s@.len() - i,
    {
        if s[i] == '-' {
            r.push(' ');
        } else {
            r.push(s[i]);
        }
        i = i + 1;
        proof {
            assert(r@ =~= hyphens_to_spaces(s@.subrange(0, i as int)));
        }
    }
    proof {
        assert(s@.subrange(0, s@.len() as int) =~= s@);
    }
    r
}

/// Parse a number phrase given as characters (assumed already lower-cased
/// by the caller). Returns its value, or `None` when the phrase is empty,
/// holds an unrecognized word, or its value does not fit in a `u64`.
pub fn parse_phrase(s: &Vec<char>) -> (r: Option<u64>)
    ensures
        match r {
            Some(v) => phrase_value(s@) == Some(v as int),
            None => phrase_value(s@) is None || phrase_value(s@)->Some_0 > u64::MAX,
        },
{
    let flat = hyphens_out(s);
    let ws = tokenize(&flat);
    if ws.len() == 0 {
        return None;
    }
    if ws.len() == 1 {
        proof {
            assert(ws.deep_view()[0] =~= ws@[0]@);
        }
        if let Some(v) = parse_digits(&ws[0]) {
            return Some(v);
        }
        if all_digits_exec(&ws[0]) {
            // a digit string too large for a `u64`
            proof {
                crate::digits::lemma_digits_val_nonneg(ws@[0]@);
            }
            return None;
        }
    }
    let ghost wsv = ws.deep_view();
    proof {
        assert(wsv.skip(0) =~= wsv);
    }
    let mut cur: u64 = 0;
    let mut i: usize = 0;
    while i < ws.len()
        invariant
            ws.deep_view() == wsv,
            ws@.len() == wsv.len(),
            i <= wsv.len(),
            wsv == number_words_of(s@),
            wsv.len() > 0,
            !(wsv.len() == 1 && all_digits(wsv[0])),
            accum_words(wsv, 0) == accum_words(wsv.skip(i as int), cur as int),
        decreases ws@.len() - i,
    {
        proof {
            assert(wsv[i as int] =~= ws@[i as int]@);
            assert(wsv.skip(i as int)[0] == wsv[i as int]);
            assert(wsv.skip(i as int).drop_first() =~= wsv.skip(i as int + 1));
        }
        match word_value_of(&ws[i]) {
            None => {
                return None;
            },
            Some(v) => {
                if v == 100 {
                    let base: u64 = if cur == 0 {
                        1
                    } else {
                        cur
                    };
                    if base > u64::MAX / 100 {
                        proof {
                            overflow_none(wsv, i as int + 1, base as int * 100);
                        }
                        return None;
                    }
                    cur = base * 100;
                } else {
                    if cur > u64::MAX - v as u64 {
                        proof {
                            overflow_none(wsv, i as int + 1, cur as int + v as int);
                        }
                        return None;
                    }
                    cur = cur + v as u64;
                }
            },
        }
        i = i + 1;
    }
    proof {
        assert(wsv.skip(wsv.len() as int) =~= Seq::<Seq<char>>::empty());
    }
    Some(cur)
}

/// When the running subtotal has already outgrown a `u64`, the whole
/// phrase's value (if any) has too.
proof fn overflow_none(wsv: Seq<Seq<char>>, i: int, cur: int)
    requires
        0 <= i <= wsv.len(),
        cur > u64::MAX,
        accum_words(wsv, 0) == accum_words(wsv.skip(i), cur),
    ensures
        accum_words(wsv, 0) is None || accum_words(wsv, 0)->Some_0 > u64::MAX,
{
    if accum_words(wsv.skip(i), cur) is Some {
        lemma_accum_lower_bound(wsv.skip(i), cur);
    }
}

/// Whether a token is all digits.
pub fn all_digits_exec(t: &Vec<char>) -> (r: bool)
    ensures
        r == all_digits(t@),
{
    if t.len() == 0 {
        return false;
    }
    let mut i: usize = 0;
    while i < t.len()
        invariant
            t@.len() > 0,
            i <= t@.len(),
            forall|k: int| 0 <= k < i ==> crate::digits::is_digit_char(t@[k]),
        decreases t@.len() - i,
    {
        let c = t[i];
        if !('0' <= c && c <= '9') {
            return false;
        }
        i = i + 1;
    }
    true
}

/// Convert a spoken phrase to the decimal string of its value, e.g.
/// "twenty one" to "21". `None` when the phrase is empty, holds an
/// unrecognized word, or overflows the machine range.
pub fn word_to_number(token: &str) -> (r: Option<String>)
    ensures
        match r {
            Some(out) => spoken_number(token@) is Some && out@ == dec_rep(
                spoken_number(token@)->Some_0,
            ),
            None => spoken_number(token@) is None || spoken_number(token@)->Some_0 > u64::MAX,
        },
{
    let cs = chars_of(token);
    let low = lower_vec(&cs);
    match parse_phrase(&low) {
        Some(v) => {
            proof {
                if phrase_value(low@) is Some {
                    let ws = number_words_of(low@);
                    if ws.len() == 1 && all_digits(ws[0]) {
                        crate::digits::lemma_digits_val_nonneg(ws[0]);
                    } else if ws.len() > 0 {
                        lemma_accum_lower_bound(ws, 0);
                    }
                }
            }
            let d = u64_to_chars(v);
            Some(string_from_chars(&d))
        },
        None => None,
    }
}

} // verus!
