//! Decimal digit strings: parsing digit tokens into numbers and rendering
//! numbers back as digit strings.

use vstd::prelude::*;

verus! {

/// Whether a character is a decimal digit.
pub open spec fn is_digit_char(c: char) -> bool {
    '0' <= c && c <= '9'
}

/// Numeric value of a digit character.
pub open spec fn digit_val(c: char) -> int {
    c as int - '0' as int
}

/// Whether a token is a non-empty string of decimal digits.
pub open spec fn all_digits(s: Seq<char>) -> bool {
    s.len() > 0 && forall|i: int| 0 <= i < s.len() ==> is_digit_char(s[i])
}

/// Numeric value of a digit string (most significant digit first).
pub open spec fn digits_val(s: Seq<char>) -> int
    decreases s.len(),
{
    if s.len() == 0 {
        0
    } else {
        digits_val(s.drop_last()) * 10 + digit_val(s.last())
    }
}

/// The value of a digit string is never negative.
pub proof fn lemma_digits_val_nonneg(s: Seq<char>)
    requires
        forall|i: int| 0 <= i < s.len() ==> is_digit_char(s[i]),
    ensures
        digits_val(s) >= 0,
    decreases s.len(),
{
    if s.len() > 0 {
        lemma_digits_val_nonneg(s.drop_last());
    }
}

/// Reading one more digit multiplies the prefix value by ten and adds it.
pub proof fn lemma_digits_val_extend(s: Seq<char>, i: int)
    requires
        0 <= i < s.len(),
    ensures
        digits_val(s.subrange(0, i + 1)) == digits_val(s.subrange(0, i)) * 10 + digit_val(s[i]),
{
    assert(s.subrange(0, i + 1).drop_last() =~= s.subrange(0, i));
}

/// Every prefix of a digit string has a value no larger than the whole.
pub proof fn lemma_digits_val_prefix(s: Seq<char>, i: int)
    requires
        forall|k: int| 0 <= k < s.len() ==> is_digit_char(s[k]),
        0 <= i <= s.len(),
    ensures
        digits_val(s.subrange(0, i)) <= digits_val(s),
    decreases s.len() - i,
{
    if i == s.len() {
        assert(s.subrange(0, i) =~= s);
    } else {
        lemma_digits_val_extend(s, i);
        lemma_digits_val_nonneg(s.subrange(0, i));
        lemma_digits_val_prefix(s, i + 1);
    }
}

/// Parse a token as a plain digit string; `None` when the token is not all
/// digits or its value does not fit in a `u64`.
pub fn parse_digits(t: &Vec<char>) -> (r: Option<u64>)
    ensures
        match r {
            Some(v) => all_digits(t@) && v as int == digits_val(t@),
            None => !all_digits(t@) || digits_val(t@) > u64::MAX,
        },
{
    if t.len() == 0 {
        return None;
    }
    let mut acc: u64 = 0;
    let mut i: usize = 0;
    while i < t.len()
        invariant
            t@.len() > 0,
            i <= t@.len(),
            forall|k: int| 0 <= k < i ==> is_digit_char(t@[k]),
            acc as int == digits_val(t@.subrange(0, i as int)),
        decreases t@.len() - i,
    {
        let c = t[i];
        if !('0' <= c && c <= '9') {
            return None;
        }
        let d: u64 = (c as u32 - '0' as u32) as u64;
        proof {
            lemma_digits_val_extend(t@, i as int);
        }
        if acc > (u64::MAX - d) / 10 {
            proof {
                if all_digits(t@) {
                    lemma_digits_val_prefix(t@, i as int + 1);
                }
            }
            return None;
        }
        acc = acc * 10 + d;
        i = i + 1;
    }
    proof {
        assert(t@.subrange(0, t@.len() as int) =~= t@);
    }
    Some(acc)
}

/// Digit character of a value below ten.
pub open spec fn digit_char(d: int) -> char {
    if d == 0 {
        '0'
    } else if d == 1 {
        '1'
    } else if d == 2 {
        '2'
    } else if d == 3 {
        '3'
    } else if d == 4 {
        '4'
    } else if d == 5 {
        '5'
    } else if d == 6 {
        '6'
    } else if d == 7 {
        '7'
    } else if d == 8 {
        '8'
    } else {
        '9'
    }
}

/// Decimal digits of a positive number; empty for zero and below.
pub open spec fn dec_pre(n: int) -> Seq<char>
    decreases n,
{
    if n <= 0 {
        Seq::empty()
    } else {
        dec_pre(n / 10).push(digit_char(n % 10))
    }
}

/// Decimal rendering of a non-negative number.
pub open spec fn dec_rep(n: int) -> Seq<char> {
    if n == 0 {
        seq!['0']
    } else {
        dec_pre(n)
    }
}

/// The decimal rendering of a positive number is a non-empty digit string
/// whose value is the number again.
pub proof fn lemma_dec_pre_val(n: int)
    requires
        n >= 0,
    ensures
        n > 0 ==> dec_pre(n).len() > 0,
        forall|j: int| 0 <= j < dec_pre(n).len() ==> is_digit_char(#[trigger] dec_pre(n)[j]),
        digits_val(dec_pre(n)) == n,
    decreases n,
{
    if n > 0 {
        lemma_dec_pre_val(n / 10);
        let d = n % 10;
        let pre = dec_pre(n / 10);
        assert(dec_pre(n) == pre.push(digit_char(d)));
        assert(dec_pre(n).drop_last() =~= pre);
        assert(is_digit_char(digit_char(d)));
        assert(digit_val(digit_char(d)) == d);
        assert forall|j: int| 0 <= j < dec_pre(n).len() implies is_digit_char(
            #[trigger] dec_pre(n)[j],
        ) by {
            if j < pre.len() {
                assert(dec_pre(n)[j] == pre[j]);
            }
        }
    }
}

/// The decimal rendering of a number is all digits and reads back as that
/// number.
pub proof fn lemma_dec_rep_val(n: int)
    requires
        n >= 0,
    ensures
        all_digits(dec_rep(n)),
        digits_val(dec_rep(n)) == n,
{
    if n == 0 {
        assert(dec_rep(0) == seq!['0']);
        assert(seq!['0'].len() == 1 && seq!['0'].last() == '0');
        assert(seq!['0'].drop_last() =~= Seq::<char>::empty());
        assert(digits_val(Seq::<char>::empty()) == 0);
        assert(digit_val('0') == 0);
        assert(digits_val(seq!['0']) == digits_val(seq!['0'].drop_last()) * 10 + digit_val(
            seq!['0'].last(),
        ));
    } else {
        lemma_dec_pre_val(n);
    }
}

/// Render a number as its decimal digit string.
pub fn u64_to_chars(n: u64) -> (r: Vec<char>)
    ensures
        r@ == dec_rep(n as int),
{
    if n == 0 {
        let mut r: Vec<char> = Vec::new();
        r.push('0');
        proof {
            assert(r@ =~= dec_rep(0));
        }
        return r;
    }
    let mut tmp: Vec<char> = Vec::new();
    let mut m: u64 = n;
    while m > 0
        invariant
            dec_pre(n as int) == dec_pre(m as int) + tmp@.reverse(),
        decreases m,
    {
        let d: u64 = m % 10;
        let c: char;
        if d == 0 {
            c = '0';
        } else if d == 1 {
            c = '1';
        } else if d == 2 {
            c = '2';
        } else if d == 3 {
            c = '3';
        } else if d == 4 {
            c = '4';
        } else if d == 5 {
            c = '5';
        } else if d == 6 {
            c = '6';
        } else if d == 7 {
            c = '7';
        } else if d == 8 {
            c = '8';
        } else {
            c = '9';
        }
        let ghost m0 = m as int;
        let ghost old_tmp = tmp@;
        tmp.push(c);
        m = m / 10;
        proof {
            assert(c == digit_char(m0 % 10));
            assert(dec_pre(m0) == dec_pre(m0 / 10).push(digit_char(m0 % 10)));
            assert(tmp@.reverse() =~= seq![c] + old_tmp.reverse());
            assert(dec_pre(m as int).push(c) =~= dec_pre(m as int) + seq![c]);
            assert((dec_pre(m as int) + seq![c]) + old_tmp.reverse() =~= dec_pre(m as int) + (
            seq![c] + old_tmp.reverse()));
        }
    }
    let mut r: Vec<char> = Vec::new();
    let k = tmp.len();
    let mut i: usize = 0;
    while i < k
        invariant
            k == tmp@.len(),
            i <= k,
            r@ == tmp@.reverse().subrange(0, i as int),
        decreases k - i,
    {
        r.push(tmp[k - 1 - i]);
        i = i + 1;
        proof {
            assert(r@ =~= tmp@.reverse().subrange(0, i as int));
        }
    }
    proof {
        assert(r@ =~= tmp@.reverse());
        assert(dec_pre(n as int) =~= tmp@.reverse());
    }
    r
}

} // verus!
