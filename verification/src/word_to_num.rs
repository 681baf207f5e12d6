//! The spoken-number vocabulary: single number words and their values.

use vstd::prelude::*;

use crate::text::str_eq;

verus! {

/// Value of a single recognized number word; `None` for anything else.
/// Units and teens, the tens, and the scale word "hundred" are recognized;
/// "o"/"oh" are the spoken forms of zero that recognizers emit.
pub open spec fn word_value(w: Seq<char>) -> Option<u32> {
    if w == "o"@ || w == "oh"@ || w == "zero"@ {
        Some(0u32)
    } else if w == "one"@ {
        Some(1u32)
    } else if w == "two"@ {
        Some(2u32)
    } else if w == "three"@ {
        Some(3u32)
    } else if w == "four"@ {
        Some(4u32)
    } else if w == "five"@ {
        Some(5u32)
    } else if w == "six"@ {
        Some(6u32)
    } else if w == "seven"@ {
        Some(7u32)
    } else if w == "eight"@ {
        Some(8u32)
    } else if w == "nine"@ {
        Some(9u32)
    } else if w == "ten"@ {
        Some(10u32)
    } else if w == "eleven"@ {
        Some(11u32)
    } else if w == "twelve"@ {
        Some(12u32)
    } else if w == "thirteen"@ {
        Some(13u32)
    } else if w == "fourteen"@ {
        Some(14u32)
    } else if w == "fifteen"@ {
        Some(15u32)
    } else if w == "sixteen"@ {
        Some(16u32)
    } else if w == "seventeen"@ {
        Some(17u32)
    } else if w == "eighteen"@ {
        Some(18u32)
    } else if w == "nineteen"@ {
        Some(19u32)
    } else if w == "twenty"@ {
        Some(20u32)
    } else if w == "thirty"@ {
        Some(30u32)
    } else if w == "forty"@ {
        Some(40u32)
    } else if w == "fifty"@ {
        Some(50u32)
    } else if w == "sixty"@ {
        Some(60u32)
    } else if w == "seventy"@ {
        Some(70u32)
    } else if w == "eighty"@ {
        Some(80u32)
    } else if w == "ninety"@ {
        Some(90u32)
    } else if w == "hundred"@ {
        Some(100u32)
    } else {
        None
    }
}

/// Parse one number word. Returns its value, or an error for any word that
/// is not in the vocabulary.
pub fn parse(tok: &str) -> (r: Result<u32, &'static str>)
    ensures
        match r {
            Ok(v) => word_value(tok@) == Some(v),
            Err(e) => word_value(tok@) is None && e@ == "Invalid number word"@,
        },
{
    if str_eq(tok, "o") || str_eq(tok, "oh") || str_eq(tok, "zero") {
        Ok(0)
    } else if str_eq(tok, "one") {
        Ok(1)
    } else if str_eq(tok, "two") {
        Ok(2)
    } else if str_eq(tok, "three") {
        Ok(3)
    } else if str_eq(tok, "four") {
        Ok(4)
    } else if str_eq(tok, "five") {
        Ok(5)
    } else if str_eq(tok, "six") {
        Ok(6)
    } else if str_eq(tok, "seven") {
        Ok(7)
    } else if str_eq(tok, "eight") {
        Ok(8)
    } else if str_eq(tok, "nine") {
        Ok(9)
    } else if str_eq(tok, "ten") {
        Ok(10)
    } else if str_eq(tok, "eleven") {
        Ok(11)
    } else if str_eq(tok, "twelve") {
        Ok(12)
    } else if str_eq(tok, "thirteen") {
        Ok(13)
    } else if str_eq(tok, "fourteen") {
        Ok(14)
    } else if str_eq(tok, "fifteen") {
        Ok(15)
    } else if str_eq(tok, "sixteen") {
        Ok(16)
    } else if str_eq(tok, "seventeen") {
        Ok(17)
    } else if str_eq(tok, "eighteen") {
        Ok(18)
    } else if str_eq(tok, "nineteen") {
        Ok(19)
    } else if str_eq(tok, "twenty") {
        Ok(20)
    } else if str_eq(tok, "thirty") {
        Ok(30)
    } else if str_eq(tok, "forty") {
        Ok(40)
    } else if str_eq(tok, "fifty") {
        Ok(50)
    } else if str_eq(tok, "sixty") {
        Ok(60)
    } else if str_eq(tok, "seventy") {
        Ok(70)
    } else if str_eq(tok, "eighty") {
        Ok(80)
    } else if str_eq(tok, "ninety") {
        Ok(90)
    } else if str_eq(tok, "hundred") {
        Ok(100)
    } else {
        Err("Invalid number word")
    }
}

/// Parse one number word given as characters (the form the scanner holds).
pub fn word_value_of(w: &Vec<char>) -> (r: Option<u32>)
    ensures
        r == word_value(w@),
{
    let s = crate::text::string_from_chars(w);
    match parse(s.as_str()) {
        Ok(v) => Some(v),
        Err(_) => None,
    }
}

} // verus!
