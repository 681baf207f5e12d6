//! End-to-end recognition scenarios.

use bible_refs::refs::bible_verse;
use bible_refs::refs::extract_bible_reference;

#[test]
fn john_three_sixteen() {
    let got = extract_bible_reference("john chapter three verse sixteen");
    assert_eq!(got, vec!["John 3:16".to_string()]);
}

#[test]
fn first_corinthians_thirteen_four() {
    let got = extract_bible_reference("first corinthians thirteen verse four");
    assert_eq!(got, vec!["1 Corinthians 13:4".to_string()]);
}

#[test]
fn genesis_verse_range() {
    let got = extract_bible_reference("genesis chapter two verses eight and nine");
    assert_eq!(got, vec!["Genesis 2:8-9".to_string()]);
}

#[test]
fn revelations_plural_normalized() {
    let got = extract_bible_reference("revelations twenty two verse three");
    assert_eq!(got, vec!["Revelation 22:3".to_string()]);
}

#[test]
fn noise_word_gives_nothing() {
    let got = extract_bible_reference("the");
    assert!(got.is_empty());
}

#[test]
fn fourth_john_is_rejected() {
    let got = extract_bible_reference("fourth john chapter one verse one");
    assert!(got.is_empty());
}

#[test]
fn second_corinthians_five_seventeen() {
    let got = extract_bible_reference("second corinthians chapter five verse seventeen");
    assert_eq!(got, vec!["2 Corinthians 5:17".to_string()]);
}

#[test]
fn out_of_range_verse_gives_nothing() {
    // John 3 has 36 verses
    let got = extract_bible_reference("john chapter three verse ninety nine");
    assert!(got.is_empty());
}

#[test]
fn out_of_range_chapter_gives_nothing() {
    let got = extract_bible_reference("john chapter ninety nine verse one");
    assert!(got.is_empty());
}

#[test]
fn bad_range_degrades_to_single_verse() {
    // end verse below the start: the range alone is dropped
    let got = extract_bible_reference("genesis chapter two verses nine to eight");
    assert_eq!(got, vec!["Genesis 2:9".to_string()]);
}

#[test]
fn range_with_through_connector() {
    let got = extract_bible_reference("matthew twenty eight verse nineteen through twenty");
    assert_eq!(got, vec!["Matthew 28:19-20".to_string()]);
}

#[test]
fn chapter_only_defaults_verse_one() {
    let got = extract_bible_reference("romans chapter six");
    assert_eq!(got, vec!["Romans 6:1".to_string()]);
}

#[test]
fn reference_inside_a_sentence() {
    let got = bible_verse("for the hope we have in john three verse sixteen amen");
    assert_eq!(got, vec!["John 3:16".to_string()]);
}

#[test]
fn psalms_plural_normalized() {
    let got = bible_verse("psalms twenty three verse one");
    assert_eq!(got, vec!["Psalm 23:1".to_string()]);
}

#[test]
fn two_references_in_one_fragment() {
    let got = bible_verse("john three verse sixteen and also romans ten verse nine");
    assert_eq!(got, vec!["John 3:16".to_string(), "Romans 10:9".to_string()]);
}

#[test]
fn digit_chapter_and_verse() {
    let got = extract_bible_reference("john 3 verse 16");
    assert_eq!(got, vec!["John 3:16".to_string()]);
}

#[test]
fn verse_abbreviation_is_expanded() {
    let got = extract_bible_reference("john 3 v 16");
    assert_eq!(got, vec!["John 3:16".to_string()]);
    let got = extract_bible_reference("genesis chapter two vs. eight and nine");
    assert_eq!(got, vec!["Genesis 2:8-9".to_string()]);
}

#[test]
fn third_john_resolves_through_the_ordinal() {
    let got = extract_bible_reference("third john chapter one verse one");
    assert_eq!(got, vec!["3 John 1:1".to_string()]);
}

#[test]
fn tenth_john_is_rejected() {
    let got = extract_bible_reference("tenth john chapter one verse one");
    assert!(got.is_empty());
}

#[test]
fn hyphenated_spoken_numbers() {
    let got = extract_bible_reference("psalm twenty-three verse one");
    assert_eq!(got, vec!["Psalm 23:1".to_string()]);
}

#[test]
fn ordinal_without_rule_book_keeps_the_plain_book() {
    // an unparsable ordinal prefix before the gospel leaves the gospel
    let got = extract_bible_reference("99999999999999999999 john chapter one verse one");
    assert_eq!(got, vec!["John 1:1".to_string()]);
}

#[test]
fn book_without_chapter_phrase_gives_nothing() {
    let got = extract_bible_reference("john");
    assert!(got.is_empty());
    let got = extract_bible_reference("i love the gospel of john so much");
    assert!(got.is_empty());
}
