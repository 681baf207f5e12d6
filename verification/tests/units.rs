//! Component-level behavior: normalization, spoken numbers, fuzzy
//! resolution, and the canon table.

use bible_refs::canon::canon;
use bible_refs::fuzzy::fuzzy_book_match;
use bible_refs::norm::normalize_ordinals;
use bible_refs::norm::normalize_text;
use bible_refs::numbers::word_to_number;
use bible_refs::word_to_num::parse;

#[test]
fn normalize_rewrites_ordinals_and_abbreviations() {
    assert_eq!(normalize_text("First Corinthians vs. 2"), "1 corinthians verses 2");
    assert_eq!(normalize_text("second kings v 5"), "2 kings verse 5");
    assert_eq!(normalize_text("third john"), "3 john");
}

#[test]
fn normalize_rewrites_plural_spellings() {
    assert_eq!(normalize_text("Psalms and Revelations"), "psalm and revelation");
    assert_eq!(normalize_text("songs of solomon"), "song of solomon");
    // "songs" alone is not a book spelling and stays
    assert_eq!(normalize_text("songs of songs"), "songs of songs");
}

#[test]
fn normalize_is_idempotent_on_samples() {
    for s in [
        "First Corinthians vs. 2",
        "Psalms and Revelations and songs of solomon",
        "john  chapter   three verse sixteen",
        "",
        "the quick brown fox",
    ] {
        let once = normalize_text(s);
        let twice = normalize_text(&once);
        assert_eq!(once, twice);
    }
}

#[test]
fn normalize_ordinals_only_rewrites_ordinal_words() {
    assert_eq!(normalize_ordinals("First john and second peter"), "1 john and 2 peter");
    assert_eq!(normalize_ordinals("THIRD John"), "3 John");
    assert_eq!(normalize_ordinals("vs. stays"), "vs. stays");
}

#[test]
fn normalize_ordinals_preserves_everything_else() {
    // case, spacing, and non-ordinal words stand exactly as they were
    assert_eq!(normalize_ordinals("A"), "A");
    assert_eq!(normalize_ordinals("First  Kings\tnow"), "1  Kings\tnow");
    assert_eq!(normalize_ordinals("firstly the first"), "firstly the 1");
    assert_eq!(normalize_ordinals(" first "), " 1 ");
}

#[test]
fn word_to_number_parses_spoken_phrases() {
    assert_eq!(word_to_number("sixteen"), Some("16".to_string()));
    assert_eq!(word_to_number("twenty one"), Some("21".to_string()));
    assert_eq!(word_to_number("twenty-one"), Some("21".to_string()));
    assert_eq!(word_to_number("one hundred five"), Some("105".to_string()));
    assert_eq!(word_to_number("hundred"), Some("100".to_string()));
    assert_eq!(word_to_number("7"), Some("7".to_string()));
    assert_eq!(word_to_number("007"), Some("7".to_string()));
}

#[test]
fn word_to_number_rejects_malformed_phrases() {
    assert_eq!(word_to_number(""), None);
    assert_eq!(word_to_number("   "), None);
    assert_eq!(word_to_number("twenty banana"), None);
    assert_eq!(word_to_number("banana"), None);
}

#[test]
fn number_word_table() {
    assert_eq!(parse("twenty"), Ok(20));
    assert_eq!(parse("oh"), Ok(0));
    assert_eq!(parse("hundred"), Ok(100));
    assert_eq!(parse("banana"), Err("Invalid number word"));
}

#[test]
fn fuzzy_resolves_close_candidates() {
    let c = canon();
    let cand: Vec<char> = "genesis".chars().collect();
    let got = fuzzy_book_match(&c, &cand);
    assert!(got.is_some());
    assert_eq!(c.books[got.unwrap()].name, "Genesis");

    let cand: Vec<char> = "john".chars().collect();
    let got = fuzzy_book_match(&c, &cand);
    assert!(got.is_some());
    assert_eq!(c.books[got.unwrap()].name, "John");
}

#[test]
fn fuzzy_resolves_a_noisy_spelling() {
    let c = canon();
    let cand: Vec<char> = "mathew".chars().collect();
    let got = fuzzy_book_match(&c, &cand);
    assert!(got.is_some());
    assert_eq!(c.books[got.unwrap()].name, "Matthew");
}

#[test]
fn fuzzy_never_resolves_unrelated_words() {
    let c = canon();
    let cand: Vec<char> = "banana".chars().collect();
    assert!(fuzzy_book_match(&c, &cand).is_none());
}

#[test]
fn canon_meets_the_recognition_law_shape() {
    let c = canon();
    assert!(bible_refs::laws::scan_clean_check(&c));
    // every book anchors the scanner unshadowed except the ordinal john
    // epistles, whose base word is itself a book name
    let mut shadowed: Vec<String> = Vec::new();
    for bi in 0..c.books.len() {
        if !bible_refs::laws::anchor_check(&c, bi) {
            shadowed.push(c.books[bi].name.clone());
        }
    }
    assert_eq!(shadowed, vec!["1 John", "2 John", "3 John"]);
}

#[test]
fn every_book_name_resolves_to_itself_but_job() {
    // "Job" is so short that even its exact name scores below the
    // acceptance threshold; every other book resolves to itself.
    let c = canon();
    for bi in 0..c.books.len() {
        let cand: Vec<char> = c.books[bi].lower.clone();
        let got = fuzzy_book_match(&c, &cand);
        if c.books[bi].name == "Job" {
            assert!(got.is_none());
        } else {
            assert!(got.is_some(), "{}", c.books[bi].name);
            assert_eq!(c.books[got.unwrap()].name, c.books[bi].name);
        }
    }
}

#[test]
fn canon_structure_is_loaded() {
    let c = canon();
    assert_eq!(c.books.len(), 66);
    let john = c.books.iter().find(|b| b.name == "John").unwrap();
    assert_eq!(john.chapters.len(), 21);
    assert_eq!(john.chapters[2], 36);
    let cor = c.books.iter().find(|b| b.name == "2 Corinthians").unwrap();
    assert_eq!(cor.chapters.len(), 13);
}
