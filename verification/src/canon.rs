//! The canon table: every book of the canon with its chapter structure
//! (the number of verses in each chapter), and lookup over it.
//!
//! The table is a compiled-in asset, constructed once per use and never
//! mutated. A canon value carries, besides each book's display name and
//! chapter structure, the lower-cased form of the name and its words,
//! precomputed for the scanner and the fuzzy resolver.

use vstd::prelude::*;

use crate::text::chars_of;
use crate::text::lower_seq;
use crate::text::lower_vec;
use crate::text::tokenize;
use crate::text::tokens_of;

verus! {

/// One book: display name (title-cased, possibly with a leading ordinal
/// digit), the lower-cased name, its words, and verse counts per chapter.
pub struct Book {
    pub name: String,
    pub lower: Vec<char>,
    pub words: Vec<Vec<char>>,
    pub chapters: Vec<u32>,
}

/// The canon: an ordered collection of books.
pub struct Canon {
    pub books: Vec<Book>,
}

impl View for Canon {
    type V = Seq<(Seq<char>, Seq<u32>)>;

    /// A canon is abstractly the sequence of its books, each a pair of
    /// display name and chapter structure.
    open spec fn view(&self) -> Seq<(Seq<char>, Seq<u32>)> {
        Seq::new(self.books@.len(), |i: int| (self.books@[i].name@, self.books@[i].chapters@))
    }
}

/// The words of a book name as the scanner sees them.
pub open spec fn name_words(name: Seq<char>) -> Seq<Seq<char>> {
    tokens_of(lower_seq(name))
}

impl Canon {
    /// The precomputed lower-cased fields agree with the names.
    pub open spec fn wf(&self) -> bool {
        forall|i: int|
            0 <= i < self.books@.len() ==> {
                &&& (#[trigger] self.books@[i]).lower@ == lower_seq(self.books@[i].name@)
                &&& self.books@[i].words.deep_view() == name_words(self.books@[i].name@)
            }
    }
}

/// First book at or after `i` whose lower-cased name is `key`.
pub open spec fn lookup_from(cv: Seq<(Seq<char>, Seq<u32>)>, key: Seq<char>, i: int) -> Option<
    int,
>
    decreases cv.len() - i,
{
    if i < 0 || i >= cv.len() {
        None
    } else if lower_seq(cv[i].0) == key {
        Some(i)
    } else {
        lookup_from(cv, key, i + 1)
    }
}

/// First book whose lower-cased name is `key`.
pub open spec fn lookup_spec(cv: Seq<(Seq<char>, Seq<u32>)>, key: Seq<char>) -> Option<int> {
    lookup_from(cv, key, 0)
}

/// Find the book whose lower-cased name is `key`.
pub fn lookup(c: &Canon, key: &Vec<char>) -> (r: Option<usize>)
    requires
        c.wf(),
    ensures
        match r {
            Some(bi) => bi < c@.len() && lookup_spec(c@, key@) == Some(bi as int),
            None => lookup_spec(c@, key@) is None,
        },
{
    let mut i: usize = 0;
    while i < c.books.len()
        invariant
            c.wf(),
            i <= c@.len(),
            c@.len() == c.books@.len(),
            lookup_spec(c@, key@) == lookup_from(c@, key@, i as int),
        decreases c@.len() - i,
    {
        if crate::text::tokens_eq(&c.books[i].lower, key) {
            return Some(i);
        }
        i = i + 1;
    }
    None
}

/// Append one book, precomputing its lower-cased name and words.
fn add_book(c: &mut Canon, name: &str, chapters: Vec<u32>)
    requires
        old(c).wf(),
    ensures
        final(c).wf(),
        final(c)@ == old(c)@.push((name@, chapters@)),
{
    let cs = chars_of(name);
    let lower = lower_vec(&cs);
    let words = tokenize(&lower);
    let ghost pre = c@;
    c.books.push(Book { name: name.to_owned(), lower, words, chapters });
    proof {
        assert(c@ =~= pre.push((name@, chapters@)));
    }
}

/// Part of the canon table.
pub open spec fn canon_part_1() -> Seq<(Seq<char>, Seq<u32>)> {
    seq![
        ("Genesis"@, seq![31u32, 25u32, 24u32, 26u32, 32u32, 22u32, 24u32, 22u32, 29u32, 32u32, 32u32, 20u32, 18u32, 24u32, 21u32, 16u32, 27u32, 33u32, 38u32, 18u32, 34u32, 24u32, 20u32, 67u32, 34u32, 35u32, 46u32, 22u32, 35u32, 43u32, 55u32, 32u32, 20u32, 31u32, 29u32, 43u32, 36u32, 30u32, 23u32, 23u32, 57u32, 38u32, 34u32, 34u32, 28u32, 34u32, 31u32, 22u32, 33u32, 26u32]),
        ("Exodus"@, seq![22u32, 25u32, 22u32, 31u32, 23u32, 30u32, 29u32, 28u32, 35u32, 29u32, 10u32, 51u32, 22u32, 31u32, 27u32, 36u32, 16u32, 27u32, 25u32, 26u32, 37u32, 30u32, 33u32, 18u32, 40u32, 37u32, 21u32, 43u32, 46u32, 38u32, 18u32, 35u32, 23u32, 35u32, 35u32, 38u32, 29u32, 31u32, 43u32, 38u32]),
        ("Leviticus"@, seq![17u32, 16u32, 17u32, 35u32, 26u32, 23u32, 38u32, 36u32, 24u32, 20u32, 47u32, 8u32, 59u32, 57u32, 33u32, 34u32, 16u32, 30u32, 33u32, 24u32, 23u32, 55u32, 46u32, 34u32, 34u32, 28u32, 34u32]),
        ("Numbers"@, seq![54u32, 34u32, 51u32, 49u32, 31u32, 27u32, 89u32, 26u32, 23u32, 36u32, 35u32, 16u32, 33u32, 45u32, 41u32, 35u32, 28u32, 32u32, 22u32, 29u32, 35u32, 41u32, 30u32, 25u32, 19u32, 36u32, 37u32, 27u32, 31u32, 33u32, 33u32, 35u32, 23u32, 34u32, 46u32, 34u32]),
        ("Deuteronomy"@, seq![46u32, 37u32, 29u32, 49u32, 33u32, 25u32, 26u32, 20u32, 29u32, 22u32, 32u32, 31u32, 19u32, 29u32, 23u32, 22u32, 20u32, 22u32, 21u32, 20u32, 23u32, 29u32, 26u32, 22u32, 19u32, 19u32, 26u32, 68u32, 29u32, 20u32, 30u32, 52u32, 29u32, 12u32]),
        ("Joshua"@, seq![18u32, 24u32, 17u32, 24u32, 15u32, 27u32, 26u32, 35u32, 27u32, 43u32, 23u32, 24u32, 33u32, 15u32, 63u32, 10u32, 18u32, 28u32, 51u32, 9u32, 45u32, 34u32, 16u32, 33u32]),
        ("Judges"@, seq![36u32, 23u32, 31u32, 24u32, 31u32, 40u32, 25u32, 35u32, 57u32, 18u32, 40u32, 15u32, 25u32, 20u32, 20u32, 31u32, 13u32, 31u32, 30u32, 48u32, 25u32]),
        ("Ruth"@, seq![22u32, 23u32, 18u32, 22u32]),
        ("1 Samuel"@, seq![28u32, 36u32, 21u32, 22u32, 12u32, 21u32, 17u32, 22u32, 24u32, 31u32, 15u32, 25u32, 23u32, 52u32, 35u32, 23u32, 58u32, 30u32, 24u32, 42u32, 15u32, 23u32, 29u32, 22u32, 44u32, 25u32, 12u32, 25u32, 11u32, 31u32, 13u32]),
        ("2 Samuel"@, seq![27u32, 32u32, 39u32, 12u32, 25u32, 23u32, 29u32, 18u32, 13u32, 19u32, 27u32, 31u32, 39u32, 33u32, 37u32, 23u32, 29u32, 33u32, 43u32, 26u32, 22u32, 51u32, 39u32, 25u32]),
        ("1 Kings"@, seq![53u32, 46u32, 28u32, 34u32, 18u32, 38u32, 51u32, 66u32, 28u32, 29u32, 43u32, 33u32, 34u32, 31u32, 34u32, 34u32, 24u32, 46u32, 21u32, 43u32, 29u32, 53u32]),
    ]
}

/// Part of the canon table.
pub open spec fn canon_part_2() -> Seq<(Seq<char>, Seq<u32>)> {
    seq![
        ("2 Kings"@, seq![18u32, 25u32, 27u32, 44u32, 27u32, 33u32, 20u32, 29u32, 37u32, 36u32, 21u32, 21u32, 25u32, 29u32, 38u32, 20u32, 41u32, 37u32, 37u32, 21u32, 26u32, 20u32, 37u32, 20u32, 30u32]),
        ("1 Chronicles"@, seq![54u32, 55u32, 24u32, 43u32, 26u32, 81u32, 40u32, 40u32, 44u32, 14u32, 47u32, 41u32, 14u32, 17u32, 29u32, 43u32, 27u32, 17u32, 19u32, 8u32, 30u32, 19u32, 32u32, 31u32, 31u32, 32u32, 34u32, 21u32, 30u32]),
        ("2 Chronicles"@, seq![17u32, 18u32, 17u32, 22u32, 14u32, 42u32, 22u32, 18u32, 31u32, 19u32, 23u32, 16u32, 23u32, 14u32, 19u32, 14u32, 19u32, 34u32, 11u32, 37u32, 20u32, 12u32, 21u32, 27u32, 28u32, 23u32, 9u32, 27u32, 36u32, 27u32, 21u32, 33u32, 25u32, 33u32, 27u32, 23u32]),
        ("Ezra"@, seq![11u32, 70u32, 13u32, 24u32, 17u32, 22u32, 28u32, 36u32, 15u32, 44u32]),
        ("Nehemiah"@, seq![11u32, 20u32, 32u32, 23u32, 19u32, 19u32, 73u32, 18u32, 38u32, 39u32, 36u32, 47u32, 31u32]),
        ("Esther"@, seq![22u32, 23u32, 15u32, 17u32, 14u32, 14u32, 10u32, 17u32, 32u32, 3u32]),
        ("Job"@, seq![22u32, 13u32, 26u32, 21u32, 27u32, 30u32, 21u32, 22u32, 35u32, 22u32, 20u32, 25u32, 28u32, 22u32, 35u32, 22u32, 16u32, 21u32, 29u32, 29u32, 34u32, 30u32, 17u32, 25u32, 6u32, 14u32, 23u32, 28u32, 25u32, 31u32, 40u32, 22u32, 33u32, 37u32, 16u32, 33u32, 24u32, 41u32, 30u32, 24u32, 34u32, 17u32]),
        ("Psalm"@, seq![6u32, 12u32, 8u32, 8u32, 12u32, 10u32, 17u32, 9u32, 20u32, 18u32, 7u32, 8u32, 6u32, 7u32, 5u32, 11u32, 15u32, 50u32, 14u32, 9u32, 13u32, 31u32, 6u32, 10u32, 22u32, 12u32, 14u32, 9u32, 11u32, 12u32, 24u32, 11u32, 22u32, 22u32, 28u32, 12u32, 40u32, 22u32, 13u32, 17u32, 13u32, 11u32, 5u32, 26u32, 17u32, 11u32, 9u32, 14u32, 20u32, 23u32, 19u32, 9u32, 6u32, 7u32, 23u32, 13u32, 11u32, 11u32, 17u32, 12u32, 8u32, 12u32, 11u32, 10u32, 13u32, 20u32, 7u32, 35u32, 36u32, 5u32, 24u32, 20u32, 28u32, 23u32, 10u32, 12u32, 20u32, 72u32, 13u32, 19u32, 16u32, 8u32, 18u32, 12u32, 13u32, 17u32, 7u32, 18u32, 52u32, 17u32, 16u32, 15u32, 5u32, 23u32, 11u32, 13u32, 12u32, 9u32, 9u32, 5u32, 8u32, 29u32, 22u32, 35u32, 45u32, 48u32, 43u32, 13u32, 31u32, 7u32, 10u32, 10u32, 9u32, 8u32, 18u32, 19u32, 2u32, 29u32, 176u32, 7u32, 8u32, 9u32, 4u32, 8u32, 5u32, 6u32, 5u32, 6u32, 8u32, 8u32, 3u32, 18u32, 3u32, 3u32, 21u32, 26u32, 9u32, 8u32, 24u32, 13u32, 10u32, 7u32, 12u32, 15u32, 21u32, 10u32, 20u32, 14u32, 9u32, 6u32]),
        ("Proverbs"@, seq![33u32, 22u32, 35u32, 27u32, 23u32, 35u32, 27u32, 36u32, 18u32, 32u32, 31u32, 28u32, 25u32, 35u32, 33u32, 33u32, 28u32, 24u32, 29u32, 30u32, 31u32, 29u32, 35u32, 34u32, 28u32, 28u32, 27u32, 28u32, 27u32, 33u32, 31u32]),
        ("Ecclesiastes"@, seq![18u32, 26u32, 22u32, 16u32, 20u32, 12u32, 29u32, 17u32, 18u32, 20u32, 10u32, 14u32]),
        ("Song Of Solomon"@, seq![17u32, 17u32, 11u32, 16u32, 16u32, 12u32, 14u32, 14u32]),
    ]
}

/// Part of the canon table.
pub open spec fn canon_part_3() -> Seq<(Seq<char>, Seq<u32>)> {
    seq![
        ("Isaiah"@, seq![31u32, 22u32, 25u32, 6u32, 30u32, 13u32, 22u32, 22u32, 21u32, 34u32, 16u32, 6u32, 22u32, 32u32, 9u32, 14u32, 14u32, 7u32, 25u32, 6u32, 17u32, 25u32, 18u32, 23u32, 12u32, 21u32, 13u32, 29u32, 24u32, 33u32, 9u32, 20u32, 24u32, 17u32, 10u32, 22u32, 38u32, 22u32, 8u32, 31u32, 29u32, 25u32, 28u32, 28u32, 25u32, 13u32, 15u32, 22u32, 26u32, 11u32, 23u32, 15u32, 12u32, 17u32, 13u32, 12u32, 21u32, 14u32, 21u32, 22u32, 11u32, 12u32, 19u32, 12u32, 25u32, 24u32, 23u32, 23u32, 57u32, 30u32, 34u32, 34u32, 28u32, 34u32, 31u32, 22u32, 44u32]),
        ("Jeremiah"@, seq![19u32, 37u32, 25u32, 31u32, 31u32, 30u32, 34u32, 22u32, 26u32, 25u32, 23u32, 17u32, 27u32, 22u32, 21u32, 21u32, 27u32, 23u32, 15u32, 18u32, 14u32, 30u32, 40u32, 10u32, 38u32, 24u32, 22u32, 17u32, 32u32, 24u32, 40u32, 44u32, 26u32, 22u32, 19u32, 32u32, 21u32, 28u32, 18u32, 16u32, 18u32, 22u32, 31u32, 7u32, 9u32, 28u32, 23u32, 27u32, 22u32, 17u32, 27u32, 21u32, 23u32, 15u32, 18u32, 14u32, 30u32, 40u32, 10u32, 38u32, 24u32, 22u32, 17u32, 32u32, 24u32, 40u32, 44u32, 26u32, 22u32, 19u32, 32u32, 21u32, 28u32, 18u32, 16u32, 18u32, 22u32, 31u32, 7u32, 9u32, 28u32, 23u32, 27u32, 22u32]),
        ("Lamentations"@, seq![22u32, 22u32, 66u32, 22u32, 22u32]),
        ("Ezekiel"@, seq![28u32, 10u32, 27u32, 17u32, 17u32, 14u32, 27u32, 18u32, 11u32, 22u32, 25u32, 28u32, 23u32, 23u32, 9u32, 27u32, 17u32, 22u32, 26u32, 20u32, 27u32, 31u32, 25u32, 24u32, 23u32, 35u32, 40u32, 23u32, 35u32, 27u32, 23u32, 34u32, 16u32, 33u32, 24u32, 23u32, 38u32, 23u32, 29u32, 49u32, 26u32, 20u32, 27u32, 31u32, 25u32, 24u32, 23u32, 35u32, 40u32, 23u32, 35u32, 27u32, 23u32, 34u32, 16u32, 33u32, 24u32, 23u32, 38u32, 23u32, 29u32]),
        ("Daniel"@, seq![21u32, 49u32, 30u32, 37u32, 31u32, 28u32, 28u32, 27u32, 27u32, 21u32, 45u32, 13u32]),
        ("Hosea"@, seq![11u32, 23u32, 5u32, 19u32, 15u32, 11u32, 16u32, 14u32, 17u32, 15u32, 12u32, 15u32, 11u32, 17u32]),
        ("Joel"@, seq![20u32, 32u32, 21u32]),
        ("Amos"@, seq![15u32, 16u32, 15u32, 13u32, 27u32, 14u32, 17u32, 14u32, 15u32]),
        ("Obadiah"@, seq![21u32]),
        ("Jonah"@, seq![17u32, 10u32, 10u32, 11u32]),
        ("Micah"@, seq![16u32, 13u32, 12u32, 13u32, 15u32, 16u32, 20u32]),
    ]
}

/// Part of the canon table.
pub open spec fn canon_part_4() -> Seq<(Seq<char>, Seq<u32>)> {
    seq![
        ("Nahum"@, seq![15u32, 13u32, 19u32]),
        ("Habakkuk"@, seq![17u32, 20u32, 19u32]),
        ("Zephaniah"@, seq![18u32, 15u32, 20u32]),
        ("Haggai"@, seq![15u32, 23u32]),
        ("Zechariah"@, seq![17u32, 17u32, 10u32, 14u32, 9u32, 11u32, 16u32, 6u32, 14u32, 10u32, 8u32, 12u32, 14u32, 18u32]),
        ("Malachi"@, seq![14u32, 17u32, 18u32, 6u32]),
        ("Matthew"@, seq![25u32, 23u32, 17u32, 25u32, 48u32, 34u32, 29u32, 34u32, 38u32, 42u32, 30u32, 50u32, 58u32, 36u32, 39u32, 28u32, 27u32, 35u32, 30u32, 34u32, 46u32, 46u32, 39u32, 51u32, 46u32, 75u32, 66u32, 20u32]),
        ("Mark"@, seq![45u32, 28u32, 35u32, 41u32, 43u32, 56u32, 37u32, 38u32, 50u32, 52u32, 33u32, 44u32, 37u32, 72u32, 47u32, 20u32]),
        ("Luke"@, seq![80u32, 52u32, 38u32, 44u32, 39u32, 49u32, 50u32, 56u32, 62u32, 42u32, 54u32, 59u32, 35u32, 35u32, 32u32, 31u32, 37u32, 43u32, 48u32, 47u32, 38u32, 71u32, 56u32, 53u32, 59u32, 37u32]),
        ("John"@, seq![51u32, 25u32, 36u32, 54u32, 47u32, 71u32, 53u32, 59u32, 41u32, 42u32, 57u32, 50u32, 38u32, 31u32, 27u32, 33u32, 26u32, 40u32, 42u32, 31u32, 25u32]),
        ("Acts"@, seq![26u32, 47u32, 26u32, 37u32, 42u32, 15u32, 60u32, 40u32, 43u32, 48u32, 30u32, 25u32, 52u32, 28u32, 41u32, 40u32, 34u32, 28u32, 41u32, 38u32, 40u32, 30u32, 35u32, 27u32, 27u32, 32u32, 44u32, 31u32]),
    ]
}

/// Part of the canon table.
pub open spec fn canon_part_5() -> Seq<(Seq<char>, Seq<u32>)> {
    seq![
        ("Romans"@, seq![32u32, 29u32, 31u32, 25u32, 21u32, 23u32, 25u32, 39u32, 33u32, 21u32, 36u32, 21u32, 14u32, 23u32, 33u32, 27u32]),
        ("1 Corinthians"@, seq![31u32, 16u32, 23u32, 21u32, 13u32, 20u32, 40u32, 13u32, 27u32, 33u32, 34u32, 31u32, 13u32, 40u32, 58u32, 24u32]),
        ("2 Corinthians"@, seq![24u32, 17u32, 18u32, 18u32, 21u32, 18u32, 16u32, 24u32, 15u32, 18u32, 33u32, 21u32, 13u32]),
        ("Galatians"@, seq![24u32, 21u32, 29u32, 31u32, 26u32, 18u32]),
        ("Ephesians"@, seq![23u32, 22u32, 21u32, 32u32, 33u32, 24u32]),
        ("Philippians"@, seq![30u32, 30u32, 21u32, 23u32]),
        ("Colossians"@, seq![29u32, 23u32, 25u32, 18u32]),
        ("1 Thessalonians"@, seq![10u32, 20u32, 13u32, 18u32, 28u32]),
        ("2 Thessalonians"@, seq![12u32, 17u32, 18u32]),
        ("1 Timothy"@, seq![20u32, 15u32, 16u32, 16u32, 25u32, 21u32]),
        ("2 Timothy"@, seq![18u32, 26u32, 17u32, 22u32]),
    ]
}

/// Part of the canon table.
pub open spec fn canon_part_6() -> Seq<(Seq<char>, Seq<u32>)> {
    seq![
        ("Titus"@, seq![16u32, 15u32, 15u32]),
        ("Philemon"@, seq![25u32]),
        ("Hebrews"@, seq![14u32, 18u32, 19u32, 16u32, 14u32, 20u32, 28u32, 13u32, 28u32, 39u32, 40u32, 29u32, 25u32]),
        ("James"@, seq![27u32, 26u32, 18u32, 17u32, 20u32]),
        ("1 Peter"@, seq![25u32, 25u32, 22u32, 19u32, 14u32]),
        ("2 Peter"@, seq![21u32, 22u32, 18u32]),
        ("1 John"@, seq![10u32, 29u32, 24u32, 21u32, 21u32]),
        ("2 John"@, seq![13u32]),
        ("3 John"@, seq![14u32]),
        ("Jude"@, seq![25u32]),
        ("Revelation"@, seq![20u32, 29u32, 22u32, 11u32, 14u32, 17u32, 17u32, 13u32, 21u32, 11u32, 19u32, 17u32, 18u32, 20u32, 8u32, 21u32, 18u32, 24u32, 21u32, 15u32, 21u32, 21u32]),
    ]
}

/// Append part of the canon table.
fn add_canon_part_1(c: &mut Canon)
    requires
        old(c).wf(),
    ensures
        final(c).wf(),
        final(c)@ == old(c)@ + canon_part_1(),
{
    let ghost pre = c@;
    add_book(c, "Genesis", vec![31,25,24,26,32,22,24,22,29,32,32,20,18,24,21,16,27,33,38,18,34,24,20,67,34,35,46,22,35,43,55,32,20,31,29,43,36,30,23,23,57,38,34,34,28,34,31,22,33,26]);
    add_book(c, "Exodus", vec![22,25,22,31,23,30,29,28,35,29,10,51,22,31,27,36,16,27,25,26,37,30,33,18,40,37,21,43,46,38,18,35,23,35,35,38,29,31,43,38]);
    add_book(c, "Leviticus", vec![17,16,17,35,26,23,38,36,24,20,47,8,59,57,33,34,16,30,33,24,23,55,46,34,34,28,34]);
    add_book(c, "Numbers", vec![54,34,51,49,31,27,89,26,23,36,35,16,33,45,41,35,28,32,22,29,35,41,30,25,19,36,37,27,31,33,33,35,23,34,46,34]);
    add_book(c, "Deuteronomy", vec![46,37,29,49,33,25,26,20,29,22,32,31,19,29,23,22,20,22,21,20,23,29,26,22,19,19,26,68,29,20,30,52,29,12]);
    add_book(c, "Joshua", vec![18,24,17,24,15,27,26,35,27,43,23,24,33,15,63,10,18,28,51,9,45,34,16,33]);
    add_book(c, "Judges", vec![36,23,31,24,31,40,25,35,57,18,40,15,25,20,20,31,13,31,30,48,25]);
    add_book(c, "Ruth", vec![22,23,18,22]);
    add_book(c, "1 Samuel", vec![28,36,21,22,12,21,17,22,24,31,15,25,23,52,35,23,58,30,24,42,15,23,29,22,44,25,12,25,11,31,13]);
    add_book(c, "2 Samuel", vec![27,32,39,12,25,23,29,18,13,19,27,31,39,33,37,23,29,33,43,26,22,51,39,25]);
    add_book(c, "1 Kings", vec![53,46,28,34,18,38,51,66,28,29,43,33,34,31,34,34,24,46,21,43,29,53]);
    proof {
        assert(c@ =~~= pre + canon_part_1());
    }
}

/// Append part of the canon table.
fn add_canon_part_2(c: &mut Canon)
    requires
        old(c).wf(),
    ensures
        final(c).wf(),
        final(c)@ == old(c)@ + canon_part_2(),
{
    let ghost pre = c@;
    add_book(c, "2 Kings", vec![18,25,27,44,27,33,20,29,37,36,21,21,25,29,38,20,41,37,37,21,26,20,37,20,30]);
    add_book(c, "1 Chronicles", vec![54,55,24,43,26,81,40,40,44,14,47,41,14,17,29,43,27,17,19,8,30,19,32,31,31,32,34,21,30]);
    add_book(c, "2 Chronicles", vec![17,18,17,22,14,42,22,18,31,19,23,16,23,14,19,14,19,34,11,37,20,12,21,27,28,23,9,27,36,27,21,33,25,33,27,23]);
    add_book(c, "Ezra", vec![11,70,13,24,17,22,28,36,15,44]);
    add_book(c, "Nehemiah", vec![11,20,32,23,19,19,73,18,38,39,36,47,31]);
    add_book(c, "Esther", vec![22,23,15,17,14,14,10,17,32,3]);
    add_book(c, "Job", vec![22,13,26,21,27,30,21,22,35,22,20,25,28,22,35,22,16,21,29,29,34,30,17,25,6,14,23,28,25,31,40,22,33,37,16,33,24,41,30,24,34,17]);
    add_book(c, "Psalm", vec![6,12,8,8,12,10,17,9,20,18,7,8,6,7,5,11,15,50,14,9,13,31,6,10,22,12,14,9,11,12,24,11,22,22,28,12,40,22,13,17,13,11,5,26,17,11,9,14,20,23,19,9,6,7,23,13,11,11,17,12,8,12,11,10,13,20,7,35,36,5,24,20,28,23,10,12,20,72,13,19,16,8,18,12,13,17,7,18,52,17,16,15,5,23,11,13,12,9,9,5,8,29,22,35,45,48,43,13,31,7,10,10,9,8,18,19,2,29,176,7,8,9,4,8,5,6,5,6,8,8,3,18,3,3,21,26,9,8,24,13,10,7,12,15,21,10,20,14,9,6]);
    add_book(c, "Proverbs", vec![33,22,35,27,23,35,27,36,18,32,31,28,25,35,33,33,28,24,29,30,31,29,35,34,28,28,27,28,27,33,31]);
    add_book(c, "Ecclesiastes", vec![18,26,22,16,20,12,29,17,18,20,10,14]);
    add_book(c, "Song Of Solomon", vec![17,17,11,16,16,12,14,14]);
    proof {
        assert(c@ =~~= pre + canon_part_2());
    }
}

/// Append part of the canon table.
#[verifier::rlimit(100)]
fn add_canon_part_3(c: &mut Canon)
    requires
        old(c).wf(),
    ensures
        final(c).wf(),
        final(c)@ == old(c)@ + canon_part_3(),
{
    let ghost pre = c@;
    add_book(c, "Isaiah", vec![31,22,25,6,30,13,22,22,21,34,16,6,22,32,9,14,14,7,25,6,17,25,18,23,12,21,13,29,24,33,9,20,24,17,10,22,38,22,8,31,29,25,28,28,25,13,15,22,26,11,23,15,12,17,13,12,21,14,21,22,11,12,19,12,25,24,23,23,57,30,34,34,28,34,31,22,44]);
    add_book(c, "Jeremiah", vec![19,37,25,31,31,30,34,22,26,25,23,17,27,22,21,21,27,23,15,18,14,30,40,10,38,24,22,17,32,24,40,44,26,22,19,32,21,28,18,16,18,22,31,7,9,28,23,27,22,17,27,21,23,15,18,14,30,40,10,38,24,22,17,32,24,40,44,26,22,19,32,21,28,18,16,18,22,31,7,9,28,23,27,22]);
    add_book(c, "Lamentations", vec![22,22,66,22,22]);
    add_book(c, "Ezekiel", vec![28,10,27,17,17,14,27,18,11,22,25,28,23,23,9,27,17,22,26,20,27,31,25,24,23,35,40,23,35,27,23,34,16,33,24,23,38,23,29,49,26,20,27,31,25,24,23,35,40,23,35,27,23,34,16,33,24,23,38,23,29]);
    add_book(c, "Daniel", vec![21,49,30,37,31,28,28,27,27,21,45,13]);
    add_book(c, "Hosea", vec![11,23,5,19,15,11,16,14,17,15,12,15,11,17]);
    add_book(c, "Joel", vec![20,32,21]);
    add_book(c, "Amos", vec![15,16,15,13,27,14,17,14,15]);
    add_book(c, "Obadiah", vec![21]);
    add_book(c, "Jonah", vec![17,10,10,11]);
    add_book(c, "Micah", vec![16,13,12,13,15,16,20]);
    proof {
        assert(c@ =~~= pre + canon_part_3());
    }
}

/// Append part of the canon table.
fn add_canon_part_4(c: &mut Canon)
    requires
        old(c).wf(),
    ensures
        final(c).wf(),
        final(c)@ == old(c)@ + canon_part_4(),
{
    let ghost pre = c@;
    add_book(c, "Nahum", vec![15,13,19]);
    add_book(c, "Habakkuk", vec![17,20,19]);
    add_book(c, "Zephaniah", vec![18,15,20]);
    add_book(c, "Haggai", vec![15,23]);
    add_book(c, "Zechariah", vec![17,17,10,14,9,11,16,6,14,10,8,12,14,18]);
    add_book(c, "Malachi", vec![14,17,18,6]);
    add_book(c, "Matthew", vec![25,23,17,25,48,34,29,34,38,42,30,50,58,36,39,28,27,35,30,34,46,46,39,51,46,75,66,20]);
    add_book(c, "Mark", vec![45,28,35,41,43,56,37,38,50,52,33,44,37,72,47,20]);
    add_book(c, "Luke", vec![80,52,38,44,39,49,50,56,62,42,54,59,35,35,32,31,37,43,48,47,38,71,56,53,59,37]);
    add_book(c, "John", vec![51,25,36,54,47,71,53,59,41,42,57,50,38,31,27,33,26,40,42,31,25]);
    add_book(c, "Acts", vec![26,47,26,37,42,15,60,40,43,48,30,25,52,28,41,40,34,28,41,38,40,30,35,27,27,32,44,31]);
    proof {
        assert(c@ =~~= pre + canon_part_4());
    }
}

/// Append part of the canon table.
fn add_canon_part_5(c: &mut Canon)
    requires
        old(c).wf(),
    ensures
        final(c).wf(),
        final(c)@ == old(c)@ + canon_part_5(),
{
    let ghost pre = c@;
    add_book(c, "Romans", vec![32,29,31,25,21,23,25,39,33,21,36,21,14,23,33,27]);
    add_book(c, "1 Corinthians", vec![31,16,23,21,13,20,40,13,27,33,34,31,13,40,58,24]);
    add_book(c, "2 Corinthians", vec![24,17,18,18,21,18,16,24,15,18,33,21,13]);
    add_book(c, "Galatians", vec![24,21,29,31,26,18]);
    add_book(c, "Ephesians", vec![23,22,21,32,33,24]);
    add_book(c, "Philippians", vec![30,30,21,23]);
    add_book(c, "Colossians", vec![29,23,25,18]);
    add_book(c, "1 Thessalonians", vec![10,20,13,18,28]);
    add_book(c, "2 Thessalonians", vec![12,17,18]);
    add_book(c, "1 Timothy", vec![20,15,16,16,25,21]);
    add_book(c, "2 Timothy", vec![18,26,17,22]);
    proof {
        assert(c@ =~~= pre + canon_part_5());
    }
}

/// Append part of the canon table.
#[verifier::rlimit(100)]
fn add_canon_part_6(c: &mut Canon)
    requires
        old(c).wf(),
    ensures
        final(c).wf(),
        final(c)@ == old(c)@ + canon_part_6(),
{
    let ghost pre = c@;
    add_book(c, "Titus", vec![16,15,15]);
    add_book(c, "Philemon", vec![25]);
    add_book(c, "Hebrews", vec![14,18,19,16,14,20,28,13,28,39,40,29,25]);
    add_book(c, "James", vec![27,26,18,17,20]);
    add_book(c, "1 Peter", vec![25,25,22,19,14]);
    add_book(c, "2 Peter", vec![21,22,18]);
    add_book(c, "1 John", vec![10,29,24,21,21]);
    add_book(c, "2 John", vec![13]);
    add_book(c, "3 John", vec![14]);
    add_book(c, "Jude", vec![25]);
    add_book(c, "Revelation", vec![20,29,22,11,14,17,17,13,21,11,19,17,18,20,8,21,18,24,21,15,21,21]);
    proof {
        assert(c@ =~~= pre + canon_part_6());
    }
}

/// The whole canon table: book name and verse counts per chapter.
pub open spec fn canon_table() -> Seq<(Seq<char>, Seq<u32>)> {
    canon_part_1() + canon_part_2() + canon_part_3() + canon_part_4() + canon_part_5() + canon_part_6()
}

/// Construct the canon.
pub fn canon() -> (c: Canon)
    ensures
        c.wf(),
        c@ == canon_table(),
{
    let mut c = Canon { books: Vec::new() };
    proof {
        assert(c@ =~= Seq::<(Seq<char>, Seq<u32>)>::empty());
    }
    add_canon_part_1(&mut c);
    add_canon_part_2(&mut c);
    add_canon_part_3(&mut c);
    add_canon_part_4(&mut c);
    add_canon_part_5(&mut c);
    add_canon_part_6(&mut c);
    proof {
        assert(c@ =~= canon_table());
    }
    c
}

} // verus!
