//! Recognition of scripture references in noisy speech transcripts.
//!
//! The library normalizes transcript text, scans it for book/chapter/verse
//! candidates, resolves book names by fuzzy matching, parses spoken numbers,
//! validates the result against the canon's structure, and keeps a
//! recency-ordered, de-duplicated buffer of confirmed references.

pub mod canon;
pub mod digits;
pub mod fuzzy;
pub mod laws;
pub mod numbers;
pub mod norm;
pub mod recency;
pub mod refs;
pub mod scan;
pub mod text;
pub mod word_to_num;
