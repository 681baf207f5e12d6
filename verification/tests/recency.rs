//! Recency buffer and session behavior.

use bible_refs::recency::RecencyBuffer;
use bible_refs::recency::Session;

#[test]
fn distinct_references_keep_their_order() {
    let mut b = RecencyBuffer::new();
    b.record("John 3:16".to_string());
    b.record("Romans 10:9".to_string());
    b.record("Genesis 1:1".to_string());
    assert_eq!(b.snapshot(), vec!["John 3:16", "Romans 10:9", "Genesis 1:1"]);
}

#[test]
fn repeat_moves_to_tail_without_duplicating() {
    let mut b = RecencyBuffer::new();
    b.record("John 3:16".to_string());
    b.record("Romans 10:9".to_string());
    b.record("Genesis 1:1".to_string());
    b.record("John 3:16".to_string());
    assert_eq!(b.snapshot(), vec!["Romans 10:9", "Genesis 1:1", "John 3:16"]);
    assert_eq!(b.len(), 3);
}

#[test]
fn repeat_at_tail_is_a_no_op_for_order() {
    let mut b = RecencyBuffer::new();
    b.record("John 3:16".to_string());
    b.record("Romans 10:9".to_string());
    b.record("Romans 10:9".to_string());
    assert_eq!(b.snapshot(), vec!["John 3:16", "Romans 10:9"]);
}

#[test]
fn session_records_what_it_returns() {
    let mut s = Session::new();
    let got = s.process("john chapter three verse sixteen");
    assert_eq!(got, vec!["John 3:16".to_string()]);
    let got = s.process("keeping in mind romans six verse twenty three");
    assert_eq!(got, vec!["Romans 6:23".to_string()]);
    assert_eq!(s.snapshot(), vec!["John 3:16", "Romans 6:23"]);

    // a repeat detection refreshes the earlier entry
    let got = s.process("john three verse sixteen");
    assert_eq!(got, vec!["John 3:16".to_string()]);
    assert_eq!(s.snapshot(), vec!["Romans 6:23", "John 3:16"]);
}

#[test]
fn session_ignores_noise() {
    let mut s = Session::new();
    let got = s.process("nothing to see here");
    assert!(got.is_empty());
    assert!(s.snapshot().is_empty());
}
