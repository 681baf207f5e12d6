//! The recency buffer: a de-duplicated, recency-ordered collection of
//! confirmed references (freshest at the tail), and the session that feeds
//! it from transcript fragments.
//!
//! The buffer is unbounded: no entry leaves it once recorded; a repeat
//! detection only moves its entry to the tail. Concurrent readers are the
//! owner's concern: a session is driven by one producer, and a consumer
//! reads snapshots under whatever exclusion the embedding provides.

use vstd::prelude::*;

use crate::canon::Canon;
use crate::canon::canon;
use crate::canon::canon_table;
use crate::refs::extract_refs;
use crate::refs::extract_spec;

verus! {

/// The entries of `s` other than `r`, in order.
pub open spec fn drop_matching(s: Seq<Seq<char>>, r: Seq<char>) -> Seq<Seq<char>>
    decreases s.len(),
{
    if s.len() == 0 {
        s
    } else if s.last() == r {
        drop_matching(s.drop_last(), r)
    } else {
        drop_matching(s.drop_last(), r).push(s.last())
    }
}

/// Recording a reference keeps every other entry in order and appends the
/// reference at the tail; an already-present entry is moved, not doubled.
pub open spec fn record_spec(s: Seq<Seq<char>>, r: Seq<char>) -> Seq<Seq<char>> {
    drop_matching(s, r).push(r)
}

/// Recording many references in order, left to right.
pub open spec fn record_all(s: Seq<Seq<char>>, rs: Seq<Seq<char>>) -> Seq<Seq<char>>
    decreases rs.len(),
{
    if rs.len() == 0 {
        s
    } else {
        record_all(record_spec(s, rs[0]), rs.drop_first())
    }
}

/// The recency buffer of confirmed canonical references.
pub struct RecencyBuffer {
    pub entries: Vec<String>,
}

impl View for RecencyBuffer {
    type V = Seq<Seq<char>>;

    /// A buffer is abstractly its entries, least recent first.
    open spec fn view(&self) -> Seq<Seq<char>> {
        self.entries.deep_view()
    }
}

impl RecencyBuffer {
    /// An empty buffer.
    pub fn new() -> (r: RecencyBuffer)
        ensures
            r@ == Seq::<Seq<char>>::empty(),
    {
        let r = RecencyBuffer { entries: Vec::new() };
        proof {
            assert(r@ =~= Seq::<Seq<char>>::empty());
        }
        r
    }

    /// How many references the buffer holds.
    pub fn len(&self) -> (n: usize)
        ensures
            n == self@.len(),
    {
        self.entries.len()
    }

    /// Record one confirmed reference: drop its old position, if any, and
    /// append it at the tail as the freshest entry.
    pub fn record(&mut self, r: String)
        ensures
            final(self)@ == record_spec(old(self)@, r@),
    {
        let ghost old_view = self@;
        let mut kept: Vec<String> = Vec::new();
        let mut i: usize = 0;
        proof {
            assert(old_view.subrange(0, 0) =~= Seq::<Seq<char>>::empty());
            assert(kept.deep_view() =~= Seq::<Seq<char>>::empty());
        }
        while i < self.entries.len()
            invariant
                self@ == old_view,
                self.entries@.len() == old_view.len(),
                i <= old_view.len(),
                kept.deep_view() == drop_matching(old_view.subrange(0, i as int), r@),
            decreases old_view.len() - i,
        {
            proof {
                assert(old_view[i as int] =~= self.entries@[i as int]@);
                assert(old_view.subrange(0, i as int + 1).drop_last() =~= old_view.subrange(
                    0,
                    i as int,
                ));
                assert(old_view.subrange(0, i as int + 1).last() == old_view[i as int]);
            }
            if !(self.entries[i] == r) {
                let e = self.entries[i].clone();
                let ghost old_kept = kept.deep_view();
                kept.push(e);
                proof {
                    assert(kept.deep_view() =~~= old_kept.push(old_view[i as int]));
                }
            }
            i = i + 1;
        }
        proof {
            assert(old_view.subrange(0, old_view.len() as int) =~= old_view);
        }
        kept.push(r);
        self.entries = kept;
        proof {
            assert(self@ =~~= drop_matching(old_view, r@).push(r@));
        }
    }

    /// A snapshot of the buffer's contents, least recent first.
    pub fn snapshot(&self) -> (r: Vec<String>)
        ensures
            r.deep_view() == self@,
    {
        let mut r: Vec<String> = Vec::new();
        let mut i: usize = 0;
        while i < self.entries.len()
            invariant
                i <= self.entries@.len(),
                r.deep_view() == self@.subrange(0, i as int),
            decreases self.entries@.len() - i,
        {
            let e = self.entries[i].clone();
            let ghost old_r = r.deep_view();
            r.push(e);
            i = i + 1;
            proof {
                assert(self@[i as int - 1] =~= self.entries@[i as int - 1]@);
                assert(r.deep_view() =~~= old_r.push(self@[i as int - 1]));
                assert(r.deep_view() =~= self@.subrange(0, i as int));
            }
        }
        proof {
            assert(self@.subrange(0, self@.len() as int) =~= self@);
        }
        r
    }
}

/// Recording a sequence and then one more is recording into the result.
pub proof fn lemma_record_all_push(s: Seq<Seq<char>>, rs: Seq<Seq<char>>, x: Seq<char>)
    ensures
        record_all(s, rs.push(x)) == record_spec(record_all(s, rs), x),
    decreases rs.len(),
{
    if rs.len() == 0 {
        assert(rs.push(x) =~= seq![x]);
        assert(record_all(s, seq![x]) == record_all(record_spec(s, x), seq![x].drop_first()));
        assert(seq![x].drop_first() =~= Seq::<Seq<char>>::empty());
        assert(record_all(record_spec(s, x), Seq::<Seq<char>>::empty()) == record_spec(s, x));
        assert(record_all(s, rs) == s);
    } else {
        assert(rs.push(x).drop_first() =~= rs.drop_first().push(x));
        assert(rs.push(x)[0] == rs[0]);
        assert(record_all(s, rs.push(x)) == record_all(
            record_spec(s, rs[0]),
            rs.drop_first().push(x),
        ));
        lemma_record_all_push(record_spec(s, rs[0]), rs.drop_first(), x);
        assert(record_all(s, rs) == record_all(record_spec(s, rs[0]), rs.drop_first()));
    }
}

/// One recognition session: the canon and the recency buffer it feeds.
pub struct Session {
    pub canon: Canon,
    pub buffer: RecencyBuffer,
}

impl Session {
    /// The session's canon is well-formed.
    pub open spec fn wf(&self) -> bool {
        self.canon.wf()
    }

    /// A fresh session over the canon, with an empty buffer.
    pub fn new() -> (s: Session)
        ensures
            s.wf(),
            s.canon@ == canon_table(),
            s.buffer@ == Seq::<Seq<char>>::empty(),
    {
        Session { canon: canon(), buffer: RecencyBuffer::new() }
    }

    /// Process one transcript fragment: extract its references, record
    /// each into the buffer in order, and return the freshly confirmed
    /// references of this call.
    pub fn process(&mut self, transcript: &str) -> (r: Vec<String>)
        requires
            old(self).wf(),
        ensures
            final(self).wf(),
            final(self).canon == old(self).canon,
            r.deep_view() == extract_spec(old(self).canon@, transcript@),
            final(self).buffer@ == record_all(
                old(self).buffer@,
                extract_spec(old(self).canon@, transcript@),
            ),
    {
        let refs = extract_refs(&self.canon, transcript);
        let ghost refsv = refs.deep_view();
        let ghost buf0 = self.buffer@;
        proof {
            assert(refsv.subrange(0, 0) =~= Seq::<Seq<char>>::empty());
        }
        let mut i: usize = 0;
        while i < refs.len()
            invariant
                self.wf(),
                self.canon == old(self).canon,
                refs.deep_view() == refsv,
                refs@.len() == refsv.len(),
                i <= refsv.len(),
                self.buffer@ == record_all(buf0, refsv.subrange(0, i as int)),
            decreases refs@.len() - i,
        {
            let e = refs[i].clone();
            self.buffer.record(e);
            proof {
                assert(refsv[i as int] =~= refs@[i as int]@);
                lemma_record_all_push(buf0, refsv.subrange(0, i as int), refsv[i as int]);
                assert(refsv.subrange(0, i as int).push(refsv[i as int]) =~= refsv.subrange(
                    0,
                    i as int + 1,
                ));
            }
            i = i + 1;
        }
        proof {
            assert(refsv.subrange(0, refsv.len() as int) =~= refsv);
        }
        refs
    }

    /// A snapshot of the buffer for the display consumer.
    pub fn snapshot(&self) -> (r: Vec<String>)
        ensures
            r.deep_view() == self.buffer@,
    {
        self.buffer.snapshot()
    }
}

} // verus!
