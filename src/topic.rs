//! Hierarchical topic patterns: `/`-separated segments, `+` for exactly one
//! segment, and `#`, as the final segment only, for the remainder.
//!
//! Topics and patterns are matched on their UTF-8 bytes. The separator and the
//! two wildcards are ASCII, and no byte of a multi-byte character is ASCII, so
//! splitting the bytes splits the characters.

use crate::error::Error;
use vstd::prelude::*;
use vstd::string::*;

verus! {

/// The byte of the segment separator `/`.
pub const SEPARATOR: u8 = 47;

/// The byte of the single-level wildcard `+`.
pub const SINGLE_LEVEL: u8 = 43;

/// The byte of the multi-level wildcard `#`.
pub const MULTI_LEVEL: u8 = 35;

/// The segments of `b` between separators; there is always at least one.
pub open spec fn segments(b: Seq<u8>) -> Seq<Seq<u8>>
    decreases b.len(),
{
    if b.len() == 0 {
        seq![Seq::<u8>::empty()]
    } else {
        let rest = segments(b.drop_last());
        if b.last() == SEPARATOR {
            rest.push(Seq::<u8>::empty())
        } else {
            rest.update(rest.len() - 1, rest.last().push(b.last()))
        }
    }
}

/// Whether a segment is the single-level wildcard.
pub open spec fn is_single(s: Seq<u8>) -> bool {
    s == seq![SINGLE_LEVEL]
}

/// Whether a segment is the multi-level wildcard.
pub open spec fn is_multi(s: Seq<u8>) -> bool {
    s == seq![MULTI_LEVEL]
}

/// A pattern is well formed when `#` stands, if at all, as its last segment.
pub open spec fn valid_segments(p: Seq<Seq<u8>>) -> bool {
    forall|i: int| 0 <= i < p.len() - 1 ==> !is_multi(#[trigger] p[i])
}

/// Whether the topic segments `t` match the pattern segments `p`.
pub open spec fn segments_match(t: Seq<Seq<u8>>, p: Seq<Seq<u8>>) -> bool
    decreases p.len(),
{
    if p.len() == 0 {
        t.len() == 0
    } else if is_multi(p[0]) {
        p.len() == 1
    } else if t.len() == 0 {
        false
    } else if is_single(p[0]) {
        segments_match(t.drop_first(), p.drop_first())
    } else {
        p[0] == t[0] && segments_match(t.drop_first(), p.drop_first())
    }
}

/// Whether the pattern with bytes `p` is well formed.
pub open spec fn valid_pattern(p: Seq<u8>) -> bool {
    valid_segments(segments(p))
}

/// Whether the topic with bytes `t` matches the pattern with bytes `p`: the
/// pattern is well formed and its segments match the topic's.
pub open spec fn topic_match(t: Seq<u8>, p: Seq<u8>) -> bool {
    valid_pattern(p) && segments_match(segments(t), segments(p))
}

/// The views of a list of byte vectors.
pub open spec fn views(v: Seq<Vec<u8>>) -> Seq<Seq<u8>> {
    v.map_values(|x: Vec<u8>| x@)
}

/// Splits `b` at each separator.
pub fn split_segments(b: &[u8]) -> (r: Vec<Vec<u8>>)
    ensures
        views(r@) == segments(b@),
{
    let mut done: Vec<Vec<u8>> = Vec::new();
    let mut cur: Vec<u8> = Vec::new();
    let mut i: usize = 0;
    while i < b.len()
        invariant
            i <= b@.len(),
            views(done@).push(cur@) == segments(b@.subrange(0, i as int)),
        decreases b@.len() - i,
    {
        let ghost before = b@.subrange(0, i as int);
        proof {
            assert(b@.subrange(0, i + 1 as int).drop_last() =~= before);
        }
        if b[i] == SEPARATOR {
            let ghost old_done = done@;
            done.push(cur);
            cur = Vec::new();
            proof {
                assert(views(done@) =~= views(old_done).push(views(done@).last()));
            }
        } else {
            let ghost old_cur = cur@;
            cur.push(b[i]);
            proof {
                assert(views(done@).push(cur@) =~= views(done@).push(old_cur).update(
                    views(done@).len() as int,
                    old_cur.push(b@[i as int]),
                ));
            }
        }
        i = i + 1;
    }
    let ghost old_done = done@;
    done.push(cur);
    proof {
        assert(b@.subrange(0, b@.len() as int) =~= b@);
        assert(views(done@) =~= views(old_done).push(views(done@).last()));
    }
    done
}

/// Whether two byte strings are equal.
pub fn bytes_equal(a: &[u8], b: &[u8]) -> (r: bool)
    ensures
        r == (a@ == b@),
{
    if a.len() != b.len() {
        return false;
    }
    let mut i: usize = 0;
    while i < a.len()
        invariant
            i <= a@.len(),
            a@.len() == b@.len(),
            forall|j: int| 0 <= j < i ==> a@[j] == b@[j],
        decreases a@.len() - i,
    {
        if a[i] != b[i] {
            return false;
        }
        i = i + 1;
    }
    assert(a@ =~= b@);
    true
}

fn is_single_segment(s: &Vec<u8>) -> (r: bool)
    ensures
        r == is_single(s@),
{
    proof {
        if s@.len() == 1 {
            assert(is_single(s@) <==> s@[0] == SINGLE_LEVEL) by {
                if s@[0] == SINGLE_LEVEL {
                    assert(s@ =~= seq![SINGLE_LEVEL]);
                }
            }
        }
    }
    s.len() == 1 && s[0] == SINGLE_LEVEL
}

fn is_multi_segment(s: &Vec<u8>) -> (r: bool)
    ensures
        r == is_multi(s@),
{
    proof {
        if s@.len() == 1 {
            assert(is_multi(s@) <==> s@[0] == MULTI_LEVEL) by {
                if s@[0] == MULTI_LEVEL {
                    assert(s@ =~= seq![MULTI_LEVEL]);
                }
            }
        }
    }
    s.len() == 1 && s[0] == MULTI_LEVEL
}

/// Whether the pattern segments are well formed.
fn segments_valid(p: &Vec<Vec<u8>>) -> (r: bool)
    ensures
        r == valid_segments(views(p@)),
{
    let ghost pv = views(p@);
    let mut i: usize = 0;
    while i < p.len()
        invariant
            i <= p@.len(),
            pv == views(p@),
            forall|j: int| 0 <= j < i && j < p@.len() - 1 ==> !is_multi(#[trigger] pv[j]),
        decreases p@.len() - i,
    {
        if i + 1 < p.len() && is_multi_segment(&p[i]) {
            assert(pv[i as int] == p@[i as int]@);
            return false;
        }
        proof {
            if i + 1 < p@.len() {
                assert(pv[i as int] == p@[i as int]@);
            }
        }
        i = i + 1;
    }
    true
}

/// Whether the topic segments match the pattern segments.
fn match_segments(t: &Vec<Vec<u8>>, p: &Vec<Vec<u8>>) -> (r: bool)
    ensures
        r == segments_match(views(t@), views(p@)),
{
    let ghost tv = views(t@);
    let ghost pv = views(p@);
    let mut i: usize = 0;
    assert(tv.skip(0) =~= tv);
    assert(pv.skip(0) =~= pv);
    while i < p.len()
        invariant
            i <= p@.len(),
            i <= t@.len(),
            tv == views(t@),
            pv == views(p@),
            segments_match(tv, pv) == segments_match(tv.skip(i as int), pv.skip(i as int)),
        decreases p@.len() - i,
    {
        let ghost ts = tv.skip(i as int);
        let ghost ps = pv.skip(i as int);
        proof {
            assert(ps[0] == pv[i as int]);
            assert(ps.drop_first() =~= pv.skip(i + 1));
            if ts.len() > 0 {
                assert(ts[0] == tv[i as int]);
                assert(ts.drop_first() =~= tv.skip(i + 1));
            }
        }
        if is_multi_segment(&p[i]) {
            return i + 1 == p.len();
        }
        if i == t.len() {
            return false;
        }
        if !is_single_segment(&p[i]) {
            if !bytes_equal(p[i].as_slice(), t[i].as_slice()) {
                return false;
            }
        }
        i = i + 1;
    }
    proof {
        assert(pv.skip(i as int).len() == 0);
    }
    i == t.len()
}

/// Whether `topic` matches `pattern`. A pattern with `#` anywhere but at the
/// end matches nothing.
pub fn topic_matches(topic: &str, pattern: &str) -> (r: bool)
    ensures
        r == topic_match(topic.spec_bytes(), pattern.spec_bytes()),
{
    let t = split_segments(topic.as_bytes());
    let p = split_segments(pattern.as_bytes());
    segments_valid(&p) && match_segments(&t, &p)
}

/// Checks that `pattern` is well formed.
pub fn validate_topic_pattern(pattern: &str) -> (r: Result<(), Error>)
    ensures
        r.is_ok() == valid_pattern(pattern.spec_bytes()),
        r matches Err(Error::InvalidTopicPattern { pattern: p }) ==> p@ == pattern@,
        r.is_err() ==> r matches Err(Error::InvalidTopicPattern { .. }),
{
    let p = split_segments(pattern.as_bytes());
    if segments_valid(&p) {
        Ok(())
    } else {
        Err(Error::invalid_topic_pattern(pattern))
    }
}

/// The segments of a sequence without separators are that sequence alone.
pub proof fn lemma_segments_no_separator(b: Seq<u8>)
    requires
        forall|i: int| 0 <= i < b.len() ==> b[i] != SEPARATOR,
    ensures
        segments(b) == seq![b],
    decreases b.len(),
{
    if b.len() == 0 {
        assert(b =~= Seq::<u8>::empty());
    } else {
        assert(b[b.len() - 1] != SEPARATOR);
        lemma_segments_no_separator(b.drop_last());
        assert(b.drop_last().push(b.last()) =~= b);
        assert(seq![b.drop_last()].update(0, b.drop_last().push(b.last())) =~= seq![b]);
    }
}

/// A topic always has at least one segment.
pub proof fn lemma_segments_nonempty(b: Seq<u8>)
    ensures
        segments(b).len() >= 1,
    decreases b.len(),
{
    if b.len() > 0 {
        lemma_segments_nonempty(b.drop_last());
    }
}

/// Matching is a function of the two texts alone: equal topics and equal
/// patterns always give the same answer.
pub proof fn lemma_match_deterministic(ta: &str, tb: &str, pa: &str, pb: &str)
    requires
        ta@ == tb@,
        pa@ == pb@,
    ensures
        topic_match(ta.spec_bytes(), pa.spec_bytes()) == topic_match(tb.spec_bytes(), pb.spec_bytes()),
{
}

/// The pattern `#` alone matches every topic.
pub proof fn lemma_multi_matches_all(t: Seq<u8>)
    ensures
        topic_match(t, seq![MULTI_LEVEL]),
{
    lemma_segments_no_separator(seq![MULTI_LEVEL]);
    let p = segments(seq![MULTI_LEVEL]);
    assert(p[0] == seq![MULTI_LEVEL]);
    assert(valid_segments(p));
}

/// The pattern `+` alone matches exactly the topics of one segment.
pub proof fn lemma_single_matches_one_segment(t: Seq<u8>)
    ensures
        topic_match(t, seq![SINGLE_LEVEL]) <==> segments(t).len() == 1,
{
    lemma_segments_no_separator(seq![SINGLE_LEVEL]);
    let p = segments(seq![SINGLE_LEVEL]);
    assert(p[0] == seq![SINGLE_LEVEL]);
    assert(valid_segments(p));
    lemma_segments_nonempty(t);
    let ts = segments(t);
    assert(p.drop_first().len() == 0);
    assert(segments_match(ts, p) == segments_match(ts.drop_first(), p.drop_first()));
}

/// A pattern ending in `#` matches its prefix followed by any remainder, with
/// no segment of the remainder: `a/#` matches `a`.
pub proof fn lemma_multi_matches_zero_segments(t: Seq<Seq<u8>>, lit: Seq<u8>)
    requires
        !is_multi(lit),
        !is_single(lit),
        t == seq![lit],
    ensures
        segments_match(t, seq![lit, seq![MULTI_LEVEL]]),
{
    let p = seq![lit, seq![MULTI_LEVEL]];
    assert(p[0] == lit);
    assert(p.drop_first() =~= seq![seq![MULTI_LEVEL]]);
    assert(t.drop_first().len() == 0);
    assert(is_multi(p.drop_first()[0]));
    assert(segments_match(t.drop_first(), p.drop_first()));
}

} // verus!
