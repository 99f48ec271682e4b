//! Fully-qualified method names: `"{service}.{method}"`, with exactly one dot.

use crate::error::Error;
use vstd::prelude::*;
use vstd::string::*;

verus! {

/// The number of dots in `s`.
pub open spec fn count_dots(s: Seq<char>) -> nat
    decreases s.len(),
{
    if s.len() == 0 {
        0
    } else {
        count_dots(s.drop_last()) + if s.last() == '.' {
            1nat
        } else {
            0nat
        }
    }
}

/// `s` is `service`, a dot, then `method`, and neither part holds a dot.
pub open spec fn splits_as(s: Seq<char>, service: Seq<char>, method: Seq<char>) -> bool {
    &&& s == service + seq!['.'] + method
    &&& count_dots(service) == 0
    &&& count_dots(method) == 0
}

/// The prefix that marks a streaming method on the wire.
pub open spec fn subscription_prefix() -> Seq<char> {
    "subscription."@
}

/// `s` without the streaming prefix, if it carries one.
pub open spec fn strip_subscription(s: Seq<char>) -> Seq<char> {
    let p = subscription_prefix();
    if s.len() >= p.len() && s.subrange(0, p.len() as int) == p {
        s.subrange(p.len() as int, s.len() as int)
    } else {
        s
    }
}

/// Dots count additively over concatenation.
pub proof fn lemma_count_dots_concat(a: Seq<char>, b: Seq<char>)
    ensures
        count_dots(a + b) == count_dots(a) + count_dots(b),
    decreases b.len(),
{
    if b.len() == 0 {
        assert(a + b =~= a);
    } else {
        assert((a + b).drop_last() =~= a + b.drop_last());
        lemma_count_dots_concat(a, b.drop_last());
    }
}

proof fn lemma_one_dot()
    ensures
        count_dots(seq!['.']) == 1,
{
    assert(seq!['.'].drop_last() =~= Seq::<char>::empty());
    assert(count_dots(Seq::<char>::empty()) == 0);
    assert(seq!['.'].last() == '.');
}

/// A name splits in exactly one way, and only when it holds exactly one dot.
pub proof fn lemma_splits_iff_one_dot(s: Seq<char>, service: Seq<char>, method: Seq<char>)
    requires
        splits_as(s, service, method),
    ensures
        count_dots(s) == 1,
{
    lemma_count_dots_concat(service + seq!['.'], method);
    lemma_count_dots_concat(service, seq!['.']);
    lemma_one_dot();
}

/// Splits `"{service}.{method}"` into its two parts.
pub fn parse_method(s: &str) -> (r: Result<(String, String), Error>)
    ensures
        r.is_ok() == (count_dots(s@) == 1),
        r matches Ok((a, b)) ==> splits_as(s@, a@, b@),
        r.is_err() ==> r matches Err(Error::InvalidRequest { context: None, .. }),
{
    let n = s.unicode_len();
    let mut i: usize = 0;
    let mut count: usize = 0;
    let mut pos: usize = 0;
    while i < n
        invariant
            n == s@.len(),
            i <= n,
            count == count_dots(s@.subrange(0, i as int)),
            count <= i,
            count >= 1 ==> pos < i && s@[pos as int] == '.' && count_dots(
                s@.subrange(0, pos as int),
            ) == 0,
        decreases n - i,
    {
        proof {
            assert(s@.subrange(0, i + 1 as int).drop_last() =~= s@.subrange(0, i as int));
        }
        let c = s.get_char(i);
        if c == '.' {
            if count == 0 {
                pos = i;
            }
            count = count + 1;
        }
        i = i + 1;
    }
    proof {
        assert(s@.subrange(0, n as int) =~= s@);
    }
    if count != 1 {
        return Err(Error::invalid_request("Invalid service.method format", None));
    }
    let service = s.substring_char(0, pos);
    let method = s.substring_char(pos + 1, n);
    proof {
        let a = s@.subrange(0, pos as int);
        let b = s@.subrange(pos + 1, n as int);
        assert(s@ =~= a + seq!['.'] + b);
        lemma_count_dots_concat(a + seq!['.'], b);
        lemma_count_dots_concat(a, seq!['.']);
        lemma_one_dot();
    }
    Ok((service.to_string(), method.to_string()))
}

/// The fully-qualified name of `method` on `service`.
pub fn qualified_name(service: &str, method: &str) -> (r: String)
    ensures
        r@ == service@ + seq!['.'] + method@,
{
    proof {
        reveal_strlit(".");
    }
    let mut out = String::from_str(service);
    out.append(".");
    out.append(method);
    out
}

/// Whether `s` begins with `p`.
pub fn starts_with(s: &str, p: &str) -> (r: bool)
    ensures
        r == (s@.len() >= p@.len() && s@.subrange(0, p@.len() as int) == p@),
{
    let n = s.unicode_len();
    let m = p.unicode_len();
    if n < m {
        return false;
    }
    let mut i: usize = 0;
    while i < m
        invariant
            n == s@.len(),
            m == p@.len(),
            m <= n,
            i <= m,
            forall|j: int| 0 <= j < i ==> s@[j] == p@[j],
        decreases m - i,
    {
        if s.get_char(i) != p.get_char(i) {
            assert(s@.subrange(0, m as int)[i as int] != p@[i as int]);
            return false;
        }
        i = i + 1;
    }
    assert(s@.subrange(0, m as int) =~= p@);
    true
}

/// The topic of a streaming request for `method`: `"subscription.{method}"`.
pub fn subscription_topic(method: &str) -> (r: String)
    ensures
        r@ == subscription_prefix() + method@,
{
    let mut out = String::from_str("subscription.");
    out.append(method);
    out
}

/// The service and method that a streaming request names. The request may
/// carry the name bare, `"{service}.{method}"`, or behind the streaming prefix,
/// `"subscription.{service}.{method}"`; either way the service is named in it.
pub fn subscription_target(method: &str) -> (r: Result<(String, String), Error>)
    ensures
        r.is_ok() == (count_dots(strip_subscription(method@)) == 1),
        r matches Ok((a, b)) ==> splits_as(strip_subscription(method@), a@, b@),
        r.is_err() ==> r matches Err(Error::InvalidRequest { .. }),
{
    let prefix = "subscription.";
    proof {
        reveal_strlit("subscription.");
    }
    if starts_with(method, prefix) {
        let n = method.unicode_len();
        let rest = method.substring_char(13, n);
        parse_method(rest)
    } else {
        parse_method(method)
    }
}

} // verus!
