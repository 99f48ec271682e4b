//! The publish/subscribe registry: local subscribers by id, each with its
//! topic pattern. An event goes to every subscriber whose pattern matches its
//! topic, once each, in the order the subscribers registered.

use crate::error::Error;
use crate::message::fresh_id;
use crate::table::IdTable;
use crate::topic::{topic_match, topic_matches, validate_topic_pattern, valid_pattern};
use vstd::prelude::*;
use vstd::string::*;
use vstd::utf8::encode_utf8;

verus! {

/// Whether the subscriber `id` of `subs` receives an event on `topic`.
pub open spec fn receives(subs: Map<u128, String>, topic: Seq<char>, id: u128) -> bool {
    subs.contains_key(id) && topic_match(encode_utf8(topic), encode_utf8(subs[id]@))
}

/// Subscribers by id, with their topic patterns.
pub struct SubscriptionRegistry {
    patterns: IdTable<String>,
}

impl View for SubscriptionRegistry {
    type V = Map<u128, String>;

    closed spec fn view(&self) -> Map<u128, String> {
        self.patterns@
    }
}

impl SubscriptionRegistry {
    pub closed spec fn wf(&self) -> bool {
        self.patterns.wf()
    }

    /// An empty registry.
    pub fn new() -> (r: Self)
        ensures
            r.wf(),
            r@ == Map::<u128, String>::empty(),
    {
        SubscriptionRegistry { patterns: IdTable::new() }
    }

    /// Registers the subscriber `id` for `pattern`.
    pub fn subscribe_with_id(&mut self, id: u128, pattern: String)
        requires
            old(self).wf(),
        ensures
            final(self).wf(),
            final(self)@ == old(self)@.insert(id, pattern),
    {
        self.patterns.insert(id, pattern);
    }

    /// Registers a new subscriber for `pattern` under a fresh id, which it
    /// returns. A pattern with `#` anywhere but at the end is refused.
    pub fn subscribe(&mut self, pattern: String) -> (r: Result<u128, Error>)
        requires
            old(self).wf(),
        ensures
            final(self).wf(),
            r.is_ok() == valid_pattern(encode_utf8(pattern@)),
            r matches Ok(id) ==> final(self)@ == old(self)@.insert(id, pattern),
            r matches Err(e) ==> final(self)@ == old(self)@ && (e matches Error::InvalidTopicPattern {
                pattern: p,
            } && p@ == pattern@),
    {
        match validate_topic_pattern(pattern.as_str()) {
            Ok(()) => {
                let id = fresh_id();
                self.patterns.insert(id, pattern);
                Ok(id)
            },
            Err(e) => Err(e),
        }
    }

    /// Removes the subscriber `id`; says whether it was registered.
    pub fn unsubscribe(&mut self, id: u128) -> (r: bool)
        requires
            old(self).wf(),
        ensures
            final(self).wf(),
            final(self)@ == old(self)@.remove(id),
            r == old(self)@.contains_key(id),
    {
        self.patterns.remove(id).is_some()
    }

    /// The number of subscribers.
    pub fn len(&self) -> (r: usize)
        requires
            self.wf(),
        ensures
            r == self@.len(),
    {
        self.patterns.len()
    }

    /// The subscribers that receive an event on `topic`: every one whose
    /// pattern matches, each once, in registration order.
    pub fn matching(&self, topic: &str) -> (r: Vec<u128>)
        requires
            self.wf(),
        ensures
            r@.no_duplicates(),
            forall|id: u128| r@.contains(id) <==> receives(self@, topic@, id),
    {
        let ids = self.patterns.keys();
        let mut out: Vec<u128> = Vec::new();
        let mut i: usize = 0;
        while i < ids.len()
            invariant
                self.wf(),
                i <= ids@.len(),
                ids@.no_duplicates(),
                ids@.to_set() == self@.dom(),
                out@.no_duplicates(),
                forall|id: u128|
                    out@.contains(id) <==> (exists|j: int|
                        0 <= j < i && ids@[j] == id && receives(self@, topic@, id)),
            decreases ids@.len() - i,
        {
            let id = ids[i];
            proof {
                assert(ids@.to_set().contains(id));
            }
            let pattern = match self.patterns.get(id) {
                Some(p) => p,
                None => {
                    assert(false);
                    return out;
                },
            };
            let ghost prev = out@;
            if topic_matches(topic, pattern.as_str()) {
                out.push(id);
                proof {
                    assert forall|a: int, b: int|
                        0 <= a < out@.len() && 0 <= b < out@.len() && a != b implies out@[a]
                        != out@[b] by {
                        if a == prev.len() || b == prev.len() {
                            if prev.contains(id) {
                                let j = choose|j: int|
                                    0 <= j < i && ids@[j] == id && receives(self@, topic@, id);
                                assert(ids@[j] == ids@[i as int]);
                            }
                        } else {
                            assert(out@[a] == prev[a] && out@[b] == prev[b]);
                        }
                    }
                    assert forall|x: u128|
                        out@.contains(x) <==> (exists|j: int|
                            0 <= j < i + 1 && ids@[j] == x && receives(self@, topic@, x)) by {
                        if out@.contains(x) {
                            let a = choose|a: int| 0 <= a < out@.len() && out@[a] == x;
                            if a < prev.len() {
                                assert(prev.contains(x));
                            } else {
                                assert(ids@[i as int] == x && receives(self@, topic@, x));
                            }
                        }
                        if exists|j: int|
                            0 <= j < i + 1 && ids@[j] == x && receives(self@, topic@, x) {
                            let j = choose|j: int|
                                0 <= j < i + 1 && ids@[j] == x && receives(self@, topic@, x);
                            if j < i {
                                assert(prev.contains(x));
                                let a = choose|a: int| 0 <= a < prev.len() && prev[a] == x;
                                assert(out@[a] == x);
                            } else {
                                assert(out@[prev.len() as int] == x);
                            }
                        }
                    }
                }
            } else {
                proof {
                    assert forall|x: u128|
                        out@.contains(x) <==> (exists|j: int|
                            0 <= j < i + 1 && ids@[j] == x && receives(self@, topic@, x)) by {
                        if exists|j: int|
                            0 <= j < i + 1 && ids@[j] == x && receives(self@, topic@, x) {
                            let j = choose|j: int|
                                0 <= j < i + 1 && ids@[j] == x && receives(self@, topic@, x);
                            if j == i {
                                assert(!receives(self@, topic@, x));
                            }
                        }
                    }
                }
            }
            i = i + 1;
        }
        proof {
            assert forall|x: u128| receives(self@, topic@, x) implies out@.contains(x) by {
                assert(ids@.to_set().contains(x));
                let j = choose|j: int| 0 <= j < ids@.len() && ids@[j] == x;
            }
        }
        out
    }
}

/// A subscriber that unsubscribes before an event is dispatched receives
/// nothing of it, whatever the topic, and every other subscriber receives
/// what it would have received.
pub proof fn lemma_unsubscribed_receives_nothing(
    subs: Map<u128, String>,
    id: u128,
    pattern: String,
    topic: Seq<char>,
    other: u128,
)
    requires
        other != id,
    ensures
        !receives(subs.insert(id, pattern).remove(id), topic, id),
        receives(subs.insert(id, pattern).remove(id), topic, other) == receives(
            subs,
            topic,
            other,
        ),
{
}

} // verus!
