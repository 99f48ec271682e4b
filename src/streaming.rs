//! The streaming-subscription lifecycle, on both ends.
//!
//! The client's side of a subscription is pending until the server accepts,
//! active until it is rejected or cancelled, and closed for good after that.
//! Data frames reach the client only while it is active. The server's sink
//! may be accepted or rejected once, and sends data only once accepted.

use crate::error::Error;
use crate::message::{Message, MessageType};
use vstd::prelude::*;
use vstd::string::*;

verus! {

/// The state of a subscription, on either end.
#[derive(Debug, Clone, Copy, PartialEq, Eq, Structural)]
pub enum StreamState {
    Pending,
    Active,
    Closed,
}

/// What happens to a subscription on the client's side.
#[derive(Debug, Clone, Copy, PartialEq, Eq, Structural)]
pub enum StreamEvent {
    /// The server accepted.
    Accepted,
    /// The server rejected.
    Rejected,
    /// The server sent an item.
    Data,
    /// The client cancelled.
    Cancelled,
}

/// What the client's runtime does on an event.
#[derive(Debug, Clone, Copy, PartialEq, Eq, Structural)]
pub enum StreamAction {
    /// Nothing to hand on; the subscription is now open.
    Open,
    /// Hand the item to the receiver.
    Deliver,
    /// Close the receiver and report the rejection.
    Fail,
    /// Close the receiver and tell the server.
    Close,
    /// Discard the frame.
    Discard,
}

/// One step of the client's lifecycle.
pub open spec fn client_transition(s: StreamState, e: StreamEvent) -> (StreamState, StreamAction) {
    match (s, e) {
        (StreamState::Closed, _) => (StreamState::Closed, StreamAction::Discard),
        (_, StreamEvent::Cancelled) => (StreamState::Closed, StreamAction::Close),
        (_, StreamEvent::Rejected) => (StreamState::Closed, StreamAction::Fail),
        (StreamState::Pending, StreamEvent::Accepted) => (StreamState::Active, StreamAction::Open),
        (StreamState::Active, StreamEvent::Data) => (StreamState::Active, StreamAction::Deliver),
        (s, _) => (s, StreamAction::Discard),
    }
}

/// Steps the client's lifecycle on `e`.
pub fn client_step(s: StreamState, e: StreamEvent) -> (r: (StreamState, StreamAction))
    ensures
        r == client_transition(s, e),
{
    match (s, e) {
        (StreamState::Closed, _) => (StreamState::Closed, StreamAction::Discard),
        (_, StreamEvent::Cancelled) => (StreamState::Closed, StreamAction::Close),
        (_, StreamEvent::Rejected) => (StreamState::Closed, StreamAction::Fail),
        (StreamState::Pending, StreamEvent::Accepted) => (StreamState::Active, StreamAction::Open),
        (StreamState::Active, StreamEvent::Data) => (StreamState::Active, StreamAction::Deliver),
        (s, _) => (s, StreamAction::Discard),
    }
}

/// The client's state after `events`, from pending.
pub open spec fn state_after(events: Seq<StreamEvent>) -> StreamState
    decreases events.len(),
{
    if events.len() == 0 {
        StreamState::Pending
    } else {
        client_transition(state_after(events.drop_last()), events.last()).0
    }
}

/// The client's action on the event at `i`.
pub open spec fn action_at(events: Seq<StreamEvent>, i: int) -> StreamAction {
    client_transition(state_after(events.subrange(0, i)), events[i]).1
}

/// Whether `events` holds an acceptance.
pub open spec fn has_accept(events: Seq<StreamEvent>) -> bool {
    exists|j: int| 0 <= j < events.len() && events[j] == StreamEvent::Accepted
}

/// Whether `events` holds a rejection or a cancellation.
pub open spec fn has_end(events: Seq<StreamEvent>) -> bool {
    exists|j: int|
        0 <= j < events.len() && (events[j] == StreamEvent::Rejected || events[j]
            == StreamEvent::Cancelled)
}

/// An active client has seen an acceptance and no end; an ended one is
/// closed.
pub proof fn lemma_state_history(events: Seq<StreamEvent>)
    ensures
        state_after(events) == StreamState::Active ==> has_accept(events) && !has_end(events),
        state_after(events) == StreamState::Pending ==> !has_end(events),
        has_end(events) ==> state_after(events) == StreamState::Closed,
    decreases events.len(),
{
    if events.len() > 0 {
        let prev = events.drop_last();
        lemma_state_history(prev);
        let n = events.len() - 1;
        assert forall|j: int| 0 <= j < prev.len() implies prev[j] == events[j] by {}
        if has_accept(prev) {
            let j = choose|j: int| 0 <= j < prev.len() && prev[j] == StreamEvent::Accepted;
            assert(events[j] == StreamEvent::Accepted);
        }
        if has_end(events) {
            let j = choose|j: int|
                0 <= j < events.len() && (events[j] == StreamEvent::Rejected || events[j]
                    == StreamEvent::Cancelled);
            if j < n {
                assert(prev[j] == events[j]);
            }
        }
        if has_end(prev) {
            let j = choose|j: int|
                0 <= j < prev.len() && (prev[j] == StreamEvent::Rejected || prev[j]
                    == StreamEvent::Cancelled);
            assert(events[j] == prev[j]);
        }
        if state_after(events) == StreamState::Active && state_after(prev) == StreamState::Pending {
            assert(events[n] == StreamEvent::Accepted);
        }
    }
}

/// Items reach the client only after the server accepted, and never after a
/// rejection or a cancellation.
pub proof fn lemma_data_only_while_accepted(events: Seq<StreamEvent>, i: int)
    requires
        0 <= i < events.len(),
        action_at(events, i) == StreamAction::Deliver,
    ensures
        exists|j: int| 0 <= j < i && events[j] == StreamEvent::Accepted,
        forall|k: int|
            0 <= k < i ==> events[k] != StreamEvent::Rejected && events[k]
                != StreamEvent::Cancelled,
{
    let prefix = events.subrange(0, i);
    lemma_state_history(prefix);
    assert(state_after(prefix) == StreamState::Active);
    let j = choose|j: int| 0 <= j < prefix.len() && prefix[j] == StreamEvent::Accepted;
    assert(events[j] == StreamEvent::Accepted);
    assert forall|k: int| 0 <= k < i implies events[k] != StreamEvent::Rejected && events[k]
        != StreamEvent::Cancelled by {
        assert(prefix[k] == events[k]);
    }
}

/// The server's end of one subscription.
pub struct ServerStream {
    /// The subscription id chosen by the client.
    pub id: u128,
    pub method: String,
    /// The client's endpoint.
    pub client: String,
    pub state: StreamState,
}

impl ServerStream {
    /// A sink awaiting the service's decision.
    pub fn new(id: u128, method: String, client: String) -> (r: ServerStream)
        ensures
            r.id == id,
            r.method == method,
            r.client == client,
            r.state == StreamState::Pending,
    {
        ServerStream { id, method, client, state: StreamState::Pending }
    }

    /// Accepts a pending subscription: the acceptance frame to send from
    /// `source`. A second decision is an error.
    pub fn accept(&mut self, source: String) -> (r: Result<Message, Error>)
        ensures
            final(self).id == old(self).id,
            final(self).client == old(self).client,
            final(self).method == old(self).method,
            r matches Ok(m) ==> (m.topic matches Some(t) && t@ == "subscription.accept"@),
            old(self).state == StreamState::Pending ==> final(self).state == StreamState::Active
                && (r matches Ok(m) && m.msg_type == MessageType::SubscriptionAccept
                && m.correlation_id == Some(old(self).id) && m.target == Some(old(self).client)),
            old(self).state != StreamState::Pending ==> final(self).state == old(self).state
                && r matches Err(Error::SubscriptionError { .. }),
    {
        if self.state == StreamState::Pending {
            self.state = StreamState::Active;
            Ok(Message::subscription_accept(source, self.client.clone(), self.id))
        } else {
            Err(Error::subscription_error("Subscription already accepted or rejected", None))
        }
    }

    /// Rejects a pending subscription with `reason`: the rejection frame to
    /// send from `source`. A second decision is an error.
    pub fn reject(&mut self, source: String, reason: &str) -> (r: Result<Message, Error>)
        ensures
            final(self).id == old(self).id,
            final(self).client == old(self).client,
            final(self).method == old(self).method,
            r matches Ok(m) ==> (m.topic matches Some(t) && t@ == "subscription.reject"@),
            old(self).state == StreamState::Pending ==> final(self).state == StreamState::Closed
                && (r matches Ok(m) && m.msg_type == MessageType::SubscriptionReject
                && m.correlation_id == Some(old(self).id) && m.target == Some(old(self).client)
                && m.payload@ == reason.spec_bytes()),
            old(self).state != StreamState::Pending ==> final(self).state == old(self).state
                && r matches Err(Error::SubscriptionError { .. }),
    {
        if self.state == StreamState::Pending {
            self.state = StreamState::Closed;
            Ok(Message::subscription_reject(source, self.client.clone(), self.id, reason))
        } else {
            Err(Error::subscription_error("Subscription already accepted or rejected", None))
        }
    }

    /// The frame carrying one encoded item, sent from `source`; only an
    /// accepted, open subscription sends.
    pub fn data(&self, source: String, item: Vec<u8>) -> (r: Result<Message, Error>)
        ensures
            self.state == StreamState::Active ==> (r matches Ok(m) && m.msg_type
                == MessageType::SubscriptionData && m.correlation_id == Some(self.id) && m.target
                == Some(self.client) && m.payload == item),
            self.state != StreamState::Active ==> r matches Err(Error::SubscriptionError { .. }),
            r matches Ok(m) ==> (m.topic matches Some(t) && t@ == "subscription.data"@),
    {
        if self.state == StreamState::Active {
            Ok(Message::subscription_data(source, self.client.clone(), self.id, item))
        } else {
            Err(Error::subscription_error("Subscription is not active", None))
        }
    }

    /// The client cancelled, or the server stopped: nothing more is sent.
    pub fn close(&mut self)
        ensures
            final(self).id == old(self).id,
            final(self).client == old(self).client,
            final(self).method == old(self).method,
            final(self).state == StreamState::Closed,
    {
        self.state = StreamState::Closed;
    }

    /// A sink dropped while still pending rejects implicitly.
    pub fn dropped(&mut self, source: String) -> (r: Option<Message>)
        ensures
            old(self).state == StreamState::Pending ==> final(self).state == StreamState::Closed
                && (r matches Some(m) && m.msg_type == MessageType::SubscriptionReject
                && m.correlation_id == Some(old(self).id)),
            old(self).state != StreamState::Pending ==> final(self).state == old(self).state
                && r.is_none(),
    {
        match self.reject(source, "sink dropped") {
            Ok(m) => Some(m),
            Err(_) => None,
        }
    }
}

/// The error with which a rejecting service's handler fails.
pub fn rejection_error(reason: &str) -> (r: Error)
    ensures
        r matches Error::Runtime { message, source: None } && message@ == "Subscription rejected: "@
            + reason@,
{
    let mut text = String::from_str("Subscription rejected: ");
    text.append(reason);
    Error::Runtime { message: text, source: None }
}

/// Health of the client subscriptions that a hub forwards data to.
#[derive(Debug, Clone, Copy, PartialEq, Eq, Structural)]
pub struct SubscriptionStats {
    pub active_subscriptions: usize,
    pub dead_subscriptions: usize,
    pub healthy_subscriptions: usize,
}

/// The number of closed receivers among `closed`.
pub open spec fn count_closed(closed: Seq<bool>) -> nat
    decreases closed.len(),
{
    if closed.len() == 0 {
        0
    } else {
        count_closed(closed.drop_last()) + if closed.last() {
            1nat
        } else {
            0nat
        }
    }
}

proof fn lemma_count_closed_bound(closed: Seq<bool>)
    ensures
        count_closed(closed) <= closed.len(),
    decreases closed.len(),
{
    if closed.len() > 0 {
        lemma_count_closed_bound(closed.drop_last());
    }
}

/// Statistics over the registered subscriptions, given for each whether its
/// receiver has closed.
pub fn subscription_stats(closed: &Vec<bool>) -> (r: SubscriptionStats)
    ensures
        r.active_subscriptions == closed@.len(),
        r.dead_subscriptions == count_closed(closed@),
        r.healthy_subscriptions == closed@.len() - count_closed(closed@),
{
    let mut dead: usize = 0;
    let mut i: usize = 0;
    while i < closed.len()
        invariant
            i <= closed@.len(),
            dead == count_closed(closed@.subrange(0, i as int)),
        decreases closed@.len() - i,
    {
        proof {
            assert(closed@.subrange(0, i + 1 as int).drop_last() =~= closed@.subrange(0, i as int));
            lemma_count_closed_bound(closed@.subrange(0, i as int));
        }
        if closed[i] {
            dead = dead + 1;
        }
        i = i + 1;
    }
    proof {
        assert(closed@.subrange(0, i as int) =~= closed@);
        lemma_count_closed_bound(closed@);
    }
    SubscriptionStats {
        active_subscriptions: closed.len(),
        dead_subscriptions: dead,
        healthy_subscriptions: closed.len() - dead,
    }
}

} // verus!
