//! The message envelope exchanged with the transport, and the records that
//! travel inside it.

use crate::naming::{subscription_prefix, subscription_topic};
use crate::registry::copy_strings;
use vstd::prelude::*;
use vstd::string::*;

verus! {

/// The kind of an envelope.
#[derive(Debug, Clone, Copy, PartialEq, Eq, Structural)]
pub enum MessageType {
    Request,
    Response,
    Event,
    Subscribe,
    Unsubscribe,
    Heartbeat,
    Error,
    ServiceRegister,
    ServiceUnregister,
    ServiceQuery,
    ServiceDirectory,
    SubscriptionRequest,
    SubscriptionAccept,
    SubscriptionReject,
    SubscriptionData,
    SubscriptionCancel,
    Shutdown,
}

/// The advisory priority of an envelope.
#[derive(Debug, Clone, Copy, PartialEq, Eq, Structural)]
pub enum Priority {
    Low,
    Normal,
    High,
}

impl Default for Priority {
    fn default() -> (r: Priority)
        ensures
            r == Priority::Normal,
    {
        Priority::Normal
    }
}

/// Advisory metadata of an envelope.
#[derive(Debug, Clone, Copy, PartialEq, Eq, Structural)]
pub struct MessageMetadata {
    /// Milliseconds since the Unix epoch when the envelope was made.
    pub timestamp: u64,
    pub priority: Priority,
    /// Time to live in milliseconds.
    pub ttl: Option<u64>,
    pub retain: bool,
}

/// Relies on `uuid::Uuid::new_v4` for a fresh random identifier; `as_u128`
/// reads it back as the integer that `new_v4` built, whose version field is 4
/// and whose variant bits are `10`.
#[verifier::external_body]
pub(crate) fn fresh_id() -> (r: u128)
    ensures
        (r >> 76u128) & 0xfu128 == 4,
        (r >> 62u128) & 3u128 == 2,
{
    uuid::Uuid::new_v4().as_u128()
}

/// Relies on `SystemTime::elapsed` measured from the Unix epoch: the
/// milliseconds since then, or 0 for a clock set before it.
#[verifier::external_body]
pub(crate) fn unix_millis() -> (r: u64) {
    std::time::UNIX_EPOCH.elapsed().map_or(0, |d| d.as_millis() as u64)
}

/// A fresh identifier that differs from `other`: on the rare draw of
/// `other` itself, its lowest bit is flipped.
pub(crate) fn fresh_id_except(other: u128) -> (r: u128)
    ensures
        r != other,
{
    let id = fresh_id();
    if id == other {
        assert(id ^ 1u128 != id) by (bit_vector);
        id ^ 1
    } else {
        id
    }
}

impl MessageMetadata {
    /// Metadata stamped with `timestamp`, normal priority, no time to live and
    /// not retained.
    pub fn at(timestamp: u64) -> (r: MessageMetadata)
        ensures
            r == (MessageMetadata { timestamp, priority: Priority::Normal, ttl: None, retain: false }),
    {
        MessageMetadata { timestamp, priority: Priority::Normal, ttl: None, retain: false }
    }

    /// Metadata stamped with the current time.
    pub fn now() -> (r: MessageMetadata)
        ensures
            r.priority == Priority::Normal,
            r.ttl.is_none(),
            !r.retain,
    {
        MessageMetadata::at(unix_millis())
    }
}

/// The envelope: the single unit exchanged with the transport.
#[derive(Debug, Clone)]
pub struct Message {
    /// Unique identifier of this envelope.
    pub id: u128,
    pub msg_type: MessageType,
    /// Endpoint label of the sender.
    pub source: String,
    /// Endpoint label of the recipient; none means broadcast.
    pub target: Option<String>,
    /// Method name, event topic or protocol tag.
    pub topic: Option<String>,
    pub payload: Vec<u8>,
    /// Ties a reply or stream frame to its request or subscription.
    pub correlation_id: Option<u128>,
    pub metadata: MessageMetadata,
}

/// The mathematical value of an envelope.
pub struct MessageView {
    pub id: u128,
    pub msg_type: MessageType,
    pub source: Seq<char>,
    pub target: Option<Seq<char>>,
    pub topic: Option<Seq<char>>,
    pub payload: Seq<u8>,
    pub correlation_id: Option<u128>,
    pub metadata: MessageMetadata,
}

/// The view of an optional string.
pub open spec fn opt_view(o: Option<String>) -> Option<Seq<char>> {
    match o {
        Some(s) => Some(s@),
        None => None,
    }
}

impl View for Message {
    type V = MessageView;

    open spec fn view(&self) -> MessageView {
        MessageView {
            id: self.id,
            msg_type: self.msg_type,
            source: self.source@,
            target: opt_view(self.target),
            topic: opt_view(self.topic),
            payload: self.payload@,
            correlation_id: self.correlation_id,
            metadata: self.metadata,
        }
    }
}

/// Copies an optional string.
pub fn copy_opt(o: &Option<String>) -> (r: Option<String>)
    ensures
        opt_view(r) == opt_view(*o),
{
    match o {
        Some(s) => Some(s.clone()),
        None => None,
    }
}

/// Copies bytes.
pub fn copy_bytes(b: &[u8]) -> (r: Vec<u8>)
    ensures
        r@ == b@,
{
    let mut out: Vec<u8> = Vec::new();
    let mut i: usize = 0;
    while i < b.len()
        invariant
            i <= b@.len(),
            out@ == b@.subrange(0, i as int),
        decreases b@.len() - i,
    {
        out.push(b[i]);
        i = i + 1;
        proof {
            assert(out@ =~= b@.subrange(0, i as int));
        }
    }
    assert(out@ =~= b@);
    out
}

/// Registration record of a service, announced on registration and listed in
/// directory replies.
#[derive(Debug, Clone)]
pub struct ServiceInfo {
    pub name: String,
    pub methods: Vec<String>,
    /// The endpoint that provides the service.
    pub process_name: String,
    pub registered_at: u64,
}

impl ServiceInfo {
    /// A field-by-field copy.
    pub fn copy(&self) -> (r: ServiceInfo)
        ensures
            r.name == self.name,
            r.methods@ == self.methods@,
            r.process_name == self.process_name,
            r.registered_at == self.registered_at,
    {
        let methods = copy_strings(&self.methods);
        ServiceInfo {
            name: self.name.clone(),
            methods,
            process_name: self.process_name.clone(),
            registered_at: self.registered_at,
        }
    }
}

/// The services that one endpoint offers.
#[derive(Debug, Clone)]
pub struct ServiceDirectory {
    pub services: Vec<ServiceInfo>,
}

/// A typed request value.
#[derive(Debug)]
pub struct Request<T> {
    pub method: String,
    pub params: T,
}

/// A typed reply value: the result, or the error text.
#[derive(Debug)]
pub struct Response<T> {
    pub result: Result<T, String>,
}

impl Message {
    /// A fresh envelope of the given kind and routing, stamped now.
    pub fn new(
        msg_type: MessageType,
        source: String,
        target: Option<String>,
        topic: Option<String>,
        payload: Vec<u8>,
        correlation_id: Option<u128>,
    ) -> (r: Message)
        ensures
            r.msg_type == msg_type,
            r.source == source,
            r.target == target,
            r.topic == topic,
            r.payload == payload,
            r.correlation_id == correlation_id,
    {
        Message {
            id: fresh_id(),
            msg_type,
            source,
            target,
            topic,
            payload,
            correlation_id,
            metadata: MessageMetadata::now(),
        }
    }

    /// A request for `method` addressed to `target`; its own id is its
    /// correlation id.
    pub fn request(source: String, target: String, method: String, payload: Vec<u8>) -> (r:
        Message)
        ensures
            r.msg_type == MessageType::Request,
            r.source == source,
            r.target == Some(target),
            r.topic == Some(method),
            r.payload == payload,
            r.correlation_id == Some(r.id),
    {
        let id = fresh_id();
        Message {
            id,
            msg_type: MessageType::Request,
            source,
            target: Some(target),
            topic: Some(method),
            payload,
            correlation_id: Some(id),
            metadata: MessageMetadata::now(),
        }
    }

    /// The reply to `request` from `source`, carrying `payload`: addressed to
    /// the requester, with the request's topic and correlation id.
    pub fn response(request: &Message, source: String, payload: Vec<u8>) -> (r: Message)
        ensures
            r.msg_type == MessageType::Response,
            r.source == source,
            r.target == Some(request.source),
            opt_view(r.topic) == opt_view(request.topic),
            r.payload == payload,
            r.correlation_id == request.correlation_id,
            r.id != request.id,
    {
        let m = Message::new(
            MessageType::Response,
            source,
            Some(request.source.clone()),
            copy_opt(&request.topic),
            payload,
            request.correlation_id,
        );
        Message { id: fresh_id_except(request.id), ..m }
    }

    /// The error reply to `request` from `source`, carrying the UTF-8 text
    /// `message`.
    pub fn error_reply(request: &Message, source: String, message: &str) -> (r: Message)
        ensures
            r.msg_type == MessageType::Error,
            r.source == source,
            r.target == Some(request.source),
            opt_view(r.topic) == opt_view(request.topic),
            r.payload@ == message.spec_bytes(),
            r.correlation_id == request.correlation_id,
            r.id != request.id,
    {
        let m = Message::new(
            MessageType::Error,
            source,
            Some(request.source.clone()),
            copy_opt(&request.topic),
            copy_bytes(message.as_bytes()),
            request.correlation_id,
        );
        Message { id: fresh_id_except(request.id), ..m }
    }

    /// A broadcast event on `topic`.
    pub fn event(source: String, topic: String, payload: Vec<u8>) -> (r: Message)
        ensures
            r.msg_type == MessageType::Event,
            r.source == source,
            r.target.is_none(),
            r.topic == Some(topic),
            r.payload == payload,
            r.correlation_id.is_none(),
    {
        Message::new(MessageType::Event, source, None, Some(topic), payload, None)
    }

    /// A broadcast announcement of a service; `payload` holds its record.
    pub fn service_register(source: String, payload: Vec<u8>) -> (r: Message)
        ensures
            r.msg_type == MessageType::ServiceRegister,
            r.source == source,
            r.target.is_none(),
            r.topic matches Some(t) && t@ == "service.register"@,
            r.payload == payload,
            r.correlation_id.is_none(),
    {
        Message::new(
            MessageType::ServiceRegister,
            source,
            None,
            Some(String::from_str("service.register")),
            payload,
            None,
        )
    }

    /// A broadcast query for the services on the bus, with a fresh
    /// correlation id; `payload` holds the optional filter.
    pub fn service_query(source: String, payload: Vec<u8>) -> (r: Message)
        ensures
            r.msg_type == MessageType::ServiceQuery,
            r.source == source,
            r.target.is_none(),
            r.topic matches Some(t) && t@ == "service.query"@,
            r.payload == payload,
            r.correlation_id.is_some(),
    {
        let correlation = fresh_id();
        Message::new(
            MessageType::ServiceQuery,
            source,
            None,
            Some(String::from_str("service.query")),
            payload,
            Some(correlation),
        )
    }

    /// The directory reply to a query, addressed to the querier.
    pub fn service_directory(
        source: String,
        target: String,
        payload: Vec<u8>,
        correlation_id: Option<u128>,
    ) -> (r: Message)
        ensures
            r.msg_type == MessageType::ServiceDirectory,
            r.source == source,
            r.target == Some(target),
            r.topic matches Some(t) && t@ == "service.directory"@,
            r.payload == payload,
            r.correlation_id == correlation_id,
    {
        Message::new(
            MessageType::ServiceDirectory,
            source,
            Some(target),
            Some(String::from_str("service.directory")),
            payload,
            correlation_id,
        )
    }

    /// A streaming request for `method` under the subscription id
    /// `subscription_id`; the payload holds the parameters.
    pub fn subscription_request(
        source: String,
        target: Option<String>,
        method: &str,
        params: Vec<u8>,
        subscription_id: u128,
    ) -> (r: Message)
        ensures
            r.msg_type == MessageType::SubscriptionRequest,
            r.source == source,
            r.target == target,
            r.topic matches Some(t) && t@ == subscription_prefix() + method@,
            r.payload == params,
            r.correlation_id == Some(subscription_id),
    {
        Message::new(
            MessageType::SubscriptionRequest,
            source,
            target,
            Some(subscription_topic(method)),
            params,
            Some(subscription_id),
        )
    }

    /// The server's acceptance of subscription `subscription_id`.
    pub fn subscription_accept(source: String, target: String, subscription_id: u128) -> (r:
        Message)
        ensures
            r.msg_type == MessageType::SubscriptionAccept,
            r.source == source,
            r.target == Some(target),
            r.topic matches Some(t) && t@ == "subscription.accept"@,
            r.payload@.len() == 0,
            r.correlation_id == Some(subscription_id),
    {
        Message::new(
            MessageType::SubscriptionAccept,
            source,
            Some(target),
            Some(String::from_str("subscription.accept")),
            Vec::new(),
            Some(subscription_id),
        )
    }

    /// The server's rejection of subscription `subscription_id`; the payload
    /// holds the reason as UTF-8.
    pub fn subscription_reject(
        source: String,
        target: String,
        subscription_id: u128,
        reason: &str,
    ) -> (r: Message)
        ensures
            r.msg_type == MessageType::SubscriptionReject,
            r.source == source,
            r.target == Some(target),
            r.topic matches Some(t) && t@ == "subscription.reject"@,
            r.payload@ == reason.spec_bytes(),
            r.correlation_id == Some(subscription_id),
    {
        Message::new(
            MessageType::SubscriptionReject,
            source,
            Some(target),
            Some(String::from_str("subscription.reject")),
            copy_bytes(reason.as_bytes()),
            Some(subscription_id),
        )
    }

    /// One item of subscription `subscription_id`, as encoded bytes.
    pub fn subscription_data(
        source: String,
        target: String,
        subscription_id: u128,
        data: Vec<u8>,
    ) -> (r: Message)
        ensures
            r.msg_type == MessageType::SubscriptionData,
            r.source == source,
            r.target == Some(target),
            r.topic matches Some(t) && t@ == "subscription.data"@,
            r.payload == data,
            r.correlation_id == Some(subscription_id),
    {
        Message::new(
            MessageType::SubscriptionData,
            source,
            Some(target),
            Some(String::from_str("subscription.data")),
            data,
            Some(subscription_id),
        )
    }

    /// The client's cancellation of subscription `subscription_id`.
    pub fn subscription_cancel(source: String, target: String, subscription_id: u128) -> (r:
        Message)
        ensures
            r.msg_type == MessageType::SubscriptionCancel,
            r.source == source,
            r.target == Some(target),
            r.topic matches Some(t) && t@ == "subscription.cancel"@,
            r.payload@.len() == 0,
            r.correlation_id == Some(subscription_id),
    {
        Message::new(
            MessageType::SubscriptionCancel,
            source,
            Some(target),
            Some(String::from_str("subscription.cancel")),
            Vec::new(),
            Some(subscription_id),
        )
    }

    /// A request to the endpoint `target` itself to stop its receive loop.
    pub fn shutdown(target: String) -> (r: Message)
        ensures
            r.msg_type == MessageType::Shutdown,
            r.source == target,
            r.target == Some(target),
            r.topic.is_none(),
            r.payload@.len() == 0,
            r.correlation_id.is_none(),
    {
        let source = target.clone();
        Message::new(MessageType::Shutdown, source, Some(target), None, Vec::new(), None)
    }
}

} // verus!
