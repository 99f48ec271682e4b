//! The process hub's state and its decisions: what the receive loop does with
//! each envelope, how a call is parked and settled, and how streaming
//! subscriptions are tracked on the client's side.
//!
//! The runtime around it performs the I/O: it hands every received envelope
//! to [`HubCore::dispatch`] and carries out the returned [`Dispatch`]. A
//! client subscription is registered before its request is sent, so that no
//! early acceptance or item can find it missing.

use crate::codec::{
    decode_directory, decode_service_info, enc_info, enc_infos, encode_directory,
    encode_service_info, info_views, InfoView,
};
use crate::directory::{learned, learned_all};
use crate::naming::{splits_as, strip_subscription};
use crate::streaming::client_transition;
use vstd::utf8::encode_utf8;
use crate::directory::{route_call, routes, CallRoute, RemoteDirectory};
use crate::error::Error;
use crate::message::{opt_view, unix_millis, Message, MessageType, ServiceInfo};
use crate::naming::subscription_target;
use crate::pending::PendingRequests;
use crate::pubsub::{receives, SubscriptionRegistry};
use crate::registry::{copy_strings, resolve_error, resolves, string_views, ServiceRegistry};
use crate::streaming::{
    client_step, subscription_stats, ServerStream, StreamAction, StreamEvent,
    StreamState, SubscriptionStats,
};
use crate::table::{str_equal, IdTable};
use vstd::prelude::*;
use vstd::string::*;

verus! {

/// Timeouts, delays and retry counts of a hub.
#[derive(Debug, Clone, Copy, PartialEq, Eq, Structural)]
pub struct HubConfig {
    /// How long a call waits for its reply.
    pub call_timeout_ms: u64,
    /// How long construction waits for directory replies.
    pub discovery_grace_ms: u64,
    /// How many service queries a discovery may send.
    pub discovery_retries: u32,
    /// How many attempts a streaming send makes.
    pub stream_send_retries: u32,
    /// How long after registration a client subscription is health-checked.
    pub health_check_interval_ms: u64,
    /// How long one receive waits before the loop re-checks for shutdown.
    pub recv_timeout_ms: u64,
    /// How long shutdown waits for the receive loop.
    pub shutdown_grace_ms: u64,
}

/// Builder of a hub's configuration.
#[derive(Debug, Clone)]
pub struct ProcessHubBuilder {
    pub name: String,
    pub bus_name: Option<String>,
    pub fast_mode: bool,
    /// How long a call waits for its reply.
    pub call_timeout_ms: u64,
    /// How long construction waits for directory replies.
    pub discovery_grace_ms: u64,
    /// How many service queries a discovery may send.
    pub discovery_retries: u32,
    /// How many attempts a streaming send makes.
    pub stream_send_retries: u32,
    /// How long after registration a client subscription is health-checked.
    pub health_check_interval_ms: u64,
}

/// The bus that hubs join unless told otherwise.
pub open spec fn default_bus() -> Seq<char> {
    "com.hsipc.bus"@
}

impl ProcessHubBuilder {
    /// A builder for the endpoint `name` on the default bus, not in fast
    /// mode, with the default timeouts and retry counts.
    pub fn new(name: &str) -> (r: ProcessHubBuilder)
        ensures
            r.name@ == name@,
            r.bus_name.is_none(),
            !r.fast_mode,
            r.call_timeout_ms == 30000,
            r.discovery_grace_ms == 100,
            r.discovery_retries == 3,
            r.stream_send_retries == 3,
            r.health_check_interval_ms == 30000,
    {
        ProcessHubBuilder { name: name.to_string(), bus_name: None, fast_mode: false, call_timeout_ms: 30000, discovery_grace_ms: 100, discovery_retries: 3, stream_send_retries: 3, health_check_interval_ms: 30000 }
    }

    /// Joins the bus `bus_name` instead of the default.
    pub fn with_bus_name(self, bus_name: &str) -> (r: ProcessHubBuilder)
        ensures
            r.name == self.name,
            r.bus_name matches Some(b) && b@ == bus_name@,
            r.fast_mode == self.fast_mode,
            r.call_timeout_ms == self.call_timeout_ms,
            r.discovery_grace_ms == self.discovery_grace_ms,
            r.discovery_retries == self.discovery_retries,
            r.stream_send_retries == self.stream_send_retries,
            r.health_check_interval_ms == self.health_check_interval_ms,
    {
        ProcessHubBuilder { name: self.name, bus_name: Some(bus_name.to_string()), fast_mode: self.fast_mode, call_timeout_ms: self.call_timeout_ms, discovery_grace_ms: self.discovery_grace_ms, discovery_retries: self.discovery_retries, stream_send_retries: self.stream_send_retries, health_check_interval_ms: self.health_check_interval_ms }
    }

    /// Skips start-up discovery and optional delays.
    pub fn with_fast_mode(self, fast_mode: bool) -> (r: ProcessHubBuilder)
        ensures
            r.name == self.name,
            r.bus_name == self.bus_name,
            r.fast_mode == fast_mode,
            r.call_timeout_ms == self.call_timeout_ms,
            r.discovery_grace_ms == self.discovery_grace_ms,
            r.discovery_retries == self.discovery_retries,
            r.stream_send_retries == self.stream_send_retries,
            r.health_check_interval_ms == self.health_check_interval_ms,
    {
        ProcessHubBuilder { name: self.name, bus_name: self.bus_name, fast_mode, call_timeout_ms: self.call_timeout_ms, discovery_grace_ms: self.discovery_grace_ms, discovery_retries: self.discovery_retries, stream_send_retries: self.stream_send_retries, health_check_interval_ms: self.health_check_interval_ms }
    }

    /// Sets `call_timeout_ms`: how long a call waits for its reply.
    pub fn with_call_timeout_ms(self, call_timeout_ms: u64) -> (r: ProcessHubBuilder)
        ensures
            r.name == self.name,
            r.bus_name == self.bus_name,
            r.fast_mode == self.fast_mode,
            r.call_timeout_ms == call_timeout_ms,
            r.discovery_grace_ms == self.discovery_grace_ms,
            r.discovery_retries == self.discovery_retries,
            r.stream_send_retries == self.stream_send_retries,
            r.health_check_interval_ms == self.health_check_interval_ms,
    {
        ProcessHubBuilder { name: self.name, bus_name: self.bus_name, fast_mode: self.fast_mode, call_timeout_ms, discovery_grace_ms: self.discovery_grace_ms, discovery_retries: self.discovery_retries, stream_send_retries: self.stream_send_retries, health_check_interval_ms: self.health_check_interval_ms }
    }

    /// Sets `discovery_grace_ms`: how long construction waits for directory replies.
    pub fn with_discovery_grace_ms(self, discovery_grace_ms: u64) -> (r: ProcessHubBuilder)
        ensures
            r.name == self.name,
            r.bus_name == self.bus_name,
            r.fast_mode == self.fast_mode,
            r.discovery_grace_ms == discovery_grace_ms,
            r.call_timeout_ms == self.call_timeout_ms,
            r.discovery_retries == self.discovery_retries,
            r.stream_send_retries == self.stream_send_retries,
            r.health_check_interval_ms == self.health_check_interval_ms,
    {
        ProcessHubBuilder { name: self.name, bus_name: self.bus_name, fast_mode: self.fast_mode, discovery_grace_ms, call_timeout_ms: self.call_timeout_ms, discovery_retries: self.discovery_retries, stream_send_retries: self.stream_send_retries, health_check_interval_ms: self.health_check_interval_ms }
    }

    /// Sets `discovery_retries`: how many service queries a discovery may send.
    pub fn with_discovery_retries(self, discovery_retries: u32) -> (r: ProcessHubBuilder)
        ensures
            r.name == self.name,
            r.bus_name == self.bus_name,
            r.fast_mode == self.fast_mode,
            r.discovery_retries == discovery_retries,
            r.call_timeout_ms == self.call_timeout_ms,
            r.discovery_grace_ms == self.discovery_grace_ms,
            r.stream_send_retries == self.stream_send_retries,
            r.health_check_interval_ms == self.health_check_interval_ms,
    {
        ProcessHubBuilder { name: self.name, bus_name: self.bus_name, fast_mode: self.fast_mode, discovery_retries, call_timeout_ms: self.call_timeout_ms, discovery_grace_ms: self.discovery_grace_ms, stream_send_retries: self.stream_send_retries, health_check_interval_ms: self.health_check_interval_ms }
    }

    /// Sets `stream_send_retries`: how many attempts a streaming send makes.
    pub fn with_stream_send_retries(self, stream_send_retries: u32) -> (r: ProcessHubBuilder)
        ensures
            r.name == self.name,
            r.bus_name == self.bus_name,
            r.fast_mode == self.fast_mode,
            r.stream_send_retries == stream_send_retries,
            r.call_timeout_ms == self.call_timeout_ms,
            r.discovery_grace_ms == self.discovery_grace_ms,
            r.discovery_retries == self.discovery_retries,
            r.health_check_interval_ms == self.health_check_interval_ms,
    {
        ProcessHubBuilder { name: self.name, bus_name: self.bus_name, fast_mode: self.fast_mode, stream_send_retries, call_timeout_ms: self.call_timeout_ms, discovery_grace_ms: self.discovery_grace_ms, discovery_retries: self.discovery_retries, health_check_interval_ms: self.health_check_interval_ms }
    }

    /// Sets `health_check_interval_ms`: how long after registration a client subscription is health-checked.
    pub fn with_health_check_interval_ms(self, health_check_interval_ms: u64) -> (r: ProcessHubBuilder)
        ensures
            r.name == self.name,
            r.bus_name == self.bus_name,
            r.fast_mode == self.fast_mode,
            r.health_check_interval_ms == health_check_interval_ms,
            r.call_timeout_ms == self.call_timeout_ms,
            r.discovery_grace_ms == self.discovery_grace_ms,
            r.discovery_retries == self.discovery_retries,
            r.stream_send_retries == self.stream_send_retries,
    {
        ProcessHubBuilder { name: self.name, bus_name: self.bus_name, fast_mode: self.fast_mode, health_check_interval_ms, call_timeout_ms: self.call_timeout_ms, discovery_grace_ms: self.discovery_grace_ms, discovery_retries: self.discovery_retries, stream_send_retries: self.stream_send_retries }
    }

    /// The bus to join: the configured one, or the default.
    pub fn bus(&self) -> (r: String)
        ensures
            r@ == match self.bus_name {
                Some(b) => b@,
                None => default_bus(),
            },
    {
        match &self.bus_name {
            Some(b) => b.clone(),
            None => String::from_str("com.hsipc.bus"),
        }
    }

    /// The timeouts and retry counts of the hub: fast mode waits for no
    /// directory replies at start-up.
    pub fn config(&self) -> (r: HubConfig)
        ensures
            r.call_timeout_ms == self.call_timeout_ms,
            r.discovery_retries == self.discovery_retries,
            r.stream_send_retries == self.stream_send_retries,
            r.health_check_interval_ms == self.health_check_interval_ms,
            r.discovery_grace_ms == if self.fast_mode {
                0u64
            } else {
                self.discovery_grace_ms
            },
            r.recv_timeout_ms == 100,
            r.shutdown_grace_ms == 2000,
    {
        HubConfig {
            call_timeout_ms: self.call_timeout_ms,
            discovery_grace_ms: if self.fast_mode {
                0
            } else {
                self.discovery_grace_ms
            },
            discovery_retries: self.discovery_retries,
            stream_send_retries: self.stream_send_retries,
            health_check_interval_ms: self.health_check_interval_ms,
            recv_timeout_ms: 100,
            shutdown_grace_ms: 2000,
        }
    }
}

/// Builder of a transport endpoint.
#[derive(Debug, Clone)]
pub struct IpmbTransportBuilder {
    pub process_name: String,
    pub bus_name: Option<String>,
}

impl IpmbTransportBuilder {
    /// A builder for the endpoint `process_name` on the default bus.
    pub fn new(process_name: &str) -> (r: IpmbTransportBuilder)
        ensures
            r.process_name@ == process_name@,
            r.bus_name.is_none(),
    {
        IpmbTransportBuilder { process_name: process_name.to_string(), bus_name: None }
    }

    /// Joins the bus `bus_name` instead of the default.
    pub fn with_bus_name(self, bus_name: &str) -> (r: IpmbTransportBuilder)
        ensures
            r.process_name == self.process_name,
            r.bus_name matches Some(b) && b@ == bus_name@,
    {
        IpmbTransportBuilder { process_name: self.process_name, bus_name: Some(bus_name.to_string()) }
    }

    /// The bus to join: the configured one, or the default.
    pub fn bus(&self) -> (r: String)
        ensures
            r@ == match self.bus_name {
                Some(b) => b@,
                None => default_bus(),
            },
    {
        match &self.bus_name {
            Some(b) => b.clone(),
            None => String::from_str("com.hsipc.bus"),
        }
    }
}

/// What the runtime does with a received envelope.
pub enum Dispatch<P> {
    /// Run the local handler `service` on `method` with the request's
    /// payload, and answer `request` with [`HubCore::reply`].
    Invoke { service: String, method: String, request: Message },
    /// Send this envelope.
    Send(Message),
    /// Hand `reply` to the caller waiting on `slot`.
    Complete { slot: P, reply: Message },
    /// Hand the event's payload to each of these local subscribers, in order.
    Deliver { subscribers: Vec<u128>, topic: String, payload: Vec<u8> },
    /// Start the service's streaming handler for a pending subscription.
    OpenStream { stream: ServerStream, service: String, params: Vec<u8> },
    /// The server accepted the client subscription `id`.
    StreamAccepted { id: u128 },
    /// Hand an item to the client subscription `id`.
    StreamItem { id: u128, data: Vec<u8> },
    /// The server rejected the client subscription `id`; its sink is closed.
    StreamRejected { id: u128, reason: Vec<u8> },
    /// The client cancelled the subscription `id` that this hub serves.
    StreamCancelled { id: u128 },
    /// The directory learned from an announcement or a reply.
    Learned,
    /// Leave the receive loop.
    Stop,
    /// Nothing to do.
    Ignore,
}

/// The state of a process hub.
pub struct HubCore<P, S> {
    /// This hub's endpoint label.
    pub name: String,
    pub registry: ServiceRegistry,
    pub directory: RemoteDirectory,
    pub pending: PendingRequests<P>,
    pub subscribers: SubscriptionRegistry,
    /// Client-side sinks of streaming subscriptions, by subscription id.
    pub streams: IdTable<S>,
    /// Client-side lifecycle states, by subscription id.
    pub stream_states: IdTable<StreamState>,
    /// Whether a shutdown was requested.
    pub stopped: bool,
}

/// The text of the error reply for a request that failed with `e`.
pub open spec fn service_error_text(e: &Error) -> Seq<char> {
    "Service error: "@ + crate::error::display_of(e)
}

impl<P, S> HubCore<P, S> {
    /// All tables are well formed, and every client sink has a state.
    pub open spec fn wf(&self) -> bool {
        &&& self.registry.wf()
        &&& self.directory.wf()
        &&& self.pending.wf()
        &&& self.subscribers.wf()
        &&& self.streams.wf()
        &&& self.stream_states.wf()
        &&& forall|id: u128| #[trigger] self.streams@.contains_key(id) ==> self.stream_states@.contains_key(id)
    }

    /// A hub with nothing registered, for the endpoint `name`.
    pub fn new(name: String) -> (r: Self)
        ensures
            r.wf(),
            r.name == name,
            r.registry@ == Map::<Seq<char>, Vec<String>>::empty(),
            r.directory@ == Map::<Seq<char>, String>::empty(),
            r.pending@ == Map::<u128, P>::empty(),
            r.subscribers@ == Map::<u128, String>::empty(),
            r.streams@ == Map::<u128, S>::empty(),
            !r.stopped,
    {
        HubCore {
            name,
            registry: ServiceRegistry::new(),
            directory: RemoteDirectory::new(),
            pending: PendingRequests::new(),
            subscribers: SubscriptionRegistry::new(),
            streams: IdTable::new(),
            stream_states: IdTable::new(),
            stopped: false,
        }
    }

    /// The record of this hub's service `name`, stamped `now`.
    fn local_info(&self, name: &String, methods: &Vec<String>, now: u64) -> (r: ServiceInfo)
        ensures
            r.name == *name,
            r.methods@ == methods@,
            r.process_name == self.name,
            r.registered_at == now,
    {
        ServiceInfo {
            name: name.clone(),
            methods: copy_strings(methods),
            process_name: self.name.clone(),
            registered_at: now,
        }
    }

    /// Registers a local service and returns its broadcast announcement.
    pub fn register_service(&mut self, name: String, methods: Vec<String>) -> (r: Message)
        requires
            old(self).wf(),
        ensures
            final(self).wf(),
            final(self).registry@ == old(self).registry@.insert(name@, methods),
            final(self).name == old(self).name,
            final(self).directory@ == old(self).directory@,
            final(self).pending@ == old(self).pending@,
            final(self).subscribers@ == old(self).subscribers@,
            final(self).streams@ == old(self).streams@,
            r.msg_type == MessageType::ServiceRegister,
            r.target.is_none(),
            r.source == old(self).name,
            r.topic matches Some(t) && t@ == "service.register"@,
            exists|t: u64| r.payload@ == enc_info(name@, string_views(methods@), old(self).name@, t),
    {
        let info = self.local_info(&name, &methods, unix_millis());
        let payload = encode_service_info(&info);
        self.registry.register(name, methods);
        let r = Message::service_register(self.name.clone(), payload);
        assert(r.payload@ == enc_info(info.name@, string_views(info.methods@), self.name@, info.registered_at));
        r
    }

    /// The records of every local service, stamped `now`.
    pub fn local_services(&self, now: u64) -> (r: Vec<ServiceInfo>)
        requires
            self.wf(),
        ensures
            r@.len() == self.registry@.len(),
            forall|i: int|
                0 <= i < r@.len() ==> self.registry@.contains_key(#[trigger] r@[i].name@)
                    && r@[i].methods@ == self.registry@[r@[i].name@]@ && r@[i].process_name
                    == self.name && r@[i].registered_at == now,
            forall|k: Seq<char>| #[trigger] self.registry@.contains_key(k) ==> exists|i: int|
                0 <= i < r@.len() && r@[i].name@ == k,
    {
        let names = self.registry.list_services();
        proof {
            self.registry.lemma_names(names@);
        }
        let mut out: Vec<ServiceInfo> = Vec::new();
        let mut i: usize = 0;
        while i < names.len()
            invariant
                self.wf(),
                i <= names@.len(),
                out@.len() == i,
                names@.len() == self.registry@.len(),
                forall|j: int| 0 <= j < names@.len() ==> self.registry@.contains_key(#[trigger] names@[j]@),
                forall|j: int|
                    0 <= j < out@.len() ==> self.registry@.contains_key(#[trigger] out@[j].name@)
                        && out@[j].methods@ == self.registry@[out@[j].name@]@ && out@[j].process_name
                        == self.name && out@[j].registered_at == now,
                forall|j: int| 0 <= j < out@.len() ==> #[trigger] out@[j].name@ == names@[j]@,
                string_views(names@).to_set() == self.registry@.dom(),
            decreases names@.len() - i,
        {
            let methods = match self.registry.get_service(names[i].as_str()) {
                Some(m) => m,
                None => {
                    assert(self.registry@.contains_key(names@[i as int]@));
                    return out;
                },
            };
            let info = self.local_info(&names[i], methods, now);
            out.push(info);
            i = i + 1;
        }
        proof {
            assert forall|k: Seq<char>| #[trigger] self.registry@.contains_key(k) implies exists|j: int|
                0 <= j < out@.len() && out@[j].name@ == k by {
                assert(string_views(names@).to_set().contains(k));
                let j = choose|j: int| 0 <= j < string_views(names@).len() && string_views(names@)[j] == k;
                assert(out@[j].name@ == names@[j]@);
            }
        }
        out
    }

    /// Decides what to do with a received envelope, updating the hub's
    /// tables as the protocol requires.
    pub fn dispatch(&mut self, msg: Message) -> (r: Dispatch<P>)
        requires
            old(self).wf(),
        ensures
            final(self).wf(),
            final(self).name == old(self).name,
            final(self).registry@ == old(self).registry@,
            final(self).subscribers@ == old(self).subscribers@,
            msg.msg_type == MessageType::Request ==> request_outcome(old(self).registry@, old(self).name, msg, r),
            (msg.msg_type == MessageType::Response || msg.msg_type == MessageType::Error) ==> reply_outcome(
                old(self).pending@,
                final(self).pending@,
                msg,
                r,
            ),
            msg.msg_type != MessageType::Response && msg.msg_type != MessageType::Error
                ==> final(self).pending@ == old(self).pending@,
            msg.msg_type == MessageType::Event ==> event_outcome(old(self).subscribers@, msg, r),
            msg.msg_type == MessageType::Shutdown ==> ((r is Stop) == (msg.target matches Some(t) && t@ == old(self).name@)),
            msg.msg_type == MessageType::SubscriptionRequest ==> stream_request_outcome(old(self).registry@, msg, r),
            msg.msg_type == MessageType::ServiceQuery ==> query_outcome(old(self).registry@, old(self).name, msg, r),
            msg.msg_type == MessageType::ServiceRegister ==> ((r is Learned) == (exists|n: Seq<char>, m: Seq<Seq<char>>, e: Seq<char>, t: u64|
                enc_info(n, m, e, t) == msg.payload@)),
            msg.msg_type == MessageType::ServiceRegister ==> announcement_outcome(
                old(self).directory@,
                final(self).directory@,
                msg.payload@,
            ),
            msg.msg_type == MessageType::ServiceDirectory ==> ((r is Learned) == (exists|v: Seq<InfoView>|
                enc_infos(v) == msg.payload@)),
            msg.msg_type == MessageType::ServiceDirectory ==> directory_outcome(
                old(self).directory@,
                final(self).directory@,
                msg.payload@,
            ),
            msg.msg_type == MessageType::SubscriptionAccept ==> frame_outcome(old(self).stream_states@,
                final(self).stream_states@, old(self).streams@, final(self).streams@, msg, StreamEvent::Accepted, r),
            msg.msg_type == MessageType::SubscriptionReject ==> frame_outcome(old(self).stream_states@,
                final(self).stream_states@, old(self).streams@, final(self).streams@, msg, StreamEvent::Rejected, r),
            msg.msg_type == MessageType::SubscriptionData ==> frame_outcome(old(self).stream_states@,
                final(self).stream_states@, old(self).streams@, final(self).streams@, msg, StreamEvent::Data, r),
            msg.msg_type == MessageType::SubscriptionCancel ==> match msg.correlation_id {
                Some(id) => r matches Dispatch::StreamCancelled { id: i } && i == id,
                None => r is Ignore,
            },
            msg.msg_type != MessageType::ServiceRegister && msg.msg_type != MessageType::ServiceDirectory
                ==> final(self).directory@ == old(self).directory@,
            r is StreamItem ==> (msg.msg_type == MessageType::SubscriptionData && msg.correlation_id
                == Some(r->StreamItem_id) && old(self).stream_states@.contains_key(r->StreamItem_id)
                && old(self).stream_states@[r->StreamItem_id] == StreamState::Active),
    {
        match msg.msg_type {
            MessageType::Request => self.on_request(msg),
            MessageType::Response | MessageType::Error => self.on_reply(msg),
            MessageType::Event => self.on_event(msg),
            MessageType::ServiceRegister => {
                match decode_service_info(msg.payload.as_slice()) {
                    Some(info) => {
                        self.directory.learn(&info);
                        assert(enc_info(info.name@, string_views(info.methods@), info.process_name@, info.registered_at) == msg.payload@);
                        Dispatch::Learned
                    },
                    None => {
                        proof {
                            assert forall|n: Seq<char>, m: Seq<Seq<char>>, e: Seq<char>, t: u64|
                                enc_info(n, m, e, t) != msg.payload@ by {}
                        }
                        Dispatch::Ignore
                    },
                }
            },
            MessageType::ServiceQuery => self.on_query(msg),
            MessageType::ServiceDirectory => {
                match decode_directory(msg.payload.as_slice()) {
                    Some(services) => {
                        self.directory.learn_all(&services);
                        assert(enc_infos(info_views(services@)) == msg.payload@);
                        Dispatch::Learned
                    },
                    None => Dispatch::Ignore,
                }
            },
            MessageType::SubscriptionRequest => self.on_stream_request(msg),
            MessageType::SubscriptionAccept => self.on_stream_frame(msg, StreamEvent::Accepted),
            MessageType::SubscriptionReject => self.on_stream_frame(msg, StreamEvent::Rejected),
            MessageType::SubscriptionData => self.on_stream_frame(msg, StreamEvent::Data),
            MessageType::SubscriptionCancel => match msg.correlation_id {
                Some(id) => Dispatch::StreamCancelled { id },
                None => Dispatch::Ignore,
            },
            MessageType::Shutdown => {
                let to_me = match &msg.target {
                    Some(t) => str_equal(t.as_str(), self.name.as_str()),
                    None => false,
                };
                if to_me {
                    self.stopped = true;
                    Dispatch::Stop
                } else {
                    Dispatch::Ignore
                }
            },
            _ => Dispatch::Ignore,
        }
    }

    fn on_request(&self, msg: Message) -> (r: Dispatch<P>)
        requires
            self.wf(),
            msg.msg_type == MessageType::Request,
        ensures
            request_outcome(self.registry@, self.name, msg, r),
    {
        let resolved = match &msg.topic {
            Some(t) => self.registry.resolve(t.as_str()),
            None => {
                return Dispatch::Ignore;
            },
        };
        match resolved {
            Ok((service, method)) => Dispatch::Invoke { service, method, request: msg },
            Err(e) => {
                let ghost err = e;
                assert(resolve_error(self.registry@, msg.topic->Some_0@, err));
                Dispatch::Send(self.reply(&msg, Err(e)))
            },
        }
    }

    fn on_reply(&mut self, msg: Message) -> (r: Dispatch<P>)
        requires
            old(self).wf(),
        ensures
            final(self).wf(),
            final(self).name == old(self).name,
            final(self).registry@ == old(self).registry@,
            final(self).subscribers@ == old(self).subscribers@,
            final(self).directory@ == old(self).directory@,
            reply_outcome(old(self).pending@, final(self).pending@, msg, r),
    {
        match msg.correlation_id {
            Some(c) => match self.pending.complete(c) {
                Some(slot) => Dispatch::Complete { slot, reply: msg },
                None => Dispatch::Ignore,
            },
            None => Dispatch::Ignore,
        }
    }

    fn on_event(&self, msg: Message) -> (r: Dispatch<P>)
        requires
            self.wf(),
        ensures
            event_outcome(self.subscribers@, msg, r),
    {
        match msg.topic {
            Some(topic) => {
                let subscribers = self.subscribers.matching(topic.as_str());
                Dispatch::Deliver { subscribers, topic, payload: msg.payload }
            },
            None => Dispatch::Ignore,
        }
    }

    fn on_query(&self, msg: Message) -> (r: Dispatch<P>)
        requires
            self.wf(),
        ensures
            query_outcome(self.registry@, self.name, msg, r),
    {
        match msg.correlation_id {
            Some(c) => {
                let services = self.local_services(unix_millis());
                let payload = encode_directory(&services);
                assert(local_records(self.registry@, self.name, services@));
                Dispatch::Send(
                    Message::service_directory(self.name.clone(), msg.source, payload, Some(c)),
                )
            },
            None => Dispatch::Ignore,
        }
    }

    fn on_stream_request(&self, msg: Message) -> (r: Dispatch<P>)
        requires
            self.wf(),
            msg.msg_type == MessageType::SubscriptionRequest,
        ensures
            stream_request_outcome(self.registry@, msg, r),
    {
        let id = match msg.correlation_id {
            Some(id) => id,
            None => {
                return Dispatch::Ignore;
            },
        };
        let target = match &msg.topic {
            Some(t) => subscription_target(t.as_str()),
            None => {
                return Dispatch::Ignore;
            },
        };
        let ghost st = strip_subscription(msg.topic->Some_0@);
        proof {
            reveal_strlit("Service not found");
        }
        match target {
            Ok((service, method)) => {
                if self.registry.get_service(service.as_str()).is_some() {
                    assert(splits_as(st, service@, method@) && self.registry@.contains_key(service@));
                    let stream = ServerStream::new(id, method, msg.source);
                    Dispatch::OpenStream { stream, service, params: msg.payload }
                } else {
                    proof {
                        assert forall|a: Seq<char>, b: Seq<char>| !(splits_as(st, a, b)
                            && self.registry@.contains_key(a)) by {
                            if splits_as(st, a, b) {
                                crate::registry::lemma_split_unique(st, a, b, service@, method@);
                            }
                        }
                    }
                    Dispatch::Send(
                        Message::subscription_reject(self.name.clone(), msg.source, id, "Service not found"),
                    )
                }
            },
            Err(_) => {
                proof {
                    assert forall|a: Seq<char>, b: Seq<char>| !(splits_as(st, a, b)
                        && self.registry@.contains_key(a)) by {
                        if splits_as(st, a, b) {
                            crate::naming::lemma_splits_iff_one_dot(st, a, b);
                        }
                    }
                }
                Dispatch::Send(
                    Message::subscription_reject(self.name.clone(), msg.source, id, "Service not found"),
                )
            },
        }
    }

    fn on_stream_frame(&mut self, msg: Message, event: StreamEvent) -> (r: Dispatch<P>)
        requires
            old(self).wf(),
            event != StreamEvent::Cancelled,
        ensures
            final(self).wf(),
            final(self).name == old(self).name,
            final(self).registry@ == old(self).registry@,
            final(self).subscribers@ == old(self).subscribers@,
            final(self).pending@ == old(self).pending@,
            final(self).directory@ == old(self).directory@,
            r is StreamItem ==> (event == StreamEvent::Data && msg.correlation_id == Some(r->StreamItem_id)
                && old(self).stream_states@.contains_key(r->StreamItem_id)
                && old(self).stream_states@[r->StreamItem_id] == StreamState::Active),
            frame_outcome(old(self).stream_states@, final(self).stream_states@, old(self).streams@,
                final(self).streams@, msg, event, r),
    {
        let id = match msg.correlation_id {
            Some(id) => id,
            None => {
                return Dispatch::Ignore;
            },
        };
        let state = match self.stream_states.get(id) {
            Some(s) => *s,
            None => {
                return Dispatch::Ignore;
            },
        };
        let (next, action) = client_step(state, event);
        self.stream_states.insert(id, next);
        match action {
            StreamAction::Open => Dispatch::StreamAccepted { id },
            StreamAction::Deliver => Dispatch::StreamItem { id, data: msg.payload },
            StreamAction::Fail => {
                let _ = self.streams.remove(id);
                Dispatch::StreamRejected { id, reason: msg.payload }
            },
            _ => Dispatch::Ignore,
        }
    }

    /// Answers a request that a local handler served: the reply envelope for
    /// its result, or the error reply carrying the error's text.
    pub fn reply(&self, request: &Message, result: Result<Vec<u8>, Error>) -> (r: Message)
        ensures
            r.target == Some(request.source),
            r.correlation_id == request.correlation_id,
            r.source == self.name,
            opt_view(r.topic) == opt_view(request.topic),
            result is Ok ==> r.msg_type == MessageType::Response && r.payload == result->Ok_0,
            result matches Err(e) ==> r.msg_type == MessageType::Error && r.payload@ == encode_utf8(
                service_error_text(&e),
            ),
    {
        match result {
            Ok(payload) => Message::response(request, self.name.clone(), payload),
            Err(e) => {
                let mut text = String::from_str("Service error: ");
                let detail = e.to_string();
                text.append(detail.as_str());
                Message::error_reply(request, self.name.clone(), text.as_str())
            },
        }
    }

    /// Where a call of `method` goes: a local service, a known endpoint, or
    /// discovery first.
    pub fn route(&self, method: &str) -> (r: CallRoute)
        requires
            self.wf(),
        ensures
            routes(self.registry@, self.directory@, method@, r),
    {
        route_call(&self.registry, &self.directory, method)
    }

    /// Starts a remote call: parks `slot` under a fresh correlation id and
    /// returns the request envelope to send.
    pub fn begin_call(&mut self, method: String, payload: Vec<u8>, target: Option<String>, slot: P) -> (r:
        Message)
        requires
            old(self).wf(),
        ensures
            final(self).wf(),
            final(self).name == old(self).name,
            final(self).registry@ == old(self).registry@,
            final(self).subscribers@ == old(self).subscribers@,
            r.msg_type == MessageType::Request,
            r.source == old(self).name,
            r.target == target,
            r.topic == Some(method),
            r.payload == payload,
            r.correlation_id == Some(r.id),
            final(self).pending@ == old(self).pending@.insert(r.id, slot),
    {
        let msg = Message::new(MessageType::Request, self.name.clone(), target, Some(method), payload, None);
        let id = msg.id;
        self.pending.park(id, slot);
        Message { correlation_id: Some(id), ..msg }
    }

    /// Gives up on the call `id` after its timeout; a late reply is dropped.
    pub fn expire_call(&mut self, id: u128) -> (r: Option<P>)
        requires
            old(self).wf(),
        ensures
            final(self).wf(),
            final(self).name == old(self).name,
            final(self).registry@ == old(self).registry@,
            final(self).subscribers@ == old(self).subscribers@,
            final(self).pending@ == old(self).pending@.remove(id),
            r.is_some() == old(self).pending@.contains_key(id),
    {
        self.pending.expire(id)
    }

    /// Registers the client side of a streaming subscription, pending until
    /// the server accepts. Called before the request is sent.
    pub fn register_stream(&mut self, id: u128, sink: S)
        requires
            old(self).wf(),
        ensures
            final(self).wf(),
            final(self).name == old(self).name,
            final(self).registry@ == old(self).registry@,
            final(self).subscribers@ == old(self).subscribers@,
            final(self).pending@ == old(self).pending@,
            final(self).streams@ == old(self).streams@.insert(id, sink),
            final(self).stream_states@ == old(self).stream_states@.insert(id, StreamState::Pending),
    {
        self.streams.insert(id, sink);
        self.stream_states.insert(id, StreamState::Pending);
    }

    /// The sink of the client subscription `id`.
    pub fn stream_sink(&self, id: u128) -> (r: Option<&S>)
        requires
            self.wf(),
        ensures
            r.is_some() == self.streams@.contains_key(id),
            r matches Some(s) ==> *s == self.streams@[id],
    {
        self.streams.get(id)
    }

    /// Cancels the client subscription `id`: its sink, closed, and the
    /// cancellation to send to `server`.
    pub fn cancel_stream(&mut self, id: u128, server: String) -> (r: (Option<S>, Message))
        requires
            old(self).wf(),
        ensures
            final(self).wf(),
            final(self).name == old(self).name,
            final(self).pending@ == old(self).pending@,
            final(self).streams@ == old(self).streams@.remove(id),
            r.0.is_some() == old(self).streams@.contains_key(id),
            r.1.msg_type == MessageType::SubscriptionCancel,
            r.1.correlation_id == Some(id),
            r.1.target == Some(server),
            old(self).stream_states@.contains_key(id) ==> final(self).stream_states@ == old(
                self,
            ).stream_states@.insert(id, StreamState::Closed),
            !old(self).stream_states@.contains_key(id) ==> final(self).stream_states@ == old(
                self,
            ).stream_states@,
    {
        let sink = self.streams.remove(id);
        if self.stream_states.contains_key(id) {
            self.stream_states.insert(id, StreamState::Closed);
        }
        (sink, Message::subscription_cancel(self.name.clone(), server, id))
    }

    /// Drops the client subscriptions whose receivers have closed; `closed`
    /// says which of `ids` have.
    pub fn sweep_streams(&mut self, ids: &Vec<u128>, closed: &Vec<bool>)
        requires
            old(self).wf(),
            ids@.len() == closed@.len(),
        ensures
            final(self).wf(),
            final(self).name == old(self).name,
            final(self).pending@ == old(self).pending@,
            forall|k: u128| #[trigger] final(self).streams@.contains_key(k) == (old(self).streams@.contains_key(k)
                && !marked_closed(ids@, closed@, k, ids@.len() as int)),
            forall|k: u128| #[trigger] final(self).streams@.contains_key(k) ==> final(self).streams@[k] == old(
                self,
            ).streams@[k],
    {
        let mut i: usize = 0;
        while i < ids.len()
            invariant
                self.wf(),
                self.name == old(self).name,
                self.pending@ == old(self).pending@,
                i <= ids@.len(),
                ids@.len() == closed@.len(),
                forall|k: u128| #[trigger] self.streams@.contains_key(k) == (old(self).streams@.contains_key(k)
                    && !marked_closed(ids@, closed@, k, i as int)),
                forall|k: u128| #[trigger] self.streams@.contains_key(k) ==> self.streams@[k] == old(self).streams@[k],
            decreases ids@.len() - i,
        {
            if closed[i] {
                let _ = self.streams.remove(ids[i]);
            }
            i = i + 1;
            proof {
                assert forall|k: u128| marked_closed(ids@, closed@, k, i as int) == (marked_closed(ids@, closed@, k, i - 1)
                    || (ids@[i - 1] == k && closed@[i - 1])) by {
                    if marked_closed(ids@, closed@, k, i as int) {
                        let j = choose|j: int| 0 <= j < i && ids@[j] == k && closed@[j];
                    }
                }
            }
        }
    }

    /// Statistics over the client subscriptions; `closed` says, for each one
    /// registered, whether its receiver has closed.
    pub fn stream_stats(&self, closed: &Vec<bool>) -> (r: SubscriptionStats)
        ensures
            r.active_subscriptions == closed@.len(),
            r.dead_subscriptions == crate::streaming::count_closed(closed@),
            r.healthy_subscriptions == closed@.len() - crate::streaming::count_closed(closed@),
    {
        subscription_stats(closed)
    }
}

/// The receive loop's answer to a request: a well-formed call of a declared
/// method is handed to its service; any other call is answered with an error
/// reply to the requester under the request's correlation id.
pub open spec fn request_outcome<P>(reg: Map<Seq<char>, Vec<String>>, name: String, msg: Message, r: Dispatch<P>) -> bool {
    match msg.topic {
        None => r is Ignore,
        Some(t) => if exists|a: Seq<char>, b: Seq<char>| resolves(reg, t@, a, b) {
            r matches Dispatch::Invoke { service, method, request } && resolves(reg, t@, service@, method@)
                && request == msg
        } else {
            r matches Dispatch::Send(m) && m.msg_type == MessageType::Error && m.target == Some(msg.source)
                && m.correlation_id == msg.correlation_id && m.source == name
                && opt_view(m.topic) == opt_view(msg.topic) && exists|e: Error|
                resolve_error(reg, t@, e) && m.payload@ == encode_utf8(service_error_text(&e))
        },
    }
}

/// The receive loop's answer to a reply: the waiting call's slot is taken
/// and handed on; a reply that nobody waits for is dropped.
pub open spec fn reply_outcome<P>(before: Map<u128, P>, after: Map<u128, P>, msg: Message, r: Dispatch<P>) -> bool {
    match msg.correlation_id {
        None => r is Ignore && after == before,
        Some(c) => after == before.remove(c) && if before.contains_key(c) {
            r matches Dispatch::Complete { slot, reply } && slot == before[c] && reply == msg
        } else {
            r is Ignore
        },
    }
}

/// The receive loop's answer to an event: every subscriber whose pattern
/// matches gets it, once.
pub open spec fn event_outcome<P>(subs: Map<u128, String>, msg: Message, r: Dispatch<P>) -> bool {
    match msg.topic {
        None => r is Ignore,
        Some(t) => r matches Dispatch::Deliver { subscribers, topic, payload } && topic == t && payload
            == msg.payload && subscribers@.no_duplicates() && forall|id: u128|
            subscribers@.contains(id) <==> receives(subs, t@, id),
    }
}

/// `k` is among the first `n` of `ids` that `closed` marks.
pub open spec fn marked_closed(ids: Seq<u128>, closed: Seq<bool>, k: u128, n: int) -> bool {
    exists|j: int| 0 <= j < n && ids[j] == k && closed[j]
}

/// `v` holds one record per local service of `reg`, with the methods it
/// declares, provided by the endpoint `name`.
pub open spec fn local_records(reg: Map<Seq<char>, Vec<String>>, name: String, v: Seq<ServiceInfo>) -> bool {
    &&& v.len() == reg.len()
    &&& forall|i: int|
        0 <= i < v.len() ==> reg.contains_key(#[trigger] v[i].name@) && v[i].methods@
            == reg[v[i].name@]@ && v[i].process_name == name
    &&& forall|k: Seq<char>| #[trigger] reg.contains_key(k) ==> exists|i: int| 0 <= i < v.len() && v[i].name@ == k
}

/// The receive loop's answer to a service query: this hub's directory,
/// addressed to the querier under the query's correlation id.
pub open spec fn query_outcome<P>(reg: Map<Seq<char>, Vec<String>>, name: String, msg: Message, r: Dispatch<P>) -> bool {
    match msg.correlation_id {
        None => r is Ignore,
        Some(c) => r matches Dispatch::Send(m) && m.msg_type == MessageType::ServiceDirectory && m.target
            == Some(msg.source) && m.correlation_id == Some(c) && m.source == name && exists|v: Seq<ServiceInfo>|
            local_records(reg, name, v) && m.payload@ == enc_infos(info_views(v)),
    }
}

/// The directory after an announcement: it learned the announced record, or
/// stayed as it was if the payload is no record.
pub open spec fn announcement_outcome(before: Map<Seq<char>, String>, after: Map<Seq<char>, String>, payload: Seq<u8>) -> bool {
    if exists|n: Seq<char>, m: Seq<Seq<char>>, e: Seq<char>, t: u64| enc_info(n, m, e, t) == payload {
        exists|n: Seq<char>, m: Seq<Seq<char>>, w: String, t: u64|
            enc_info(n, m, w@, t) == payload && after == learned(before, n, m, w)
    } else {
        after == before
    }
}

/// The directory after a directory reply: it learned every listed record, or
/// stayed as it was if the payload is no list of records.
pub open spec fn directory_outcome(before: Map<Seq<char>, String>, after: Map<Seq<char>, String>, payload: Seq<u8>) -> bool {
    if exists|v: Seq<InfoView>| enc_infos(v) == payload {
        exists|w: Seq<ServiceInfo>| enc_infos(info_views(w)) == payload && after == learned_all(before, w)
    } else {
        after == before
    }
}

/// The client's answer to a frame of one of its subscriptions: the lifecycle
/// steps on `event`; an item of an active subscription is handed on with the
/// frame's payload; a rejection closes the sink. Frames of unknown
/// subscriptions change nothing.
pub open spec fn frame_outcome<P, S>(
    states: Map<u128, StreamState>,
    states_after: Map<u128, StreamState>,
    sinks: Map<u128, S>,
    sinks_after: Map<u128, S>,
    msg: Message,
    event: StreamEvent,
    r: Dispatch<P>,
) -> bool {
    match msg.correlation_id {
        Some(id) if states.contains_key(id) => {
            let (next, action) = client_transition(states[id], event);
            &&& states_after == states.insert(id, next)
            &&& action == StreamAction::Deliver ==> (r matches Dispatch::StreamItem { id: i, data }
                && i == id && data == msg.payload)
            &&& action == StreamAction::Fail ==> (r matches Dispatch::StreamRejected { id: i, reason }
                && i == id && reason == msg.payload && sinks_after == sinks.remove(id))
            &&& action == StreamAction::Open ==> (r matches Dispatch::StreamAccepted { id: i } && i == id)
            &&& action != StreamAction::Fail ==> sinks_after == sinks
            &&& (action != StreamAction::Deliver && action != StreamAction::Fail && action
                != StreamAction::Open) ==> r is Ignore
        },
        _ => r is Ignore && states_after == states && sinks_after == sinks,
    }
}

/// The receive loop's answer to a streaming request: a pending sink for a
/// registered service, or a rejection.
pub open spec fn stream_request_outcome<P>(reg: Map<Seq<char>, Vec<String>>, msg: Message, r: Dispatch<P>) -> bool {
    match (msg.correlation_id, msg.topic) {
        (Some(id), Some(t)) => {
            let s = strip_subscription(t@);
            if exists|a: Seq<char>, b: Seq<char>| splits_as(s, a, b) && reg.contains_key(a) {
                r matches Dispatch::OpenStream { stream, service, params } && splits_as(s, service@, stream.method@)
                    && reg.contains_key(service@) && stream.id == id && stream.client == msg.source
                    && stream.state == StreamState::Pending && params == msg.payload
            } else {
                r matches Dispatch::Send(m) && m.msg_type == MessageType::SubscriptionReject && m.correlation_id
                    == Some(id) && m.target == Some(msg.source) && m.payload@ == encode_utf8("Service not found"@)
            }
        },
        _ => r is Ignore,
    }
}

/// The outcome of a call, given the reply that settled it: a reply's payload,
/// an error reply's text as a runtime error, or a protocol error for any
/// other kind of envelope.
pub fn call_result(reply: Message) -> (r: Result<Vec<u8>, Error>)
    ensures
        reply.msg_type == MessageType::Response ==> r == Ok::<Vec<u8>, Error>(reply.payload),
        reply.msg_type == MessageType::Error && vstd::utf8::valid_utf8(reply.payload@) ==> (r matches Err(
            Error::Runtime { message, source: None },
        ) && encode_utf8(message@.skip(14)) == reply.payload@ && message@.take(14) == "Remote error: "@),
        reply.msg_type == MessageType::Error && !vstd::utf8::valid_utf8(reply.payload@) ==> r matches Err(
            Error::Serialization { .. },
        ),
        reply.msg_type != MessageType::Response && reply.msg_type != MessageType::Error ==> r matches Err(
            Error::Protocol { .. },
        ),
{
    match reply.msg_type {
        MessageType::Response => Ok(reply.payload),
        MessageType::Error => match crate::codec::utf8_text(reply.payload) {
            Some(text) => {
                proof {
                    reveal_strlit("Remote error: ");
                }
                let mut message = String::from_str("Remote error: ");
                message.append(text.as_str());
                assert(message@.skip(14) =~= text@);
                assert(message@.take(14) =~= "Remote error: "@);
                Err(Error::Runtime { message, source: None })
            },
            None => Err(Error::serialization_msg("Error reply is not UTF-8")),
        },
        _ => Err(Error::protocol("Unexpected response type", Some(String::from_str("Response or Error")), None)),
    }
}

/// What the receive loop does after a failed receive.
#[derive(Debug, Clone, Copy, PartialEq, Eq, Structural)]
pub enum LoopStep {
    /// Receive again at once.
    Continue,
    /// Wait this long, then receive again.
    Pause { delay_ms: u64 },
    /// The connection is lost: leave the loop.
    Stop,
}

/// The receive loop's decision after a receive failed with `e`: a lost
/// connection ends the loop, a timeout is no failure, and any other error
/// waits for its retry delay (100 ms if it names none) before the next try.
pub fn after_receive_error(e: &Error) -> (r: LoopStep)
    ensures
        e is Connection ==> r == LoopStep::Stop,
        e is Timeout ==> r == LoopStep::Continue,
        !(e is Connection) && !(e is Timeout) ==> r == (LoopStep::Pause {
            delay_ms: match crate::error::retry_delay_of(e) {
                Some(d) => d,
                None => 100,
            },
        }),
{
    match e {
        Error::Connection { .. } => LoopStep::Stop,
        Error::Timeout { .. } => LoopStep::Continue,
        _ => LoopStep::Pause {
            delay_ms: match e.retry_delay_ms() {
                Some(d) => d,
                None => 100,
            },
        },
    }
}

} // verus!
