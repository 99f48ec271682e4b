//! hsipc: the verified core of a process hub for inter-process communication.
//!
//! The hub multiplexes one message bus into request/response calls,
//! publish/subscribe events and server-push streaming subscriptions. This
//! library holds the hub's logic: the message envelope and its byte codec, the
//! error taxonomy and retry policy, the topic matcher, the service registry and
//! remote directory, the pending-request table, the pub/sub registry, the
//! streaming subscription lifecycle and the receive loop's dispatch decision.
//! The asynchronous runtime and the transport drive it from outside.

pub mod codec;
pub mod directory;
pub mod error;
pub mod hub;
pub mod message;
pub mod naming;
pub mod pending;
pub mod pubsub;
pub mod registry;
pub mod retry;
pub mod service;
pub mod streaming;
pub mod table;
pub mod topic;

pub use codec::{decode_message, encode_message};
pub use directory::{CallRoute, Discovery, DiscoveryStep, RemoteDirectory};
pub use error::Error;
pub use hub::{
    after_receive_error, call_result, Dispatch, HubConfig, HubCore, IpmbTransportBuilder, LoopStep,
    ProcessHubBuilder,
};
pub use message::{
    Message, MessageMetadata, MessageType, Priority, Request, Response, ServiceDirectory,
    ServiceInfo,
};
pub use pending::PendingRequests;
pub use pubsub::SubscriptionRegistry;
pub use registry::ServiceRegistry;
pub use retry::{retry_decision, RetryDecision};
pub use service::{SyncService, SyncServiceAdapter, SyncSubscriber, SyncSubscriberAdapter};
pub use streaming::{ServerStream, StreamAction, StreamEvent, StreamState, SubscriptionStats};
pub use topic::{topic_matches, validate_topic_pattern};
