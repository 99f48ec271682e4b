//! Synchronous services and subscribers, for applications that need no
//! asynchronous handlers, and the adapters that let the hub drive them.

use crate::error::Error;
use vstd::prelude::*;

verus! {

/// A service whose handler runs synchronously.
pub trait SyncService {
    /// The service's name.
    fn name(&self) -> &'static str;

    /// The methods the service declares.
    fn methods(&self) -> Vec<&'static str>;

    /// Handles one call of `method` with an encoded request.
    fn handle_sync(&self, method: &str, payload: Vec<u8>) -> Result<Vec<u8>, Error>;
}

/// A subscriber whose handler runs synchronously.
pub trait SyncSubscriber {
    /// The topic pattern to subscribe to.
    fn topic_pattern(&self) -> &str;

    /// Handles one event on `topic`.
    fn handle_sync(&mut self, topic: &str, payload: Vec<u8>) -> Result<(), Error>;
}

/// Lets the hub drive a synchronous service.
pub struct SyncServiceAdapter<S> {
    pub inner: S,
}

impl<S> SyncServiceAdapter<S> {
    /// Wraps `service`.
    pub fn new(service: S) -> (r: SyncServiceAdapter<S>)
        ensures
            r.inner == service,
    {
        SyncServiceAdapter { inner: service }
    }
}

/// Lets the hub drive a synchronous subscriber.
pub struct SyncSubscriberAdapter<S> {
    pub inner: S,
}

impl<S> SyncSubscriberAdapter<S> {
    /// Wraps `subscriber`.
    pub fn new(subscriber: S) -> (r: SyncSubscriberAdapter<S>)
        ensures
            r.inner == subscriber,
    {
        SyncSubscriberAdapter { inner: subscriber }
    }
}

} // verus!
