//! The error taxonomy of the hub: kinds, categories and retry hints.

use vstd::prelude::*;
use vstd::string::*;

verus! {

#[verifier::external_type_specification]
#[verifier::external_body]
pub struct ExIoError(std::io::Error);

/// Every failure that the hub reports.
#[derive(Debug)]
pub enum Error {
    /// The transport could not send or receive.
    Transport { message: String, source: Option<String> },
    /// No local service has this name.
    ServiceNotFound { name: String },
    /// The service exists but does not offer the method.
    MethodNotFound { service: String, method: String },
    /// A value could not be encoded or decoded.
    Serialization { message: String, source: Option<String> },
    /// A connection or channel was lost.
    Connection { message: String, source: Option<String> },
    /// An operation ran out of time.
    Timeout { operation: String, duration_ms: u64 },
    /// An internal task or scheduler failed, or a handler reported an error.
    Runtime { message: String, source: Option<String> },
    /// The hub was configured wrongly.
    Configuration { message: String, field: Option<String> },
    /// An I/O operation failed.
    Io { message: String, source: std::io::Error },
    /// A service was used in a state that does not allow it.
    ServiceLifecycle { message: String, service: String, state: String },
    /// A frame was malformed or of an unexpected kind.
    Protocol { message: String, expected: Option<String>, received: Option<String> },
    /// A topic pattern is not well formed.
    InvalidTopicPattern { pattern: String },
    /// A streaming subscription was rejected or misused.
    SubscriptionError { message: String, topic: Option<String> },
    /// A request was malformed.
    InvalidRequest { message: String, context: Option<String> },
    /// No endpoint on the bus provides a method; lists the endpoints known.
    ServiceDiscovery { message: String, method: String, endpoints: Vec<String> },
}

/// Whether an error of this kind may be retried internally.
pub open spec fn retryable(e: &Error) -> bool {
    match e {
        Error::Transport { .. } => true,
        Error::Connection { .. } => true,
        Error::Timeout { .. } => true,
        Error::Runtime { .. } => true,
        Error::Io { .. } => true,
        _ => false,
    }
}

/// The category tag of an error, for logging and metrics.
pub open spec fn category_of(e: &Error) -> Seq<char> {
    match e {
        Error::Transport { .. } => "transport"@,
        Error::ServiceNotFound { .. } => "service_discovery"@,
        Error::MethodNotFound { .. } => "method_resolution"@,
        Error::Serialization { .. } => "serialization"@,
        Error::Connection { .. } => "connection"@,
        Error::Timeout { .. } => "timeout"@,
        Error::Runtime { .. } => "runtime"@,
        Error::Configuration { .. } => "configuration"@,
        Error::Io { .. } => "io"@,
        Error::ServiceLifecycle { .. } => "service_lifecycle"@,
        Error::Protocol { .. } => "protocol"@,
        Error::InvalidTopicPattern { .. } => "topic_validation"@,
        Error::SubscriptionError { .. } => "subscription"@,
        Error::InvalidRequest { .. } => "request_validation"@,
        Error::ServiceDiscovery { .. } => "service_discovery"@,
    }
}

/// The base delay, in milliseconds, before an error of this kind is retried.
pub open spec fn retry_delay_of(e: &Error) -> Option<u64> {
    match e {
        Error::Transport { .. } => Some(100),
        Error::Connection { .. } => Some(200),
        Error::Timeout { .. } => Some(50),
        Error::Runtime { .. } => Some(100),
        Error::Io { .. } => Some(100),
        _ => None,
    }
}

/// The decimal digits of `n`, most significant first.
pub open spec fn decimal(n: nat) -> Seq<char>
    decreases n,
{
    if n < 10 {
        seq![('0' as u8 + n) as char]
    } else {
        decimal(n / 10) + seq![('0' as u8 + n % 10) as char]
    }
}

/// The human-readable text of an error.
pub open spec fn display_of(e: &Error) -> Seq<char> {
    match e {
        Error::Transport { message, .. } => "Transport layer error: "@ + message@,
        Error::ServiceNotFound { name } => "Service '"@ + name@ + "' not found"@,
        Error::MethodNotFound { service, method } => "Method '"@ + method@
            + "' not found on service '"@ + service@ + "'"@,
        Error::Serialization { message, .. } => "Serialization error: "@ + message@,
        Error::Connection { message, .. } => "Connection error: "@ + message@,
        Error::Timeout { operation, duration_ms } => "Operation timed out after "@ + decimal(
            *duration_ms as nat,
        ) + "ms: "@ + operation@,
        Error::Runtime { message, .. } => "Runtime error: "@ + message@,
        Error::Configuration { message, .. } => "Configuration error: "@ + message@,
        Error::Io { message, .. } => "IO error: "@ + message@,
        Error::ServiceLifecycle { message, .. } => "Service lifecycle error: "@ + message@,
        Error::Protocol { message, .. } => "Protocol error: "@ + message@,
        Error::InvalidTopicPattern { pattern } => "Invalid topic pattern: "@ + pattern@,
        Error::SubscriptionError { message, .. } => "Subscription error: "@ + message@,
        Error::InvalidRequest { message, .. } => "Invalid request: "@ + message@,
        Error::ServiceDiscovery { message, .. } => "Service discovery error: "@ + message@,
    }
}

/// The one-character string of a decimal digit.
fn digit_str(d: u64) -> (r: &'static str)
    requires
        d < 10,
    ensures
        r@ == seq![('0' as u8 + d) as char],
{
    proof {
        reveal_strlit("0");
        reveal_strlit("1");
        reveal_strlit("2");
        reveal_strlit("3");
        reveal_strlit("4");
        reveal_strlit("5");
        reveal_strlit("6");
        reveal_strlit("7");
        reveal_strlit("8");
        reveal_strlit("9");
    }
    if d == 0 {
        "0"
    } else if d == 1 {
        "1"
    } else if d == 2 {
        "2"
    } else if d == 3 {
        "3"
    } else if d == 4 {
        "4"
    } else if d == 5 {
        "5"
    } else if d == 6 {
        "6"
    } else if d == 7 {
        "7"
    } else if d == 8 {
        "8"
    } else {
        "9"
    }
}

/// Appends the decimal digits of `n` to `out`.
fn push_decimal(out: &mut String, n: u64)
    ensures
        final(out)@ == old(out)@ + decimal(n as nat),
    decreases n,
{
    if n < 10 {
        out.append(digit_str(n));
    } else {
        push_decimal(out, n / 10);
        out.append(digit_str(n % 10));
        assert(final(out)@ =~= old(out)@ + decimal(n as nat));
    }
}

/// The concatenation of two strings.
fn cat(a: &str, b: &str) -> (r: String)
    ensures
        r@ == a@ + b@,
{
    let mut out = String::from_str(a);
    out.append(b);
    out
}

impl Error {
    /// A transport error caused by `source`.
    pub fn transport<E: std::fmt::Display>(message: &str, source: E) -> (r: Error)
        ensures
            r matches Error::Transport { message: m, source: Some(_) } && m@ == message@,
    {
        Error::Transport { message: message.to_string(), source: Some(source.to_string()) }
    }

    /// A transport error without a cause.
    pub fn transport_msg(message: &str) -> (r: Error)
        ensures
            r matches Error::Transport { message: m, source: None } && m@ == message@,
    {
        Error::Transport { message: message.to_string(), source: None }
    }

    /// No local service is named `name`.
    pub fn service_not_found(name: &str) -> (r: Error)
        ensures
            r matches Error::ServiceNotFound { name: n } && n@ == name@,
    {
        Error::ServiceNotFound { name: name.to_string() }
    }

    /// The service `service` has no method `method`.
    pub fn method_not_found(service: &str, method: &str) -> (r: Error)
        ensures
            r matches Error::MethodNotFound { service: s, method: m } && s@ == service@ && m@
                == method@,
    {
        Error::MethodNotFound { service: service.to_string(), method: method.to_string() }
    }

    /// A serialization error caused by `source`.
    pub fn serialization<E: std::fmt::Display>(message: &str, source: E) -> (r: Error)
        ensures
            r matches Error::Serialization { message: m, source: Some(_) } && m@ == message@,
    {
        Error::Serialization { message: message.to_string(), source: Some(source.to_string()) }
    }

    /// A serialization error without a cause.
    pub fn serialization_msg(message: &str) -> (r: Error)
        ensures
            r matches Error::Serialization { message: m, source: None } && m@ == message@,
    {
        Error::Serialization { message: message.to_string(), source: None }
    }

    /// A connection error caused by `source`.
    pub fn connection<E: std::fmt::Display>(message: &str, source: E) -> (r: Error)
        ensures
            r matches Error::Connection { message: m, source: Some(_) } && m@ == message@,
    {
        Error::Connection { message: message.to_string(), source: Some(source.to_string()) }
    }

    /// A connection error without a cause.
    pub fn connection_msg(message: &str) -> (r: Error)
        ensures
            r matches Error::Connection { message: m, source: None } && m@ == message@,
    {
        Error::Connection { message: message.to_string(), source: None }
    }

    /// The operation `operation` timed out after `duration_ms` milliseconds.
    pub fn timeout(operation: &str, duration_ms: u64) -> (r: Error)
        ensures
            r matches Error::Timeout { operation: o, duration_ms: d } && o@ == operation@ && d
                == duration_ms,
    {
        Error::Timeout { operation: operation.to_string(), duration_ms }
    }

    /// A runtime error caused by `source`.
    pub fn runtime<E: std::fmt::Display>(message: &str, source: E) -> (r: Error)
        ensures
            r matches Error::Runtime { message: m, source: Some(_) } && m@ == message@,
    {
        Error::Runtime { message: message.to_string(), source: Some(source.to_string()) }
    }

    /// A runtime error without a cause.
    pub fn runtime_msg(message: &str) -> (r: Error)
        ensures
            r matches Error::Runtime { message: m, source: None } && m@ == message@,
    {
        Error::Runtime { message: message.to_string(), source: None }
    }

    /// A configuration error, naming the offending field if known.
    pub fn configuration(message: &str, field: Option<String>) -> (r: Error)
        ensures
            r matches Error::Configuration { message: m, field: f } && m@ == message@ && f
                == field,
    {
        Error::Configuration { message: message.to_string(), field }
    }

    /// A service used in a state that does not allow it.
    pub fn service_lifecycle(message: &str, service: &str, state: &str) -> (r: Error)
        ensures
            r matches Error::ServiceLifecycle { message: m, service: s, state: st } && m@
                == message@ && s@ == service@ && st@ == state@,
    {
        Error::ServiceLifecycle {
            message: message.to_string(),
            service: service.to_string(),
            state: state.to_string(),
        }
    }

    /// A protocol error, with what was expected and what came.
    pub fn protocol(message: &str, expected: Option<String>, received: Option<String>) -> (r:
        Error)
        ensures
            r matches Error::Protocol { message: m, expected: e, received: rc } && m@
                == message@ && e == expected && rc == received,
    {
        Error::Protocol { message: message.to_string(), expected, received }
    }

    /// The topic pattern `pattern` is not well formed.
    pub fn invalid_topic_pattern(pattern: &str) -> (r: Error)
        ensures
            r matches Error::InvalidTopicPattern { pattern: p } && p@ == pattern@,
    {
        Error::InvalidTopicPattern { pattern: pattern.to_string() }
    }

    /// A streaming subscription error.
    pub fn subscription_error(message: &str, topic: Option<String>) -> (r: Error)
        ensures
            r matches Error::SubscriptionError { message: m, topic: t } && m@ == message@ && t
                == topic,
    {
        Error::SubscriptionError { message: message.to_string(), topic }
    }

    /// A malformed request.
    pub fn invalid_request(message: &str, context: Option<String>) -> (r: Error)
        ensures
            r matches Error::InvalidRequest { message: m, context: c } && m@ == message@ && c
                == context,
    {
        Error::InvalidRequest { message: message.to_string(), context }
    }

    /// No endpoint provides `method`; `endpoints` are the endpoints known.
    pub fn service_discovery(message: &str, method: &str, endpoints: Vec<String>) -> (r: Error)
        ensures
            r matches Error::ServiceDiscovery { message: m, method: me, endpoints: es } && m@
                == message@ && me@ == method@ && es@ == endpoints@,
    {
        Error::ServiceDiscovery {
            message: message.to_string(),
            method: method.to_string(),
            endpoints,
        }
    }

    /// A runtime error carrying the text of `err`.
    pub fn from_std<E: std::fmt::Display>(err: E) -> (r: Error)
        ensures
            r matches Error::Runtime { message, source: Some(s) } && message == s,
    {
        let text = err.to_string();
        Error::Runtime { message: text.clone(), source: Some(text) }
    }

    /// Whether the operation that failed with this error may be retried.
    pub fn is_retryable(&self) -> (r: bool)
        ensures
            r == retryable(self),
    {
        match self {
            Error::Transport { .. } => true,
            Error::Connection { .. } => true,
            Error::Timeout { .. } => true,
            Error::Runtime { .. } => true,
            Error::Io { .. } => true,
            Error::ServiceNotFound { .. } => false,
            Error::MethodNotFound { .. } => false,
            Error::Serialization { .. } => false,
            Error::Configuration { .. } => false,
            Error::ServiceLifecycle { .. } => false,
            Error::Protocol { .. } => false,
            Error::InvalidTopicPattern { .. } => false,
            Error::SubscriptionError { .. } => false,
            Error::InvalidRequest { .. } => false,
            Error::ServiceDiscovery { .. } => false,
        }
    }

    /// The category tag of this error.
    pub fn category(&self) -> (r: &'static str)
        ensures
            r@ == category_of(self),
    {
        match self {
            Error::Transport { .. } => "transport",
            Error::ServiceNotFound { .. } => "service_discovery",
            Error::MethodNotFound { .. } => "method_resolution",
            Error::Serialization { .. } => "serialization",
            Error::Connection { .. } => "connection",
            Error::Timeout { .. } => "timeout",
            Error::Runtime { .. } => "runtime",
            Error::Configuration { .. } => "configuration",
            Error::Io { .. } => "io",
            Error::ServiceLifecycle { .. } => "service_lifecycle",
            Error::Protocol { .. } => "protocol",
            Error::InvalidTopicPattern { .. } => "topic_validation",
            Error::SubscriptionError { .. } => "subscription",
            Error::InvalidRequest { .. } => "request_validation",
            Error::ServiceDiscovery { .. } => "service_discovery",
        }
    }

    /// The base delay before a retry, for retryable errors only.
    pub fn retry_delay_ms(&self) -> (r: Option<u64>)
        ensures
            r == retry_delay_of(self),
            r.is_some() == retryable(self),
    {
        match self {
            Error::Transport { .. } => Some(100),
            Error::Connection { .. } => Some(200),
            Error::Timeout { .. } => Some(50),
            Error::Runtime { .. } => Some(100),
            Error::Io { .. } => Some(100),
            _ => None,
        }
    }

    /// The human-readable text of this error.
    pub fn to_string(&self) -> (r: String)
        ensures
            r@ == display_of(self),
    {
        match self {
            Error::Transport { message, .. } => cat("Transport layer error: ", message.as_str()),
            Error::ServiceNotFound { name } => {
                let mut out = cat("Service '", name.as_str());
                out.append("' not found");
                out
            },
            Error::MethodNotFound { service, method } => {
                let mut out = cat("Method '", method.as_str());
                out.append("' not found on service '");
                out.append(service.as_str());
                out.append("'");
                out
            },
            Error::Serialization { message, .. } => cat("Serialization error: ", message.as_str()),
            Error::Connection { message, .. } => cat("Connection error: ", message.as_str()),
            Error::Timeout { operation, duration_ms } => {
                let mut out = String::from_str("Operation timed out after ");
                push_decimal(&mut out, *duration_ms);
                out.append("ms: ");
                out.append(operation.as_str());
                out
            },
            Error::Runtime { message, .. } => cat("Runtime error: ", message.as_str()),
            Error::Configuration { message, .. } => cat("Configuration error: ", message.as_str()),
            Error::Io { message, .. } => cat("IO error: ", message.as_str()),
            Error::ServiceLifecycle { message, .. } => cat("Service lifecycle error: ", message.as_str()),
            Error::Protocol { message, .. } => cat("Protocol error: ", message.as_str()),
            Error::InvalidTopicPattern { pattern } => cat("Invalid topic pattern: ", pattern.as_str()),
            Error::SubscriptionError { message, .. } => cat("Subscription error: ", message.as_str()),
            Error::InvalidRequest { message, .. } => cat("Invalid request: ", message.as_str()),
            Error::ServiceDiscovery { message, .. } => cat("Service discovery error: ", message.as_str()),
        }
    }
}

impl From<std::io::Error> for Error {
    fn from(err: std::io::Error) -> (r: Error) {
        let message = err.to_string();
        Error::Io { message, source: err }
    }
}

impl vstd::std_specs::convert::FromSpecImpl<std::io::Error> for Error {
    open spec fn obeys_from_spec() -> bool {
        false
    }

    open spec fn from_spec(v: std::io::Error) -> Error {
        arbitrary()
    }
}

} // verus!
