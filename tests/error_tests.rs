use hsipc::Error;
use std::io;

#[test]
fn test_error_display() {
    let err = Error::service_not_found("TestService");
    assert_eq!(err.to_string(), "Service 'TestService' not found");

    let err = Error::method_not_found("TestService", "test_method");
    assert_eq!(
        err.to_string(),
        "Method 'test_method' not found on service 'TestService'"
    );

    let err = Error::timeout("database query", 5000);
    assert_eq!(
        err.to_string(),
        "Operation timed out after 5000ms: database query"
    );
}

#[test]
fn test_error_is_retryable() {
    assert!(Error::transport_msg("network failure").is_retryable());
    assert!(Error::connection_msg("connection lost").is_retryable());
    assert!(Error::timeout("request", 1000).is_retryable());
    assert!(Error::runtime_msg("task failed").is_retryable());

    assert!(!Error::service_not_found("TestService").is_retryable());
    assert!(!Error::method_not_found("TestService", "method").is_retryable());
    assert!(!Error::serialization_msg("invalid format").is_retryable());
    assert!(!Error::configuration("invalid config", None).is_retryable());
    assert!(!Error::invalid_topic_pattern("bad/#/pattern").is_retryable());
}

#[test]
fn test_error_category() {
    assert_eq!(Error::transport_msg("error").category(), "transport");
    assert_eq!(
        Error::service_not_found("svc").category(),
        "service_discovery"
    );
    assert_eq!(
        Error::method_not_found("svc", "m").category(),
        "method_resolution"
    );
    assert_eq!(Error::serialization_msg("err").category(), "serialization");
    assert_eq!(Error::connection_msg("err").category(), "connection");
    assert_eq!(Error::timeout("op", 1000).category(), "timeout");
    assert_eq!(Error::runtime_msg("err").category(), "runtime");
    assert_eq!(
        Error::configuration("err", None).category(),
        "configuration"
    );
    assert_eq!(
        Error::invalid_topic_pattern("pat").category(),
        "topic_validation"
    );
}

#[test]
fn test_error_with_source() {
    let io_err = io::Error::new(io::ErrorKind::NotFound, "file not found");
    let err = Error::from(io_err);

    match err {
        Error::Io { message, source } => {
            assert!(message.contains("file not found"));
            assert_eq!(source.kind(), io::ErrorKind::NotFound);
        }
        _ => panic!("Expected Io error"),
    }
}

#[test]
fn test_error_context_fields() {
    let err = Error::configuration("invalid port", Some("server.port".to_string()));
    match err {
        Error::Configuration { message, field } => {
            assert_eq!(message, "invalid port");
            assert_eq!(field, Some("server.port".to_string()));
        }
        _ => panic!("Expected Configuration error"),
    }

    let err = Error::protocol(
        "unexpected message",
        Some("Request".to_string()),
        Some("Event".to_string()),
    );
    match err {
        Error::Protocol {
            message,
            expected,
            received,
        } => {
            assert_eq!(message, "unexpected message");
            assert_eq!(expected, Some("Request".to_string()));
            assert_eq!(received, Some("Event".to_string()));
        }
        _ => panic!("Expected Protocol error"),
    }
}

#[test]
fn test_custom_error_constructors() {
    let io_err = std::io::Error::new(std::io::ErrorKind::ConnectionRefused, "refused");
    let err = Error::transport("connection failed", io_err);
    assert!(matches!(
        err,
        Error::Transport {
            source: Some(_),
            ..
        }
    ));

    let runtime_err = std::io::Error::new(std::io::ErrorKind::TimedOut, "timeout");
    let err = Error::runtime("task timeout", runtime_err);
    assert!(matches!(
        err,
        Error::Runtime {
            source: Some(_),
            ..
        }
    ));
}

#[test]
fn error_text_of_each_kind() {
    assert_eq!(
        Error::transport_msg("down").to_string(),
        "Transport layer error: down"
    );
    assert_eq!(
        Error::invalid_request("bad", None).to_string(),
        "Invalid request: bad"
    );
    assert_eq!(Error::timeout("op", 0).to_string(), "Operation timed out after 0ms: op");
    assert_eq!(
        Error::timeout("op", 1234567890).to_string(),
        "Operation timed out after 1234567890ms: op"
    );
    assert_eq!(
        Error::service_discovery("none", "a.b", vec![]).category(),
        "service_discovery"
    );
    assert_eq!(Error::subscription_error("x", None).category(), "subscription");
    assert_eq!(Error::protocol("x", None, None).category(), "protocol");
    assert_eq!(Error::invalid_request("x", None).category(), "request_validation");
    assert_eq!(
        Error::service_lifecycle("x", "svc", "stopped").category(),
        "service_lifecycle"
    );
}

#[test]
fn error_retry_delays() {
    assert_eq!(Error::transport_msg("x").retry_delay_ms(), Some(100));
    assert_eq!(Error::connection_msg("x").retry_delay_ms(), Some(200));
    assert_eq!(Error::timeout("x", 1).retry_delay_ms(), Some(50));
    assert_eq!(Error::service_not_found("x").retry_delay_ms(), None);
    assert_eq!(Error::invalid_request("x", None).retry_delay_ms(), None);
}

#[test]
fn error_from_std_carries_text() {
    let io_err = std::io::Error::new(std::io::ErrorKind::Other, "boom");
    match Error::from_std(io_err) {
        Error::Runtime { message, source } => {
            assert_eq!(message, "boom");
            assert_eq!(source, Some(message.clone()));
        }
        _ => panic!("Expected Runtime error"),
    }
}
