use hsipc::codec::{decode_directory, decode_service_info, encode_directory, encode_service_info};
use hsipc::naming::{parse_method, qualified_name, subscription_target, subscription_topic};
use hsipc::retry::backoff_delay;
use hsipc::streaming::{client_step, rejection_error, subscription_stats};
use hsipc::{
    after_receive_error, call_result, LoopStep,
    decode_message, encode_message, retry_decision, topic_matches, validate_topic_pattern,
    CallRoute, Discovery, DiscoveryStep, Dispatch, Error, HubCore, IpmbTransportBuilder, Message,
    MessageMetadata, MessageType, PendingRequests, Priority, ProcessHubBuilder, RemoteDirectory,
    RetryDecision, ServerStream, ServiceInfo, ServiceRegistry, StreamAction, StreamEvent,
    StreamState, SubscriptionRegistry,
};

fn strings(v: &[&str]) -> Vec<String> {
    v.iter().map(|s| s.to_string()).collect()
}

fn calculator_info(endpoint: &str) -> ServiceInfo {
    ServiceInfo {
        name: "calculator".to_string(),
        methods: strings(&["add", "multiply"]),
        process_name: endpoint.to_string(),
        registered_at: 42,
    }
}

#[test]
fn multi_level_wildcard_matches_every_topic() {
    for t in ["", "a", "a/b", "sensor/temperature/room1", "/x/"] {
        assert!(topic_matches(t, "#"), "{t}");
    }
}

#[test]
fn single_level_wildcard_matches_one_segment() {
    assert!(topic_matches("sensor", "+"));
    assert!(!topic_matches("sensor/temperature", "+"));
    assert!(topic_matches("sensor/temperature", "sensor/+"));
    assert!(!topic_matches("sensor/temperature/room1", "sensor/+"));
    assert!(!topic_matches("sensor", "sensor/+"));
}

#[test]
fn multi_level_wildcard_matches_remainder() {
    assert!(topic_matches("sensor/temperature", "sensor/#"));
    assert!(topic_matches("sensor/temperature/room1", "sensor/#"));
    assert!(topic_matches("sensor", "sensor/#"));
    assert!(!topic_matches("actuator/valve", "sensor/#"));
}

#[test]
fn literals_match_exactly() {
    assert!(topic_matches("test/event", "test/event"));
    assert!(!topic_matches("test/event", "test/events"));
    assert!(!topic_matches("test/event/x", "test/event"));
    assert!(topic_matches("a/b/c", "a/+/c"));
    assert!(topic_matches("température/é", "température/+"));
}

#[test]
fn misplaced_multi_level_wildcard_is_a_pattern_error() {
    assert!(!topic_matches("bad/x/pattern", "bad/#/pattern"));
    assert!(!topic_matches("bad/#/pattern", "bad/#/pattern"));
    match validate_topic_pattern("bad/#/pattern") {
        Err(Error::InvalidTopicPattern { pattern }) => assert_eq!(pattern, "bad/#/pattern"),
        _ => panic!("expected a pattern error"),
    }
    assert!(validate_topic_pattern("sensor/#").is_ok());
    assert!(validate_topic_pattern("+/+/#").is_ok());
}

#[test]
fn method_names_need_exactly_one_dot() {
    assert!(matches!(parse_method("foo"), Err(Error::InvalidRequest { .. })));
    assert!(matches!(parse_method("a.b.c"), Err(Error::InvalidRequest { .. })));
    let (s, m) = parse_method("calculator.add").unwrap();
    assert_eq!((s.as_str(), m.as_str()), ("calculator", "add"));
    let (s, m) = parse_method(".add").unwrap();
    assert_eq!((s.as_str(), m.as_str()), ("", "add"));
    assert_eq!(
        parse_method("foo").unwrap_err().category(),
        "request_validation"
    );
    assert_eq!(qualified_name("calculator", "add"), "calculator.add");
}

#[test]
fn subscription_names() {
    assert_eq!(
        subscription_topic("calculator.subscribe_logs"),
        "subscription.calculator.subscribe_logs"
    );
    let (s, m) = subscription_target("subscription.calculator.subscribe_logs").unwrap();
    assert_eq!((s.as_str(), m.as_str()), ("calculator", "subscribe_logs"));
    let (s, m) = subscription_target("calculator.subscribe_logs").unwrap();
    assert_eq!((s.as_str(), m.as_str()), ("calculator", "subscribe_logs"));
    assert!(subscription_target("subscription.logs").is_err());
}

#[test]
fn registry_resolves_registered_methods() {
    let mut reg = ServiceRegistry::new();
    reg.register("calculator".to_string(), strings(&["add", "multiply"]));
    let (s, m) = reg.resolve("calculator.add").unwrap();
    assert_eq!((s.as_str(), m.as_str()), ("calculator", "add"));
    match reg.resolve("calculator.divide") {
        Err(Error::MethodNotFound { service, method }) => {
            assert_eq!((service.as_str(), method.as_str()), ("calculator", "divide"));
        }
        _ => panic!("expected method not found"),
    }
    match reg.resolve("billing.charge") {
        Err(Error::ServiceNotFound { name }) => assert_eq!(name, "billing"),
        _ => panic!("expected service not found"),
    }
    assert!(matches!(reg.resolve("calculator"), Err(Error::InvalidRequest { .. })));
    assert_eq!(reg.list_services(), strings(&["calculator"]));
    assert_eq!(reg.get_service("calculator").unwrap(), &strings(&["add", "multiply"]));
}

#[test]
fn registering_again_replaces_the_methods() {
    let mut reg = ServiceRegistry::new();
    reg.register("calculator".to_string(), strings(&["add"]));
    reg.register("calculator".to_string(), strings(&["divide"]));
    assert!(reg.resolve("calculator.add").is_err());
    assert!(reg.resolve("calculator.divide").is_ok());
    assert_eq!(reg.list_services().len(), 1);
}

#[test]
fn discovery_without_responders_or_retries_fails_with_no_endpoints() {
    let dir = RemoteDirectory::new();
    let mut d = Discovery::new("calculator.divide".to_string(), 0);
    match d.step(&dir) {
        DiscoveryStep::Fail(e) => {
            assert_eq!(e.category(), "service_discovery");
            match e {
                Error::ServiceDiscovery { method, endpoints, .. } => {
                    assert_eq!(method, "calculator.divide");
                    assert!(endpoints.is_empty());
                }
                _ => panic!("expected a discovery error"),
            }
        }
        _ => panic!("expected failure"),
    }
}

#[test]
fn discovery_queries_with_growing_waits_then_fails() {
    let mut dir = RemoteDirectory::new();
    dir.learn(&calculator_info("server"));
    let mut d = Discovery::new("calculator.divide".to_string(), 3);
    let mut waits = vec![];
    loop {
        match d.step(&dir) {
            DiscoveryStep::Query { wait_ms } => waits.push(wait_ms),
            DiscoveryStep::Fail(Error::ServiceDiscovery { endpoints, .. }) => {
                assert_eq!(endpoints, strings(&["server"]));
                break;
            }
            _ => panic!("unexpected step"),
        }
    }
    assert_eq!(waits, vec![500, 1000, 2000]);
}

#[test]
fn discovery_finds_known_provider() {
    let mut dir = RemoteDirectory::new();
    dir.learn(&calculator_info("server"));
    let mut d = Discovery::new("calculator.add".to_string(), 3);
    match d.step(&dir) {
        DiscoveryStep::Found(e) => assert_eq!(e, "server"),
        _ => panic!("expected the provider"),
    }
}

#[test]
fn directory_learns_each_method() {
    let mut dir = RemoteDirectory::new();
    dir.learn(&calculator_info("server-a"));
    dir.learn(&ServiceInfo {
        name: "logger".to_string(),
        methods: strings(&["log"]),
        process_name: "server-b".to_string(),
        registered_at: 1,
    });
    assert_eq!(dir.lookup("calculator.add"), Some("server-a".to_string()));
    assert_eq!(dir.lookup("calculator.multiply"), Some("server-a".to_string()));
    assert_eq!(dir.lookup("logger.log"), Some("server-b".to_string()));
    assert_eq!(dir.lookup("calculator.divide"), None);
    let mut eps = dir.known_endpoints();
    eps.sort();
    assert_eq!(eps, strings(&["server-a", "server-b"]));
    dir.learn(&calculator_info("server-c"));
    assert_eq!(dir.lookup("calculator.add"), Some("server-c".to_string()));
}

#[test]
fn pending_slot_is_taken_once() {
    let mut p: PendingRequests<&str> = PendingRequests::new();
    p.park(7, "first");
    p.park(8, "second");
    assert_eq!(p.len(), 2);
    assert_eq!(p.complete(7), Some("first"));
    assert_eq!(p.complete(7), None);
    assert_eq!(p.expire(7), None);
    assert!(p.is_pending(8));
    assert_eq!(p.expire(8), Some("second"));
    assert_eq!(p.complete(8), None);
    assert_eq!(p.len(), 0);
}

#[test]
fn event_fan_out_with_wildcards() {
    let mut subs = SubscriptionRegistry::new();
    let a = subs.subscribe("sensor/+".to_string()).unwrap();
    let b = subs.subscribe("sensor/#".to_string()).unwrap();
    let c = subs.subscribe("actuator/#".to_string()).unwrap();
    assert_ne!(a, b);
    let got = subs.matching("sensor/temperature");
    assert_eq!(got, vec![a, b]);
    assert!(!got.contains(&c));
    assert!(matches!(
        subs.subscribe("bad/#/pattern".to_string()),
        Err(Error::InvalidTopicPattern { .. })
    ));
    assert_eq!(subs.len(), 3);
}

#[test]
fn unsubscribed_receives_nothing() {
    let mut subs = SubscriptionRegistry::new();
    let a = subs.subscribe("sensor/#".to_string()).unwrap();
    let b = subs.subscribe("#".to_string()).unwrap();
    assert!(subs.unsubscribe(a));
    assert!(!subs.unsubscribe(a));
    assert_eq!(subs.matching("sensor/temperature"), vec![b]);
}

#[test]
fn client_stream_accept_data_cancel() {
    let mut s = StreamState::Pending;
    let mut delivered = 0;
    for e in [
        StreamEvent::Data,
        StreamEvent::Accepted,
        StreamEvent::Data,
        StreamEvent::Data,
        StreamEvent::Data,
        StreamEvent::Cancelled,
        StreamEvent::Data,
    ] {
        let (next, action) = client_step(s, e);
        if action == StreamAction::Deliver {
            delivered += 1;
        }
        s = next;
    }
    assert_eq!(delivered, 3);
    assert_eq!(s, StreamState::Closed);
}

#[test]
fn client_stream_reject_closes() {
    let (s, a) = client_step(StreamState::Pending, StreamEvent::Rejected);
    assert_eq!((s, a), (StreamState::Closed, StreamAction::Fail));
    let (s, a) = client_step(s, StreamEvent::Data);
    assert_eq!((s, a), (StreamState::Closed, StreamAction::Discard));
    let (s, a) = client_step(StreamState::Active, StreamEvent::Cancelled);
    assert_eq!((s, a), (StreamState::Closed, StreamAction::Close));
}

#[test]
fn server_stream_decides_once() {
    let mut st = ServerStream::new(5, "subscribe_logs".to_string(), "client".to_string());
    assert!(st.data("server".to_string(), vec![1]).is_err());
    let accept = st.accept("server".to_string()).unwrap();
    assert_eq!(accept.msg_type, MessageType::SubscriptionAccept);
    assert_eq!(accept.correlation_id, Some(5));
    assert_eq!(accept.target, Some("client".to_string()));
    assert!(matches!(
        st.accept("server".to_string()),
        Err(Error::SubscriptionError { .. })
    ));
    let data = st.data("server".to_string(), vec![1, 2]).unwrap();
    assert_eq!(data.msg_type, MessageType::SubscriptionData);
    assert_eq!(data.payload, vec![1, 2]);
    st.close();
    assert!(st.data("server".to_string(), vec![3]).is_err());
}

#[test]
fn server_stream_reject_carries_reason() {
    let mut st = ServerStream::new(9, "subscribe_logs".to_string(), "client".to_string());
    let rej = st.reject("server".to_string(), "not authorized").unwrap();
    assert_eq!(rej.msg_type, MessageType::SubscriptionReject);
    assert_eq!(rej.payload, b"not authorized".to_vec());
    assert_eq!(st.state, StreamState::Closed);
    assert!(st.accept("server".to_string()).is_err());
    match rejection_error("not authorized") {
        Error::Runtime { message, .. } => assert!(message.contains("not authorized")),
        _ => panic!("expected a runtime error"),
    }
}

#[test]
fn dropped_pending_sink_rejects() {
    let mut st = ServerStream::new(3, "m".to_string(), "client".to_string());
    let m = st.dropped("server".to_string()).unwrap();
    assert_eq!(m.payload, b"sink dropped".to_vec());
    assert!(st.dropped("server".to_string()).is_none());
}

#[test]
fn subscription_stats_count_dead_receivers() {
    let stats = subscription_stats(&vec![true, false, false]);
    assert_eq!(stats.active_subscriptions, 3);
    assert_eq!(stats.dead_subscriptions, 1);
    assert_eq!(stats.healthy_subscriptions, 2);
    let empty = subscription_stats(&vec![]);
    assert_eq!(empty.active_subscriptions, 0);
}

#[test]
fn retry_only_retryable_errors_with_growing_delays() {
    let e = Error::transport_msg("down");
    assert_eq!(retry_decision(&e, 0, 3), RetryDecision::Retry { delay_ms: 200 });
    assert_eq!(retry_decision(&e, 1, 3), RetryDecision::Retry { delay_ms: 400 });
    assert_eq!(retry_decision(&e, 2, 3), RetryDecision::GiveUp);
    let n = Error::serialization_msg("bad");
    assert_eq!(retry_decision(&n, 0, 3), RetryDecision::GiveUp);
    let c = Error::connection_msg("lost");
    assert_eq!(retry_decision(&c, 0, 5), RetryDecision::Retry { delay_ms: 200 });
    let t = Error::timeout("recv", 10);
    assert_eq!(retry_decision(&t, 1, 5), RetryDecision::Retry { delay_ms: 400 });
    assert_eq!(retry_decision(&e, 0, 0), RetryDecision::GiveUp);
}

#[test]
fn backoff_is_capped() {
    assert_eq!(backoff_delay(100, 0), 100);
    assert_eq!(backoff_delay(100, 3), 800);
    assert_eq!(backoff_delay(100, 20), 30000);
    assert_eq!(backoff_delay(50000, 0), 30000);
    assert_eq!(backoff_delay(100, u32::MAX), 30000);
}

fn full_message() -> Message {
    Message {
        id: 0x0123_4567_89ab_cdef_fedc_ba98_7654_3210,
        msg_type: MessageType::SubscriptionData,
        source: "client-é".to_string(),
        target: Some("server".to_string()),
        topic: Some("subscription.data".to_string()),
        payload: vec![0, 1, 2, 255],
        correlation_id: Some(u128::MAX),
        metadata: MessageMetadata {
            timestamp: 1_700_000_000_000,
            priority: Priority::High,
            ttl: Some(5000),
            retain: true,
        },
    }
}

#[test]
fn envelope_round_trip() {
    let m = full_message();
    let bytes = encode_message(&m);
    let back = decode_message(&bytes).unwrap();
    assert_eq!(back.id, m.id);
    assert_eq!(back.msg_type, m.msg_type);
    assert_eq!(back.source, m.source);
    assert_eq!(back.target, m.target);
    assert_eq!(back.topic, m.topic);
    assert_eq!(back.payload, m.payload);
    assert_eq!(back.correlation_id, m.correlation_id);
    assert_eq!(back.metadata, m.metadata);
}

#[test]
fn envelope_round_trip_minimal() {
    let m = Message {
        id: 0,
        msg_type: MessageType::Shutdown,
        source: String::new(),
        target: None,
        topic: None,
        payload: vec![],
        correlation_id: None,
        metadata: MessageMetadata::at(0),
    };
    let bytes = encode_message(&m);
    assert_eq!(bytes.len(), 16 + 1 + 8 + 1 + 1 + 8 + 1 + 8 + 1 + 1 + 1);
    let back = decode_message(&bytes).unwrap();
    assert_eq!(back.msg_type, MessageType::Shutdown);
    assert_eq!(back.metadata.priority, Priority::Normal);
    assert!(back.target.is_none());
}

#[test]
fn envelope_layout_is_little_endian() {
    let mut m = full_message();
    m.id = 1;
    let bytes = encode_message(&m);
    assert_eq!(&bytes[0..16], &[1, 0, 0, 0, 0, 0, 0, 0, 0, 0, 0, 0, 0, 0, 0, 0]);
    assert_eq!(bytes[16], 14);
    assert_eq!(&bytes[17..25], &[9, 0, 0, 0, 0, 0, 0, 0]);
}

#[test]
fn malformed_envelopes_are_refused() {
    let bytes = encode_message(&full_message());
    assert!(decode_message(&[]).is_none());
    assert!(decode_message(&bytes[..bytes.len() - 1]).is_none());
    let mut longer = bytes.clone();
    longer.push(0);
    assert!(decode_message(&longer).is_none());
    let mut bad_tag = bytes.clone();
    bad_tag[16] = 200;
    assert!(decode_message(&bad_tag).is_none());
    let mut bad_text = bytes.clone();
    bad_text[25] = 0xff;
    assert!(decode_message(&bad_text).is_none());
}

#[test]
fn service_records_round_trip() {
    let info = calculator_info("server");
    let back = decode_service_info(&encode_service_info(&info)).unwrap();
    assert_eq!(back.name, "calculator");
    assert_eq!(back.methods, strings(&["add", "multiply"]));
    assert_eq!(back.process_name, "server");
    assert_eq!(back.registered_at, 42);
    let list = vec![info.clone(), ServiceInfo { methods: vec![], ..info }];
    let back = decode_directory(&encode_directory(&list)).unwrap();
    assert_eq!(back.len(), 2);
    assert!(back[1].methods.is_empty());
    assert!(decode_directory(&[1, 2, 3]).is_none());
    assert_eq!(decode_directory(&encode_directory(&vec![])).unwrap().len(), 0);
}

#[test]
fn fresh_envelopes_have_distinct_ids_and_a_timestamp() {
    let a = Message::event("hub".to_string(), "t".to_string(), vec![]);
    let b = Message::event("hub".to_string(), "t".to_string(), vec![]);
    assert_ne!(a.id, b.id);
    assert_eq!((a.id >> 76) & 0xf, 4);
    assert!(a.metadata.timestamp > 1_600_000_000_000);
    assert!(a.target.is_none());
    assert_eq!(a.correlation_id, None);
}

#[test]
fn request_reply_correlation() {
    let req = Message::request("client".to_string(), "server".to_string(), "calculator.add".to_string(), vec![1]);
    assert_eq!(req.correlation_id, Some(req.id));
    let resp = Message::response(&req, "server".to_string(), vec![2]);
    assert_eq!(resp.correlation_id, req.correlation_id);
    assert_eq!(resp.target, Some("client".to_string()));
    assert_eq!(resp.topic, req.topic);
    let err = Message::error_reply(&req, "server".to_string(), "boom");
    assert_eq!(err.msg_type, MessageType::Error);
    assert_eq!(err.payload, b"boom".to_vec());
}

fn server_hub() -> HubCore<u32, u32> {
    let mut hub: HubCore<u32, u32> = HubCore::new("server".to_string());
    let announce = hub.register_service("calculator".to_string(), strings(&["add", "multiply"]));
    assert_eq!(announce.msg_type, MessageType::ServiceRegister);
    let info = decode_service_info(&announce.payload).unwrap();
    assert_eq!(info.process_name, "server");
    hub
}

#[test]
fn dispatch_request_invokes_local_service() {
    let mut hub = server_hub();
    let req = Message::request("client".to_string(), "server".to_string(), "calculator.add".to_string(), vec![]);
    match hub.dispatch(req) {
        Dispatch::Invoke { service, method, request } => {
            assert_eq!((service.as_str(), method.as_str()), ("calculator", "add"));
            let reply = hub.reply(&request, Ok(vec![]));
            assert_eq!(reply.msg_type, MessageType::Response);
            assert_eq!(reply.correlation_id, request.correlation_id);
            assert_eq!(reply.target, Some("client".to_string()));
            assert!(reply.payload.is_empty());
        }
        _ => panic!("expected invoke"),
    }
}

#[test]
fn dispatch_bad_request_answers_with_error() {
    let mut hub = server_hub();
    let req = Message::request("client".to_string(), "server".to_string(), "foo".to_string(), vec![]);
    let corr = req.correlation_id;
    match hub.dispatch(req) {
        Dispatch::Send(m) => {
            assert_eq!(m.msg_type, MessageType::Error);
            assert_eq!(m.correlation_id, corr);
            let text = String::from_utf8(m.payload).unwrap();
            assert_eq!(text, "Service error: Invalid request: Invalid service.method format");
        }
        _ => panic!("expected an error reply"),
    }
    let req = Message::request("client".to_string(), "server".to_string(), "calculator.divide".to_string(), vec![]);
    match hub.dispatch(req) {
        Dispatch::Send(m) => {
            let text = String::from_utf8(m.payload).unwrap();
            assert_eq!(text, "Service error: Method 'divide' not found on service 'calculator'");
        }
        _ => panic!("expected an error reply"),
    }
}

#[test]
fn dispatch_reply_completes_waiting_call_once() {
    let mut hub: HubCore<u32, u32> = HubCore::new("client".to_string());
    let req = hub.begin_call("calculator.add".to_string(), vec![1, 2], Some("server".to_string()), 77);
    assert_eq!(req.correlation_id, Some(req.id));
    let resp = Message::response(&req, "server".to_string(), vec![15]);
    let late = Message::response(&req, "server".to_string(), vec![15]);
    match hub.dispatch(resp) {
        Dispatch::Complete { slot, reply } => {
            assert_eq!(slot, 77);
            assert_eq!(reply.payload, vec![15]);
        }
        _ => panic!("expected completion"),
    }
    assert!(matches!(hub.dispatch(late), Dispatch::Ignore));
}

#[test]
fn timed_out_call_drops_late_reply() {
    let mut hub: HubCore<u32, u32> = HubCore::new("client".to_string());
    let req = hub.begin_call("slow.sleep".to_string(), vec![], None, 1);
    assert_eq!(hub.expire_call(req.id), Some(1));
    let resp = Message::response(&req, "server".to_string(), vec![]);
    assert!(matches!(hub.dispatch(resp), Dispatch::Ignore));
    assert_eq!(Error::timeout("service call", 500).category(), "timeout");
}

#[test]
fn dispatch_event_to_matching_subscribers() {
    let mut hub: HubCore<u32, u32> = HubCore::new("hub".to_string());
    let a = hub.subscribers.subscribe("sensor/+".to_string()).unwrap();
    let b = hub.subscribers.subscribe("sensor/#".to_string()).unwrap();
    let _c = hub.subscribers.subscribe("actuator/#".to_string()).unwrap();
    let ev = Message::event("pub".to_string(), "sensor/temperature".to_string(), vec![9]);
    match hub.dispatch(ev) {
        Dispatch::Deliver { subscribers, topic, payload } => {
            assert_eq!(subscribers, vec![a, b]);
            assert_eq!(topic, "sensor/temperature");
            assert_eq!(payload, vec![9]);
        }
        _ => panic!("expected delivery"),
    }
}

#[test]
fn dispatch_learns_remote_services_and_answers_queries() {
    let mut client: HubCore<u32, u32> = HubCore::new("client".to_string());
    let mut server = server_hub();
    let announce = server.register_service("logger".to_string(), strings(&["log"]));
    assert!(matches!(client.dispatch(announce), Dispatch::Learned));
    assert!(matches!(client.route("logger.log"), CallRoute::Remote(ref e) if e == "server"));
    assert!(matches!(client.route("calculator.add"), CallRoute::Discover));
    let query = Message::service_query("client".to_string(), vec![0]);
    let reply = match server.dispatch(query) {
        Dispatch::Send(m) => m,
        _ => panic!("expected a directory reply"),
    };
    assert_eq!(reply.msg_type, MessageType::ServiceDirectory);
    assert_eq!(reply.target, Some("client".to_string()));
    assert!(matches!(client.dispatch(reply), Dispatch::Learned));
    assert!(matches!(client.route("calculator.add"), CallRoute::Remote(ref e) if e == "server"));
    assert!(matches!(server.route("calculator.add"), CallRoute::Local));
}

#[test]
fn dispatch_streaming_request() {
    let mut server = server_hub();
    let req = Message::subscription_request(
        "client".to_string(),
        Some("server".to_string()),
        "calculator.subscribe_logs",
        b"info".to_vec(),
        11,
    );
    match server.dispatch(req) {
        Dispatch::OpenStream { stream, service, params } => {
            assert_eq!(service, "calculator");
            assert_eq!(stream.method, "subscribe_logs");
            assert_eq!(stream.id, 11);
            assert_eq!(stream.client, "client");
            assert_eq!(params, b"info".to_vec());
        }
        _ => panic!("expected a pending stream"),
    }
    let req = Message::subscription_request("client".to_string(), None, "billing.feed", vec![], 12);
    match server.dispatch(req) {
        Dispatch::Send(m) => {
            assert_eq!(m.msg_type, MessageType::SubscriptionReject);
            assert_eq!(m.payload, b"Service not found".to_vec());
        }
        _ => panic!("expected a rejection"),
    }
}

#[test]
fn dispatch_client_stream_frames() {
    let mut client: HubCore<u32, &str> = HubCore::new("client".to_string());
    client.register_stream(21, "sink");
    let data = Message::subscription_data("server".to_string(), "client".to_string(), 21, vec![1]);
    assert!(matches!(client.dispatch(data), Dispatch::Ignore));
    let acc = Message::subscription_accept("server".to_string(), "client".to_string(), 21);
    assert!(matches!(client.dispatch(acc), Dispatch::StreamAccepted { id: 21 }));
    let again = Message::subscription_accept("server".to_string(), "client".to_string(), 21);
    assert!(matches!(client.dispatch(again), Dispatch::Ignore));
    for i in 0..3u8 {
        let data = Message::subscription_data("server".to_string(), "client".to_string(), 21, vec![i]);
        match client.dispatch(data) {
            Dispatch::StreamItem { id, data } => {
                assert_eq!(id, 21);
                assert_eq!(data, vec![i]);
            }
            _ => panic!("expected an item"),
        }
    }
    assert_eq!(client.stream_sink(21), Some(&"sink"));
    let (sink, cancel) = client.cancel_stream(21, "server".to_string());
    assert_eq!(sink, Some("sink"));
    assert_eq!(cancel.msg_type, MessageType::SubscriptionCancel);
    let data = Message::subscription_data("server".to_string(), "client".to_string(), 21, vec![9]);
    assert!(matches!(client.dispatch(data), Dispatch::Ignore));
}

#[test]
fn dispatch_client_stream_rejection() {
    let mut client: HubCore<u32, &str> = HubCore::new("client".to_string());
    client.register_stream(30, "sink");
    let rej = Message::subscription_reject("server".to_string(), "client".to_string(), 30, "not authorized");
    match client.dispatch(rej) {
        Dispatch::StreamRejected { id, reason } => {
            assert_eq!(id, 30);
            assert_eq!(reason, b"not authorized".to_vec());
        }
        _ => panic!("expected a rejection"),
    }
    assert_eq!(client.stream_sink(30), None);
}

#[test]
fn dispatch_shutdown_only_for_self() {
    let mut hub: HubCore<u32, u32> = HubCore::new("hub".to_string());
    assert!(matches!(hub.dispatch(Message::shutdown("other".to_string())), Dispatch::Ignore));
    assert!(!hub.stopped);
    assert!(matches!(hub.dispatch(Message::shutdown("hub".to_string())), Dispatch::Stop));
    assert!(hub.stopped);
}

#[test]
fn sweeping_closed_streams() {
    let mut hub: HubCore<u32, u32> = HubCore::new("hub".to_string());
    hub.register_stream(1, 10);
    hub.register_stream(2, 20);
    hub.sweep_streams(&vec![1, 2], &vec![true, false]);
    assert_eq!(hub.stream_sink(1), None);
    assert_eq!(hub.stream_sink(2), Some(&20));
    let stats = hub.stream_stats(&vec![false]);
    assert_eq!(stats.healthy_subscriptions, 1);
}

#[test]
fn builders_and_defaults() {
    let b = ProcessHubBuilder::new("hub");
    assert_eq!(b.bus(), "com.hsipc.bus");
    assert!(!b.fast_mode);
    let cfg = b.config();
    assert_eq!(cfg.call_timeout_ms, 30000);
    assert_eq!(cfg.discovery_grace_ms, 100);
    let b = b.with_bus_name("test.bus").with_fast_mode(true);
    assert_eq!(b.bus(), "test.bus");
    assert_eq!(b.name, "hub");
    assert_eq!(b.config().discovery_grace_ms, 0);
    let b = ProcessHubBuilder::new("hub")
        .with_call_timeout_ms(500)
        .with_discovery_retries(0)
        .with_discovery_grace_ms(300)
        .with_stream_send_retries(5)
        .with_health_check_interval_ms(1000);
    let cfg = b.config();
    assert_eq!(cfg.call_timeout_ms, 500);
    assert_eq!(cfg.discovery_retries, 0);
    assert_eq!(cfg.discovery_grace_ms, 300);
    assert_eq!(cfg.stream_send_retries, 5);
    assert_eq!(cfg.health_check_interval_ms, 1000);
    let t = IpmbTransportBuilder::new("ep");
    assert_eq!(t.bus(), "com.hsipc.bus");
    assert_eq!(t.with_bus_name("x").bus(), "x");
}

#[test]
fn zero_parameter_call_with_empty_payload_succeeds() {
    let mut server = server_hub();
    let mut client: HubCore<u32, u32> = HubCore::new("client".to_string());
    let req = client.begin_call("calculator.add".to_string(), vec![], Some("server".to_string()), 5);
    let reply = match server.dispatch(req) {
        Dispatch::Invoke { request, .. } => {
            assert!(request.payload.is_empty());
            server.reply(&request, Ok(vec![]))
        }
        _ => panic!("expected invoke"),
    };
    match client.dispatch(reply) {
        Dispatch::Complete { slot, reply } => {
            assert_eq!(slot, 5);
            assert_eq!(reply.msg_type, MessageType::Response);
        }
        _ => panic!("expected completion"),
    }
}

#[test]
fn matching_depends_only_on_topic_and_pattern() {
    let topic = String::from("sensor/temperature");
    let pattern = String::from("sensor/+");
    let first = topic_matches(&topic, &pattern);
    for _ in 0..3 {
        assert_eq!(topic_matches(topic.clone().as_str(), pattern.clone().as_str()), first);
    }
    assert!(first);
}

#[test]
fn handler_errors_reach_the_caller_as_error_replies() {
    let server = server_hub();
    let req = Message::request("client".to_string(), "server".to_string(), "calculator.add".to_string(), vec![]);
    let reply = server.reply(&req, Err(Error::runtime_msg("overflow")));
    assert_eq!(reply.msg_type, MessageType::Error);
    assert_eq!(reply.correlation_id, req.correlation_id);
    assert_eq!(String::from_utf8(reply.payload).unwrap(), "Service error: Runtime error: overflow");
}

#[test]
fn malformed_method_is_refused_before_discovery() {
    let hub: HubCore<u32, u32> = HubCore::new("hub".to_string());
    match hub.route("foo") {
        CallRoute::Invalid(e) => assert_eq!(e.category(), "request_validation"),
        _ => panic!("expected an invalid route"),
    }
    assert!(matches!(hub.route("a.b.c"), CallRoute::Invalid(Error::InvalidRequest { .. })));
    assert!(matches!(hub.route("calculator.add"), CallRoute::Discover));
}

#[test]
fn call_results_from_replies() {
    let req = Message::request("c".to_string(), "s".to_string(), "a.b".to_string(), vec![]);
    let ok = Message::response(&req, "s".to_string(), vec![7]);
    assert_ne!(ok.id, req.id);
    assert_eq!(call_result(ok).unwrap(), vec![7]);
    let err = Message::error_reply(&req, "s".to_string(), "Service error: boom");
    assert_ne!(err.id, req.id);
    match call_result(err) {
        Err(Error::Runtime { message, .. }) => assert_eq!(message, "Remote error: Service error: boom"),
        _ => panic!("expected a runtime error"),
    }
    let mut bad = Message::error_reply(&req, "s".to_string(), "x");
    bad.payload = vec![0xff];
    assert!(matches!(call_result(bad), Err(Error::Serialization { .. })));
    let ev = Message::event("s".to_string(), "t".to_string(), vec![]);
    assert!(matches!(call_result(ev), Err(Error::Protocol { .. })));
}

#[test]
fn receive_errors_decide_the_loop() {
    assert_eq!(after_receive_error(&Error::connection_msg("lost")), LoopStep::Stop);
    assert_eq!(after_receive_error(&Error::timeout("recv", 100)), LoopStep::Continue);
    assert_eq!(
        after_receive_error(&Error::transport_msg("x")),
        LoopStep::Pause { delay_ms: 100 }
    );
    assert_eq!(
        after_receive_error(&Error::serialization_msg("x")),
        LoopStep::Pause { delay_ms: 100 }
    );
}

#[test]
fn refused_pattern_is_named() {
    let mut subs = SubscriptionRegistry::new();
    match subs.subscribe("a/#/b".to_string()) {
        Err(Error::InvalidTopicPattern { pattern }) => assert_eq!(pattern, "a/#/b"),
        _ => panic!("expected a pattern error"),
    }
    assert_eq!(subs.len(), 0);
}

#[test]
fn sweep_keeps_healthy_and_unlisted_streams() {
    let mut hub: HubCore<u32, u32> = HubCore::new("hub".to_string());
    hub.register_stream(1, 10);
    hub.register_stream(2, 20);
    hub.register_stream(3, 30);
    hub.sweep_streams(&vec![1, 2], &vec![true, false]);
    assert_eq!(hub.stream_sink(1), None);
    assert_eq!(hub.stream_sink(2), Some(&20));
    assert_eq!(hub.stream_sink(3), Some(&30));
}

#[test]
fn directory_reply_lists_every_local_service() {
    let mut server = server_hub();
    let _ = server.register_service("logger".to_string(), strings(&["log"]));
    let query = Message::service_query("client".to_string(), vec![0]);
    let reply = match server.dispatch(query) {
        Dispatch::Send(m) => m,
        _ => panic!("expected a directory reply"),
    };
    let mut records = decode_directory(&reply.payload).unwrap();
    records.sort_by(|a, b| a.name.cmp(&b.name));
    assert_eq!(records.len(), 2);
    assert_eq!(records[0].name, "calculator");
    assert_eq!(records[0].methods, strings(&["add", "multiply"]));
    assert_eq!(records[1].name, "logger");
    assert!(records.iter().all(|r| r.process_name == "server"));
}

#[test]
fn announcement_topic_and_record() {
    let mut hub: HubCore<u32, u32> = HubCore::new("server".to_string());
    let m = hub.register_service("calculator".to_string(), strings(&["add"]));
    assert_eq!(m.topic, Some("service.register".to_string()));
    let info = decode_service_info(&m.payload).unwrap();
    assert_eq!(info.name, "calculator");
    assert_eq!(info.methods, strings(&["add"]));
}

#[test]
fn streaming_request_with_prefix_names_the_service() {
    let mut server = server_hub();
    let req = Message {
        topic: Some("calculator.subscribe_logs".to_string()),
        ..Message::subscription_request("client".to_string(), None, "x", vec![], 40)
    };
    match server.dispatch(req) {
        Dispatch::OpenStream { stream, service, .. } => {
            assert_eq!(service, "calculator");
            assert_eq!(stream.method, "subscribe_logs");
        }
        _ => panic!("expected a pending stream"),
    }
}
