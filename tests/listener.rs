use rustybits::auth_params::{find_param, zeroidc_get_url_param_value, zeroidc_network_id_from_state};
use rustybits::config::{ChangeKind, ConfigError, FeedConfig};
use rustybits::dispatch::{dispatch_all, handle_payload};
use rustybits::record::{decode, encode, ChangeRecord, DecodeError, Snapshot};
use rustybits::render::{change_object_text, frame, snapshot_object_text, to_json, CALLBACK_BUFFER_CAPACITY};
use rustybits::session::{Action, CreateOutcome, Phase, Session, SessionError};
use rustybits::varint::{decode_varint, push_varint};

fn snap(device: &str, network: &str, authorized: bool) -> Snapshot {
    Snapshot { device_id: device.to_string(), network_id: network.to_string(), authorized }
}

fn member_change() -> ChangeRecord {
    ChangeRecord { previous: Some(snap("dev1", "net1", false)), current: Some(snap("dev1", "net1", true)) }
}

fn same_snapshot(a: &Option<Snapshot>, b: &Option<Snapshot>) -> bool {
    match (a, b) {
        (None, None) => true,
        (Some(x), Some(y)) => x.device_id == y.device_id && x.network_id == y.network_id && x.authorized == y.authorized,
        _ => false,
    }
}

fn same_record(a: &ChangeRecord, b: &ChangeRecord) -> bool {
    same_snapshot(&a.previous, &b.previous) && same_snapshot(&a.current, &b.current)
}

fn config(id: &str) -> FeedConfig {
    FeedConfig::for_kind(ChangeKind::Member, id, 5).unwrap()
}

#[test]
fn member_config_names() {
    let c = FeedConfig::for_kind(ChangeKind::Member, "ctl1", 5).unwrap();
    assert_eq!(c.topic_name, "controller-member-change-stream");
    assert_eq!(c.subscription_name, "ctl1-member-change-subscription");
    assert_eq!(c.controller_id, "ctl1");
    assert_eq!(c.timeout_secs, 5);
    assert_eq!(c.filter_expression(), "attributes.controller_id = 'ctl1'");
    assert!(c.ordering_enabled());
}

#[test]
fn network_config_names() {
    let c = FeedConfig::for_kind(ChangeKind::Network, "abc", 10).unwrap();
    assert_eq!(c.topic_name, "controller-network-change-stream");
    assert_eq!(c.subscription_name, "abc-network-change-subscription");
}

#[test]
fn config_errors() {
    assert_eq!(FeedConfig::new("c", "t", "s", 0).err(), Some(ConfigError::ZeroTimeout));
    assert_eq!(FeedConfig::new("", "t", "s", 1).err(), Some(ConfigError::EmptyControllerId));
    assert_eq!(FeedConfig::new("c", "", "s", 1).err(), Some(ConfigError::EmptyTopicName));
    assert_eq!(FeedConfig::new("c", "t", "", 1).err(), Some(ConfigError::EmptySubscriptionName));
    assert_eq!(FeedConfig::for_kind(ChangeKind::Network, "", 3).err(), Some(ConfigError::EmptyControllerId));
    assert_eq!(FeedConfig::for_kind(ChangeKind::Network, "x", 0).err(), Some(ConfigError::ZeroTimeout));
    let c = FeedConfig::new("test_controller", "test_topic", "test_subscription", 10).unwrap();
    assert_eq!(c.subscription_name, "test_subscription");
}

#[test]
fn varint_matches_prost() {
    for v in [0u64, 1, 127, 128, 300, 16384, 1 << 40, (1u64 << 63) - 1] {
        let mut ours = Vec::new();
        push_varint(&mut ours, v);
        let mut theirs = Vec::new();
        prost::encoding::encode_varint(v, &mut theirs);
        assert_eq!(ours, theirs);
        assert_eq!(decode_varint(&ours, 0), Some((v, ours.len())));
    }
    assert_eq!(decode_varint(&[0x80, 0x80], 0), None);
}

#[test]
fn encode_exact_bytes() {
    let bytes = encode(&member_change());
    let mut expected = vec![0x0a, 12, 0x0a, 4];
    expected.extend_from_slice(b"dev1");
    expected.extend_from_slice(&[0x12, 4]);
    expected.extend_from_slice(b"net1");
    expected.extend_from_slice(&[0x12, 14, 0x0a, 4]);
    expected.extend_from_slice(b"dev1");
    expected.extend_from_slice(&[0x12, 4]);
    expected.extend_from_slice(b"net1");
    expected.extend_from_slice(&[0x18, 1]);
    assert_eq!(bytes, expected);
}

#[test]
fn round_trip_records() {
    let records = vec![
        member_change(),
        ChangeRecord { previous: None, current: Some(snap("", "", false)) },
        ChangeRecord { previous: Some(snap("d\u{e9}v", "n", true)), current: None },
        ChangeRecord { previous: Some(snap(&"x".repeat(300), "net", false)), current: Some(snap("a", "b", true)) },
    ];
    for r in &records {
        let back = decode(&encode(r)).unwrap();
        assert!(same_record(r, &back));
    }
}

#[test]
fn decode_errors() {
    assert_eq!(decode(&[]).err(), Some(DecodeError::NoSnapshot));
    assert_eq!(decode(&[0x0a]).err(), Some(DecodeError::Malformed));
    assert_eq!(decode(&[0x0a, 5, 0x0a]).err(), Some(DecodeError::Malformed));
    // a snapshot field with the wrong wire type
    assert_eq!(decode(&[0x08, 1]).err(), Some(DecodeError::Malformed));
    // a device id that is not UTF-8
    assert_eq!(decode(&[0x12, 3, 0x0a, 1, 0xff]).err(), Some(DecodeError::Malformed));
    // field number zero
    assert_eq!(decode(&[0x00, 0]).err(), Some(DecodeError::Malformed));
}

#[test]
fn decode_skips_unknown_fields() {
    let mut bytes = vec![0x28, 0x96, 0x01, 0x35, 1, 2, 3, 4];
    bytes.extend_from_slice(&encode(&member_change()));
    bytes.extend_from_slice(&[0x3a, 2, b'h', b'i']);
    let back = decode(&bytes).unwrap();
    assert!(same_record(&member_change(), &back));
}

#[test]
fn decode_last_value_wins() {
    let bytes = vec![0x12, 2, 0x18, 1, 0x12, 2, 0x18, 0];
    let back = decode(&bytes).unwrap();
    assert!(back.previous.is_none());
    assert!(!back.current.unwrap().authorized);
}

#[test]
fn json_text_of_record() {
    let text = to_json(&member_change());
    assert_eq!(
        text,
        "{\"old\":{\"device_id\":\"dev1\",\"network_id\":\"net1\",\"authorized\":false},\
         \"new\":{\"device_id\":\"dev1\",\"network_id\":\"net1\",\"authorized\":true}}"
    );
    let only_new = ChangeRecord { previous: None, current: Some(snap("a", "b", true)) };
    assert_eq!(
        to_json(&only_new),
        "{\"old\":null,\"new\":{\"device_id\":\"a\",\"network_id\":\"b\",\"authorized\":true}}"
    );
}

#[test]
fn json_quotes_and_escapes_strings() {
    let r = ChangeRecord { previous: Some(snap("a\"b", "c\\d", false)), current: None };
    assert_eq!(
        to_json(&r),
        "{\"old\":{\"device_id\":\"a\\\"b\",\"network_id\":\"c\\\\d\",\"authorized\":false},\"new\":null}"
    );
}

#[test]
fn json_objects_from_parts() {
    assert_eq!(snapshot_object_text("\"d\"", "\"n\"", true), "{\"device_id\":\"d\",\"network_id\":\"n\",\"authorized\":true}");
    assert_eq!(change_object_text(&None, &Some("{}".to_string())), "{\"old\":null,\"new\":{}}");
}

#[test]
fn frame_truncates_to_capacity() {
    let short = "hello";
    assert_eq!(frame(short), b"hello".to_vec());
    let exact = "y".repeat(CALLBACK_BUFFER_CAPACITY);
    assert_eq!(frame(&exact).len(), CALLBACK_BUFFER_CAPACITY);
    let long = "x".repeat(CALLBACK_BUFFER_CAPACITY + 5000);
    let out = frame(&long);
    assert_eq!(out.len(), 16384);
    assert!(out.iter().all(|b| *b == b'x'));
}

#[test]
fn oversized_record_is_delivered_truncated() {
    let big = "d".repeat(20000);
    let r = ChangeRecord { previous: None, current: Some(snap(&big, "net1", true)) };
    let out = handle_payload(&encode(&r)).unwrap();
    assert_eq!(out.len(), CALLBACK_BUFFER_CAPACITY);
    assert!(out.starts_with(b"{\"old\":null,\"new\":{\"device_id\":\"ddd"));
}

#[test]
fn member_change_scenario_delivers_once() {
    let cfg = config("ctl1");
    assert_eq!(cfg.topic_name, "controller-member-change-stream");
    let mut session = Session::new(&cfg);
    assert_eq!(session.begin(0, false), Action::CreateSubscription);
    assert_eq!(session.subscription_created(10, CreateOutcome::Created), Action::StartReceiving);
    assert_eq!(session.deadline_ms, 5010);
    let payload = encode(&member_change());
    assert_eq!(session.message(&cfg, 100, &"ctl1".to_string()), Action::ForwardThenAck);
    let delivered = dispatch_all(&vec![payload]);
    assert_eq!(delivered.len(), 1);
    let text = String::from_utf8(delivered[0].clone()).unwrap();
    assert!(text.ends_with("\"new\":{\"device_id\":\"dev1\",\"network_id\":\"net1\",\"authorized\":true}}"));
    assert_eq!(session.tick(5010), Action::Finish(Ok(())));
    assert_eq!(session.outcome(), Some(Ok(())));
}

#[test]
fn messages_for_other_controllers_are_not_forwarded() {
    let cfg = config("B");
    let mut session = Session::new(&cfg);
    assert_eq!(session.begin(0, true), Action::StartReceiving);
    assert_eq!(session.message(&cfg, 1, &"A".to_string()), Action::AckOnly);
    assert_eq!(session.message(&cfg, 2, &"B".to_string()), Action::ForwardThenAck);
    assert!(!cfg.accepts(&"A".to_string()));
    assert!(cfg.accepts(&"B".to_string()));
}

#[test]
fn session_ends_at_deadline_without_messages() {
    let cfg = FeedConfig::for_kind(ChangeKind::Network, "c", 2).unwrap();
    let mut session = Session::new(&cfg);
    assert_eq!(session.begin(1000, true), Action::StartReceiving);
    assert_eq!(session.deadline_ms, 3000);
    assert_eq!(session.tick(2999), Action::Continue);
    assert_eq!(session.outcome(), None);
    assert_eq!(session.tick(3000), Action::Finish(Ok(())));
    assert_eq!(session.phase, Phase::Finished);
    assert_eq!(session.tick(4000), Action::Ignore);
    assert_eq!(session.message(&cfg, 2000, &"c".to_string()), Action::Ignore);
}

#[test]
fn message_after_deadline_ends_session() {
    let cfg = config("c");
    let mut session = Session::new(&cfg);
    session.begin(0, true);
    assert_eq!(session.message(&cfg, 5000, &"c".to_string()), Action::Finish(Ok(())));
}

#[test]
fn deadline_saturates() {
    let cfg = FeedConfig::new("c", "t", "s", u64::MAX).unwrap();
    let mut session = Session::new(&cfg);
    session.begin(u64::MAX - 10, true);
    assert_eq!(session.deadline_ms, u64::MAX);
}

#[test]
fn session_errors() {
    let cfg = config("c");
    let mut session = Session::new(&cfg);
    assert_eq!(session.begin(0, false), Action::CreateSubscription);
    assert_eq!(
        session.subscription_created(0, CreateOutcome::Failed),
        Action::Finish(Err(SessionError::SubscriptionCreation))
    );
    assert_eq!(session.outcome(), Some(Err(SessionError::SubscriptionCreation)));

    let mut session = Session::new(&cfg);
    session.begin(0, false);
    assert_eq!(session.subscription_created(0, CreateOutcome::AlreadyExists), Action::StartReceiving);
    assert_eq!(session.stream_ended(true), Action::Finish(Err(SessionError::Stream)));
    assert_eq!(session.outcome(), Some(Err(SessionError::Stream)));

    let mut session = Session::new(&cfg);
    session.begin(0, true);
    assert_eq!(session.stream_ended(false), Action::Finish(Ok(())));
}

#[test]
fn dispatch_keeps_order_and_skips_bad_payloads() {
    let first = ChangeRecord { previous: None, current: Some(snap("m1", "n", false)) };
    let second = ChangeRecord { previous: None, current: Some(snap("m2", "n", true)) };
    let payloads = vec![encode(&first), vec![0xff], vec![], encode(&second)];
    let out = dispatch_all(&payloads);
    assert_eq!(out.len(), 2);
    assert_eq!(out[0], to_json(&first).into_bytes());
    assert_eq!(out[1], to_json(&second).into_bytes());
    assert_eq!(handle_payload(&[0xff]).err(), Some(DecodeError::Malformed));
    assert_eq!(handle_payload(&[]).err(), Some(DecodeError::NoSnapshot));
}

#[test]
fn network_id_from_state() {
    assert_eq!(zeroidc_network_id_from_state("nonce_8056c2e21c000001"), Some("8056c2e21c000001".to_string()));
    assert_eq!(zeroidc_network_id_from_state("nonce"), None);
    assert_eq!(zeroidc_network_id_from_state("a_b_c"), None);
    assert_eq!(zeroidc_network_id_from_state("_"), Some(String::new()));
    assert_eq!(zeroidc_network_id_from_state("\u{e9}t\u{e9}_n\u{e9}t"), Some("n\u{e9}t".to_string()));
}

#[test]
fn url_param_value() {
    assert_eq!(zeroidc_get_url_param_value("code", "/sso?code=abc&state=xyz"), Some("abc".to_string()));
    assert_eq!(zeroidc_get_url_param_value("state", "/sso?code=abc&state=x%20y"), Some("x y".to_string()));
    assert_eq!(zeroidc_get_url_param_value("missing", "/sso?code=abc"), None);
    assert_eq!(zeroidc_get_url_param_value("a", "/p?a=1&a=2"), Some("1".to_string()));
    assert_eq!(zeroidc_get_url_param_value("a", "abc?a=1"), None);
}

#[test]
fn find_param_first_match() {
    let pairs = vec![("k".to_string(), "v1".to_string()), ("k".to_string(), "v2".to_string())];
    assert_eq!(find_param(&pairs, "k"), Some("v1".to_string()));
    assert_eq!(find_param(&pairs, "z"), None);
    assert_eq!(find_param(&vec![], "k"), None);
}
