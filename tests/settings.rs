use amqprs::channel_manager::MethodHeader;
use amqprs::error::{ConnectionError, FrameError};
use amqprs::frame::{RawFrame, FRAME_METHOD};
use amqprs::queue::{
    check_reply, parse_declare_ok, QueueBindArguments, QueueDeclareArguments, QueueDeleteArguments,
    QueuePurgeArguments, QueueUnbindArguments,
};
use amqprs::tune::{heartbeat_frame, negotiate, HeartbeatMonitor, TuneError, TuneParams};

#[test]
fn negotiation_takes_the_smaller_limit() {
    let server = TuneParams { channel_max: 2047, frame_max: 131072, heartbeat: 60 };
    let client = TuneParams { channel_max: 0, frame_max: 65536, heartbeat: 0 };
    assert_eq!(
        negotiate(server, client),
        Ok(TuneParams { channel_max: 2047, frame_max: 65536, heartbeat: 60 })
    );
    let tiny = TuneParams { channel_max: 0, frame_max: 1024, heartbeat: 0 };
    assert_eq!(negotiate(server, tiny), Err(TuneError::FrameMaxTooSmall(1024)));
    let none = TuneParams { channel_max: 0, frame_max: 0, heartbeat: 0 };
    assert_eq!(negotiate(none, none), Ok(none));
}

#[test]
fn heartbeat_timing() {
    let mut hb = HeartbeatMonitor::new(2, 10_000);
    assert!(!hb.heartbeat_due(10_999));
    assert!(hb.heartbeat_due(11_000));
    hb.on_sent(11_000);
    assert!(!hb.heartbeat_due(11_500));
    assert!(!hb.peer_dead(14_000));
    assert!(hb.peer_dead(14_001));
    hb.on_received(14_001);
    assert!(!hb.peer_dead(14_002));
    let off = HeartbeatMonitor::new(0, 0);
    assert!(!off.heartbeat_due(u64::MAX));
    assert!(!off.peer_dead(u64::MAX));
    let f = heartbeat_frame();
    assert_eq!((f.frame_type, f.channel, f.payload.len()), (8, 0, 0));
}

#[test]
fn declare_arguments() {
    let mut a = QueueDeclareArguments::new("jobs");
    assert_eq!(a.queue, "jobs");
    assert_eq!(a.bits(), 0);
    a.durable = true;
    a.auto_delete = true;
    assert_eq!(a.bits(), 10);
    assert_eq!(a.expected_reply(), Some(MethodHeader { class_id: 50, method_id: 11 }));
    a.no_wait = true;
    assert_eq!(a.bits(), 26);
    assert_eq!(a.expected_reply(), None);
    assert_eq!(QueueDeclareArguments::default().queue, "");
}

#[test]
fn other_queue_arguments() {
    let b = QueueBindArguments::new("q", "amq.topic", "get.test");
    assert_eq!((b.queue.as_str(), b.exchange.as_str(), b.routing_key.as_str()), ("q", "amq.topic", "get.test"));
    assert_eq!(b.expected_reply(), Some(MethodHeader { class_id: 50, method_id: 21 }));
    let p = QueuePurgeArguments::new("q");
    assert_eq!(p.expected_reply(), Some(MethodHeader { class_id: 50, method_id: 31 }));
    let mut d = QueueDeleteArguments::new("q");
    d.if_empty = true;
    d.no_wait = true;
    assert_eq!(d.bits(), 6);
    assert_eq!(d.expected_reply(), None);
    let u = QueueUnbindArguments::new("q", "x", "k");
    assert_eq!(u.expected_reply(), MethodHeader { class_id: 50, method_id: 51 });
}

#[test]
fn reply_check() {
    let expected = MethodHeader { class_id: 50, method_id: 11 };
    let good = RawFrame { frame_type: FRAME_METHOD, channel: 1, payload: vec![0, 50, 0, 11, 1, b'q'] };
    let bad = RawFrame { frame_type: FRAME_METHOD, channel: 1, payload: vec![0, 50, 0, 21] };
    assert!(check_reply(&expected, &good).is_ok());
    assert!(matches!(check_reply(&expected, &bad), Err(ConnectionError::ChannelUseError(_))));
}

#[test]
fn error_texts() {
    let e = ConnectionError::from_frame(FrameError::Corrupted);
    assert!(matches!(&e, ConnectionError::FramingError(m) if m == "corrupted frame"));
    assert_eq!(e.kind_text(), "framing error");
    assert_eq!(ConnectionError::CloseCallbackError.kind_text(), "peer shutdown");
    assert!(ConnectionError::Interrupted.detail().is_none());
    let s = ConnectionError::from_serde(amqp_serde::Error::Syntax);
    assert!(matches!(&s, ConnectionError::SerdeError(m) if m == "unexpected syntax"));
    let f = FrameError::from_serde(amqp_serde::Error::Eof);
    assert!(matches!(&f, FrameError::Inner(m) if m == "unexpected end of input"));
    assert_eq!(FrameError::Corrupted.fixed_text(), Some("corrupted frame"));
}

#[test]
fn queue_payloads() {
    let declare = QueueDeclareArguments::new("q");
    assert_eq!(declare.payload().unwrap(), vec![0, 50, 0, 10, 0, 0, 1, b'q', 0, 0, 0, 0, 0]);
    let mut bind = QueueBindArguments::new("q", "amq.topic", "get.test");
    bind.no_wait = true;
    let mut expected = vec![0, 50, 0, 20, 0, 0, 1, b'q', 9];
    expected.extend_from_slice(b"amq.topic");
    expected.push(8);
    expected.extend_from_slice(b"get.test");
    expected.extend_from_slice(&[1, 0, 0, 0, 0]);
    assert_eq!(bind.payload().unwrap(), expected);
    assert_eq!(QueuePurgeArguments::new("ab").payload().unwrap(), vec![0, 50, 0, 30, 0, 0, 2, b'a', b'b', 0]);
    let mut delete = QueueDeleteArguments::new("");
    delete.if_unused = true;
    assert_eq!(delete.payload().unwrap(), vec![0, 50, 0, 40, 0, 0, 0, 1]);
    let unbind = QueueUnbindArguments::new("q", "x", "k");
    assert_eq!(
        unbind.payload().unwrap(),
        vec![0, 50, 0, 50, 0, 0, 1, b'q', 1, b'x', 1, b'k', 0, 0, 0, 0]
    );
    let long = "n".repeat(256);
    assert!(matches!(QueueDeclareArguments::new(&long).payload(), Err(ConnectionError::SerdeError(_))));
    assert!(QueueDeclareArguments::new(&"n".repeat(255)).payload().is_ok());
    assert_eq!(
        QueueDeclareArguments::new("q").payload_with_table(&[7]).unwrap(),
        vec![0, 50, 0, 10, 0, 0, 1, b'q', 0, 7]
    );
}

#[test]
fn declare_ok_names_the_queue() {
    let mut p = vec![0, 50, 0, 11, 6];
    p.extend_from_slice(b"amq.q1");
    p.extend_from_slice(&[0, 0, 0, 3, 0, 0, 0, 1]);
    let ok = parse_declare_ok(&p).unwrap();
    assert_eq!(ok.queue, b"amq.q1".to_vec());
    assert_eq!((ok.message_count, ok.consumer_count), (3, 1));
    p.pop();
    assert_eq!(parse_declare_ok(&p), None);
    assert_eq!(parse_declare_ok(&vec![0, 50, 0, 21, 0, 0, 0, 0, 0, 0, 0, 0, 0]), None);
}

#[test]
fn declare_payload_carries_the_arguments_table() {
    let mut a = QueueDeclareArguments::new("q");
    a.arguments.insert("x".try_into().unwrap(), amqp_serde::types::FieldValue::t(true));
    let p = a.payload().unwrap();
    assert_eq!(&p[..9], &[0, 50, 0, 10, 0, 0, 1, b'q', 0]);
    assert_eq!(&p[9..13], &[0, 0, 0, 4]);
    assert_eq!(p.len(), 17);
}

#[test]
fn silent_peer_is_peer_shutdown() {
    let hb = HeartbeatMonitor::new(2, 0);
    assert!(hb.check_peer(4_000).is_ok());
    let err = hb.check_peer(4_001).unwrap_err();
    assert!(matches!(err, ConnectionError::CloseCallbackError));
    assert_eq!(err.kind_text(), "peer shutdown");
}
