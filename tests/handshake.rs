use amqprs::channel_manager::MethodHeader;
use amqprs::handshake::{
    amqplain_response, contains_word, open_payload, parse_tune, plain_response, protocol_header, select_mechanism,
    start_mechanisms, start_ok_payload, start_ok_payload_with_table, tune_ok_payload,
    HandshakeAction, HandshakeState, Mechanism,
};
use amqprs::tune::TuneParams;

fn conn(method_id: u16) -> MethodHeader {
    MethodHeader { class_id: 10, method_id }
}

#[test]
fn protocol_header_bytes() {
    assert_eq!(protocol_header(), b"AMQP\x00\x00\x09\x01".to_vec());
}

#[test]
fn mechanism_selection() {
    assert_eq!(select_mechanism(b"AMQPLAIN PLAIN"), Some(Mechanism::Plain));
    assert_eq!(select_mechanism(b"AMQPLAIN EXTERNAL"), Some(Mechanism::AmqPlain));
    assert_eq!(select_mechanism(b"PLAINX EXTERNAL"), None);
    assert_eq!(select_mechanism(b""), None);
    assert!(contains_word(b"A B C", b"B"));
    assert!(!contains_word(b"ABC", b"B"));
}

#[test]
fn plain_credentials() {
    assert_eq!(plain_response("user", "bitnami"), b"\x00user\x00bitnami".to_vec());
    assert_eq!(plain_response("", ""), vec![0, 0]);
}

#[test]
fn handshake_in_order() {
    let s = HandshakeState::AwaitStart;
    let (s, a) = s.next(0, &conn(10));
    assert_eq!(a, HandshakeAction::SendStartOk);
    let (s, a) = s.next(0, &conn(30));
    assert_eq!(a, HandshakeAction::SendTuneOkAndOpen);
    let (s, a) = s.next(0, &conn(41));
    assert_eq!((s, a), (HandshakeState::Running, HandshakeAction::Done));
}

#[test]
fn handshake_out_of_order() {
    assert_eq!(
        HandshakeState::AwaitStart.next(0, &conn(30)),
        (HandshakeState::Closed, HandshakeAction::Violation(505))
    );
    assert_eq!(
        HandshakeState::AwaitTune.next(1, &conn(30)),
        (HandshakeState::Closed, HandshakeAction::Violation(505))
    );
    assert_eq!(
        HandshakeState::AwaitOpenOk.next(0, &conn(50)),
        (HandshakeState::Closed, HandshakeAction::SendCloseOk)
    );
    assert_eq!(HandshakeState::AwaitTune.next(0, &conn(20)).1, HandshakeAction::SendSecureOk);
}

#[test]
fn start_mechanisms_are_read() {
    let mut p = vec![0, 10, 0, 10, 0, 9];
    p.extend_from_slice(&[0, 0, 0, 3, 1, 2, 3]);
    p.extend_from_slice(&[0, 0, 0, 14]);
    p.extend_from_slice(b"AMQPLAIN PLAIN");
    p.extend_from_slice(&[0, 0, 0, 5]);
    p.extend_from_slice(b"en_US");
    assert_eq!(start_mechanisms(&p), Some(b"AMQPLAIN PLAIN".to_vec()));
    assert_eq!(start_mechanisms(&p[..20].to_vec()), None);
    assert_eq!(start_mechanisms(&vec![0, 10, 0, 11, 0, 9, 0, 0, 0, 0, 0, 0, 0, 0]), None);
}

#[test]
fn tune_and_tune_ok() {
    let tune = vec![0, 10, 0, 30, 0x07, 0xFF, 0, 2, 0, 0, 0, 60];
    let p = parse_tune(&tune).unwrap();
    assert_eq!(p, TuneParams { channel_max: 2047, frame_max: 131072, heartbeat: 60 });
    assert_eq!(parse_tune(&tune[..11].to_vec()), None);
    assert_eq!(tune_ok_payload(p), vec![0, 10, 0, 31, 0x07, 0xFF, 0, 2, 0, 0, 0, 60]);
}

#[test]
fn open_and_start_ok() {
    assert_eq!(open_payload(&"/".to_string()).unwrap(), vec![0, 10, 0, 40, 1, b'/', 0, 0]);
    assert!(open_payload(&"v".repeat(300)).is_err());
    let r = start_ok_payload_with_table(&[0, 0, 0, 0], Mechanism::Plain, b"\x00u\x00p");
    let mut expected = vec![0, 10, 0, 11, 0, 0, 0, 0, 5];
    expected.extend_from_slice(b"PLAIN");
    expected.extend_from_slice(&[0, 0, 0, 4, 0, b'u', 0, b'p', 5]);
    expected.extend_from_slice(b"en_US");
    assert_eq!(r, expected);
    let props = amqp_serde::types::FieldTable::new();
    assert_eq!(start_ok_payload(&props, Mechanism::Plain, b"\x00u\x00p").unwrap(), expected);
}

#[test]
fn amqplain_credentials() {
    let mut expected = vec![5];
    expected.extend_from_slice(b"LOGIN");
    expected.extend_from_slice(&[b'S', 0, 0, 0, 4]);
    expected.extend_from_slice(b"user");
    expected.push(8);
    expected.extend_from_slice(b"PASSWORD");
    expected.extend_from_slice(&[b'S', 0, 0, 0, 7]);
    expected.extend_from_slice(b"bitnami");
    assert_eq!(amqplain_response("user", "bitnami"), expected);
}
