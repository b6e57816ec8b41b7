use amqprs::basic::{ack_payload, get_payload, parse_get_ok, publish_frames_for, publish_payload};
use amqprs::dispatcher::{Assembled, AssemblyState};
use amqprs::error::ConnectionError;
use amqprs::frame::{RawFrame, FRAME_BODY, FRAME_HEADER, FRAME_METHOD};

fn get_ok(tag: u64, count: u32) -> Vec<u8> {
    let mut p = vec![0, 60, 0, 71];
    p.extend_from_slice(&tag.to_be_bytes());
    p.push(0);
    p.push(9);
    p.extend_from_slice(b"amq.topic");
    p.push(8);
    p.extend_from_slice(b"get.test");
    p.extend_from_slice(&count.to_be_bytes());
    p
}

#[test]
fn publish_and_get_payloads() {
    let p = publish_payload(&"amq.topic".to_string(), &"get.test".to_string(), true, false).unwrap();
    let mut expected = vec![0, 60, 0, 40, 0, 0, 9];
    expected.extend_from_slice(b"amq.topic");
    expected.push(8);
    expected.extend_from_slice(b"get.test");
    expected.push(1);
    assert_eq!(p, expected);
    assert_eq!(get_payload(&"q".to_string(), true).unwrap(), vec![0, 60, 0, 70, 0, 0, 1, b'q', 1]);
    assert!(matches!(get_payload(&"q".repeat(256), false), Err(ConnectionError::SerdeError(_))));
    assert_eq!(ack_payload(0x0102, false), vec![0, 60, 0, 80, 0, 0, 0, 0, 0, 0, 1, 2, 0]);
}

#[test]
fn get_ok_fields() {
    let g = parse_get_ok(&get_ok(7, 2)).unwrap();
    assert_eq!(g.delivery_tag, 7);
    assert!(!g.redelivered);
    assert_eq!(g.exchange, b"amq.topic".to_vec());
    assert_eq!(g.routing_key, b"get.test".to_vec());
    assert_eq!(g.message_count, 2);
    let mut long = get_ok(7, 2);
    long.push(0);
    assert_eq!(parse_get_ok(&long), None);
    assert_eq!(parse_get_ok(&vec![0, 60, 0, 72, 0]), None);
}

#[test]
fn publish_group_frames() {
    let body = br#"{"data":"some data to publish for test"}"#.to_vec();
    let frames = publish_frames_for(1, &"amq.topic".to_string(), &"get.test".to_string(), &body, 131072).unwrap();
    let types: Vec<u8> = frames.iter().map(|f| f.frame_type).collect();
    assert_eq!(types, vec![FRAME_METHOD, FRAME_HEADER, FRAME_BODY]);
    assert_eq!(frames[2].payload, body);
    let unlimited = publish_frames_for(1, &"x".to_string(), &"k".to_string(), &body, 0).unwrap();
    assert_eq!(unlimited.len(), 3);
    assert!(matches!(
        publish_frames_for(1, &"x".to_string(), &"k".to_string(), &body, 1000),
        Err(ConnectionError::ChannelUseError(_))
    ));
}

#[test]
fn three_gets_count_down() {
    let content = br#"{"data":"some data to publish for test"}"#.to_vec();
    let mut state = AssemblyState::Idle;
    let mut counts = Vec::new();
    for (tag, count) in [(1u64, 2u32), (2, 1), (3, 0)] {
        let mut frames = vec![RawFrame { frame_type: FRAME_METHOD, channel: 1, payload: get_ok(tag, count) }];
        let publish = publish_frames_for(1, &"amq.topic".to_string(), &"get.test".to_string(), &content, 4096).unwrap();
        frames.extend(publish.into_iter().skip(1));
        for f in frames {
            let (next, got) = state.feed(f);
            state = next;
            if let Assembled::Content { method, body, .. } = got {
                assert_eq!(body, content);
                let g = parse_get_ok(&method).unwrap();
                assert_eq!(g.delivery_tag, tag);
                assert_eq!(ack_payload(g.delivery_tag, false)[11], tag as u8);
                counts.push(g.message_count);
            }
        }
    }
    assert_eq!(counts, vec![2, 1, 0]);
}
