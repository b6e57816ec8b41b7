use amqprs::content::{content_frames, content_header_frame};
use amqprs::dispatcher::{delivery_target, Assembled, AssemblyState, DeliveryTarget};
use amqprs::frame::{RawFrame, FRAME_BODY, FRAME_HEADER, FRAME_METHOD};
use amqprs::writer::publish_frames;

fn method(channel: u16, class_id: u16, method_id: u16) -> RawFrame {
    RawFrame {
        frame_type: FRAME_METHOD,
        channel,
        payload: vec![(class_id >> 8) as u8, class_id as u8, (method_id >> 8) as u8, method_id as u8],
    }
}

fn feed_all(frames: Vec<RawFrame>) -> Vec<Assembled> {
    let mut state = AssemblyState::Idle;
    let mut out = Vec::new();
    for f in frames {
        let (next, got) = state.feed(f);
        state = next;
        out.push(got);
    }
    out
}

#[test]
fn body_is_split_under_frame_max() {
    let body: Vec<u8> = (0..10000u32).map(|i| i as u8).collect();
    let frames = content_frames(1, 60, &vec![0x90, 0], &body, 4096);
    assert_eq!(frames.len(), 4);
    assert_eq!(frames[0].frame_type, FRAME_HEADER);
    assert_eq!(frames[0].payload, vec![0, 60, 0, 0, 0, 0, 0, 0, 0, 0, 0x27, 0x10, 0x90, 0]);
    let sizes: Vec<usize> = frames[1..].iter().map(|f| f.payload.len()).collect();
    assert_eq!(sizes, vec![4088, 4088, 1824]);
    assert!(frames[1..].iter().all(|f| f.frame_type == FRAME_BODY && f.channel == 1));
}

#[test]
fn empty_body_has_no_body_frames() {
    let frames = content_frames(3, 60, &vec![], &vec![], 4096);
    assert_eq!(frames.len(), 1);
}

#[test]
fn content_reassembles() {
    let body: Vec<u8> = (0..9000u32).map(|i| (i * 7) as u8).collect();
    let props = vec![0x80, 0x00, 4, b'j', b's', b'o', b'n'];
    let mut frames = vec![method(1, 60, 60)];
    frames.extend(content_frames(1, 60, &props, &body, 4096));
    let out = feed_all(frames);
    let (last, rest) = out.split_last().unwrap();
    assert!(rest.iter().all(|a| matches!(a, Assembled::Pending)));
    match last {
        Assembled::Content { method: m, properties, body: b } => {
            assert_eq!(m, &vec![0, 60, 0, 60]);
            assert_eq!(properties, &props);
            assert_eq!(b, &body);
        }
        _ => panic!("expected content"),
    }
}

#[test]
fn get_ok_three_times() {
    let content = br#"{"data":"some data to publish for test"}"#.to_vec();
    let mut frames = Vec::new();
    for _ in 0..3 {
        frames.push(method(1, 60, 71));
        frames.extend(content_frames(1, 60, &vec![], &content, 131072));
    }
    let got: Vec<Vec<u8>> = feed_all(frames)
        .into_iter()
        .filter_map(|a| match a {
            Assembled::Content { body, .. } => Some(body),
            _ => None,
        })
        .collect();
    assert_eq!(got, vec![content.clone(), content.clone(), content]);
}

#[test]
fn get_empty_gives_the_empty_result() {
    let out = feed_all(vec![method(1, 60, 72)]);
    assert!(matches!(&out[0], Assembled::Empty { method } if method == &vec![0, 60, 0, 72]));
}

#[test]
fn confirms_are_passed_on() {
    let out = feed_all(vec![method(1, 60, 80)]);
    assert!(matches!(&out[0], Assembled::Request { .. }));
}

#[test]
fn out_of_order_frames_are_violations() {
    let body = RawFrame { frame_type: FRAME_BODY, channel: 1, payload: vec![1, 2] };
    assert!(matches!(feed_all(vec![body.clone()])[0], Assembled::Violation));
    let out = feed_all(vec![method(1, 60, 60), body.clone()]);
    assert!(matches!(out[1], Assembled::Violation));
    let header = content_header_frame(1, 60, 1, &vec![]);
    let out = feed_all(vec![method(1, 60, 60), header, body]);
    assert!(matches!(out[2], Assembled::Violation));
}

#[test]
fn publish_group_is_method_header_bodies() {
    let body = vec![5u8; 5000];
    let frames = publish_frames(2, vec![0, 60, 0, 40], 60, &vec![], &body, 4096);
    let types: Vec<u8> = frames.iter().map(|f| f.frame_type).collect();
    assert_eq!(types, vec![FRAME_METHOD, FRAME_HEADER, FRAME_BODY, FRAME_BODY]);
    assert!(frames.iter().all(|f| f.channel == 2));
}

#[test]
fn deliveries_are_routed_by_method() {
    let deliver = vec![0, 60, 0, 60, 3, b'c', b't', b'g', 0, 0, 0, 0, 0, 0, 0, 1];
    assert_eq!(delivery_target(&deliver), Some(DeliveryTarget::Consumer(b"ctg".to_vec())));
    assert_eq!(delivery_target(&vec![0, 60, 0, 60, 9, b'x']), None);
    assert_eq!(delivery_target(&vec![0, 60, 0, 71]), Some(DeliveryTarget::GetWaiter));
    assert_eq!(delivery_target(&vec![0, 60, 0, 72]), Some(DeliveryTarget::GetWaiter));
    assert_eq!(delivery_target(&vec![0, 60, 0, 50]), Some(DeliveryTarget::ReturnCallback));
    assert_eq!(delivery_target(&vec![0, 60, 0, 120]), Some(DeliveryTarget::ConfirmCallback));
    assert_eq!(delivery_target(&vec![0, 20, 0, 20, 1]), Some(DeliveryTarget::ChannelCallback));
    assert_eq!(delivery_target(&vec![0, 50, 0, 11]), None);
}

#[test]
fn any_split_reassembles() {
    let body: Vec<u8> = (0..100u8).collect();
    let mut frames = vec![method(2, 60, 60), content_header_frame(2, 60, 100, &vec![1, 2])];
    for (a, b) in [(0usize, 1usize), (1, 40), (40, 41), (41, 100)] {
        frames.push(RawFrame { frame_type: FRAME_BODY, channel: 2, payload: body[a..b].to_vec() });
    }
    let out = feed_all(frames);
    assert!(matches!(out.last(), Some(Assembled::Content { body: b, .. }) if b == &body));
    assert!(out[..out.len() - 1].iter().all(|a| matches!(a, Assembled::Pending)));
}
