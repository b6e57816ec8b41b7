use amqprs::channel_manager::{ChannelResource, MethodHeader};
use amqprs::frame::{Decoded, RawFrame, FRAME_BODY, FRAME_HEADER, FRAME_HEARTBEAT, FRAME_METHOD};
use amqprs::methods::{
    classify, close_frame, parse_close, CloseReason, MethodKind, CONNECTION_FORCED, FRAME_ERROR,
    UNEXPECTED_FRAME,
};
use amqprs::reader::{violation_close, ReaderAction, ReaderState};

fn method(channel: u16, class_id: u16, method_id: u16) -> RawFrame {
    RawFrame {
        frame_type: FRAME_METHOD,
        channel,
        payload: vec![(class_id >> 8) as u8, class_id as u8, (method_id >> 8) as u8, method_id as u8],
    }
}

fn reader() -> ReaderState<&'static str, u8> {
    ReaderState::new(10, ChannelResource::new(None))
}

#[test]
fn server_close_is_answered_with_close_ok() {
    let mut r = reader();
    let reason = CloseReason {
        reply_code: CONNECTION_FORCED,
        reply_text: b"CONNECTION_FORCED".to_vec(),
        class_id: 0,
        method_id: 0,
    };
    let close = close_frame(0, &reason);
    assert_eq!(parse_close(&close.payload), Some(reason.clone()));
    match r.handle_frame(&close) {
        ReaderAction::ServerClose(f, Some(got)) => {
            assert_eq!(f, method(0, 10, 51));
            assert_eq!(got, reason);
            assert_eq!(
                (got.reply_code, got.reply_text.as_slice(), got.class_id, got.method_id),
                (320, &b"CONNECTION_FORCED"[..], 0, 0)
            );
        }
        _ => panic!("expected CloseOk and the reason"),
    }
    assert!(r.to_shutdown());
}

#[test]
fn close_on_a_channel_is_a_violation() {
    let mut r = reader();
    let id = r.register_channel(None, ChannelResource::new(None)).unwrap();
    assert!(matches!(r.handle_frame(&method(id, 10, 50)), ReaderAction::Violation(UNEXPECTED_FRAME)));
    assert!(!r.to_shutdown());
}

#[test]
fn close_ok_fires_the_connection_responder() {
    let mut r = reader();
    let h = MethodHeader { class_id: 10, method_id: 51 };
    assert!(r.register_responder(0, h, "close").is_none());
    assert!(matches!(r.handle_frame(&method(0, 10, 51)), ReaderAction::Respond("close")));
    assert!(r.to_shutdown());
    let mut r2 = reader();
    assert!(matches!(r2.handle_frame(&method(0, 10, 51)), ReaderAction::Fail));
}

#[test]
fn server_closes_a_channel() {
    let mut r = reader();
    let id = r.register_channel(Some(4), ChannelResource::new(Some(1))).unwrap();
    assert_eq!(id, 4);
    r.register_responder(4, MethodHeader { class_id: 50, method_id: 11 }, "declare");
    match r.handle_frame(&method(4, 20, 40)) {
        ReaderAction::Reply(f) => assert_eq!(f, method(4, 20, 41)),
        _ => panic!("expected CloseChannelOk"),
    }
    assert!(r.dispatcher(4).is_none());
    assert!(matches!(r.handle_frame(&method(4, 20, 40)), ReaderAction::ReplyAndFail(_)));
    assert_eq!(r.register_channel(None, ChannelResource::new(None)), Some(1));
}

#[test]
fn close_channel_ok_fires_and_frees_the_channel() {
    let mut r = reader();
    let id = r.register_channel(None, ChannelResource::new(None)).unwrap();
    r.register_responder(id, MethodHeader { class_id: 20, method_id: 41 }, "close-channel");
    assert!(matches!(r.handle_frame(&method(id, 20, 41)), ReaderAction::Respond("close-channel")));
    assert!(matches!(r.handle_frame(&method(id, 20, 41)), ReaderAction::Fail));
    assert_eq!(r.register_channel(Some(id), ChannelResource::new(None)), Some(id));
}

#[test]
fn replies_go_to_their_responder() {
    let mut r = reader();
    let id = r.register_channel(None, ChannelResource::new(None)).unwrap();
    r.register_responder(id, MethodHeader { class_id: 50, method_id: 21 }, "bind");
    assert!(matches!(r.handle_frame(&method(id, 50, 11)), ReaderAction::Unanswered));
    assert!(matches!(r.handle_frame(&method(id, 50, 21)), ReaderAction::Respond("bind")));
    assert!(matches!(r.handle_frame(&method(id, 50, 21)), ReaderAction::Unanswered));
}

#[test]
fn replies_leave_the_dispatcher() {
    let mut r = reader();
    let id = r.register_channel(None, ChannelResource::new(Some(3))).unwrap();
    r.register_responder(id, MethodHeader { class_id: 60, method_id: 21 }, "consume");
    assert!(matches!(r.handle_frame(&method(id, 60, 21)), ReaderAction::Respond("consume")));
    assert_eq!(r.dispatcher(id), Some(&3));
}

#[test]
fn unreadable_server_close_still_closes() {
    let mut r = reader();
    let mut f = method(0, 10, 50);
    f.payload.push(1);
    assert!(matches!(r.handle_frame(&f), ReaderAction::ServerClose(_, None)));
    assert!(r.to_shutdown());
}

#[test]
fn content_goes_to_the_dispatcher() {
    let mut r = reader();
    let with = r.register_channel(None, ChannelResource::new(Some(7))).unwrap();
    let without = r.register_channel(None, ChannelResource::new(None)).unwrap();
    let header = RawFrame { frame_type: FRAME_HEADER, channel: with, payload: vec![0; 14] };
    let body = RawFrame { frame_type: FRAME_BODY, channel: without, payload: vec![1] };
    assert!(matches!(r.handle_frame(&method(with, 60, 60)), ReaderAction::Dispatch));
    assert!(matches!(r.handle_frame(&header), ReaderAction::Dispatch));
    assert!(matches!(r.handle_frame(&method(without, 60, 71)), ReaderAction::Discard));
    assert!(matches!(r.handle_frame(&body), ReaderAction::Discard));
    assert!(matches!(r.handle_frame(&method(with, 60, 80)), ReaderAction::Dispatch));
    assert_eq!(r.dispatcher(with), Some(&7));
}

#[test]
fn heartbeats_and_violations() {
    let mut r = reader();
    let hb = RawFrame { frame_type: FRAME_HEARTBEAT, channel: 0, payload: vec![] };
    assert!(matches!(r.handle_frame(&hb), ReaderAction::Heartbeat));
    let hb1 = RawFrame { frame_type: FRAME_HEARTBEAT, channel: 1, payload: vec![] };
    assert!(matches!(r.handle_frame(&hb1), ReaderAction::Violation(FRAME_ERROR)));
    let short = RawFrame { frame_type: FRAME_METHOD, channel: 0, payload: vec![0, 10] };
    assert!(matches!(r.handle_frame(&short), ReaderAction::Violation(FRAME_ERROR)));
    assert!(matches!(r.handle_frame(&method(0, 10, 10)), ReaderAction::Violation(UNEXPECTED_FRAME)));
    assert!(matches!(r.handle_frame(&method(0, 10, 60)), ReaderAction::Notice));
    assert!(!r.to_shutdown());
}

#[test]
fn method_table() {
    let k = |c, m| classify(&MethodHeader { class_id: c, method_id: m });
    assert_eq!(k(10, 50), MethodKind::Close);
    assert_eq!(k(10, 51), MethodKind::CloseOk);
    assert_eq!(k(20, 40), MethodKind::CloseChannel);
    assert_eq!(k(20, 41), MethodKind::CloseChannelOk);
    assert_eq!(k(60, 72), MethodKind::Content);
    assert_eq!(k(20, 20), MethodKind::ChannelRequest);
    assert_eq!(k(85, 11), MethodKind::Reply);
    assert_eq!(k(90, 31), MethodKind::Reply);
    assert_eq!(k(60, 40), MethodKind::Unexpected);
}

#[test]
fn malformed_close_is_not_parsed() {
    assert_eq!(parse_close(&vec![0, 10, 0, 50, 1, 64, 5, b'a']), None);
    assert_eq!(parse_close(&vec![0, 10, 0, 51, 0, 0, 0, 0, 0, 0, 0]), None);
    let ok = parse_close(&vec![0, 20, 0, 40, 1, 248, 0, 0, 60, 0, 40]).unwrap();
    assert_eq!(ok.reply_code, 504);
    assert_eq!((ok.class_id, ok.method_id), (60, 40));
}

#[test]
fn corrupted_bytes_close_with_frame_error() {
    let mut r = reader();
    assert!(r.handle_decoded(&Decoded::Incomplete).is_none());
    assert!(matches!(r.handle_decoded(&Decoded::Corrupted), Some(ReaderAction::Violation(501))));
    let hb = RawFrame { frame_type: FRAME_HEARTBEAT, channel: 0, payload: vec![] };
    assert!(matches!(r.handle_decoded(&Decoded::Frame(hb, 8)), Some(ReaderAction::Heartbeat)));
    let close = violation_close(FRAME_ERROR);
    assert_eq!(close.channel, 0);
    assert_eq!(close.payload, vec![0, 10, 0, 50, 0x01, 0xF5, 0, 0, 0, 0, 0]);
    let reason = parse_close(&close.payload).unwrap();
    assert_eq!(reason.reply_code, 501);
}
