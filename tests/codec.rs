use amqprs::frame::{
    decode_frame, encode_frame, Decoded, FrameBuffer, RawFrame, FRAME_BODY, FRAME_END,
    FRAME_HEARTBEAT, FRAME_METHOD,
};
use amqprs::writer::{encode_checked, encode_frames};

fn method_frame(channel: u16, payload: Vec<u8>) -> RawFrame {
    RawFrame { frame_type: FRAME_METHOD, channel, payload }
}

#[test]
fn encode_frame_layout() {
    let f = method_frame(0x0102, vec![0, 10, 0, 51]);
    let bytes = encode_frame(&f);
    assert_eq!(bytes, vec![1, 0x01, 0x02, 0, 0, 0, 4, 0, 10, 0, 51, 0xCE]);
}

#[test]
fn frame_round_trip_with_trailing_bytes() {
    let f = RawFrame { frame_type: FRAME_BODY, channel: 7, payload: (0..=255u8).collect() };
    let mut bytes = encode_frame(&f);
    let len = bytes.len();
    bytes.extend_from_slice(&[9, 9, 9]);
    match decode_frame(&bytes, 131072) {
        Decoded::Frame(g, n) => {
            assert_eq!(g, f);
            assert_eq!(n, len);
        }
        _ => panic!("expected a frame"),
    }
}

#[test]
fn heartbeat_round_trip() {
    let f = RawFrame { frame_type: FRAME_HEARTBEAT, channel: 0, payload: vec![] };
    let bytes = encode_frame(&f);
    assert_eq!(bytes, vec![8, 0, 0, 0, 0, 0, 0, 0xCE]);
    assert!(matches!(decode_frame(&bytes, 0), Decoded::Frame(g, 8) if g == f));
}

#[test]
fn wrong_terminator_is_corrupted() {
    let mut bytes = encode_frame(&method_frame(1, vec![0, 60, 0, 71]));
    let last = bytes.len() - 1;
    assert_eq!(bytes[last], FRAME_END);
    bytes[last] = 0xFF;
    assert!(matches!(decode_frame(&bytes, 0), Decoded::Corrupted));
}

#[test]
fn unknown_type_is_corrupted() {
    let bytes = vec![4, 0, 1, 0, 0, 0, 0, 0xCE];
    assert!(matches!(decode_frame(&bytes, 0), Decoded::Corrupted));
}

#[test]
fn payload_over_frame_max_is_corrupted() {
    let f = method_frame(1, vec![0; 5000]);
    let bytes = encode_frame(&f);
    assert!(matches!(decode_frame(&bytes, 4096), Decoded::Corrupted));
    assert!(matches!(decode_frame(&bytes, 0), Decoded::Frame(..)));
    assert!(matches!(decode_frame(&bytes, 5000), Decoded::Frame(..)));
}

#[test]
fn short_input_is_incomplete() {
    let bytes = encode_frame(&method_frame(1, vec![1, 2, 3]));
    for cut in 0..bytes.len() {
        assert!(matches!(decode_frame(&bytes[..cut], 0), Decoded::Incomplete));
    }
}

#[test]
fn buffer_assembles_partial_reads() {
    let a = method_frame(1, vec![0, 50, 0, 11, 5]);
    let b = RawFrame { frame_type: FRAME_BODY, channel: 1, payload: vec![42; 10] };
    let wire = encode_frames(&vec![a.clone(), b.clone()]);
    let mut buf = FrameBuffer::new();
    let mut got = Vec::new();
    for chunk in wire.chunks(3) {
        buf.extend(chunk);
        loop {
            match buf.next_frame(0) {
                Decoded::Frame(f, _) => got.push(f),
                Decoded::Incomplete => break,
                Decoded::Corrupted => panic!("corrupted"),
            }
        }
    }
    assert_eq!(got, vec![a, b]);
}

#[test]
fn encode_frames_keeps_order() {
    let a = method_frame(1, vec![1]);
    let b = method_frame(2, vec![2, 2]);
    let mut expected = encode_frame(&a);
    expected.extend(encode_frame(&b));
    assert_eq!(encode_frames(&vec![a.clone(), b.clone()]), expected);
    let mut reversed = encode_frame(&b);
    reversed.extend(encode_frame(&a));
    assert_ne!(encode_frames(&vec![a, b]), reversed);
}

#[test]
fn only_writable_frames_are_encoded() {
    let ok = vec![method_frame(1, vec![0, 20, 0, 10, 0])];
    assert_eq!(encode_checked(&ok, 4096), Some(encode_frames(&ok)));
    let unknown = vec![RawFrame { frame_type: 5, channel: 1, payload: vec![] }];
    assert_eq!(encode_checked(&unknown, 4096), None);
    let big = vec![method_frame(1, vec![0; 5000])];
    assert_eq!(encode_checked(&big, 4096), None);
    assert!(encode_checked(&big, 0).is_some());
}
