//! Content: the header and body frames that follow a content-bearing method.
//! Splitting a body into frames on the way out, and reuniting method, header
//! and bodies on the way in.
use vstd::prelude::*;

use crate::frame::{
    be16, be32, copy_range, push_bytes, be64, get_be16, get_be64, FrameView, RawFrame, FRAME_BODY, FRAME_HEADER,
    FRAME_OVERHEAD,
};

verus! {

/// The smallest `frame_max` that a peer may negotiate.
pub const FRAME_MIN_SIZE: u32 = 4096;

/// Header payload: class id, weight (always 0), body size, then the encoded
/// properties.
pub open spec fn header_payload(class_id: u16, body_size: u64, properties: Seq<u8>) -> Seq<u8> {
    be16(class_id) + be16(0) + be64(body_size) + properties
}

/// The fields of a content header payload, if it is long enough.
pub open spec fn parse_header_spec(p: Seq<u8>) -> Option<(u16, u64, Seq<u8>)> {
    if p.len() < 12 {
        None
    } else {
        Some((get_be16(p, 0) as u16, get_be64(p, 4) as u64, p.subrange(12, p.len() as int)))
    }
}

fn push_u64(out: &mut Vec<u8>, v: u64)
    ensures
        final(out)@ == old(out)@ + be64(v),
{
    let hi = (v / 0x1_0000_0000) as u32;
    let lo = (v % 0x1_0000_0000) as u32;
    out.push((hi / 0x100_0000) as u8);
    out.push(((hi / 0x1_0000) % 256) as u8);
    out.push(((hi / 256) % 256) as u8);
    out.push((hi % 256) as u8);
    out.push((lo / 0x100_0000) as u8);
    out.push(((lo / 0x1_0000) % 256) as u8);
    out.push(((lo / 256) % 256) as u8);
    out.push((lo % 256) as u8);
    assert(final(out)@ =~= old(out)@ + be64(v));
}

/// The content header frame for a body of `body_size` bytes.
pub fn content_header_frame(channel: u16, class_id: u16, body_size: u64, properties: &Vec<u8>) -> (r:
    RawFrame)
    ensures
        r.frame_type == FRAME_HEADER,
        r.channel == channel,
        r.payload@ == header_payload(class_id, body_size, properties@),
{
    let mut payload: Vec<u8> = Vec::new();
    payload.push((class_id / 256) as u8);
    payload.push((class_id % 256) as u8);
    payload.push(0);
    payload.push(0);
    push_u64(&mut payload, body_size);
    push_bytes(&mut payload, properties.as_slice());
    assert(payload@ =~= header_payload(class_id, body_size, properties@));
    RawFrame { frame_type: FRAME_HEADER, channel, payload }
}

proof fn lemma_be64_round_trip(v: u64, s: Seq<u8>)
    requires
        s.len() >= 12,
        s.subrange(4, 12) == be64(v),
    ensures
        get_be64(s, 4) == v,
{
    let hi = (v / 0x1_0000_0000) as u32;
    let lo = (v % 0x1_0000_0000) as u32;
    assert(be64(v).subrange(0, 4) =~= be32(hi));
    assert(be64(v).subrange(4, 8) =~= be32(lo));
    assert(s.subrange(4, 8) =~= s.subrange(4, 12).subrange(0, 4));
    assert(s.subrange(8, 12) =~= s.subrange(4, 12).subrange(4, 8));
    crate::frame::lemma_be32_round_trip(hi, s, 4);
    crate::frame::lemma_be32_round_trip(lo, s, 8);
    assert(v == hi * 0x1_0000_0000 + lo) by (nonlinear_arith)
        requires
            hi == v / 0x1_0000_0000,
            lo == v % 0x1_0000_0000,
    ;
}

/// Reading a header payload gives back what was written into it.
pub proof fn lemma_header_round_trip(class_id: u16, body_size: u64, properties: Seq<u8>)
    ensures
        parse_header_spec(header_payload(class_id, body_size, properties)) == Some(
            (class_id, body_size, properties),
        ),
{
    let p = header_payload(class_id, body_size, properties);
    assert(p.subrange(0, 2) =~= be16(class_id));
    crate::frame::lemma_be16_round_trip(class_id, p, 0);
    assert(p.subrange(4, 12) =~= be64(body_size));
    lemma_be64_round_trip(body_size, p);
    assert(p.subrange(12, p.len() as int) =~= properties);
}

/// A body cut into pieces of at most `n` bytes, none of them empty.
pub open spec fn chunks(s: Seq<u8>, n: nat) -> Seq<Seq<u8>>
    decreases s.len(),
{
    if n == 0 || s.len() == 0 {
        Seq::empty()
    } else if s.len() <= n {
        seq![s]
    } else {
        seq![s.take(n as int)] + chunks(s.skip(n as int), n)
    }
}

pub open spec fn body_frame(channel: u16, c: Seq<u8>) -> FrameView {
    FrameView { frame_type: FRAME_BODY, channel, payload: c }
}

pub open spec fn body_frames(channel: u16, cs: Seq<Seq<u8>>) -> Seq<FrameView> {
    cs.map_values(|c: Seq<u8>| body_frame(channel, c))
}

/// The largest body payload under `frame_max`.
pub open spec fn body_limit(frame_max: u32) -> nat {
    (frame_max - FRAME_OVERHEAD) as nat
}

/// The frames that carry a content on `channel`: one header frame, then the
/// body in pieces that each fit in a frame of `frame_max` bytes.
pub open spec fn content_frames_spec(
    channel: u16,
    class_id: u16,
    properties: Seq<u8>,
    body: Seq<u8>,
    frame_max: u32,
) -> Seq<FrameView> {
    seq![
        FrameView {
            frame_type: FRAME_HEADER,
            channel,
            payload: header_payload(class_id, body.len() as u64, properties),
        },
    ] + body_frames(channel, chunks(body, body_limit(frame_max)))
}

pub fn content_frames(
    channel: u16,
    class_id: u16,
    properties: &Vec<u8>,
    body: &Vec<u8>,
    frame_max: u32,
) -> (r: Vec<RawFrame>)
    requires
        frame_max >= FRAME_MIN_SIZE,
    ensures
        r@.map_values(|f: RawFrame| f@) == content_frames_spec(
            channel,
            class_id,
            properties@,
            body@,
            frame_max,
        ),
{
    let n: usize = (frame_max - FRAME_OVERHEAD) as usize;
    let ghost nn = body_limit(frame_max);
    let mut out: Vec<RawFrame> = Vec::new();
    out.push(content_header_frame(channel, class_id, body.len() as u64, properties));
    let ghost head = out@.map_values(|f: RawFrame| f@);
    let mut i: usize = 0;
    assert(body@.skip(0) =~= body@);
    while i < body.len()
        invariant
            n == nn,
            n > 0,
            i <= body@.len(),
            head.len() == 1,
            out@.map_values(|f: RawFrame| f@) + body_frames(channel, chunks(body@.skip(i as int), nn))
                == head + body_frames(channel, chunks(body@, nn)),
        decreases body@.len() - i,
    {
        let end: usize = if body.len() - i <= n {
            body.len()
        } else {
            i + n
        };
        let piece = copy_range(body.as_slice(), i, end);
        let ghost before = out@.map_values(|f: RawFrame| f@);
        let ghost rest = body@.skip(i as int);
        proof {
            if rest.len() <= nn {
                assert(rest =~= piece@);
                assert(body@.skip(end as int) =~= Seq::<u8>::empty());
            } else {
                assert(rest.take(nn as int) =~= piece@);
                assert(rest.skip(nn as int) =~= body@.skip(end as int));
            }
            assert(chunks(rest, nn) =~= seq![piece@] + chunks(body@.skip(end as int), nn));
        }
        out.push(RawFrame { frame_type: FRAME_BODY, channel, payload: piece });
        proof {
            let after = out@.map_values(|f: RawFrame| f@);
            assert(after =~= before.push(body_frame(channel, piece@)));
            assert(body_frames(channel, chunks(rest, nn)) =~= seq![body_frame(channel, piece@)]
                + body_frames(channel, chunks(body@.skip(end as int), nn)));
            assert(after + body_frames(channel, chunks(body@.skip(end as int), nn)) =~= before
                + body_frames(channel, chunks(rest, nn)));
        }
        i = end;
    }
    proof {
        assert(body@.skip(i as int) =~= Seq::<u8>::empty());
        assert(body_frames(channel, chunks(body@.skip(i as int), nn)) =~= Seq::<FrameView>::empty());
        assert(out@.map_values(|f: RawFrame| f@) =~= head + body_frames(channel, chunks(body@, nn)));
    }
    out
}

} // verus!
