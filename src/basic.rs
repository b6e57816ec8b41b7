//! Payloads of the Basic methods that publish, get and acknowledge.
use vstd::prelude::*;

use crate::content::{content_frames_spec, FRAME_MIN_SIZE};
use crate::error::ConnectionError;
use crate::writer::{publish_frames, views};
use crate::frame::{
    be16, be64, copy_range, get_be16, get_be32, get_be64, FrameView, RawFrame, FRAME_METHOD,
};
use crate::methods::CLASS_BASIC;
use crate::queue::{bit, push_short_str, short_str, too_long, utf8};

verus! {

/// Basic.Publish: header, ticket 0, exchange, routing key, then mandatory and
/// immediate as bits of one octet.
pub open spec fn publish_payload_spec(
    exchange: Seq<char>,
    routing_key: Seq<char>,
    mandatory: bool,
    immediate: bool,
) -> Seq<u8> {
    be16(CLASS_BASIC) + be16(40) + be16(0) + short_str(utf8(exchange)) + short_str(
        utf8(routing_key),
    ) + seq![(bit(mandatory, 1) + bit(immediate, 2)) as u8]
}

pub fn publish_payload(exchange: &String, routing_key: &String, mandatory: bool, immediate: bool) -> (r:
    Result<Vec<u8>, ConnectionError>)
    ensures
        r is Ok <==> (utf8(exchange@).len() <= 255 && utf8(routing_key@).len() <= 255),
        r is Ok ==> r->Ok_0@ == publish_payload_spec(exchange@, routing_key@, mandatory, immediate),
        r is Err ==> r->Err_0 is SerdeError,
{
    let mut out: Vec<u8> = Vec::new();
    out.push(0);
    out.push(60);
    out.push(0);
    out.push(40);
    out.push(0);
    out.push(0);
    if !push_short_str(&mut out, exchange) {
        return Err(too_long());
    }
    if !push_short_str(&mut out, routing_key) {
        return Err(too_long());
    }
    let bits: u8 = if mandatory { 1 } else { 0 } + if immediate { 2 } else { 0 };
    out.push(bits);
    assert(out@ =~= publish_payload_spec(exchange@, routing_key@, mandatory, immediate));
    Ok(out)
}

/// Basic.Get: header, ticket 0, queue, no-ack.
pub open spec fn get_payload_spec(queue: Seq<char>, no_ack: bool) -> Seq<u8> {
    be16(CLASS_BASIC) + be16(70) + be16(0) + short_str(utf8(queue)) + seq![bit(no_ack, 1)]
}

pub fn get_payload(queue: &String, no_ack: bool) -> (r: Result<Vec<u8>, ConnectionError>)
    ensures
        r is Ok <==> utf8(queue@).len() <= 255,
        r is Ok ==> r->Ok_0@ == get_payload_spec(queue@, no_ack),
        r is Err ==> r->Err_0 is SerdeError,
{
    let mut out: Vec<u8> = Vec::new();
    out.push(0);
    out.push(60);
    out.push(0);
    out.push(70);
    out.push(0);
    out.push(0);
    if !push_short_str(&mut out, queue) {
        return Err(too_long());
    }
    out.push(if no_ack { 1 } else { 0 });
    assert(out@ =~= get_payload_spec(queue@, no_ack));
    Ok(out)
}

/// Basic.Ack: header, delivery tag, multiple.
pub open spec fn ack_payload_spec(delivery_tag: u64, multiple: bool) -> Seq<u8> {
    be16(CLASS_BASIC) + be16(80) + be64(delivery_tag) + seq![bit(multiple, 1)]
}

pub fn ack_payload(delivery_tag: u64, multiple: bool) -> (r: Vec<u8>)
    ensures
        r@ == ack_payload_spec(delivery_tag, multiple),
{
    let mut out: Vec<u8> = Vec::new();
    out.push(0);
    out.push(60);
    out.push(0);
    out.push(80);
    let hi = (delivery_tag / 0x1_0000_0000) as u32;
    let lo = (delivery_tag % 0x1_0000_0000) as u32;
    out.push((hi / 0x100_0000) as u8);
    out.push(((hi / 0x1_0000) % 256) as u8);
    out.push(((hi / 256) % 256) as u8);
    out.push((hi % 256) as u8);
    out.push((lo / 0x100_0000) as u8);
    out.push(((lo / 0x1_0000) % 256) as u8);
    out.push(((lo / 256) % 256) as u8);
    out.push((lo % 256) as u8);
    out.push(if multiple { 1 } else { 0 });
    assert(out@ =~= ack_payload_spec(delivery_tag, multiple));
    out
}

/// The fields of Basic.GetOk.
#[derive(Debug, Clone, PartialEq, Eq)]
pub struct GetOk {
    pub delivery_tag: u64,
    pub redelivered: bool,
    pub exchange: Vec<u8>,
    pub routing_key: Vec<u8>,
    pub message_count: u32,
}

/// Reading a GetOk payload: header, delivery tag, redelivered octet,
/// exchange and routing key as short strings, message count; nothing after.
pub open spec fn parse_get_ok_spec(p: Seq<u8>) -> Option<(u64, bool, Seq<u8>, Seq<u8>, u32)> {
    if p.len() < 14 || get_be16(p, 0) != CLASS_BASIC || get_be16(p, 2) != 71 {
        None
    } else {
        let e = p[13] as int;
        if p.len() < 15 + e {
            None
        } else {
            let r = p[14 + e] as int;
            if p.len() != 19 + e + r {
                None
            } else {
                Some(
                    (
                        get_be64(p, 4) as u64,
                        p[12] != 0,
                        p.subrange(14, 14 + e),
                        p.subrange(15 + e, 15 + e + r),
                        get_be32(p, 15 + e + r) as u32,
                    ),
                )
            }
        }
    }
}

fn read_be64(p: &Vec<u8>, i: usize) -> (r: u64)
    requires
        i + 8 <= p@.len(),
    ensures
        r == get_be64(p@, i as int),
{
    let _n = p.len();
    let a = (p[i] as u64) * 256 + p[i + 1] as u64;
    let b = (p[i + 2] as u64) * 256 + p[i + 3] as u64;
    let c = (p[i + 4] as u64) * 256 + p[i + 5] as u64;
    let d = (p[i + 6] as u64) * 256 + p[i + 7] as u64;
    let hi = a * 0x1_0000 + b;
    let lo = c * 0x1_0000 + d;
    assert(hi < 0x1_0000_0000);
    assert(hi * 0x1_0000_0000 + lo < 0x1_0000_0000_0000_0000) by (nonlinear_arith)
        requires
            hi < 0x1_0000_0000,
            lo < 0x1_0000_0000,
    ;
    hi * 0x1_0000_0000 + lo
}

pub fn parse_get_ok(payload: &Vec<u8>) -> (r: Option<GetOk>)
    ensures
        match r {
            Some(g) => parse_get_ok_spec(payload@) == Some(
                (g.delivery_tag, g.redelivered, g.exchange@, g.routing_key@, g.message_count),
            ),
            None => parse_get_ok_spec(payload@) is None,
        },
{
    let n = payload.len();
    if n < 14 {
        return None;
    }
    let c = (payload[0] as u16) * 256 + payload[1] as u16;
    let m = (payload[2] as u16) * 256 + payload[3] as u16;
    if c != CLASS_BASIC || m != 71 {
        return None;
    }
    let e = payload[13] as usize;
    if n < 15 + e {
        return None;
    }
    let r = payload[14 + e] as usize;
    if n != 19 + e + r {
        return None;
    }
    let k = 15 + e + r;
    let hi = (payload[k] as u32) * 256 + payload[k + 1] as u32;
    let lo = (payload[k + 2] as u32) * 256 + payload[k + 3] as u32;
    let count = hi * 0x1_0000 + lo;
    Some(
        GetOk {
            delivery_tag: read_be64(payload, 4),
            redelivered: payload[12] != 0,
            exchange: copy_range(payload.as_slice(), 14, 14 + e),
            routing_key: copy_range(payload.as_slice(), 15 + e, 15 + e + r),
            message_count: count,
        },
    )
}

/// The frame size that content is cut to: `frame_max`, or the largest
/// frame when it is `0` (no limit).
pub open spec fn effective_frame_max(frame_max: u32) -> u32 {
    if frame_max == 0 {
        u32::MAX
    } else {
        frame_max
    }
}

/// The whole group of a publish without properties on `channel`: the method,
/// the content header and the body frames. A name over 255 bytes is a
/// `SerdeError`; a `frame_max` under the protocol minimum (other than `0`)
/// is a `ChannelUseError`.
pub fn publish_frames_for(
    channel: u16,
    exchange: &String,
    routing_key: &String,
    body: &Vec<u8>,
    frame_max: u32,
) -> (r: Result<Vec<RawFrame>, ConnectionError>)
    ensures
        r is Ok <==> (utf8(exchange@).len() <= 255 && utf8(routing_key@).len() <= 255 && (
        frame_max == 0 || frame_max >= FRAME_MIN_SIZE)),
        r is Ok ==> views(r->Ok_0@) == seq![
            FrameView {
                frame_type: FRAME_METHOD,
                channel,
                payload: publish_payload_spec(exchange@, routing_key@, false, false),
            },
        ] + content_frames_spec(channel, CLASS_BASIC, seq![0u8, 0u8], body@, effective_frame_max(frame_max)),
{
    if frame_max != 0 && frame_max < FRAME_MIN_SIZE {
        return Err(ConnectionError::ChannelUseError(String::from_str("frame_max below the minimum")));
    }
    let fm: u32 = if frame_max == 0 {
        u32::MAX
    } else {
        frame_max
    };
    let method = publish_payload(exchange, routing_key, false, false)?;
    let properties: Vec<u8> = vec![0u8, 0u8];
    assert(properties@ =~= seq![0u8, 0u8]);
    Ok(publish_frames(channel, method, CLASS_BASIC, &properties, body, fm))
}

} // verus!
