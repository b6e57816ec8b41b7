//! The method table of AMQP 0-9-1 as far as routing needs it, and the few
//! method frames that the core writes itself.
use vstd::prelude::*;

use crate::channel_manager::MethodHeader;
use crate::frame::{be16, copy_range, get_be16, push_bytes, RawFrame, FRAME_METHOD};

verus! {

pub const CLASS_CONNECTION: u16 = 10;

pub const CLASS_CHANNEL: u16 = 20;

pub const CLASS_ACCESS: u16 = 30;

pub const CLASS_EXCHANGE: u16 = 40;

pub const CLASS_QUEUE: u16 = 50;

pub const CLASS_BASIC: u16 = 60;

pub const CLASS_CONFIRM: u16 = 85;

pub const CLASS_TX: u16 = 90;

/// Reply codes of the protocol.
pub const REPLY_SUCCESS: u16 = 200;

pub const CONNECTION_FORCED: u16 = 320;

pub const FRAME_ERROR: u16 = 501;

pub const CHANNEL_ERROR: u16 = 504;

pub const UNEXPECTED_FRAME: u16 = 505;

/// How the reader treats a method that arrives from the server.
#[derive(Debug, Clone, Copy, PartialEq, Eq)]
pub enum MethodKind {
    /// Connection.Close
    Close,
    /// Connection.CloseOk
    CloseOk,
    /// Channel.Close
    CloseChannel,
    /// Channel.CloseOk
    CloseChannelOk,
    /// Connection.Blocked or Connection.Unblocked
    Notice,
    /// Deliver, GetOk, GetEmpty, Return: start of an inbound content group
    /// or the empty answer to a get.
    Content,
    /// A request of the server on a channel that a user callback answers:
    /// Channel.Flow, Basic.Cancel, Basic.Ack, Basic.Nack.
    ChannelRequest,
    /// The answer to a synchronous request of the client.
    Reply,
    /// Anything else: the server must not send it once the connection runs.
    Unexpected,
}

/// Whether `(c, m)` answers a synchronous request of the client.
pub open spec fn is_reply(c: u16, m: u16) -> bool {
    ||| c == CLASS_CONNECTION && (m == 11 || m == 21 || m == 31 || m == 41 || m == 71)
    ||| c == CLASS_CHANNEL && (m == 11 || m == 21)
    ||| c == CLASS_ACCESS && m == 11
    ||| c == CLASS_EXCHANGE && (m == 11 || m == 21 || m == 31 || m == 51)
    ||| c == CLASS_QUEUE && (m == 11 || m == 21 || m == 31 || m == 41 || m == 51)
    ||| c == CLASS_BASIC && (m == 11 || m == 21 || m == 31 || m == 111)
    ||| c == CLASS_CONFIRM && m == 11
    ||| c == CLASS_TX && (m == 11 || m == 21 || m == 31)
}

pub open spec fn method_kind(c: u16, m: u16) -> MethodKind {
    if c == CLASS_CONNECTION && m == 50 {
        MethodKind::Close
    } else if c == CLASS_CONNECTION && m == 51 {
        MethodKind::CloseOk
    } else if c == CLASS_CHANNEL && m == 40 {
        MethodKind::CloseChannel
    } else if c == CLASS_CHANNEL && m == 41 {
        MethodKind::CloseChannelOk
    } else if c == CLASS_CONNECTION && (m == 60 || m == 61) {
        MethodKind::Notice
    } else if c == CLASS_BASIC && (m == 50 || m == 60 || m == 71 || m == 72) {
        MethodKind::Content
    } else if (c == CLASS_CHANNEL && m == 20) || (c == CLASS_BASIC && (m == 30 || m == 80 || m
        == 120)) {
        MethodKind::ChannelRequest
    } else if is_reply(c, m) {
        MethodKind::Reply
    } else {
        MethodKind::Unexpected
    }
}

pub fn classify(header: &MethodHeader) -> (r: MethodKind)
    ensures
        r == method_kind(header.class_id, header.method_id),
{
    let c = header.class_id;
    let m = header.method_id;
    if c == CLASS_CONNECTION && m == 50 {
        MethodKind::Close
    } else if c == CLASS_CONNECTION && m == 51 {
        MethodKind::CloseOk
    } else if c == CLASS_CHANNEL && m == 40 {
        MethodKind::CloseChannel
    } else if c == CLASS_CHANNEL && m == 41 {
        MethodKind::CloseChannelOk
    } else if c == CLASS_CONNECTION && (m == 60 || m == 61) {
        MethodKind::Notice
    } else if c == CLASS_BASIC && (m == 50 || m == 60 || m == 71 || m == 72) {
        MethodKind::Content
    } else if (c == CLASS_CHANNEL && m == 20) || (c == CLASS_BASIC && (m == 30 || m == 80 || m
        == 120)) {
        MethodKind::ChannelRequest
    } else if (c == CLASS_CONNECTION && (m == 11 || m == 21 || m == 31 || m == 41 || m == 71)) || (
    c == CLASS_CHANNEL && (m == 11 || m == 21)) || (c == CLASS_ACCESS && m == 11) || (c
        == CLASS_EXCHANGE && (m == 11 || m == 21 || m == 31 || m == 51)) || (c == CLASS_QUEUE && (m
        == 11 || m == 21 || m == 31 || m == 41 || m == 51)) || (c == CLASS_BASIC && (m == 11 || m
        == 21 || m == 31 || m == 111)) || (c == CLASS_CONFIRM && m == 11) || (c == CLASS_TX && (m
        == 11 || m == 21 || m == 31)) {
        MethodKind::Reply
    } else {
        MethodKind::Unexpected
    }
}

/// The header that a method payload starts with, if it is long enough.
pub open spec fn payload_header(p: Seq<u8>) -> Option<MethodHeader> {
    if p.len() < 4 {
        None
    } else {
        Some(
            MethodHeader { class_id: get_be16(p, 0) as u16, method_id: get_be16(p, 2) as u16 },
        )
    }
}

pub fn read_method_header(payload: &Vec<u8>) -> (r: Option<MethodHeader>)
    ensures
        r == payload_header(payload@),
{
    if payload.len() < 4 {
        return None;
    }
    let c = (payload[0] as u16) * 256 + payload[1] as u16;
    let m = (payload[2] as u16) * 256 + payload[3] as u16;
    Some(MethodHeader { class_id: c, method_id: m })
}

/// A method frame whose payload is the header alone: methods without
/// arguments, such as Connection.CloseOk and Channel.CloseOk.
pub open spec fn bare_method_payload(c: u16, m: u16) -> Seq<u8> {
    be16(c) + be16(m)
}

pub fn bare_method_frame(channel: u16, class_id: u16, method_id: u16) -> (r: RawFrame)
    ensures
        r.frame_type == FRAME_METHOD,
        r.channel == channel,
        r.payload@ == bare_method_payload(class_id, method_id),
{
    let mut payload: Vec<u8> = Vec::new();
    payload.push((class_id / 256) as u8);
    payload.push((class_id % 256) as u8);
    payload.push((method_id / 256) as u8);
    payload.push((method_id % 256) as u8);
    assert(payload@ =~= bare_method_payload(class_id, method_id));
    RawFrame { frame_type: FRAME_METHOD, channel, payload }
}

/// Channel.Open: the header and an empty reserved short string.
pub open spec fn channel_open_payload_spec() -> Seq<u8> {
    bare_method_payload(CLASS_CHANNEL, 10) + seq![0u8]
}

pub fn channel_open_frame(channel: u16) -> (r: RawFrame)
    ensures
        r.frame_type == FRAME_METHOD,
        r.channel == channel,
        r.payload@ == channel_open_payload_spec(),
{
    let mut f = bare_method_frame(channel, CLASS_CHANNEL, 10);
    f.payload.push(0);
    f
}

/// Why a connection was closed: the fields of Connection.Close.
#[derive(Debug, Clone, PartialEq, Eq)]
pub struct CloseReason {
    pub reply_code: u16,
    pub reply_text: Vec<u8>,
    pub class_id: u16,
    pub method_id: u16,
}

/// The payload of Connection.Close (or Channel.Close, with `method`'s class):
/// header, reply code, reply text as a short string, offending class and method.
pub open spec fn close_payload(c: u16, m: u16, code: u16, text: Seq<u8>, oc: u16, om: u16) -> Seq<
    u8,
> {
    be16(c) + be16(m) + be16(code) + seq![text.len() as u8] + text + be16(oc) + be16(om)
}

pub fn close_frame(channel: u16, reason: &CloseReason) -> (r: RawFrame)
    requires
        reason.reply_text@.len() <= 255,
    ensures
        r.frame_type == FRAME_METHOD,
        r.channel == channel,
        r.payload@ == close_payload(
            if channel == 0 {
                CLASS_CONNECTION
            } else {
                CLASS_CHANNEL
            },
            if channel == 0 {
                50
            } else {
                40
            },
            reason.reply_code,
            reason.reply_text@,
            reason.class_id,
            reason.method_id,
        ),
{
    let (c, m): (u16, u16) = if channel == 0 {
        (CLASS_CONNECTION, 50)
    } else {
        (CLASS_CHANNEL, 40)
    };
    let mut payload: Vec<u8> = Vec::new();
    payload.push((c / 256) as u8);
    payload.push((c % 256) as u8);
    payload.push((m / 256) as u8);
    payload.push((m % 256) as u8);
    payload.push((reason.reply_code / 256) as u8);
    payload.push((reason.reply_code % 256) as u8);
    payload.push(reason.reply_text.len() as u8);
    push_bytes(&mut payload, reason.reply_text.as_slice());
    payload.push((reason.class_id / 256) as u8);
    payload.push((reason.class_id % 256) as u8);
    payload.push((reason.method_id / 256) as u8);
    payload.push((reason.method_id % 256) as u8);
    assert(payload@ =~= close_payload(
        c,
        m,
        reason.reply_code,
        reason.reply_text@,
        reason.class_id,
        reason.method_id,
    ));
    RawFrame { frame_type: FRAME_METHOD, channel, payload }
}

/// What reading a Close payload gives: fields whose Close payload it is, or
/// `None` when no fields give it.
pub open spec fn close_parsed(p: Seq<u8>, r: Option<CloseReason>) -> bool {
    match r {
        Some(reason) => {
            &&& reason.reply_text@.len() <= 255
            &&& (p == close_payload(
                CLASS_CONNECTION,
                50,
                reason.reply_code,
                reason.reply_text@,
                reason.class_id,
                reason.method_id,
            ) || p == close_payload(
                CLASS_CHANNEL,
                40,
                reason.reply_code,
                reason.reply_text@,
                reason.class_id,
                reason.method_id,
            ))
        },
        None => forall|code: u16, text: Seq<u8>, oc: u16, om: u16|
            text.len() <= 255 ==> p != #[trigger] close_payload(
                CLASS_CONNECTION,
                50,
                code,
                text,
                oc,
                om,
            ) && p != close_payload(CLASS_CHANNEL, 40, code, text, oc, om),
    }
}

/// Reads the fields of a Close payload; `None` when it is not one, or is cut
/// short or too long.
pub fn parse_close(payload: &Vec<u8>) -> (r: Option<CloseReason>)
    ensures
        close_parsed(payload@, r),
{
    let n = payload.len();
    if n < 7 {
        proof {
            assert forall|code: u16, text: Seq<u8>, oc: u16, om: u16|
                text.len() <= 255 implies payload@ != #[trigger] close_payload(
                    CLASS_CONNECTION,
                    50,
                    code,
                    text,
                    oc,
                    om,
                ) && payload@ != close_payload(CLASS_CHANNEL, 40, code, text, oc, om) by {
                assert(close_payload(CLASS_CONNECTION, 50, code, text, oc, om).len() >= 11);
                assert(close_payload(CLASS_CHANNEL, 40, code, text, oc, om).len() >= 11);
            }
        }
        return None;
    }
    let c = (payload[0] as u16) * 256 + payload[1] as u16;
    let m = (payload[2] as u16) * 256 + payload[3] as u16;
    let code = (payload[4] as u16) * 256 + payload[5] as u16;
    let tl = payload[6] as usize;
    let ok_header = (c == CLASS_CONNECTION && m == 50) || (c == CLASS_CHANNEL && m == 40);
    if !ok_header || n != 11 + tl {
        proof {
            assert forall|code: u16, text: Seq<u8>, oc: u16, om: u16|
                text.len() <= 255 implies payload@ != #[trigger] close_payload(
                    CLASS_CONNECTION,
                    50,
                    code,
                    text,
                    oc,
                    om,
                ) && payload@ != close_payload(CLASS_CHANNEL, 40, code, text, oc, om) by {
                let a = close_payload(CLASS_CONNECTION, 50, code, text, oc, om);
                let b = close_payload(CLASS_CHANNEL, 40, code, text, oc, om);
                if payload@ == a {
                    assert(a[0] == 0 && a[1] == 10 && a[2] == 0 && a[3] == 50);
                    assert(a[6] == text.len());
                    assert(a.len() == 11 + text.len());
                }
                if payload@ == b {
                    assert(b[0] == 0 && b[1] == 20 && b[2] == 0 && b[3] == 40);
                    assert(b[6] == text.len());
                    assert(b.len() == 11 + text.len());
                }
            }
        }
        return None;
    }
    let text = copy_range(payload.as_slice(), 7, 7 + tl);
    let oc = (payload[7 + tl] as u16) * 256 + payload[8 + tl] as u16;
    let om = (payload[9 + tl] as u16) * 256 + payload[10 + tl] as u16;
    let reason = CloseReason { reply_code: code, reply_text: text, class_id: oc, method_id: om };
    proof {
        let p = payload@;
        let a = close_payload(c, m, code, text@, oc, om);
        assert(a.len() == p.len());
        assert forall|k: int| 0 <= k < p.len() implies a[k] == p[k] by {
            if k < 7 {
            } else if k < 7 + tl {
                assert(a[k] == text@[k - 7]);
            } else {
            }
        }
        assert(a =~= p);
    }
    Some(reason)
}

/// Close round trip: a Close payload determines its fields, so reading back
/// what `close_frame` wrote (with `parse_close`) gives the same header, reply
/// code, reply text and offending method.
pub proof fn lemma_close_payload_injective(
    c: u16,
    m: u16,
    code: u16,
    text: Seq<u8>,
    oc: u16,
    om: u16,
    c2: u16,
    m2: u16,
    code2: u16,
    text2: Seq<u8>,
    oc2: u16,
    om2: u16,
)
    requires
        text.len() <= 255,
        text2.len() <= 255,
        close_payload(c, m, code, text, oc, om) == close_payload(c2, m2, code2, text2, oc2, om2),
    ensures
        c == c2 && m == m2 && code == code2 && text == text2 && oc == oc2 && om == om2,
{
    let p = close_payload(c, m, code, text, oc, om);
    let q = close_payload(c2, m2, code2, text2, oc2, om2);
    let n = text.len() as int;
    assert(p[6] == text.len() as u8);
    assert(q[6] == text2.len() as u8);
    assert(text.len() == text2.len());
    assert(p.subrange(0, 2) =~= be16(c) && q.subrange(0, 2) =~= be16(c2));
    crate::frame::lemma_be16_round_trip(c, p, 0);
    crate::frame::lemma_be16_round_trip(c2, q, 0);
    assert(p.subrange(2, 4) =~= be16(m) && q.subrange(2, 4) =~= be16(m2));
    crate::frame::lemma_be16_round_trip(m, p, 2);
    crate::frame::lemma_be16_round_trip(m2, q, 2);
    assert(p.subrange(4, 6) =~= be16(code) && q.subrange(4, 6) =~= be16(code2));
    crate::frame::lemma_be16_round_trip(code, p, 4);
    crate::frame::lemma_be16_round_trip(code2, q, 4);
    assert(p.subrange(7, 7 + n) =~= text && q.subrange(7, 7 + n) =~= text2);
    assert(p.subrange(7 + n, 9 + n) =~= be16(oc) && q.subrange(7 + n, 9 + n) =~= be16(oc2));
    crate::frame::lemma_be16_round_trip(oc, p, 7 + n);
    crate::frame::lemma_be16_round_trip(oc2, q, 7 + n);
    assert(p.subrange(9 + n, 11 + n) =~= be16(om) && q.subrange(9 + n, 11 + n) =~= be16(om2));
    crate::frame::lemma_be16_round_trip(om, p, 9 + n);
    crate::frame::lemma_be16_round_trip(om2, q, 9 + n);
}

} // verus!
