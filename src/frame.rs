//! The frame layer of AMQP 0-9-1:
//! `type:u8 | channel:u16_be | length:u32_be | payload | 0xCE`.
use vstd::prelude::*;

verus! {

pub const FRAME_METHOD: u8 = 1;

pub const FRAME_HEADER: u8 = 2;

pub const FRAME_BODY: u8 = 3;

pub const FRAME_HEARTBEAT: u8 = 8;

pub const FRAME_END: u8 = 0xCE;

/// Bytes of a frame that are not payload: seven of header, one terminator.
pub const FRAME_OVERHEAD: u32 = 8;

/// Channel 0 carries connection-level frames.
pub const CONN_DEFAULT_CHANNEL: u16 = 0;

/// A frame as it stands on the wire, before its payload is interpreted.
#[derive(Debug, Clone, PartialEq, Eq)]
pub struct RawFrame {
    pub frame_type: u8,
    pub channel: u16,
    pub payload: Vec<u8>,
}

/// A frame of the model: type, channel, payload bytes.
pub struct FrameView {
    pub frame_type: u8,
    pub channel: u16,
    pub payload: Seq<u8>,
}

impl View for RawFrame {
    type V = FrameView;

    open spec fn view(&self) -> FrameView {
        FrameView { frame_type: self.frame_type, channel: self.channel, payload: self.payload@ }
    }
}

pub open spec fn known_frame_type(t: u8) -> bool {
    t == FRAME_METHOD || t == FRAME_HEADER || t == FRAME_BODY || t == FRAME_HEARTBEAT
}

pub open spec fn be16(v: u16) -> Seq<u8> {
    seq![(v / 256) as u8, (v % 256) as u8]
}

pub open spec fn be32(v: u32) -> Seq<u8> {
    seq![
        (v / 0x100_0000) as u8,
        ((v / 0x1_0000) % 256) as u8,
        ((v / 256) % 256) as u8,
        (v % 256) as u8,
    ]
}

pub open spec fn be64(v: u64) -> Seq<u8> {
    be32((v / 0x1_0000_0000) as u32) + be32((v % 0x1_0000_0000) as u32)
}

pub open spec fn get_be16(s: Seq<u8>, i: int) -> int {
    s[i] * 256 + s[i + 1]
}

pub open spec fn get_be32(s: Seq<u8>, i: int) -> int {
    get_be16(s, i) * 0x1_0000 + get_be16(s, i + 2)
}

pub open spec fn get_be64(s: Seq<u8>, i: int) -> int {
    get_be32(s, i) * 0x1_0000_0000 + get_be32(s, i + 4)
}

/// The wire bytes of one frame.
pub open spec fn frame_bytes(f: FrameView) -> Seq<u8> {
    seq![f.frame_type] + be16(f.channel) + be32(f.payload.len() as u32) + f.payload + seq![
        FRAME_END,
    ]
}

/// The wire bytes of a sequence of frames, in order.
pub open spec fn frames_bytes(fs: Seq<FrameView>) -> Seq<u8>
    decreases fs.len(),
{
    if fs.len() == 0 {
        Seq::empty()
    } else {
        frames_bytes(fs.drop_last()) + frame_bytes(fs.last())
    }
}

/// Whether a payload of `len` bytes is within the negotiated `frame_max`
/// (`0` stands for no limit).
pub open spec fn payload_allowed(len: int, frame_max: u32) -> bool {
    frame_max == 0 || len <= frame_max
}

/// What reading the start of a byte stream gives.
pub enum Decoded {
    /// More bytes are needed before a whole frame is there.
    Incomplete,
    /// A frame, and the number of bytes that it took.
    Frame(RawFrame, usize),
    /// The bytes cannot start a frame.
    Corrupted,
}

pub enum DecodedView {
    Incomplete,
    Frame(FrameView, nat),
    Corrupted,
}

impl View for Decoded {
    type V = DecodedView;

    open spec fn view(&self) -> DecodedView {
        match self {
            Decoded::Incomplete => DecodedView::Incomplete,
            Decoded::Frame(f, n) => DecodedView::Frame(f@, *n as nat),
            Decoded::Corrupted => DecodedView::Corrupted,
        }
    }
}

/// Reading one frame from the start of `s`.
pub open spec fn parse_frame(s: Seq<u8>, frame_max: u32) -> DecodedView {
    if s.len() < 7 {
        DecodedView::Incomplete
    } else if !known_frame_type(s[0]) {
        DecodedView::Corrupted
    } else if !payload_allowed(get_be32(s, 3), frame_max) {
        DecodedView::Corrupted
    } else if s.len() < 8 + get_be32(s, 3) {
        DecodedView::Incomplete
    } else if s[7 + get_be32(s, 3)] != FRAME_END {
        DecodedView::Corrupted
    } else {
        let len = get_be32(s, 3);
        DecodedView::Frame(
            FrameView {
                frame_type: s[0],
                channel: get_be16(s, 1) as u16,
                payload: s.subrange(7, 7 + len),
            },
            (8 + len) as nat,
        )
    }
}

/// Appends `b` to `out`.
pub(crate) fn push_bytes(out: &mut Vec<u8>, b: &[u8])
    ensures
        final(out)@ == old(out)@ + b@,
{
    let mut i: usize = 0;
    while i < b.len()
        invariant
            i <= b@.len(),
            out@ == old(out)@ + b@.subrange(0, i as int),
        decreases b@.len() - i,
    {
        out.push(b[i]);
        i = i + 1;
        assert(out@ =~= old(out)@ + b@.subrange(0, i as int));
    }
    assert(b@.subrange(0, i as int) =~= b@);
}

/// Bytes `start..end` of `s`, as a new vector.
pub(crate) fn copy_range(s: &[u8], start: usize, end: usize) -> (r: Vec<u8>)
    requires
        start <= end <= s@.len(),
    ensures
        r@ == s@.subrange(start as int, end as int),
{
    let mut out: Vec<u8> = Vec::new();
    let mut i: usize = start;
    while i < end
        invariant
            start <= i <= end <= s@.len(),
            out@ == s@.subrange(start as int, i as int),
        decreases end - i,
    {
        out.push(s[i]);
        i = i + 1;
        assert(out@ =~= s@.subrange(start as int, i as int));
    }
    out
}

fn push_be16(out: &mut Vec<u8>, v: u16)
    ensures
        final(out)@ == old(out)@ + be16(v),
{
    out.push((v / 256) as u8);
    out.push((v % 256) as u8);
    assert(final(out)@ =~= old(out)@ + be16(v));
}

fn push_be32(out: &mut Vec<u8>, v: u32)
    ensures
        final(out)@ == old(out)@ + be32(v),
{
    out.push((v / 0x100_0000) as u8);
    out.push(((v / 0x1_0000) % 256) as u8);
    out.push(((v / 256) % 256) as u8);
    out.push((v % 256) as u8);
    assert(final(out)@ =~= old(out)@ + be32(v));
}

/// Serializes one frame onto the end of `out`.
pub fn write_frame(out: &mut Vec<u8>, frame: &RawFrame)
    requires
        frame.payload@.len() <= u32::MAX,
    ensures
        final(out)@ == old(out)@ + frame_bytes(frame@),
{
    out.push(frame.frame_type);
    push_be16(out, frame.channel);
    push_be32(out, frame.payload.len() as u32);
    push_bytes(out, frame.payload.as_slice());
    out.push(FRAME_END);
    assert(out@ =~= old(out)@ + frame_bytes(frame@));
}

/// The wire bytes of one frame.
pub fn encode_frame(frame: &RawFrame) -> (r: Vec<u8>)
    requires
        frame.payload@.len() <= u32::MAX,
    ensures
        r@ == frame_bytes(frame@),
{
    let mut out: Vec<u8> = Vec::new();
    write_frame(&mut out, frame);
    assert(out@ =~= frame_bytes(frame@));
    out
}

pub(crate) fn read_be16(s: &[u8], i: usize) -> (r: u16)
    requires
        i + 2 <= s@.len(),
    ensures
        r == get_be16(s@, i as int),
{
    (s[i] as u16) * 256 + (s[i + 1] as u16)
}

pub(crate) fn read_be32(s: &[u8], i: usize) -> (r: u32)
    requires
        i + 4 <= s@.len(),
    ensures
        r == get_be32(s@, i as int),
{
    let _n = s.len();
    let hi = read_be16(s, i);
    let lo = read_be16(s, i + 2);
    (hi as u32) * 0x1_0000 + (lo as u32)
}

/// Reads one frame from the start of `buf`; a payload larger than `frame_max`
/// (when non-zero), an unknown type or a wrong terminator is corruption.
pub fn decode_frame(buf: &[u8], frame_max: u32) -> (r: Decoded)
    ensures
        r@ == parse_frame(buf@, frame_max),
{
    if buf.len() < 7 {
        return Decoded::Incomplete;
    }
    let t = buf[0];
    if !(t == FRAME_METHOD || t == FRAME_HEADER || t == FRAME_BODY || t == FRAME_HEARTBEAT) {
        return Decoded::Corrupted;
    }
    let len = read_be32(buf, 3);
    if frame_max != 0 && len > frame_max {
        return Decoded::Corrupted;
    }
    if (buf.len() as u64) < 8 + (len as u64) {
        return Decoded::Incomplete;
    }
    let end = 7 + len as usize;
    if buf[end] != FRAME_END {
        return Decoded::Corrupted;
    }
    let channel = read_be16(buf, 1);
    let payload = copy_range(buf, 7, end);
    let r = Decoded::Frame(RawFrame { frame_type: t, channel, payload }, end + 1);
    assert(r@ == parse_frame(buf@, frame_max));
    r
}

pub proof fn lemma_be16_round_trip(v: u16, s: Seq<u8>, i: int)
    requires
        0 <= i,
        i + 2 <= s.len(),
        s.subrange(i, i + 2) == be16(v),
    ensures
        get_be16(s, i) == v,
{
    assert(s[i] == s.subrange(i, i + 2)[0]);
    assert(s[i + 1] == s.subrange(i, i + 2)[1]);
}

pub proof fn lemma_be32_round_trip(v: u32, s: Seq<u8>, i: int)
    requires
        0 <= i,
        i + 4 <= s.len(),
        s.subrange(i, i + 4) == be32(v),
    ensures
        get_be32(s, i) == v,
{
    assert(s[i] == s.subrange(i, i + 4)[0]);
    assert(s[i + 1] == s.subrange(i, i + 4)[1]);
    assert(s[i + 2] == s.subrange(i, i + 4)[2]);
    assert(s[i + 3] == s.subrange(i, i + 4)[3]);
    let a = v / 0x100_0000;
    let b = (v / 0x1_0000) % 256;
    let c = (v / 256) % 256;
    let d = v % 256;
    assert(v == ((a * 256 + b) * 256 + c) * 256 + d) by (nonlinear_arith)
        requires
            a == v / 0x100_0000,
            b == (v / 0x1_0000) % 256,
            c == (v / 256) % 256,
            d == v % 256,
            0 <= v,
    ;
}

/// Reading back the bytes of a frame whose payload is allowed gives that
/// frame and its whole length, whatever bytes follow it.
pub proof fn lemma_frame_round_trip(f: FrameView, rest: Seq<u8>, frame_max: u32)
    requires
        known_frame_type(f.frame_type),
        f.payload.len() <= u32::MAX,
        payload_allowed(f.payload.len() as int, frame_max),
    ensures
        parse_frame(frame_bytes(f) + rest, frame_max) == DecodedView::Frame(
            f,
            frame_bytes(f).len(),
        ),
{
    let s = frame_bytes(f) + rest;
    let len = f.payload.len() as int;
    assert(s.subrange(1, 3) =~= be16(f.channel));
    assert(s.subrange(3, 7) =~= be32(len as u32));
    lemma_be16_round_trip(f.channel, s, 1);
    lemma_be32_round_trip(len as u32, s, 3);
    assert(s.subrange(7, 7 + len) =~= f.payload);
    assert(s[7 + len] == FRAME_END);
}

/// Bytes read from the peer that do not yet make up a whole frame.
pub struct FrameBuffer {
    buf: Vec<u8>,
}

impl View for FrameBuffer {
    type V = Seq<u8>;

    closed spec fn view(&self) -> Seq<u8> {
        self.buf@
    }
}

impl FrameBuffer {
    pub fn new() -> (r: Self)
        ensures
            r@ == Seq::<u8>::empty(),
    {
        FrameBuffer { buf: Vec::new() }
    }

    /// Appends bytes just read.
    pub fn extend(&mut self, bytes: &[u8])
        ensures
            final(self)@ == old(self)@ + bytes@,
    {
        push_bytes(&mut self.buf, bytes);
    }

    /// Takes the next whole frame off the front of the buffer. When it is not
    /// all there yet, or the bytes are corrupt, the buffer stays as it is.
    pub fn next_frame(&mut self, frame_max: u32) -> (r: Decoded)
        ensures
            r@ == parse_frame(old(self)@, frame_max),
            match r@ {
                DecodedView::Frame(_, n) => final(self)@ == old(self)@.skip(n as int),
                _ => final(self)@ == old(self)@,
            },
    {
        let r = decode_frame(self.buf.as_slice(), frame_max);
        if let Decoded::Frame(_, n) = &r {
            let n = *n;
            let rest = copy_range(self.buf.as_slice(), n, self.buf.len());
            assert(rest@ =~= old(self)@.skip(n as int));
            self.buf = rest;
        }
        r
    }
}

} // verus!
