//! What the writer puts on the wire: the frames of its queue, in the order
//! they were queued, each group of frames unbroken.
use vstd::prelude::*;

use crate::content::{content_frames, content_frames_spec, FRAME_MIN_SIZE};
use crate::frame::{
    frames_bytes, known_frame_type, payload_allowed, write_frame, FrameView, RawFrame,
    FRAME_BODY, FRAME_HEADER, FRAME_HEARTBEAT, FRAME_METHOD,
};

verus! {

pub open spec fn views(fs: Seq<RawFrame>) -> Seq<FrameView> {
    fs.map_values(|f: RawFrame| f@)
}

/// Whether every payload fits the 32-bit length field.
pub open spec fn lengths_fit(fs: Seq<RawFrame>) -> bool {
    forall|i: int| 0 <= i < fs.len() ==> #[trigger] fs[i].payload@.len() <= u32::MAX
}

/// Serializes `frames` onto the end of `out`, first to last.
pub fn write_frames(out: &mut Vec<u8>, frames: &Vec<RawFrame>)
    requires
        lengths_fit(frames@),
    ensures
        final(out)@ == old(out)@ + frames_bytes(views(frames@)),
{
    let mut i: usize = 0;
    while i < frames.len()
        invariant
            i <= frames@.len(),
            lengths_fit(frames@),
            out@ == old(out)@ + frames_bytes(views(frames@.take(i as int))),
        decreases frames@.len() - i,
    {
        proof {
            assert(frames@.take(0) =~= Seq::<RawFrame>::empty());
        }
        let ghost before = out@;
        write_frame(out, &frames[i]);
        proof {
            let t = views(frames@.take(i as int + 1));
            assert(t.drop_last() =~= views(frames@.take(i as int)));
            assert(t.last() == frames@[i as int]@);
        }
        i = i + 1;
    }
    assert(frames@.take(i as int) =~= frames@);
}

/// The wire bytes of `frames`, first to last.
pub fn encode_frames(frames: &Vec<RawFrame>) -> (r: Vec<u8>)
    requires
        lengths_fit(frames@),
    ensures
        r@ == frames_bytes(views(frames@)),
{
    let mut out: Vec<u8> = Vec::new();
    assert(frames@.take(0) =~= Seq::<RawFrame>::empty());
    write_frames(&mut out, frames);
    assert(out@ =~= frames_bytes(views(frames@)));
    out
}

/// Whether a frame may go on the wire under `frame_max`: a known type and a
/// payload that the peer's reader accepts.
pub open spec fn writable(f: RawFrame, frame_max: u32) -> bool {
    &&& known_frame_type(f.frame_type)
    &&& f.payload@.len() <= u32::MAX
    &&& payload_allowed(f.payload@.len() as int, frame_max)
}

/// The wire bytes of `frames` when every one of them may go on the wire;
/// `None`, and nothing to write, otherwise.
pub fn encode_checked(frames: &Vec<RawFrame>, frame_max: u32) -> (r: Option<Vec<u8>>)
    ensures
        r is Some <==> forall|i: int| 0 <= i < frames@.len() ==> writable(#[trigger] frames@[i], frame_max),
        r is Some ==> r->Some_0@ == frames_bytes(views(frames@)),
{
    let mut i: usize = 0;
    while i < frames.len()
        invariant
            i <= frames@.len(),
            forall|j: int| 0 <= j < i ==> writable(#[trigger] frames@[j], frame_max),
        decreases frames@.len() - i,
    {
        let f = &frames[i];
        let t = f.frame_type;
        let n = f.payload.len();
        if !(t == FRAME_METHOD || t == FRAME_HEADER || t == FRAME_BODY || t == FRAME_HEARTBEAT)
            || n as u64 > u32::MAX as u64 || (frame_max != 0 && n as u64 > frame_max as u64) {
            return None;
        }
        i = i + 1;
    }
    Some(encode_frames(frames))
}

/// FIFO: the bytes of frames queued one after another are the bytes of the
/// first ones followed by the bytes of the later ones.
pub proof fn lemma_fifo(a: Seq<FrameView>, b: Seq<FrameView>)
    ensures
        frames_bytes(a + b) == frames_bytes(a) + frames_bytes(b),
    decreases b.len(),
{
    if b.len() == 0 {
        assert(a + b =~= a);
        assert(frames_bytes(b) =~= Seq::<u8>::empty());
        assert(frames_bytes(a) + frames_bytes(b) =~= frames_bytes(a));
    } else {
        assert((a + b).drop_last() =~= a + b.drop_last());
        assert((a + b).last() == b.last());
        lemma_fifo(a, b.drop_last());
        assert(frames_bytes(a + b) =~= frames_bytes(a) + frames_bytes(b));
    }
}

/// A group of frames queued as one item — a publish with its header and
/// bodies — stands on the wire as one unbroken run of bytes, between what was
/// queued before it and what was queued after it.
pub proof fn lemma_group_unbroken(before: Seq<FrameView>, group: Seq<FrameView>, after: Seq<FrameView>)
    ensures
        frames_bytes(before + group + after) == frames_bytes(before) + frames_bytes(group)
            + frames_bytes(after),
{
    lemma_fifo(before + group, after);
    lemma_fifo(before, group);
}

/// The frames of a publish: the method frame (whose payload the method codec
/// wrote), the content header, and the body in pieces that fit `frame_max`.
pub fn publish_frames(
    channel: u16,
    method: Vec<u8>,
    class_id: u16,
    properties: &Vec<u8>,
    body: &Vec<u8>,
    frame_max: u32,
) -> (r: Vec<RawFrame>)
    requires
        frame_max >= FRAME_MIN_SIZE,
    ensures
        views(r@) == seq![FrameView { frame_type: FRAME_METHOD, channel, payload: method@ }]
            + content_frames_spec(channel, class_id, properties@, body@, frame_max),
{
    let ghost m = method@;
    let mut out: Vec<RawFrame> = Vec::new();
    out.push(RawFrame { frame_type: FRAME_METHOD, channel, payload: method });
    let mut rest = content_frames(channel, class_id, properties, body, frame_max);
    let ghost rv = views(rest@);
    out.append(&mut rest);
    assert(views(out@) =~= seq![FrameView { frame_type: FRAME_METHOD, channel, payload: m }] + rv);
    out
}

} // verus!
