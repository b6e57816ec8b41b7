//! The per-channel content assembler: it reunites a content-bearing method
//! with its header and body frames, and passes on the channel's other
//! server requests.
use vstd::prelude::*;

use crate::content::{
    body_frame, body_frames, body_limit, chunks, content_frames_spec, header_payload,
    lemma_header_round_trip, parse_header_spec, FRAME_MIN_SIZE,
};
use crate::frame::{
    copy_range, get_be64, FrameView, RawFrame, FRAME_BODY, FRAME_HEADER, FRAME_METHOD,
};
use crate::methods::{classify, method_kind, payload_header, read_method_header, MethodKind, CLASS_BASIC};

verus! {

/// Basic.GetEmpty: the answer to a get when the queue is empty.
pub const METHOD_GET_EMPTY: u16 = 72;

pub enum AssemblyState {
    Idle,
    /// A content-bearing method came; its header is next.
    AwaitHeader { method: Vec<u8> },
    /// `remaining` body bytes are still to come.
    AwaitBody { method: Vec<u8>, properties: Vec<u8>, remaining: u64, body: Vec<u8> },
}

pub enum AssemblyStateView {
    Idle,
    AwaitHeader { method: Seq<u8> },
    AwaitBody { method: Seq<u8>, properties: Seq<u8>, remaining: nat, body: Seq<u8> },
}

impl View for AssemblyState {
    type V = AssemblyStateView;

    open spec fn view(&self) -> AssemblyStateView {
        match self {
            AssemblyState::Idle => AssemblyStateView::Idle,
            AssemblyState::AwaitHeader { method } => AssemblyStateView::AwaitHeader {
                method: method@,
            },
            AssemblyState::AwaitBody { method, properties, remaining, body } =>
                AssemblyStateView::AwaitBody {
                method: method@,
                properties: properties@,
                remaining: *remaining as nat,
                body: body@,
            },
        }
    }
}

/// What the assembler hands on after a frame.
pub enum Assembled {
    /// Nothing yet.
    Pending,
    /// A whole content: the method payload (Deliver, GetOk or Return), the
    /// encoded properties and the body.
    Content { method: Vec<u8>, properties: Vec<u8>, body: Vec<u8> },
    /// Basic.GetEmpty, whose payload this is.
    Empty { method: Vec<u8> },
    /// A server request for the channel's callbacks (Flow, Cancel, Ack, Nack).
    Request { method: Vec<u8> },
    /// A frame out of order: the channel is to be closed.
    Violation,
}

pub enum AssembledView {
    Pending,
    Content { method: Seq<u8>, properties: Seq<u8>, body: Seq<u8> },
    Empty { method: Seq<u8> },
    Request { method: Seq<u8> },
    Violation,
}

impl View for Assembled {
    type V = AssembledView;

    open spec fn view(&self) -> AssembledView {
        match self {
            Assembled::Pending => AssembledView::Pending,
            Assembled::Content { method, properties, body } => AssembledView::Content {
                method: method@,
                properties: properties@,
                body: body@,
            },
            Assembled::Empty { method } => AssembledView::Empty { method: method@ },
            Assembled::Request { method } => AssembledView::Request { method: method@ },
            Assembled::Violation => AssembledView::Violation,
        }
    }
}

/// One step of the assembler.
pub open spec fn step(s: AssemblyStateView, f: FrameView) -> (AssemblyStateView, AssembledView) {
    match s {
        AssemblyStateView::Idle => {
            if f.frame_type == FRAME_METHOD && payload_header(f.payload) is Some {
                let h = payload_header(f.payload)->Some_0;
                match method_kind(h.class_id, h.method_id) {
                    MethodKind::Content => if h.class_id == CLASS_BASIC && h.method_id
                        == METHOD_GET_EMPTY {
                        (AssemblyStateView::Idle, AssembledView::Empty { method: f.payload })
                    } else {
                        (
                            AssemblyStateView::AwaitHeader { method: f.payload },
                            AssembledView::Pending,
                        )
                    },
                    MethodKind::ChannelRequest => (
                        AssemblyStateView::Idle,
                        AssembledView::Request { method: f.payload },
                    ),
                    _ => (AssemblyStateView::Idle, AssembledView::Violation),
                }
            } else {
                (AssemblyStateView::Idle, AssembledView::Violation)
            }
        },
        AssemblyStateView::AwaitHeader { method } => {
            if f.frame_type == FRAME_HEADER && parse_header_spec(f.payload) is Some {
                let (_c, size, props) = parse_header_spec(f.payload)->Some_0;
                if size == 0 {
                    (
                        AssemblyStateView::Idle,
                        AssembledView::Content { method, properties: props, body: Seq::empty() },
                    )
                } else {
                    (
                        AssemblyStateView::AwaitBody {
                            method,
                            properties: props,
                            remaining: size as nat,
                            body: Seq::empty(),
                        },
                        AssembledView::Pending,
                    )
                }
            } else {
                (AssemblyStateView::Idle, AssembledView::Violation)
            }
        },
        AssemblyStateView::AwaitBody { method, properties, remaining, body } => {
            if f.frame_type == FRAME_BODY {
                let n = f.payload.len();
                if n < remaining {
                    (
                        AssemblyStateView::AwaitBody {
                            method,
                            properties,
                            remaining: (remaining - n) as nat,
                            body: body + f.payload,
                        },
                        AssembledView::Pending,
                    )
                } else if n == remaining {
                    (
                        AssemblyStateView::Idle,
                        AssembledView::Content { method, properties, body: body + f.payload },
                    )
                } else {
                    (AssemblyStateView::Idle, AssembledView::Violation)
                }
            } else {
                (AssemblyStateView::Idle, AssembledView::Violation)
            }
        },
    }
}

/// The state after a run of frames, and what each frame gave.
pub open spec fn run(s: AssemblyStateView, fs: Seq<FrameView>) -> (AssemblyStateView, Seq<
    AssembledView,
>)
    decreases fs.len(),
{
    if fs.len() == 0 {
        (s, Seq::empty())
    } else {
        let (s_next, e_first) = step(s, fs[0]);
        let (s_end, es) = run(s_next, fs.skip(1));
        (s_end, seq![e_first] + es)
    }
}

fn parse_content_header(p: &Vec<u8>) -> (r: Option<(u64, Vec<u8>)>)
    ensures
        match r {
            Some((size, props)) => parse_header_spec(p@) is Some && size == parse_header_spec(
                p@,
            )->Some_0.1 && props@ == parse_header_spec(p@)->Some_0.2,
            None => parse_header_spec(p@) is None,
        },
{
    if p.len() < 12 {
        return None;
    }
    let mut size: u64 = 0;
    let mut i: usize = 4;
    while i < 12
        invariant
            4 <= i <= 12,
            p@.len() >= 12,
            size < pow256((i - 4) as nat),
            size == be_prefix(p@, 4, i as int),
        decreases 12 - i,
    {
        proof {
            lemma_pow256_step((i - 4) as nat);
            lemma_pow256_step((i - 3) as nat);
        }
        assert(size * 256 + p@[i as int] < pow256((i + 1 - 4) as nat)) by (nonlinear_arith)
            requires
                size < pow256((i - 4) as nat),
                p@[i as int] < 256,
                pow256((i + 1 - 4) as nat) == pow256((i - 4) as nat) * 256,
        ;
        size = size * 256 + p[i] as u64;
        i = i + 1;
    }
    proof {
        lemma_be_prefix_64(p@);
    }
    Some((size, copy_range(p.as_slice(), 12, p.len())))
}

pub open spec fn pow256(k: nat) -> nat
    decreases k,
{
    if k == 0 {
        1
    } else {
        256 * pow256((k - 1) as nat)
    }
}

proof fn lemma_pow256_step(k: nat)
    ensures
        pow256(k + 1) == pow256(k) * 256,
        k <= 8 ==> pow256(k) <= 0x1_0000_0000_0000_0000,
    decreases k,
{
    if k > 0 {
        lemma_pow256_step((k - 1) as nat);
    }
    reveal_with_fuel(pow256, 9);
    assert(pow256(8) == 0x1_0000_0000_0000_0000);
    if k <= 8 {
        lemma_pow256_mono(k, 8);
    }
}

proof fn lemma_pow256_mono(a: nat, b: nat)
    requires
        a <= b,
    ensures
        pow256(a) <= pow256(b),
    decreases b,
{
    if a < b {
        lemma_pow256_mono(a, (b - 1) as nat);
    }
}

/// Bytes `i..j` of `s` read as a big-endian number.
pub open spec fn be_prefix(s: Seq<u8>, i: int, j: int) -> int
    decreases j - i,
{
    if j <= i {
        0
    } else {
        be_prefix(s, i, j - 1) * 256 + s[j - 1]
    }
}

proof fn lemma_be_prefix_64(s: Seq<u8>)
    requires
        s.len() >= 12,
    ensures
        be_prefix(s, 4, 12) == get_be64(s, 4),
{
    reveal_with_fuel(be_prefix, 9);
}

impl AssemblyState {
    /// Feeds one frame of the channel to the assembler: the next state, and
    /// what the frame gave.
    pub fn feed(self, frame: RawFrame) -> (r: (AssemblyState, Assembled))
        ensures
            (r.0@, r.1@) == step(self@, frame@),
    {
        match self {
            AssemblyState::Idle => {
                if frame.frame_type != FRAME_METHOD {
                    return (AssemblyState::Idle, Assembled::Violation);
                }
                let h = match read_method_header(&frame.payload) {
                    Some(h) => h,
                    None => return (AssemblyState::Idle, Assembled::Violation),
                };
                match classify(&h) {
                    MethodKind::Content => {
                        if h.class_id == CLASS_BASIC && h.method_id == METHOD_GET_EMPTY {
                            (AssemblyState::Idle, Assembled::Empty { method: frame.payload })
                        } else {
                            (AssemblyState::AwaitHeader { method: frame.payload }, Assembled::Pending)
                        }
                    },
                    MethodKind::ChannelRequest => (
                        AssemblyState::Idle,
                        Assembled::Request { method: frame.payload },
                    ),
                    _ => (AssemblyState::Idle, Assembled::Violation),
                }
            },
            AssemblyState::AwaitHeader { method } => {
                if frame.frame_type != FRAME_HEADER {
                    return (AssemblyState::Idle, Assembled::Violation);
                }
                match parse_content_header(&frame.payload) {
                    Some((size, properties)) => {
                        if size == 0 {
                            (
                                AssemblyState::Idle,
                                Assembled::Content { method, properties, body: Vec::new() },
                            )
                        } else {
                            (
                                AssemblyState::AwaitBody {
                                    method,
                                    properties,
                                    remaining: size,
                                    body: Vec::new(),
                                },
                                Assembled::Pending,
                            )
                        }
                    },
                    None => (AssemblyState::Idle, Assembled::Violation),
                }
            },
            AssemblyState::AwaitBody { method, properties, remaining, mut body } => {
                if frame.frame_type != FRAME_BODY {
                    return (AssemblyState::Idle, Assembled::Violation);
                }
                let mut payload = frame.payload;
                let n = payload.len() as u64;
                if n < remaining {
                    body.append(&mut payload);
                    (
                        AssemblyState::AwaitBody { method, properties, remaining: remaining - n, body },
                        Assembled::Pending,
                    )
                } else if n == remaining {
                    body.append(&mut payload);
                    (AssemblyState::Idle, Assembled::Content { method, properties, body })
                } else {
                    (AssemblyState::Idle, Assembled::Violation)
                }
            },
        }
    }
}

/// A run that ends idle, having given nothing but `Pending` before one last
/// content of `method`, `properties` and `body`.
pub open spec fn delivers_once(
    r: (AssemblyStateView, Seq<AssembledView>),
    method: Seq<u8>,
    properties: Seq<u8>,
    body: Seq<u8>,
) -> bool {
    &&& r.0 == AssemblyStateView::Idle
    &&& r.1.len() >= 1
    &&& r.1.last() == AssembledView::Content { method, properties, body }
    &&& forall|i: int| 0 <= i < r.1.len() - 1 ==> r.1[i] == AssembledView::Pending
}

proof fn lemma_bodies_reassemble(
    method: Seq<u8>,
    properties: Seq<u8>,
    acc: Seq<u8>,
    rest: Seq<u8>,
    channel: u16,
    n: nat,
)
    requires
        n > 0,
        rest.len() > 0,
    ensures
        delivers_once(
            run(
                AssemblyStateView::AwaitBody { method, properties, remaining: rest.len(), body: acc },
                body_frames(channel, chunks(rest, n)),
            ),
            method,
            properties,
            acc + rest,
        ),
    decreases rest.len(),
{
    let s = AssemblyStateView::AwaitBody { method, properties, remaining: rest.len(), body: acc };
    let fs = body_frames(channel, chunks(rest, n));
    if rest.len() <= n {
        assert(chunks(rest, n) == seq![rest]);
        assert(fs =~= seq![body_frame(channel, rest)]);
        assert(fs.skip(1) =~= Seq::<FrameView>::empty());
        let (s_next, e_first) = step(s, fs[0]);
        assert(s_next == AssemblyStateView::Idle);
        assert(run(s_next, fs.skip(1)) == (s_next, Seq::<AssembledView>::empty()));
        assert(run(s, fs).1 =~= seq![e_first]);
    } else {
        let first = rest.take(n as int);
        let tail = rest.skip(n as int);
        assert(chunks(rest, n) == seq![first] + chunks(tail, n));
        assert(fs[0] == body_frame(channel, first));
        assert(fs.skip(1) =~= body_frames(channel, chunks(tail, n)));
        let s_next = AssemblyStateView::AwaitBody {
            method,
            properties,
            remaining: tail.len(),
            body: acc + first,
        };
        assert(step(s, fs[0]) == (s_next, AssembledView::Pending));
        lemma_bodies_reassemble(method, properties, acc + first, tail, channel, n);
        assert(acc + first + tail =~= acc + rest);
        let r_rest = run(s_next, fs.skip(1));
        assert(run(s, fs).1 == seq![AssembledView::Pending] + r_rest.1);
        assert forall|i: int| 0 <= i < run(s, fs).1.len() - 1 implies run(s, fs).1[i]
            == AssembledView::Pending by {
            if i > 0 {
                assert(run(s, fs).1[i] == r_rest.1[i - 1]);
            }
        }
    }
}

/// The pieces of a body put back together, first to last.
pub open spec fn flatten(cs: Seq<Seq<u8>>) -> Seq<u8>
    decreases cs.len(),
{
    if cs.len() == 0 {
        Seq::empty()
    } else {
        cs[0] + flatten(cs.skip(1))
    }
}

proof fn lemma_any_bodies_reassemble(
    method: Seq<u8>,
    properties: Seq<u8>,
    acc: Seq<u8>,
    cs: Seq<Seq<u8>>,
    channel: u16,
)
    requires
        cs.len() > 0,
        forall|i: int| 0 <= i < cs.len() ==> #[trigger] cs[i].len() > 0,
    ensures
        delivers_once(
            run(
                AssemblyStateView::AwaitBody {
                    method,
                    properties,
                    remaining: flatten(cs).len(),
                    body: acc,
                },
                body_frames(channel, cs),
            ),
            method,
            properties,
            acc + flatten(cs),
        ),
    decreases cs.len(),
{
    let rest = flatten(cs);
    let s = AssemblyStateView::AwaitBody { method, properties, remaining: rest.len(), body: acc };
    let fs = body_frames(channel, cs);
    let c = cs[0];
    let tail = cs.skip(1);
    assert(fs[0] == body_frame(channel, c));
    assert(fs.skip(1) =~= body_frames(channel, tail));
    if tail.len() == 0 {
        assert(flatten(tail) =~= Seq::<u8>::empty());
        assert(rest =~= c);
        assert(fs.skip(1) =~= Seq::<FrameView>::empty());
        let (s_next, e_first) = step(s, fs[0]);
        assert(run(s_next, fs.skip(1)) == (s_next, Seq::<AssembledView>::empty()));
        assert(run(s, fs).1 =~= seq![e_first]);
    } else {
        assert(tail[0] == cs[1]);
        assert(flatten(tail).len() >= tail[0].len());
        assert forall|i: int| 0 <= i < tail.len() implies #[trigger] tail[i].len() > 0 by {
            assert(tail[i] == cs[i + 1]);
        }
        let s_next = AssemblyStateView::AwaitBody {
            method,
            properties,
            remaining: flatten(tail).len(),
            body: acc + c,
        };
        assert(step(s, fs[0]) == (s_next, AssembledView::Pending));
        lemma_any_bodies_reassemble(method, properties, acc + c, tail, channel);
        assert(acc + c + flatten(tail) =~= acc + rest);
        let r_rest = run(s_next, fs.skip(1));
        assert(run(s, fs).1 == seq![AssembledView::Pending] + r_rest.1);
        assert forall|i: int| 0 <= i < run(s, fs).1.len() - 1 implies run(s, fs).1[i]
            == AssembledView::Pending by {
            if i > 0 {
                assert(run(s, fs).1[i] == r_rest.1[i - 1]);
            }
        }
    }
}

/// Content reassembly for any split: a content header announcing `body`,
/// followed by body frames whose non-empty payloads put together are `body`,
/// fed to the assembler of a channel that has just seen a content-bearing
/// method, give back that method with the same properties and body, after
/// nothing but `Pending`, and the assembler ends idle.
pub proof fn lemma_any_split_reassembles(
    method: Seq<u8>,
    channel: u16,
    class_id: u16,
    properties: Seq<u8>,
    body: Seq<u8>,
    pieces: Seq<Seq<u8>>,
)
    requires
        body.len() <= u64::MAX,
        flatten(pieces) == body,
        forall|i: int| 0 <= i < pieces.len() ==> #[trigger] pieces[i].len() > 0,
    ensures
        delivers_once(
            run(
                AssemblyStateView::AwaitHeader { method },
                seq![
                    FrameView {
                        frame_type: FRAME_HEADER,
                        channel,
                        payload: header_payload(class_id, body.len() as u64, properties),
                    },
                ] + body_frames(channel, pieces),
            ),
            method,
            properties,
            body,
        ),
{
    let s = AssemblyStateView::AwaitHeader { method };
    let fs = seq![
        FrameView {
            frame_type: FRAME_HEADER,
            channel,
            payload: header_payload(class_id, body.len() as u64, properties),
        },
    ] + body_frames(channel, pieces);
    lemma_header_round_trip(class_id, body.len() as u64, properties);
    assert(fs.skip(1) =~= body_frames(channel, pieces));
    let (s_next, e_first) = step(s, fs[0]);
    if pieces.len() == 0 {
        assert(body =~= Seq::<u8>::empty());
        assert(fs.skip(1) =~= Seq::<FrameView>::empty());
        assert(run(s_next, fs.skip(1)) == (s_next, Seq::<AssembledView>::empty()));
        assert(run(s, fs).1 =~= seq![e_first]);
    } else {
        assert(flatten(pieces).len() >= pieces[0].len());
        assert(Seq::<u8>::empty() + body =~= body);
        lemma_any_bodies_reassemble(method, properties, Seq::empty(), pieces, channel);
        let r_rest = run(s_next, fs.skip(1));
        assert(run(s, fs).1 == seq![AssembledView::Pending] + r_rest.1);
        assert forall|i: int| 0 <= i < run(s, fs).1.len() - 1 implies run(s, fs).1[i]
            == AssembledView::Pending by {
            if i > 0 {
                assert(run(s, fs).1[i] == r_rest.1[i - 1]);
            }
        }
    }
}

/// Content reassembly: the header and body frames that `content_frames` makes
/// for any body, under any `frame_max` of at least the protocol minimum, when
/// fed to the assembler of a channel that has just seen a content-bearing
/// method, give back that method with the same properties and body, and the
/// assembler ends idle.
pub proof fn lemma_content_reassembly(
    method: Seq<u8>,
    channel: u16,
    class_id: u16,
    properties: Seq<u8>,
    body: Seq<u8>,
    frame_max: u32,
)
    requires
        frame_max >= FRAME_MIN_SIZE,
        body.len() <= u64::MAX,
    ensures
        delivers_once(
            run(
                AssemblyStateView::AwaitHeader { method },
                content_frames_spec(channel, class_id, properties, body, frame_max),
            ),
            method,
            properties,
            body,
        ),
{
    let n = body_limit(frame_max);
    let s = AssemblyStateView::AwaitHeader { method };
    let fs = content_frames_spec(channel, class_id, properties, body, frame_max);
    lemma_header_round_trip(class_id, body.len() as u64, properties);
    assert(fs.skip(1) =~= body_frames(channel, chunks(body, n)));
    let (s_next, e_first) = step(s, fs[0]);
    if body.len() == 0 {
        assert(body =~= Seq::<u8>::empty());
        assert(fs.skip(1) =~= Seq::<FrameView>::empty());
        assert(run(s_next, fs.skip(1)) == (s_next, Seq::<AssembledView>::empty()));
        assert(run(s, fs).1 =~= seq![e_first]);
    } else {
        assert(Seq::<u8>::empty() + body =~= body);
        lemma_bodies_reassemble(method, properties, Seq::empty(), body, channel, n);
        let r_rest = run(s_next, fs.skip(1));
        assert(run(s, fs).1 == seq![AssembledView::Pending] + r_rest.1);
        assert forall|i: int| 0 <= i < run(s, fs).1.len() - 1 implies run(s, fs).1[i]
            == AssembledView::Pending by {
            if i > 0 {
                assert(run(s, fs).1[i] == r_rest.1[i - 1]);
            }
        }
    }
}

/// Where the dispatcher sends what it assembled or passed on.
#[derive(Debug, Clone, PartialEq, Eq)]
pub enum DeliveryTarget {
    /// Basic.Deliver: the consumer registered under this consumer tag.
    Consumer(Vec<u8>),
    /// Basic.GetOk or Basic.GetEmpty: the pending get.
    GetWaiter,
    /// Basic.Return: the channel's return callback.
    ReturnCallback,
    /// Basic.Ack or Basic.Nack: the channel's confirm callback.
    ConfirmCallback,
    /// Channel.Flow or Basic.Cancel from the server: the channel's callback.
    ChannelCallback,
}

pub enum DeliveryTargetView {
    Consumer(Seq<u8>),
    GetWaiter,
    ReturnCallback,
    ConfirmCallback,
    ChannelCallback,
}

impl View for DeliveryTarget {
    type V = DeliveryTargetView;

    open spec fn view(&self) -> DeliveryTargetView {
        match self {
            DeliveryTarget::Consumer(tag) => DeliveryTargetView::Consumer(tag@),
            DeliveryTarget::GetWaiter => DeliveryTargetView::GetWaiter,
            DeliveryTarget::ReturnCallback => DeliveryTargetView::ReturnCallback,
            DeliveryTarget::ConfirmCallback => DeliveryTargetView::ConfirmCallback,
            DeliveryTarget::ChannelCallback => DeliveryTargetView::ChannelCallback,
        }
    }
}

/// The consumer tag of a Deliver payload: the short string after the header.
pub open spec fn deliver_tag(p: Seq<u8>) -> Option<Seq<u8>> {
    if p.len() >= 5 && 5 + p[4] <= p.len() {
        Some(p.subrange(5, 5 + p[4]))
    } else {
        None
    }
}

pub open spec fn target_of(p: Seq<u8>) -> Option<DeliveryTargetView> {
    match payload_header(p) {
        None => None,
        Some(h) => {
            let c = h.class_id;
            let m = h.method_id;
            if c == CLASS_BASIC && m == 60 {
                match deliver_tag(p) {
                    Some(tag) => Some(DeliveryTargetView::Consumer(tag)),
                    None => None,
                }
            } else if c == CLASS_BASIC && (m == 71 || m == METHOD_GET_EMPTY) {
                Some(DeliveryTargetView::GetWaiter)
            } else if c == CLASS_BASIC && m == 50 {
                Some(DeliveryTargetView::ReturnCallback)
            } else if c == CLASS_BASIC && (m == 80 || m == 120) {
                Some(DeliveryTargetView::ConfirmCallback)
            } else if (c == 20 && m == 20) || (c == CLASS_BASIC && m == 30) {
                Some(DeliveryTargetView::ChannelCallback)
            } else {
                None
            }
        },
    }
}

/// Where the method payload `method` (of an assembly, an empty get or a
/// passed-on request) goes; `None` for a method that no target takes, or a
/// Deliver cut short.
pub fn delivery_target(method: &Vec<u8>) -> (r: Option<DeliveryTarget>)
    ensures
        match r {
            Some(t) => target_of(method@) == Some(t@),
            None => target_of(method@) is None,
        },
{
    let h = match read_method_header(method) {
        Some(h) => h,
        None => return None,
    };
    let c = h.class_id;
    let m = h.method_id;
    if c == CLASS_BASIC && m == 60 {
        if method.len() < 5 || 5 + (method[4] as usize) > method.len() {
            return None;
        }
        let end = 5 + method[4] as usize;
        let mut tag: Vec<u8> = Vec::new();
        let mut i: usize = 5;
        while i < end
            invariant
                5 <= i <= end <= method@.len(),
                tag@ == method@.subrange(5, i as int),
            decreases end - i,
        {
            tag.push(method[i]);
            i = i + 1;
            assert(tag@ =~= method@.subrange(5, i as int));
        }
        Some(DeliveryTarget::Consumer(tag))
    } else if c == CLASS_BASIC && (m == 71 || m == METHOD_GET_EMPTY) {
        Some(DeliveryTarget::GetWaiter)
    } else if c == CLASS_BASIC && m == 50 {
        Some(DeliveryTarget::ReturnCallback)
    } else if c == CLASS_BASIC && (m == 80 || m == 120) {
        Some(DeliveryTarget::ConfirmCallback)
    } else if (c == 20 && m == 20) || (c == CLASS_BASIC && m == 30) {
        Some(DeliveryTarget::ChannelCallback)
    } else {
        None
    }
}

} // verus!
