//! Opening a connection: the protocol header, the choice of SASL mechanism,
//! and the order of the Start / Tune / Open exchange.
use vstd::prelude::*;

use amqp_serde::types::FieldTable;

use crate::channel_manager::MethodHeader;
use crate::error::ConnectionError;
use crate::frame::{be16, be32, copy_range, get_be16, get_be32, push_bytes, read_be32};
use crate::methods::{CLASS_CONNECTION, UNEXPECTED_FRAME};
use crate::queue::{
    push_short_str, short_str, table_bytes, table_wire_form,
    too_long, utf8,
};
use crate::tune::TuneParams;

verus! {

/// What the client sends first: `"AMQP" 0 0 9 1`.
pub open spec fn protocol_header_spec() -> Seq<u8> {
    seq![65u8, 77, 81, 80, 0, 0, 9, 1]
}

pub fn protocol_header() -> (r: Vec<u8>)
    ensures
        r@ == protocol_header_spec(),
{
    let r: Vec<u8> = vec![65u8, 77, 81, 80, 0, 0, 9, 1];
    assert(r@ =~= protocol_header_spec());
    r
}

/// Whether `w` stands in the space-separated list `s` as a whole word at `i`.
pub open spec fn word_at(s: Seq<u8>, w: Seq<u8>, i: int) -> bool {
    &&& 0 <= i
    &&& i + w.len() <= s.len()
    &&& s.subrange(i, i + w.len()) == w
    &&& (i == 0 || s[i - 1] == 32)
    &&& (i + w.len() == s.len() || s[i + w.len()] == 32)
}

pub open spec fn has_word(s: Seq<u8>, w: Seq<u8>) -> bool {
    exists|i: int| word_at(s, w, i)
}

fn word_at_exec(s: &[u8], w: &[u8], i: usize) -> (r: bool)
    requires
        i + w@.len() <= s@.len(),
    ensures
        r == word_at(s@, w@, i as int),
{
    let n = w.len();
    let _len = s.len();
    let mut k: usize = 0;
    while k < n
        invariant
            n == w@.len(),
            s@.len() <= usize::MAX,
            i + n <= s@.len(),
            k <= n,
            s@.subrange(i as int, i + k) == w@.subrange(0, k as int),
        decreases n - k,
    {
        if s[i + k] != w[k] {
            assert(s@.subrange(i as int, i + n)[k as int] != w@[k as int]);
            return false;
        }
        k = k + 1;
        assert(s@.subrange(i as int, i + k) =~= w@.subrange(0, k as int));
    }
    assert(w@.subrange(0, n as int) =~= w@);
    (i == 0 || s[i - 1] == 32) && (i + n == s.len() || s[i + n] == 32)
}

/// Whether the word `w` is among the space-separated words of `s`.
pub fn contains_word(s: &[u8], w: &[u8]) -> (r: bool)
    ensures
        r == has_word(s@, w@),
{
    if w.len() > s.len() {
        assert(!has_word(s@, w@));
        return false;
    }
    let last = s.len() - w.len();
    let mut i: usize = 0;
    loop
        invariant
            last + w@.len() == s@.len(),
            i <= last,
            forall|j: int| 0 <= j < i ==> !word_at(s@, w@, j),
        decreases last - i,
    {
        if word_at_exec(s, w, i) {
            return true;
        }
        if i == last {
            assert forall|j: int| !word_at(s@, w@, j) by {
                if 0 <= j <= last {
                }
            }
            return false;
        }
        i = i + 1;
    }
}

#[derive(Debug, Clone, Copy, PartialEq, Eq)]
pub enum Mechanism {
    Plain,
    AmqPlain,
}

pub open spec fn plain_word() -> Seq<u8> {
    seq![80u8, 76, 65, 73, 78]
}

pub open spec fn amqplain_word() -> Seq<u8> {
    seq![65u8, 77, 81, 80, 76, 65, 73, 78]
}

/// Picks PLAIN when the server offers it, else AMQPLAIN, from the
/// space-separated `mechanisms` of Connection.Start.
pub fn select_mechanism(mechanisms: &[u8]) -> (r: Option<Mechanism>)
    ensures
        r == (if has_word(mechanisms@, plain_word()) {
            Some(Mechanism::Plain)
        } else if has_word(mechanisms@, amqplain_word()) {
            Some(Mechanism::AmqPlain)
        } else {
            None
        }),
{
    let plain: Vec<u8> = vec![80u8, 76, 65, 73, 78];
    let amqplain: Vec<u8> = vec![65u8, 77, 81, 80, 76, 65, 73, 78];
    assert(plain@ =~= plain_word());
    assert(amqplain@ =~= amqplain_word());
    if contains_word(mechanisms, plain.as_slice()) {
        Some(Mechanism::Plain)
    } else if contains_word(mechanisms, amqplain.as_slice()) {
        Some(Mechanism::AmqPlain)
    } else {
        None
    }
}

/// The PLAIN response: an empty authorization identity, the user name and
/// the password, each after a zero byte.
pub open spec fn plain_response_spec(user: Seq<char>, password: Seq<char>) -> Seq<u8> {
    seq![0u8] + utf8(user) + seq![0u8] + utf8(password)
}

pub fn plain_response(user: &str, password: &str) -> (r: Vec<u8>)
    ensures
        r@ == plain_response_spec(user@, password@),
{
    let mut out: Vec<u8> = Vec::new();
    out.push(0);
    push_bytes(&mut out, user.as_bytes());
    out.push(0);
    push_bytes(&mut out, password.as_bytes());
    assert(out@ =~= plain_response_spec(user@, password@));
    out
}

/// A long string: a 32-bit length, then the bytes.
pub open spec fn long_str(b: Seq<u8>) -> Seq<u8> {
    be32(b.len() as u32) + b
}

/// The AMQPLAIN response: the entries `LOGIN` and `PASSWORD` of a field
/// table, each a short-string name, the type tag `S` and a long string.
pub open spec fn amqplain_response_spec(user: Seq<char>, password: Seq<char>) -> Seq<u8> {
    short_str(seq![76u8, 79, 71, 73, 78]) + seq![83u8] + long_str(utf8(user)) + short_str(
        seq![80u8, 65, 83, 83, 87, 79, 82, 68],
    ) + seq![83u8] + long_str(utf8(password))
}

fn push_long_str(out: &mut Vec<u8>, b: &[u8])
    requires
        b@.len() <= u32::MAX,
    ensures
        final(out)@ == old(out)@ + long_str(b@),
{
    let n = b.len() as u32;
    out.push((n / 0x100_0000) as u8);
    out.push(((n / 0x1_0000) % 256) as u8);
    out.push(((n / 256) % 256) as u8);
    out.push((n % 256) as u8);
    push_bytes(out, b);
    assert(final(out)@ =~= old(out)@ + long_str(b@));
}

pub fn amqplain_response(user: &str, password: &str) -> (r: Vec<u8>)
    requires
        utf8(user@).len() <= u32::MAX,
        utf8(password@).len() <= u32::MAX,
    ensures
        r@ == amqplain_response_spec(user@, password@),
{
    let mut out: Vec<u8> = vec![5u8, 76, 79, 71, 73, 78, 83];
    let ghost a = out@;
    push_long_str(&mut out, user.as_bytes());
    let ghost b = out@;
    let name: Vec<u8> = vec![8u8, 80, 65, 83, 83, 87, 79, 82, 68, 83];
    push_bytes(&mut out, name.as_slice());
    let ghost c = out@;
    push_long_str(&mut out, password.as_bytes());
    assert(a =~= short_str(seq![76u8, 79, 71, 73, 78]) + seq![83u8]);
    assert(name@ =~= short_str(seq![80u8, 65, 83, 83, 87, 79, 82, 68]) + seq![83u8]);
    assert(out@ =~= amqplain_response_spec(user@, password@));
    out
}

/// Where the opening of a connection stands.
#[derive(Debug, Clone, Copy, PartialEq, Eq)]
pub enum HandshakeState {
    /// The protocol header went out; Connection.Start is next.
    AwaitStart,
    /// StartOk went out; Tune (or a Secure challenge) is next.
    AwaitTune,
    /// TuneOk and Open went out; OpenOk is next.
    AwaitOpenOk,
    /// Open: channels may now be opened.
    Running,
    Closed,
}

/// What the client sends in answer to a handshake method.
#[derive(Debug, Clone, Copy, PartialEq, Eq)]
pub enum HandshakeAction {
    SendStartOk,
    SendSecureOk,
    /// TuneOk, then Open.
    SendTuneOkAndOpen,
    /// Nothing: the connection is running.
    Done,
    /// The server closed the connection: answer with CloseOk.
    SendCloseOk,
    /// Close the connection with this reply code.
    Violation(u16),
}

pub open spec fn handshake_next(s: HandshakeState, channel: u16, h: MethodHeader) -> (
    HandshakeState,
    HandshakeAction,
) {
    let c = h.class_id;
    let m = h.method_id;
    if channel != 0 || c != CLASS_CONNECTION || s == HandshakeState::Running || s
        == HandshakeState::Closed {
        (HandshakeState::Closed, HandshakeAction::Violation(UNEXPECTED_FRAME))
    } else if m == 50 {
        (HandshakeState::Closed, HandshakeAction::SendCloseOk)
    } else if s == HandshakeState::AwaitStart && m == 10 {
        (HandshakeState::AwaitTune, HandshakeAction::SendStartOk)
    } else if s == HandshakeState::AwaitTune && m == 20 {
        (HandshakeState::AwaitTune, HandshakeAction::SendSecureOk)
    } else if s == HandshakeState::AwaitTune && m == 30 {
        (HandshakeState::AwaitOpenOk, HandshakeAction::SendTuneOkAndOpen)
    } else if s == HandshakeState::AwaitOpenOk && m == 41 {
        (HandshakeState::Running, HandshakeAction::Done)
    } else {
        (HandshakeState::Closed, HandshakeAction::Violation(UNEXPECTED_FRAME))
    }
}

impl HandshakeState {
    /// The next state and the answer, for a method that arrived on `channel`
    /// while the connection opens. Once running, the reader takes over.
    pub fn next(self, channel: u16, header: &MethodHeader) -> (r: (HandshakeState, HandshakeAction))
        ensures
            r == handshake_next(self, channel, *header),
    {
        let c = header.class_id;
        let m = header.method_id;
        let stopped = match self {
            HandshakeState::Running | HandshakeState::Closed => true,
            _ => false,
        };
        if channel != 0 || c != CLASS_CONNECTION || stopped {
            return (HandshakeState::Closed, HandshakeAction::Violation(UNEXPECTED_FRAME));
        }
        if m == 50 {
            return (HandshakeState::Closed, HandshakeAction::SendCloseOk);
        }
        match self {
            HandshakeState::AwaitStart if m == 10 => (
                HandshakeState::AwaitTune,
                HandshakeAction::SendStartOk,
            ),
            HandshakeState::AwaitTune if m == 20 => (
                HandshakeState::AwaitTune,
                HandshakeAction::SendSecureOk,
            ),
            HandshakeState::AwaitTune if m == 30 => (
                HandshakeState::AwaitOpenOk,
                HandshakeAction::SendTuneOkAndOpen,
            ),
            HandshakeState::AwaitOpenOk if m == 41 => (
                HandshakeState::Running,
                HandshakeAction::Done,
            ),
            _ => (HandshakeState::Closed, HandshakeAction::Violation(UNEXPECTED_FRAME)),
        }
    }
}

/// The `mechanisms` long string of a Connection.Start payload: after the
/// header, the two version octets and the server-properties table.
pub open spec fn start_mechanisms_spec(p: Seq<u8>) -> Option<Seq<u8>> {
    if p.len() < 10 || get_be16(p, 0) != 10 || get_be16(p, 2) != 10 {
        None
    } else {
        let t = get_be32(p, 6);
        if p.len() < 14 + t {
            None
        } else {
            let n = get_be32(p, 10 + t);
            if p.len() < 14 + t + n {
                None
            } else {
                Some(p.subrange(14 + t, 14 + t + n))
            }
        }
    }
}

/// The mechanisms that Connection.Start offers; `None` when the payload is
/// not a whole Start.
pub fn start_mechanisms(payload: &Vec<u8>) -> (r: Option<Vec<u8>>)
    ensures
        match r {
            Some(m) => start_mechanisms_spec(payload@) == Some(m@),
            None => start_mechanisms_spec(payload@) is None,
        },
{
    let len = payload.len() as u64;
    if len < 10 {
        return None;
    }
    let c = (payload[0] as u16) * 256 + payload[1] as u16;
    let m = (payload[2] as u16) * 256 + payload[3] as u16;
    if c != 10 || m != 10 {
        return None;
    }
    let t = read_be32(payload.as_slice(), 6) as u64;
    if len < 14 + t {
        return None;
    }
    let n = read_be32(payload.as_slice(), (10 + t) as usize) as u64;
    if len < 14 + t + n {
        return None;
    }
    let start = (14 + t) as usize;
    let end = (14 + t + n) as usize;
    Some(copy_range(payload.as_slice(), start, end))
}

/// Tune (method 30) and TuneOk (method 31): channel-max, frame-max,
/// heartbeat.
pub open spec fn tune_payload(method_id: u16, p: TuneParams) -> Seq<u8> {
    be16(CLASS_CONNECTION) + be16(method_id) + be16(p.channel_max) + be32(p.frame_max) + be16(
        p.heartbeat,
    )
}

pub open spec fn parse_tune_spec(p: Seq<u8>) -> Option<TuneParams> {
    if p.len() != 12 || get_be16(p, 0) != 10 || get_be16(p, 2) != 30 {
        None
    } else {
        Some(
            TuneParams {
                channel_max: get_be16(p, 4) as u16,
                frame_max: get_be32(p, 6) as u32,
                heartbeat: get_be16(p, 10) as u16,
            },
        )
    }
}

/// The server's proposal in a Connection.Tune payload.
pub fn parse_tune(payload: &Vec<u8>) -> (r: Option<TuneParams>)
    ensures
        r == parse_tune_spec(payload@),
{
    if payload.len() != 12 {
        return None;
    }
    let c = (payload[0] as u16) * 256 + payload[1] as u16;
    let m = (payload[2] as u16) * 256 + payload[3] as u16;
    if c != 10 || m != 30 {
        return None;
    }
    Some(
        TuneParams {
            channel_max: (payload[4] as u16) * 256 + payload[5] as u16,
            frame_max: read_be32(payload.as_slice(), 6),
            heartbeat: (payload[10] as u16) * 256 + payload[11] as u16,
        },
    )
}

/// The TuneOk payload that carries the agreed parameters.
pub fn tune_ok_payload(p: TuneParams) -> (r: Vec<u8>)
    ensures
        r@ == tune_payload(31, p),
{
    let mut out: Vec<u8> = Vec::new();
    out.push(0);
    out.push(10);
    out.push(0);
    out.push(31);
    out.push((p.channel_max / 256) as u8);
    out.push((p.channel_max % 256) as u8);
    out.push((p.frame_max / 0x100_0000) as u8);
    out.push(((p.frame_max / 0x1_0000) % 256) as u8);
    out.push(((p.frame_max / 256) % 256) as u8);
    out.push((p.frame_max % 256) as u8);
    out.push((p.heartbeat / 256) as u8);
    out.push((p.heartbeat % 256) as u8);
    assert(out@ =~= tune_payload(31, p));
    out
}

/// Connection.Open: virtual host, an empty reserved short string, a zero
/// reserved octet.
pub open spec fn open_payload_spec(vhost: Seq<char>) -> Seq<u8> {
    be16(CLASS_CONNECTION) + be16(40) + short_str(utf8(vhost)) + seq![0u8, 0u8]
}

/// The Open payload; a virtual host name over 255 bytes is a `SerdeError`.
pub fn open_payload(vhost: &String) -> (r: Result<Vec<u8>, ConnectionError>)
    ensures
        r is Ok <==> utf8(vhost@).len() <= 255,
        r is Ok ==> r->Ok_0@ == open_payload_spec(vhost@),
        r is Err ==> r->Err_0 is SerdeError,
{
    let mut out: Vec<u8> = Vec::new();
    out.push(0);
    out.push(10);
    out.push(0);
    out.push(40);
    if !push_short_str(&mut out, vhost) {
        return Err(too_long());
    }
    out.push(0);
    out.push(0);
    assert(out@ =~= open_payload_spec(vhost@));
    Ok(out)
}

pub open spec fn mechanism_name(m: Mechanism) -> Seq<u8> {
    match m {
        Mechanism::Plain => plain_word(),
        Mechanism::AmqPlain => amqplain_word(),
    }
}

/// The locale that the client asks for.
pub open spec fn locale_word() -> Seq<u8> {
    seq![101u8, 110, 95, 85, 83]
}

/// Connection.StartOk: client-properties table, mechanism, response as a
/// long string, locale.
pub open spec fn start_ok_payload_spec(table: Seq<u8>, m: Mechanism, response: Seq<u8>) -> Seq<u8> {
    be16(CLASS_CONNECTION) + be16(11) + table + short_str(mechanism_name(m)) + be32(
        response.len() as u32,
    ) + response + short_str(locale_word())
}

/// The StartOk payload with `table` as the encoded client properties.
pub fn start_ok_payload_with_table(table: &[u8], mechanism: Mechanism, response: &[u8]) -> (r: Vec<
    u8,
>)
    requires
        response@.len() <= u32::MAX,
    ensures
        r@ == start_ok_payload_spec(table@, mechanism, response@),
{
    let mut out: Vec<u8> = Vec::new();
    out.push(0);
    out.push(10);
    out.push(0);
    out.push(11);
    push_bytes(&mut out, table);
    let name: Vec<u8> = match mechanism {
        Mechanism::Plain => vec![80u8, 76, 65, 73, 78],
        Mechanism::AmqPlain => vec![65u8, 77, 81, 80, 76, 65, 73, 78],
    };
    assert(name@ =~= mechanism_name(mechanism));
    out.push(name.len() as u8);
    push_bytes(&mut out, name.as_slice());
    let n = response.len() as u32;
    out.push((n / 0x100_0000) as u8);
    out.push(((n / 0x1_0000) % 256) as u8);
    out.push(((n / 256) % 256) as u8);
    out.push((n % 256) as u8);
    push_bytes(&mut out, response);
    let locale: Vec<u8> = vec![101u8, 110, 95, 85, 83];
    assert(locale@ =~= locale_word());
    out.push(5);
    push_bytes(&mut out, locale.as_slice());
    assert(out@ =~= start_ok_payload_spec(table@, mechanism, response@));
    out
}

/// The StartOk payload, with the client properties encoded by the method
/// codec.
pub fn start_ok_payload(properties: &FieldTable, mechanism: Mechanism, response: &[u8]) -> (r:
    Result<Vec<u8>, ConnectionError>)
    requires
        response@.len() <= u32::MAX,
    ensures
        r is Ok,
        r is Ok ==> exists|t: Seq<u8>|
            table_wire_form(*properties, t) && r->Ok_0@ == start_ok_payload_spec(
                t,
                mechanism,
                response@,
            ),
{
    let table = table_bytes(properties)?;
    Ok(start_ok_payload_with_table(table.as_slice(), mechanism, response))
}

/// Tune round trip: reading back a Tune payload gives the parameters that
/// were written into it.
pub proof fn lemma_tune_round_trip(p: TuneParams)
    ensures
        parse_tune_spec(tune_payload(30, p)) == Some(p),
{
    let s = tune_payload(30, p);
    assert(s.subrange(0, 2) =~= be16(CLASS_CONNECTION));
    crate::frame::lemma_be16_round_trip(CLASS_CONNECTION, s, 0);
    assert(s.subrange(2, 4) =~= be16(30));
    crate::frame::lemma_be16_round_trip(30, s, 2);
    assert(s.subrange(4, 6) =~= be16(p.channel_max));
    crate::frame::lemma_be16_round_trip(p.channel_max, s, 4);
    assert(s.subrange(6, 10) =~= be32(p.frame_max));
    crate::frame::lemma_be32_round_trip(p.frame_max, s, 6);
    assert(s.subrange(10, 12) =~= be16(p.heartbeat));
    crate::frame::lemma_be16_round_trip(p.heartbeat, s, 10);
}

} // verus!
