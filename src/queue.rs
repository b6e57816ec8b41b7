//! Arguments of the queue methods, and what a queue request expects back.
use amqp_serde::types::FieldTable;
use vstd::prelude::*;

use crate::channel_manager::MethodHeader;
use crate::error::ConnectionError;
use crate::frame::{
    be16, be32, copy_range, get_be16, get_be32, push_bytes, read_be32, RawFrame, FRAME_METHOD,
};
use crate::methods::{payload_header, read_method_header, CLASS_QUEUE};

verus! {

#[verifier::external_type_specification]
#[verifier::external_body]
pub struct ExFieldTable(amqp_serde::types::FieldTable);

/// The byte length that a field table records for its entries (its first
/// field), which its wire form starts with.
pub uninterp spec fn field_table_size(t: amqp_serde::types::FieldTable) -> u32;

/// Relies on amqp_serde's `FieldTable::new`: no entries, and a recorded
/// length of 0.
pub assume_specification[ amqp_serde::types::FieldTable::new ]() -> (r:
    amqp_serde::types::FieldTable)
    ensures
        field_table_size(r) == 0,
;

/// Server-specific arguments of a declare or bind: an AMQP field table.
pub type ServerSpecificArguments = FieldTable;

#[derive(Debug)]
pub struct QueueDeclareArguments {
    pub queue: String,
    pub passive: bool,
    pub durable: bool,
    pub exclusive: bool,
    pub auto_delete: bool,
    pub no_wait: bool,
    pub arguments: ServerSpecificArguments,
}

pub open spec fn bit(b: bool, v: u8) -> u8 {
    if b {
        v
    } else {
        0
    }
}

impl QueueDeclareArguments {
    /// Arguments for declaring `queue`, every flag off and no extra arguments.
    pub fn new(queue: &str) -> (r: Self)
        ensures
            r.queue@ == queue@,
            !r.passive && !r.durable && !r.exclusive && !r.auto_delete && !r.no_wait,
            field_table_size(r.arguments) == 0,
    {
        QueueDeclareArguments {
            queue: queue.to_string(),
            passive: false,
            durable: false,
            exclusive: false,
            auto_delete: false,
            no_wait: false,
            arguments: FieldTable::new(),
        }
    }

    /// The flag octet of Queue.Declare: passive, durable, exclusive,
    /// auto-delete and no-wait, lowest bit first.
    pub fn bits(&self) -> (r: u8)
        ensures
            r == bit(self.passive, 1) + bit(self.durable, 2) + bit(self.exclusive, 4) + bit(
                self.auto_delete,
                8,
            ) + bit(self.no_wait, 16),
    {
        let mut r: u8 = 0;
        if self.passive {
            r = r + 1;
        }
        if self.durable {
            r = r + 2;
        }
        if self.exclusive {
            r = r + 4;
        }
        if self.auto_delete {
            r = r + 8;
        }
        if self.no_wait {
            r = r + 16;
        }
        r
    }

    /// Queue.DeclareOk, unless no reply is asked for.
    pub fn expected_reply(&self) -> (r: Option<MethodHeader>)
        ensures
            r == expected_unless(self.no_wait, 11),
    {
        expected_unless_no_wait(self.no_wait, 11)
    }
}

impl Default for QueueDeclareArguments {
    /// An empty queue name, which asks the server to name the queue.
    fn default() -> (r: Self)
        ensures
            r.queue@.len() == 0,
            !r.passive && !r.durable && !r.exclusive && !r.auto_delete && !r.no_wait,
            field_table_size(r.arguments) == 0,
    {
        proof {
            reveal_strlit("");
        }
        QueueDeclareArguments::new("")
    }
}

#[derive(Debug)]
pub struct QueueBindArguments {
    pub queue: String,
    pub exchange: String,
    pub routing_key: String,
    pub no_wait: bool,
    pub arguments: ServerSpecificArguments,
}

impl QueueBindArguments {
    pub fn new(queue: &str, exchange: &str, routing_key: &str) -> (r: Self)
        ensures
            r.queue@ == queue@,
            r.exchange@ == exchange@,
            r.routing_key@ == routing_key@,
            !r.no_wait,
            field_table_size(r.arguments) == 0,
    {
        QueueBindArguments {
            queue: queue.to_string(),
            exchange: exchange.to_string(),
            routing_key: routing_key.to_string(),
            no_wait: false,
            arguments: FieldTable::new(),
        }
    }

    /// Queue.BindOk, unless no reply is asked for.
    pub fn expected_reply(&self) -> (r: Option<MethodHeader>)
        ensures
            r == expected_unless(self.no_wait, 21),
    {
        expected_unless_no_wait(self.no_wait, 21)
    }
}

#[derive(Debug, Clone)]
pub struct QueuePurgeArguments {
    pub queue: String,
    pub no_wait: bool,
}

impl QueuePurgeArguments {
    pub fn new(queue: &str) -> (r: Self)
        ensures
            r.queue@ == queue@,
            !r.no_wait,
    {
        QueuePurgeArguments { queue: queue.to_string(), no_wait: false }
    }

    /// Queue.PurgeOk, unless no reply is asked for.
    pub fn expected_reply(&self) -> (r: Option<MethodHeader>)
        ensures
            r == expected_unless(self.no_wait, 31),
    {
        expected_unless_no_wait(self.no_wait, 31)
    }
}

#[derive(Debug, Clone)]
pub struct QueueDeleteArguments {
    pub queue: String,
    pub if_unused: bool,
    pub if_empty: bool,
    pub no_wait: bool,
}

impl QueueDeleteArguments {
    pub fn new(queue: &str) -> (r: Self)
        ensures
            r.queue@ == queue@,
            !r.if_unused && !r.if_empty && !r.no_wait,
    {
        QueueDeleteArguments {
            queue: queue.to_string(),
            if_unused: false,
            if_empty: false,
            no_wait: false,
        }
    }

    /// The flag octet of Queue.Delete: if-unused, if-empty and no-wait,
    /// lowest bit first.
    pub fn bits(&self) -> (r: u8)
        ensures
            r == bit(self.if_unused, 1) + bit(self.if_empty, 2) + bit(self.no_wait, 4),
    {
        let mut r: u8 = 0;
        if self.if_unused {
            r = r + 1;
        }
        if self.if_empty {
            r = r + 2;
        }
        if self.no_wait {
            r = r + 4;
        }
        r
    }

    /// Queue.DeleteOk, unless no reply is asked for.
    pub fn expected_reply(&self) -> (r: Option<MethodHeader>)
        ensures
            r == expected_unless(self.no_wait, 41),
    {
        expected_unless_no_wait(self.no_wait, 41)
    }
}

#[derive(Debug)]
pub struct QueueUnbindArguments {
    pub queue: String,
    pub exchange: String,
    pub routing_key: String,
    pub arguments: ServerSpecificArguments,
}

impl QueueUnbindArguments {
    pub fn new(queue: &str, exchange: &str, routing_key: &str) -> (r: Self)
        ensures
            r.queue@ == queue@,
            r.exchange@ == exchange@,
            r.routing_key@ == routing_key@,
            field_table_size(r.arguments) == 0,
    {
        QueueUnbindArguments {
            queue: queue.to_string(),
            exchange: exchange.to_string(),
            routing_key: routing_key.to_string(),
            arguments: FieldTable::new(),
        }
    }

    /// Queue.UnbindOk: unbinding always waits for the reply.
    pub fn expected_reply(&self) -> (r: MethodHeader)
        ensures
            r == (MethodHeader { class_id: CLASS_QUEUE, method_id: 51 }),
    {
        MethodHeader { class_id: CLASS_QUEUE, method_id: 51 }
    }
}

pub open spec fn expected_unless(no_wait: bool, method_id: u16) -> Option<MethodHeader> {
    if no_wait {
        None
    } else {
        Some(MethodHeader { class_id: CLASS_QUEUE, method_id })
    }
}

fn expected_unless_no_wait(no_wait: bool, method_id: u16) -> (r: Option<MethodHeader>)
    ensures
        r == expected_unless(no_wait, method_id),
{
    if no_wait {
        None
    } else {
        Some(MethodHeader { class_id: CLASS_QUEUE, method_id })
    }
}

/// Whether `frame` is the method frame that a request expects back.
pub open spec fn is_expected_reply(expected: MethodHeader, f: crate::frame::FrameView) -> bool {
    f.frame_type == FRAME_METHOD && payload_header(f.payload) == Some(expected)
}

/// Checks what a responder delivered against the reply the request expects:
/// any other frame is a `ChannelUseError`.
pub fn check_reply(expected: &MethodHeader, frame: &RawFrame) -> (r: Result<(), ConnectionError>)
    ensures
        r is Ok <==> is_expected_reply(*expected, frame@),
        r is Err ==> r->Err_0 is ChannelUseError,
{
    if frame.frame_type == FRAME_METHOD {
        if let Some(h) = read_method_header(&frame.payload) {
            if h.class_id == expected.class_id && h.method_id == expected.method_id {
                return Ok(());
            }
        }
    }
    Err(ConnectionError::ChannelUseError(String::from_str("unexpected reply")))
}

/// The UTF-8 bytes of a string.
pub open spec fn utf8(s: Seq<char>) -> Seq<u8> {
    vstd::utf8::encode_utf8(s)
}

/// An AMQP short string: one length octet, then the bytes.
pub open spec fn short_str(b: Seq<u8>) -> Seq<u8> {
    seq![b.len() as u8] + b
}

/// Appends `s` as a short string; `false`, with nothing appended, when it is
/// longer than 255 bytes.
pub(crate) fn push_short_str(out: &mut Vec<u8>, s: &String) -> (r: bool)
    ensures
        r == (utf8(s@).len() <= 255),
        r ==> final(out)@ == old(out)@ + short_str(utf8(s@)),
        !r ==> final(out)@ == old(out)@,
{
    let b = s.as_str().as_bytes();
    if b.len() > 255 {
        return false;
    }
    out.push(b.len() as u8);
    push_bytes(out, b);
    assert(final(out)@ =~= old(out)@ + short_str(utf8(s@)));
    true
}

fn push_header(out: &mut Vec<u8>, method_id: u16)
    requires
        old(out)@.len() == 0,
    ensures
        final(out)@ == be16(CLASS_QUEUE) + be16(method_id) + be16(0),
{
    out.push(0);
    out.push(CLASS_QUEUE as u8);
    out.push((method_id / 256) as u8);
    out.push((method_id % 256) as u8);
    out.push(0);
    out.push(0);
    assert(final(out)@ =~= be16(CLASS_QUEUE) + be16(method_id) + be16(0));
}

pub(crate) fn too_long() -> (r: ConnectionError)
    ensures
        r is SerdeError,
{
    ConnectionError::SerdeError(String::from_str("short string longer than 255 bytes"))
}

/// Whether `b` can be the wire form of table `t`: it starts with the length
/// that `t` records, as a big-endian 32-bit number.
pub open spec fn table_wire_form(t: FieldTable, b: Seq<u8>) -> bool {
    b.len() >= 4 && b.subrange(0, 4) == be32(field_table_size(t))
}

/// Relies on amqp_serde's `to_bytes` for a `FieldTable`: no method of its
/// serializer returns an error, so the call succeeds. The table is a tuple
/// struct, written field by field with no prefix; its first field, the
/// recorded length, is a `u32` written big-endian. A `HashMap` gives its
/// length, so no second length follows. The order of the entries after it
/// follows the table's hash map, so nothing more is said of the bytes.
#[verifier::external_body]
fn encode_table(t: &FieldTable) -> (r: Result<Vec<u8>, amqp_serde::Error>)
    ensures
        r is Ok,
        r is Ok ==> r->Ok_0@.len() >= 4 && r->Ok_0@.subrange(0, 4) == be32(field_table_size(*t)),
{
    amqp_serde::to_bytes(t)
}

pub(crate) fn table_bytes(t: &FieldTable) -> (r: Result<Vec<u8>, ConnectionError>)
    ensures
        r is Ok,
        table_wire_form(*t, r->Ok_0@),
{
    match encode_table(t) {
        Ok(b) => Ok(b),
        Err(e) => Err(ConnectionError::from_serde(e)),
    }
}

/// Queue.Declare: header, ticket 0, queue, flag octet, arguments table.
pub open spec fn declare_payload_spec(a: &QueueDeclareArguments, table: Seq<u8>) -> Seq<u8> {
    be16(CLASS_QUEUE) + be16(10) + be16(0) + short_str(utf8(a.queue@)) + seq![
        (bit(a.passive, 1) + bit(a.durable, 2) + bit(a.exclusive, 4) + bit(a.auto_delete, 8)
            + bit(a.no_wait, 16)) as u8,
    ] + table
}

/// Queue.Bind: header, ticket 0, queue, exchange, routing key, no-wait,
/// arguments table.
pub open spec fn bind_payload_spec(a: &QueueBindArguments, table: Seq<u8>) -> Seq<u8> {
    be16(CLASS_QUEUE) + be16(20) + be16(0) + short_str(utf8(a.queue@)) + short_str(
        utf8(a.exchange@),
    ) + short_str(utf8(a.routing_key@)) + seq![bit(a.no_wait, 1)] + table
}

/// Queue.Purge: header, ticket 0, queue, no-wait.
pub open spec fn purge_payload_spec(a: &QueuePurgeArguments) -> Seq<u8> {
    be16(CLASS_QUEUE) + be16(30) + be16(0) + short_str(utf8(a.queue@)) + seq![bit(a.no_wait, 1)]
}

/// Queue.Delete: header, ticket 0, queue, flag octet.
pub open spec fn delete_payload_spec(a: &QueueDeleteArguments) -> Seq<u8> {
    be16(CLASS_QUEUE) + be16(40) + be16(0) + short_str(utf8(a.queue@)) + seq![
        (bit(a.if_unused, 1) + bit(a.if_empty, 2) + bit(a.no_wait, 4)) as u8,
    ]
}

/// Queue.Unbind: header, ticket 0, queue, exchange, routing key, arguments
/// table.
pub open spec fn unbind_payload_spec(a: &QueueUnbindArguments, table: Seq<u8>) -> Seq<u8> {
    be16(CLASS_QUEUE) + be16(50) + be16(0) + short_str(utf8(a.queue@)) + short_str(
        utf8(a.exchange@),
    ) + short_str(utf8(a.routing_key@)) + table
}

impl QueueDeclareArguments {
    /// The Queue.Declare payload with `table` as the encoded arguments; a
    /// queue name over 255 bytes is a `SerdeError`.
    pub fn payload_with_table(&self, table: &[u8]) -> (r: Result<Vec<u8>, ConnectionError>)
        ensures
            r is Ok <==> utf8(self.queue@).len() <= 255,
            r is Ok ==> r->Ok_0@ == declare_payload_spec(self, table@),
            r is Err ==> r->Err_0 is SerdeError,
    {
        let mut out: Vec<u8> = Vec::new();
        push_header(&mut out, 10);
        if !push_short_str(&mut out, &self.queue) {
            return Err(too_long());
        }
        out.push(self.bits());
        push_bytes(&mut out, table);
        assert(out@ =~= declare_payload_spec(self, table@));
        Ok(out)
    }

    /// The Queue.Declare payload, with the arguments table encoded by the
    /// method codec.
    pub fn payload(&self) -> (r: Result<Vec<u8>, ConnectionError>)
        ensures
            r is Ok <==> utf8(self.queue@).len() <= 255,
            r is Ok ==> exists|t: Seq<u8>|
                table_wire_form(self.arguments, t) && r->Ok_0@ == declare_payload_spec(self, t),
            r is Err ==> r->Err_0 is SerdeError,
    {
        let table = table_bytes(&self.arguments)?;
        self.payload_with_table(table.as_slice())
    }
}

impl QueueBindArguments {
    pub fn payload_with_table(&self, table: &[u8]) -> (r: Result<Vec<u8>, ConnectionError>)
        ensures
            r is Ok <==> (utf8(self.queue@).len() <= 255 && utf8(self.exchange@).len() <= 255
                && utf8(self.routing_key@).len() <= 255),
            r is Ok ==> r->Ok_0@ == bind_payload_spec(self, table@),
            r is Err ==> r->Err_0 is SerdeError,
    {
        let mut out: Vec<u8> = Vec::new();
        push_header(&mut out, 20);
        if !push_short_str(&mut out, &self.queue) {
            return Err(too_long());
        }
        if !push_short_str(&mut out, &self.exchange) {
            return Err(too_long());
        }
        if !push_short_str(&mut out, &self.routing_key) {
            return Err(too_long());
        }
        out.push(if self.no_wait { 1 } else { 0 });
        push_bytes(&mut out, table);
        assert(out@ =~= bind_payload_spec(self, table@));
        Ok(out)
    }

    pub fn payload(&self) -> (r: Result<Vec<u8>, ConnectionError>)
        ensures
            r is Ok <==> (utf8(self.queue@).len() <= 255 && utf8(self.exchange@).len() <= 255
                && utf8(self.routing_key@).len() <= 255),
            r is Ok ==> exists|t: Seq<u8>|
                table_wire_form(self.arguments, t) && r->Ok_0@ == bind_payload_spec(self, t),
            r is Err ==> r->Err_0 is SerdeError,
    {
        let table = table_bytes(&self.arguments)?;
        self.payload_with_table(table.as_slice())
    }
}

impl QueuePurgeArguments {
    pub fn payload(&self) -> (r: Result<Vec<u8>, ConnectionError>)
        ensures
            r is Ok <==> utf8(self.queue@).len() <= 255,
            r is Ok ==> r->Ok_0@ == purge_payload_spec(self),
            r is Err ==> r->Err_0 is SerdeError,
    {
        let mut out: Vec<u8> = Vec::new();
        push_header(&mut out, 30);
        if !push_short_str(&mut out, &self.queue) {
            return Err(too_long());
        }
        out.push(if self.no_wait { 1 } else { 0 });
        assert(out@ =~= purge_payload_spec(self));
        Ok(out)
    }
}

impl QueueDeleteArguments {
    pub fn payload(&self) -> (r: Result<Vec<u8>, ConnectionError>)
        ensures
            r is Ok <==> utf8(self.queue@).len() <= 255,
            r is Ok ==> r->Ok_0@ == delete_payload_spec(self),
            r is Err ==> r->Err_0 is SerdeError,
    {
        let mut out: Vec<u8> = Vec::new();
        push_header(&mut out, 40);
        if !push_short_str(&mut out, &self.queue) {
            return Err(too_long());
        }
        out.push(self.bits());
        assert(out@ =~= delete_payload_spec(self));
        Ok(out)
    }
}

impl QueueUnbindArguments {
    pub fn payload_with_table(&self, table: &[u8]) -> (r: Result<Vec<u8>, ConnectionError>)
        ensures
            r is Ok <==> (utf8(self.queue@).len() <= 255 && utf8(self.exchange@).len() <= 255
                && utf8(self.routing_key@).len() <= 255),
            r is Ok ==> r->Ok_0@ == unbind_payload_spec(self, table@),
            r is Err ==> r->Err_0 is SerdeError,
    {
        let mut out: Vec<u8> = Vec::new();
        push_header(&mut out, 50);
        if !push_short_str(&mut out, &self.queue) {
            return Err(too_long());
        }
        if !push_short_str(&mut out, &self.exchange) {
            return Err(too_long());
        }
        if !push_short_str(&mut out, &self.routing_key) {
            return Err(too_long());
        }
        push_bytes(&mut out, table);
        assert(out@ =~= unbind_payload_spec(self, table@));
        Ok(out)
    }

    pub fn payload(&self) -> (r: Result<Vec<u8>, ConnectionError>)
        ensures
            r is Ok <==> (utf8(self.queue@).len() <= 255 && utf8(self.exchange@).len() <= 255
                && utf8(self.routing_key@).len() <= 255),
            r is Ok ==> exists|t: Seq<u8>|
                table_wire_form(self.arguments, t) && r->Ok_0@ == unbind_payload_spec(self, t),
            r is Err ==> r->Err_0 is SerdeError,
    {
        let table = table_bytes(&self.arguments)?;
        self.payload_with_table(table.as_slice())
    }
}

/// The fields of Queue.DeclareOk: the queue's name (chosen by the server when
/// the declare left it empty), and its message and consumer counts.
#[derive(Debug, Clone, PartialEq, Eq)]
pub struct DeclareOk {
    pub queue: Vec<u8>,
    pub message_count: u32,
    pub consumer_count: u32,
}

/// Reading a DeclareOk payload: header, queue as a short string, two 32-bit
/// counts, nothing after.
pub open spec fn parse_declare_ok_spec(p: Seq<u8>) -> Option<(Seq<u8>, u32, u32)> {
    if p.len() < 5 || get_be16(p, 0) != CLASS_QUEUE || get_be16(p, 2) != 11 || p.len() != 13
        + p[4] {
        None
    } else {
        let n = p[4] as int;
        Some((p.subrange(5, 5 + n), get_be32(p, 5 + n) as u32, get_be32(p, 9 + n) as u32))
    }
}

pub fn parse_declare_ok(payload: &Vec<u8>) -> (r: Option<DeclareOk>)
    ensures
        match r {
            Some(d) => parse_declare_ok_spec(payload@) == Some(
                (d.queue@, d.message_count, d.consumer_count),
            ),
            None => parse_declare_ok_spec(payload@) is None,
        },
{
    let len = payload.len();
    if len < 5 {
        return None;
    }
    let c = (payload[0] as u16) * 256 + payload[1] as u16;
    let m = (payload[2] as u16) * 256 + payload[3] as u16;
    let n = payload[4] as usize;
    if c != CLASS_QUEUE || m != 11 || len != 13 + n {
        return None;
    }
    let queue = copy_range(payload.as_slice(), 5, 5 + n);
    Some(
        DeclareOk {
            queue,
            message_count: read_be32(payload.as_slice(), 5 + n),
            consumer_count: read_be32(payload.as_slice(), 9 + n),
        },
    )
}

} // verus!
