//! The wire format spoken with the broker.
//!
//! A reply frame is one kind byte (0: accepted, 1: rejected), the request's
//! correlation identifier as eight big-endian bytes, the payload length as
//! four big-endian bytes, and the payload: the message id or the rejection
//! reason, in UTF-8, never empty.
use vstd::prelude::*;
use vstd::utf8::*;
use vstd::slice::*;
use crate::message::Message;

verus! {

broadcast use {vstd::seq::group_seq_axioms, vstd::slice::group_slice_axioms};

pub const KIND_ACCEPTED: u8 = 0;

pub const KIND_REJECTED: u8 = 1;

/// Length of a reply frame before its payload.
pub const REPLY_HEADER_LEN: usize = 13;

/// Four bytes, most significant first.
pub open spec fn u32_be(n: u32) -> Seq<u8> {
    seq![(n >> 24u32) as u8, (n >> 16u32) as u8, (n >> 8u32) as u8, n as u8]
}

/// The number that four big-endian bytes at `i` stand for.
pub open spec fn be_u32_at(s: Seq<u8>, i: int) -> u32 {
    ((s[i] as u32) << 24u32) | ((s[i + 1] as u32) << 16u32) | ((s[i + 2] as u32) << 8u32) | (
    s[i + 3] as u32)
}

/// Eight bytes, most significant first.
pub open spec fn u64_be(n: u64) -> Seq<u8> {
    seq![
        (n >> 56u64) as u8,
        (n >> 48u64) as u8,
        (n >> 40u64) as u8,
        (n >> 32u64) as u8,
        (n >> 24u64) as u8,
        (n >> 16u64) as u8,
        (n >> 8u64) as u8,
        n as u8,
    ]
}

/// The number that eight big-endian bytes at `i` stand for.
pub open spec fn be_u64_at(s: Seq<u8>, i: int) -> u64 {
    ((s[i] as u64) << 56u64) | ((s[i + 1] as u64) << 48u64) | ((s[i + 2] as u64) << 40u64) | ((
    s[i + 3] as u64) << 32u64) | ((s[i + 4] as u64) << 24u64) | ((s[i + 5] as u64) << 16u64) | ((
    s[i + 6] as u64) << 8u64) | (s[i + 7] as u64)
}

/// Why a reply frame could not be read.
#[derive(Clone, Copy, Debug, PartialEq, Eq, Structural)]
pub enum DecodeError {
    /// The frame ends before its header or its payload does.
    Truncated,
    /// The kind byte is neither accepted nor rejected.
    UnknownKind { kind: u8 },
    /// Bytes follow the payload.
    TrailingBytes,
    /// The payload is empty.
    EmptyPayload,
    /// The payload is not UTF-8.
    InvalidUtf8,
}

/// What the broker answered to one request.
#[derive(Clone, Debug, PartialEq, Eq)]
pub enum ReplyOutcome {
    Accepted { message_id: String },
    Rejected { reason: String },
}

/// A decoded reply frame.
#[derive(Clone, Debug, PartialEq, Eq)]
pub struct Reply {
    pub correlation_id: u64,
    pub outcome: ReplyOutcome,
}

/// The mathematical content of a reply.
pub ghost struct ReplyView {
    pub correlation_id: u64,
    pub accepted: bool,
    pub text: Seq<char>,
}

impl View for Reply {
    type V = ReplyView;

    open spec fn view(&self) -> ReplyView {
        ReplyView {
            correlation_id: self.correlation_id,
            accepted: self.outcome is Accepted,
            text: match self.outcome {
                ReplyOutcome::Accepted { message_id } => message_id@,
                ReplyOutcome::Rejected { reason } => reason@,
            },
        }
    }
}

/// The frame of a reply of the given kind.
pub open spec fn reply_bytes(kind: u8, correlation_id: u64, payload: Seq<u8>) -> Seq<u8> {
    seq![kind] + u64_be(correlation_id) + u32_be(payload.len() as u32) + payload
}

/// The payload length that a frame's header announces.
pub open spec fn announced_len(b: Seq<u8>) -> int {
    be_u32_at(b, 9) as int
}

/// What a frame decodes to.
pub open spec fn decode_spec(b: Seq<u8>) -> Result<ReplyView, DecodeError> {
    if b.len() < REPLY_HEADER_LEN {
        Err(DecodeError::Truncated)
    } else if b[0] != KIND_ACCEPTED && b[0] != KIND_REJECTED {
        Err(DecodeError::UnknownKind { kind: b[0] })
    } else if b.len() < REPLY_HEADER_LEN + announced_len(b) {
        Err(DecodeError::Truncated)
    } else if b.len() > REPLY_HEADER_LEN + announced_len(b) {
        Err(DecodeError::TrailingBytes)
    } else if announced_len(b) == 0 {
        Err(DecodeError::EmptyPayload)
    } else if !valid_utf8(b.subrange(REPLY_HEADER_LEN as int, b.len() as int)) {
        Err(DecodeError::InvalidUtf8)
    } else {
        Ok(
            ReplyView {
                correlation_id: be_u64_at(b, 1),
                accepted: b[0] == KIND_ACCEPTED,
                text: decode_utf8(b.subrange(REPLY_HEADER_LEN as int, b.len() as int)),
            },
        )
    }
}

proof fn lemma_u32_round_trip(n: u32)
    ensures
        be_u32_at(u32_be(n), 0) == n,
{
    assert(((((n >> 24u32) as u8) as u32) << 24u32) | ((((n >> 16u32) as u8) as u32) << 16u32)
        | ((((n >> 8u32) as u8) as u32) << 8u32) | ((n as u8) as u32) == n) by (bit_vector);
}

proof fn lemma_u64_round_trip(n: u64)
    ensures
        be_u64_at(u64_be(n), 0) == n,
{
    assert(((((n >> 56u64) as u8) as u64) << 56u64) | ((((n >> 48u64) as u8) as u64) << 48u64)
        | ((((n >> 40u64) as u8) as u64) << 40u64) | ((((n >> 32u64) as u8) as u64) << 32u64) | ((((
    n >> 24u64) as u8) as u64) << 24u64) | ((((n >> 16u64) as u8) as u64) << 16u64) | ((((n
        >> 8u64) as u8) as u64) << 8u64) | ((n as u8) as u64) == n) by (bit_vector);
}

/// A UTF-8 encoding of a non-empty text is not empty.
proof fn lemma_encode_nonempty(s: Seq<char>)
    requires
        s.len() > 0,
    ensures
        encode_utf8(s).len() > 0,
{
    encode_utf8_decode_utf8(s);
}

/// A reply that the broker frames is read back as it was framed: an accepted
/// message keeps its correlation identifier and its non-empty message id.
pub proof fn lemma_reply_round_trip(kind: u8, correlation_id: u64, text: Seq<char>)
    requires
        kind == KIND_ACCEPTED || kind == KIND_REJECTED,
        text.len() > 0,
        encode_utf8(text).len() <= u32::MAX,
    ensures
        decode_spec(reply_bytes(kind, correlation_id, encode_utf8(text))) == Ok::<
            ReplyView,
            DecodeError,
        >(ReplyView { correlation_id, accepted: kind == KIND_ACCEPTED, text }),
        kind == KIND_ACCEPTED ==> decode_spec(
            reply_bytes(kind, correlation_id, encode_utf8(text)),
        ).unwrap().text.len() > 0,
{
    let p = encode_utf8(text);
    let b = reply_bytes(kind, correlation_id, p);
    lemma_encode_nonempty(text);
    encode_utf8_valid_utf8(text);
    encode_utf8_decode_utf8(text);
    lemma_u32_round_trip(p.len() as u32);
    lemma_u64_round_trip(correlation_id);
    assert(b.subrange(9, 13) =~= u32_be(p.len() as u32));
    assert(be_u32_at(b, 9) == be_u32_at(u32_be(p.len() as u32), 0));
    assert(b.subrange(1, 9) =~= u64_be(correlation_id));
    assert(be_u64_at(b, 1) == be_u64_at(u64_be(correlation_id), 0));
    assert(b.subrange(REPLY_HEADER_LEN as int, b.len() as int) =~= p);
}

fn push_u32(out: &mut Vec<u8>, n: u32)
    ensures
        final(out)@ == old(out)@ + u32_be(n),
{
    out.push((n >> 24u32) as u8);
    out.push((n >> 16u32) as u8);
    out.push((n >> 8u32) as u8);
    out.push(n as u8);
    assert(final(out)@ =~= old(out)@ + u32_be(n));
}

fn push_u64(out: &mut Vec<u8>, n: u64)
    ensures
        final(out)@ == old(out)@ + u64_be(n),
{
    out.push((n >> 56u64) as u8);
    out.push((n >> 48u64) as u8);
    out.push((n >> 40u64) as u8);
    out.push((n >> 32u64) as u8);
    out.push((n >> 24u64) as u8);
    out.push((n >> 16u64) as u8);
    out.push((n >> 8u64) as u8);
    out.push(n as u8);
    assert(final(out)@ =~= old(out)@ + u64_be(n));
}

/// Appends the bytes of a slice.
fn push_all(out: &mut Vec<u8>, b: &[u8])
    ensures
        final(out)@ == old(out)@ + b@,
{
    let mut i: usize = 0;
    while i < b.len()
        invariant
            i <= b@.len(),
            out@ == old(out)@ + b@.subrange(0, i as int),
        decreases b@.len() - i,
    {
        out.push(b[i]);
        i = i + 1;
        assert(out@ =~= old(out)@ + b@.subrange(0, i as int));
    }
    assert(b@.subrange(0, i as int) =~= b@);
}

/// The UTF-8 bytes of a string.
pub(crate) fn utf8_bytes(s: &String) -> (r: &[u8])
    ensures
        r@ == encode_utf8(s@),
{
    s.as_str().as_bytes()
}

/// Relies on String::from_utf8: it succeeds exactly on valid UTF-8 and then
/// holds the characters that the bytes encode.
#[verifier::external_body]
fn string_from_utf8(b: Vec<u8>) -> (r: Option<String>)
    ensures
        r is Some <==> valid_utf8(b@),
        r matches Some(s) ==> s@ == decode_utf8(b@),
{
    String::from_utf8(b).ok()
}

/// Frames a reply as the broker sends it.
pub fn encode_reply(reply: &Reply) -> (r: Vec<u8>)
    requires
        encode_utf8(reply@.text).len() <= u32::MAX,
    ensures
        r@ == reply_bytes(
            if reply@.accepted {
                KIND_ACCEPTED
            } else {
                KIND_REJECTED
            },
            reply.correlation_id,
            encode_utf8(reply@.text),
        ),
{
    let (kind, text) = match &reply.outcome {
        ReplyOutcome::Accepted { message_id } => (KIND_ACCEPTED, message_id),
        ReplyOutcome::Rejected { reason } => (KIND_REJECTED, reason),
    };
    let payload = utf8_bytes(text);
    let mut out: Vec<u8> = Vec::new();
    out.push(kind);
    push_u64(&mut out, reply.correlation_id);
    push_u32(&mut out, payload.len() as u32);
    push_all(&mut out, payload);
    assert(out@ =~= reply_bytes(kind, reply.correlation_id, encode_utf8(reply@.text)));
    out
}

/// Reads a reply frame.
pub fn decode_reply(b: &[u8]) -> (r: Result<Reply, DecodeError>)
    ensures
        match r {
            Ok(reply) => decode_spec(b@) == Ok::<ReplyView, DecodeError>(reply@),
            Err(e) => decode_spec(b@) == Err::<ReplyView, DecodeError>(e),
        },
{
    if b.len() < REPLY_HEADER_LEN {
        return Err(DecodeError::Truncated);
    }
    let kind = b[0];
    if kind != KIND_ACCEPTED && kind != KIND_REJECTED {
        return Err(DecodeError::UnknownKind { kind });
    }
    let correlation_id: u64 = ((b[1] as u64) << 56u64) | ((b[2] as u64) << 48u64) | ((
    b[3] as u64) << 40u64) | ((b[4] as u64) << 32u64) | ((b[5] as u64) << 24u64) | ((
    b[6] as u64) << 16u64) | ((b[7] as u64) << 8u64) | (b[8] as u64);
    let len: u32 = ((b[9] as u32) << 24u32) | ((b[10] as u32) << 16u32) | ((b[11] as u32)
        << 8u32) | (b[12] as u32);
    let body_len: usize = b.len() - REPLY_HEADER_LEN;
    if (body_len as u64) < (len as u64) {
        return Err(DecodeError::Truncated);
    }
    if (body_len as u64) > (len as u64) {
        return Err(DecodeError::TrailingBytes);
    }
    if len == 0 {
        return Err(DecodeError::EmptyPayload);
    }
    let payload = slice_to_vec(slice_subrange(b, REPLY_HEADER_LEN, b.len()));
    match string_from_utf8(payload) {
        None => Err(DecodeError::InvalidUtf8),
        Some(text) => {
            let outcome = if kind == KIND_ACCEPTED {
                ReplyOutcome::Accepted { message_id: text }
            } else {
                ReplyOutcome::Rejected { reason: text }
            };
            let reply = Reply { correlation_id, outcome };
            assert(reply@ =~= decode_spec(b@).unwrap());
            Ok(reply)
        },
    }
}

/// A string as a length-prefixed field.
pub open spec fn str_field(s: Seq<char>) -> Seq<u8> {
    u32_be(encode_utf8(s).len() as u32) + encode_utf8(s)
}

/// Properties, one key field and one value field each, in order.
pub open spec fn props_bytes(p: Seq<(String, String)>) -> Seq<u8>
    decreases p.len(),
{
    if p.len() == 0 {
        Seq::empty()
    } else {
        props_bytes(p.drop_last()) + str_field(p.last().0@) + str_field(p.last().1@)
    }
}

/// The request frame for a message: the correlation identifier, the topic,
/// the tag, the number of properties, the properties and the body.
pub open spec fn request_bytes(correlation_id: u64, m: Message) -> Seq<u8> {
    u64_be(correlation_id) + str_field(m.topic@) + str_field(m.tag@) + u32_be(
        m.properties@.len() as u32,
    ) + props_bytes(m.properties@) + u32_be(m.body@.len() as u32) + m.body@
}

fn push_str_field(out: &mut Vec<u8>, s: &String)
    requires
        encode_utf8(s@).len() <= u32::MAX,
    ensures
        final(out)@ == old(out)@ + str_field(s@),
{
    let b = utf8_bytes(s);
    push_u32(out, b.len() as u32);
    push_all(out, b);
    assert(final(out)@ =~= old(out)@ + str_field(s@));
}

/// Frames a well-formed message as the request with the given correlation
/// identifier. The same inputs always give the same bytes.
pub fn encode_request(correlation_id: u64, m: &Message) -> (r: Vec<u8>)
    requires
        m.well_formed(),
    ensures
        r@ == request_bytes(correlation_id, *m),
{
    let mut out: Vec<u8> = Vec::new();
    push_u64(&mut out, correlation_id);
    push_str_field(&mut out, &m.topic);
    push_str_field(&mut out, &m.tag);
    push_u32(&mut out, m.properties.len() as u32);
    let ghost head = out@;
    let mut i: usize = 0;
    while i < m.properties.len()
        invariant
            i <= m.properties@.len(),
            m.well_formed(),
            out@ == head + props_bytes(m.properties@.subrange(0, i as int)),
        decreases m.properties@.len() - i,
    {
        let ghost before = out@;
        push_str_field(&mut out, &m.properties[i].0);
        push_str_field(&mut out, &m.properties[i].1);
        let ghost p = m.properties@.subrange(0, i + 1);
        assert(p.drop_last() =~= m.properties@.subrange(0, i as int));
        i = i + 1;
        assert(out@ =~= head + props_bytes(p));
    }
    assert(m.properties@.subrange(0, i as int) =~= m.properties@);
    push_u32(&mut out, m.body.len() as u32);
    push_all(&mut out, m.body.as_slice());
    assert(out@ =~= request_bytes(correlation_id, *m));
    out
}

/// The length of the whole reply frame whose first bytes are `header`, read
/// from the length field; `None` while the header is incomplete.
pub fn reply_frame_len(header: &[u8]) -> (r: Option<u64>)
    ensures
        header@.len() < REPLY_HEADER_LEN ==> r is None,
        header@.len() >= REPLY_HEADER_LEN ==> r == Some(
            (REPLY_HEADER_LEN + announced_len(header@)) as u64,
        ),
{
    if header.len() < REPLY_HEADER_LEN {
        return None;
    }
    let len: u32 = ((header[9] as u32) << 24u32) | ((header[10] as u32) << 16u32) | ((
    header[11] as u32) << 8u32) | (header[12] as u32);
    Some(REPLY_HEADER_LEN as u64 + len as u64)
}

} // verus!
