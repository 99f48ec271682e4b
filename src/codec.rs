//! The wire codec: a fixed, deterministic binary layout.
//!
//! Integers are little-endian (`u64` in 8 bytes, `u128` as its low then high
//! half), every byte string and text is preceded by its length as a `u64`,
//! texts are UTF-8, an option is a tag byte 0 or 1 followed by its value, and
//! an enumeration is one tag byte. Each parser below is sound (what it returns
//! re-encodes to exactly the bytes it consumed) and complete (on bytes that
//! begin with the encoding of a value, it returns that value).

use crate::message::{opt_view, Message, MessageMetadata, MessageType, MessageView, Priority, ServiceInfo};
use crate::registry::string_views;
use vstd::prelude::*;
use vstd::string::*;
use vstd::utf8::{encode_utf8, valid_utf8};

verus! {

/// The little-endian bytes of `x`.
pub open spec fn le64(x: u64) -> Seq<u8> {
    seq![
        x as u8,
        (x >> 8) as u8,
        (x >> 16) as u8,
        (x >> 24) as u8,
        (x >> 32) as u8,
        (x >> 40) as u8,
        (x >> 48) as u8,
        (x >> 56) as u8,
    ]
}

/// The encoding of a `u128`: its low half, then its high half.
pub open spec fn enc_u128(x: u128) -> Seq<u8> {
    le64(x as u64) + le64((x >> 64) as u64)
}

/// The encoding of a byte string: its length, then its bytes.
pub open spec fn enc_bytes(b: Seq<u8>) -> Seq<u8> {
    le64(b.len() as u64) + b
}

/// The encoding of a text: the length-prefixed UTF-8 bytes.
pub open spec fn enc_str(s: Seq<char>) -> Seq<u8> {
    enc_bytes(encode_utf8(s))
}

/// The encoding of an optional text.
pub open spec fn enc_opt_str(o: Option<Seq<char>>) -> Seq<u8> {
    match o {
        None => seq![0u8],
        Some(s) => seq![1u8] + enc_str(s),
    }
}

/// The encoding of an optional `u64`.
pub open spec fn enc_opt_u64(o: Option<u64>) -> Seq<u8> {
    match o {
        None => seq![0u8],
        Some(x) => seq![1u8] + le64(x),
    }
}

/// The encoding of an optional `u128`.
pub open spec fn enc_opt_u128(o: Option<u128>) -> Seq<u8> {
    match o {
        None => seq![0u8],
        Some(x) => seq![1u8] + enc_u128(x),
    }
}

/// The encoding of a flag.
pub open spec fn enc_bool(b: bool) -> Seq<u8> {
    seq![if b { 1u8 } else { 0u8 }]
}

/// `e` stands in `b` at `pos`.
pub open spec fn at(b: Seq<u8>, pos: int, e: Seq<u8>) -> bool {
    0 <= pos && pos + e.len() <= b.len() && b.subrange(pos, pos + e.len()) == e
}

/// Two pieces stand in a row exactly when their concatenation stands.
pub proof fn lemma_at_concat(b: Seq<u8>, pos: int, x: Seq<u8>, y: Seq<u8>)
    ensures
        at(b, pos, x + y) <==> (at(b, pos, x) && at(b, pos + x.len(), y)),
{
    if at(b, pos, x + y) {
        let s = b.subrange(pos, pos + x.len() + y.len());
        assert(s == x + y);
        assert(b.subrange(pos, pos + x.len()) =~= s.subrange(0, x.len() as int));
        assert(s.subrange(0, x.len() as int) =~= x);
        assert(b.subrange(pos + x.len(), pos + x.len() + y.len()) =~= s.subrange(
            x.len() as int,
            s.len() as int,
        ));
        assert(s.subrange(x.len() as int, s.len() as int) =~= y);
    }
    if at(b, pos, x) && at(b, pos + x.len(), y) {
        assert(b.subrange(pos, pos + (x + y).len()) =~= b.subrange(pos, pos + x.len())
            + b.subrange(pos + x.len(), pos + x.len() + y.len()));
    }
}

proof fn lemma_le64_read(b0: u8, b1: u8, b2: u8, b3: u8, b4: u8, b5: u8, b6: u8, b7: u8)
    ensures
        ({
            let x = (b0 as u64) | ((b1 as u64) << 8) | ((b2 as u64) << 16) | ((b3 as u64) << 24)
                | ((b4 as u64) << 32) | ((b5 as u64) << 40) | ((b6 as u64) << 48) | ((b7 as u64)
                << 56);
            &&& x as u8 == b0
            &&& (x >> 8) as u8 == b1
            &&& (x >> 16) as u8 == b2
            &&& (x >> 24) as u8 == b3
            &&& (x >> 32) as u8 == b4
            &&& (x >> 40) as u8 == b5
            &&& (x >> 48) as u8 == b6
            &&& (x >> 56) as u8 == b7
        }),
{
    assert({
        let x = (b0 as u64) | ((b1 as u64) << 8) | ((b2 as u64) << 16) | ((b3 as u64) << 24) | ((
        b4 as u64) << 32) | ((b5 as u64) << 40) | ((b6 as u64) << 48) | ((b7 as u64) << 56);
        &&& x as u8 == b0
        &&& (x >> 8) as u8 == b1
        &&& (x >> 16) as u8 == b2
        &&& (x >> 24) as u8 == b3
        &&& (x >> 32) as u8 == b4
        &&& (x >> 40) as u8 == b5
        &&& (x >> 48) as u8 == b6
        &&& (x >> 56) as u8 == b7
    }) by (bit_vector);
}

proof fn lemma_le64_rebuild(v: u64)
    ensures
        v == ((v as u8) as u64) | ((((v >> 8) as u8) as u64) << 8) | ((((v >> 16) as u8) as u64)
            << 16) | ((((v >> 24) as u8) as u64) << 24) | ((((v >> 32) as u8) as u64) << 32) | ((((v
            >> 40) as u8) as u64) << 40) | ((((v >> 48) as u8) as u64) << 48) | ((((v >> 56) as u8)
            as u64) << 56),
{
    assert(v == ((v as u8) as u64) | ((((v >> 8) as u8) as u64) << 8) | ((((v >> 16) as u8) as u64)
        << 16) | ((((v >> 24) as u8) as u64) << 24) | ((((v >> 32) as u8) as u64) << 32) | ((((v
        >> 40) as u8) as u64) << 40) | ((((v >> 48) as u8) as u64) << 48) | ((((v >> 56) as u8)
        as u64) << 56)) by (bit_vector);
}

proof fn lemma_u128_halves(lo: u64, hi: u64)
    ensures
        ((lo as u128) | ((hi as u128) << 64)) as u64 == lo,
        (((lo as u128) | ((hi as u128) << 64)) >> 64) as u64 == hi,
{
    assert(((lo as u128) | ((hi as u128) << 64)) as u64 == lo) by (bit_vector);
    assert((((lo as u128) | ((hi as u128) << 64)) >> 64) as u64 == hi) by (bit_vector);
}

proof fn lemma_u128_rebuild(v: u128)
    ensures
        v == (((v as u64) as u128) | ((((v >> 64) as u64) as u128) << 64)),
{
    assert(v == (((v as u64) as u128) | ((((v >> 64) as u64) as u128) << 64))) by (bit_vector);
}

/// Appends the encoding of `x`.
pub fn put_u64(out: &mut Vec<u8>, x: u64)
    ensures
        final(out)@ == old(out)@ + le64(x),
{
    out.push(x as u8);
    out.push((x >> 8) as u8);
    out.push((x >> 16) as u8);
    out.push((x >> 24) as u8);
    out.push((x >> 32) as u8);
    out.push((x >> 40) as u8);
    out.push((x >> 48) as u8);
    out.push((x >> 56) as u8);
    assert(final(out)@ =~= old(out)@ + le64(x));
}

/// Appends the encoding of `x`.
pub fn put_u128(out: &mut Vec<u8>, x: u128)
    ensures
        final(out)@ == old(out)@ + enc_u128(x),
{
    put_u64(out, x as u64);
    put_u64(out, (x >> 64) as u64);
    assert(final(out)@ =~= old(out)@ + enc_u128(x));
}

/// Appends one byte.
pub fn put_u8(out: &mut Vec<u8>, x: u8)
    ensures
        final(out)@ == old(out)@ + seq![x],
{
    out.push(x);
    assert(final(out)@ =~= old(out)@ + seq![x]);
}

/// Appends raw bytes.
pub fn put_raw(out: &mut Vec<u8>, b: &[u8])
    ensures
        final(out)@ == old(out)@ + b@,
{
    let ghost start = out@;
    let mut i: usize = 0;
    while i < b.len()
        invariant
            i <= b@.len(),
            out@ == start + b@.subrange(0, i as int),
        decreases b@.len() - i,
    {
        out.push(b[i]);
        i = i + 1;
        proof {
            assert(out@ =~= start + b@.subrange(0, i as int));
        }
    }
    assert(b@.subrange(0, i as int) =~= b@);
}

/// Appends the encoding of a byte string.
pub fn put_bytes(out: &mut Vec<u8>, b: &[u8])
    ensures
        final(out)@ == old(out)@ + enc_bytes(b@),
{
    put_u64(out, b.len() as u64);
    put_raw(out, b);
    assert(final(out)@ =~= old(out)@ + enc_bytes(b@));
}

/// Appends the encoding of a text.
pub fn put_str(out: &mut Vec<u8>, s: &str)
    ensures
        final(out)@ == old(out)@ + enc_str(s@),
{
    put_bytes(out, s.as_bytes());
}

/// Appends the encoding of an optional text.
pub fn put_opt_str(out: &mut Vec<u8>, o: &Option<String>)
    ensures
        final(out)@ == old(out)@ + enc_opt_str(crate::message::opt_view(*o)),
{
    match o {
        None => put_u8(out, 0),
        Some(s) => {
            put_u8(out, 1);
            put_str(out, s.as_str());
            assert(final(out)@ =~= old(out)@ + enc_opt_str(crate::message::opt_view(*o)));
        },
    }
}

/// Appends the encoding of an optional `u64`.
pub fn put_opt_u64(out: &mut Vec<u8>, o: Option<u64>)
    ensures
        final(out)@ == old(out)@ + enc_opt_u64(o),
{
    match o {
        None => put_u8(out, 0),
        Some(x) => {
            put_u8(out, 1);
            put_u64(out, x);
            assert(final(out)@ =~= old(out)@ + enc_opt_u64(o));
        },
    }
}

/// Appends the encoding of an optional `u128`.
pub fn put_opt_u128(out: &mut Vec<u8>, o: Option<u128>)
    ensures
        final(out)@ == old(out)@ + enc_opt_u128(o),
{
    match o {
        None => put_u8(out, 0),
        Some(x) => {
            put_u8(out, 1);
            put_u128(out, x);
            assert(final(out)@ =~= old(out)@ + enc_opt_u128(o));
        },
    }
}

/// Reads one byte at `pos`.
pub fn get_u8(b: &[u8], pos: usize) -> (r: Option<(u8, usize)>)
    ensures
        r matches Some((v, n)) ==> n == pos + 1 && at(b@, pos as int, seq![v]),
        forall|v: u8| #[trigger] at(b@, pos as int, seq![v]) ==> r == Some((v, (pos + 1) as usize)),
{
    if pos < b.len() {
        let v = b[pos];
        proof {
            assert(b@.subrange(pos as int, pos + 1) =~= seq![v]);
            assert forall|w: u8| #[trigger] at(b@, pos as int, seq![w]) implies w == v by {
                assert(b@.subrange(pos as int, pos + 1)[0] == w);
            }
        }
        Some((v, pos + 1))
    } else {
        None
    }
}

/// Reads a `u64` at `pos`.
pub fn get_u64(b: &[u8], pos: usize) -> (r: Option<(u64, usize)>)
    ensures
        r matches Some((v, n)) ==> n == pos + 8 && at(b@, pos as int, le64(v)),
        forall|v: u64| #[trigger] at(b@, pos as int, le64(v)) ==> r == Some((v, (pos + 8) as usize)),
{
    if pos > b.len() || b.len() - pos < 8 {
        return None;
    }
    let x = (b[pos] as u64) | ((b[pos + 1] as u64) << 8) | ((b[pos + 2] as u64) << 16) | ((b[pos
        + 3] as u64) << 24) | ((b[pos + 4] as u64) << 32) | ((b[pos + 5] as u64) << 40) | ((b[pos
        + 6] as u64) << 48) | ((b[pos + 7] as u64) << 56);
    proof {
        let p = pos as int;
        lemma_le64_read(b@[p], b@[p + 1], b@[p + 2], b@[p + 3], b@[p + 4], b@[p + 5], b@[p + 6], b@[p + 7]);
        assert(b@.subrange(p, p + 8) =~= le64(x));
        assert forall|v: u64| #[trigger] at(b@, pos as int, le64(v)) implies v == x by {
            let s = b@.subrange(p, p + 8);
            assert(s[0] == b@[p] && s[1] == b@[p + 1] && s[2] == b@[p + 2] && s[3] == b@[p + 3]);
            assert(s[4] == b@[p + 4] && s[5] == b@[p + 5] && s[6] == b@[p + 6] && s[7] == b@[p + 7]);
            lemma_le64_rebuild(v);
        }
    }
    Some((x, pos + 8))
}

/// Reads a `u128` at `pos`.
pub fn get_u128(b: &[u8], pos: usize) -> (r: Option<(u128, usize)>)
    ensures
        r matches Some((v, n)) ==> n == pos + 16 && at(b@, pos as int, enc_u128(v)),
        forall|v: u128| #[trigger] at(b@, pos as int, enc_u128(v)) ==> r == Some(
            (v, (pos + 16) as usize),
        ),
{
    let (lo, q1) = match get_u64(b, pos) {
        Some(x) => x,
        None => {
            proof {
                assert forall|v: u128| !#[trigger] at(b@, pos as int, enc_u128(v)) by {
                    lemma_at_concat(b@, pos as int, le64(v as u64), le64((v >> 64) as u64));
                }
            }
            return None;
        },
    };
    let (hi, q2) = match get_u64(b, q1) {
        Some(x) => x,
        None => {
            proof {
                assert forall|v: u128| !#[trigger] at(b@, pos as int, enc_u128(v)) by {
                    lemma_at_concat(b@, pos as int, le64(v as u64), le64((v >> 64) as u64));
                }
            }
            return None;
        },
    };
    let x = (lo as u128) | ((hi as u128) << 64);
    proof {
        lemma_u128_halves(lo, hi);
        lemma_at_concat(b@, pos as int, le64(lo), le64(hi));
        assert forall|v: u128| #[trigger] at(b@, pos as int, enc_u128(v)) implies v == x by {
            lemma_at_concat(b@, pos as int, le64(v as u64), le64((v >> 64) as u64));
            lemma_u128_rebuild(v);
        }
    }
    Some((x, q2))
}

/// Copies `len` bytes from `pos`.
fn take_raw(b: &[u8], pos: usize, len: usize) -> (r: Vec<u8>)
    requires
        pos + len <= b@.len(),
    ensures
        r@ == b@.subrange(pos as int, pos + len),
{
    let mut out: Vec<u8> = Vec::new();
    let mut i: usize = 0;
    let blen = b.len();
    while i < len
        invariant
            blen == b@.len(),
            pos + len <= b@.len(),
            i <= len,
            out@ == b@.subrange(pos as int, pos + i),
        decreases len - i,
    {
        out.push(b[pos + i]);
        i = i + 1;
        proof {
            assert(out@ =~= b@.subrange(pos as int, pos + i));
        }
    }
    out
}

/// Reads a byte string at `pos`.
pub fn get_bytes(b: &[u8], pos: usize) -> (r: Option<(Vec<u8>, usize)>)
    ensures
        r matches Some((v, n)) ==> n == pos + enc_bytes(v@).len() && at(b@, pos as int, enc_bytes(v@)),
        forall|v: Seq<u8>| #[trigger] at(b@, pos as int, enc_bytes(v)) ==> (r matches Some((w, n))
            && w@ == v && n == pos + enc_bytes(v).len()),
{
    let (len, q1) = match get_u64(b, pos) {
        Some(x) => x,
        None => {
            proof {
                assert forall|v: Seq<u8>| !#[trigger] at(b@, pos as int, enc_bytes(v)) by {
                    lemma_at_concat(b@, pos as int, le64(v.len() as u64), v);
                }
            }
            return None;
        },
    };
    if len as u128 > (b.len() - q1) as u128 {
        proof {
            assert forall|v: Seq<u8>| !#[trigger] at(b@, pos as int, enc_bytes(v)) by {
                lemma_at_concat(b@, pos as int, le64(v.len() as u64), v);
            }
        }
        return None;
    }
    let n = len as usize;
    let v = take_raw(b, q1, n);
    proof {
        assert(at(b@, q1 as int, v@));
        lemma_at_concat(b@, pos as int, le64(len), v@);
        assert(le64(v@.len() as u64) == le64(len));
        assert forall|w: Seq<u8>| #[trigger] at(b@, pos as int, enc_bytes(w)) implies w == v@ by {
            lemma_at_concat(b@, pos as int, le64(w.len() as u64), w);
            assert(w.len() as u64 == len);
            assert(w =~= b@.subrange(q1 as int, q1 + w.len()));
        }
    }
    Some((v, q1 + n))
}

/// Relies on `String::from_utf8`: it succeeds exactly on valid UTF-8, and the
/// text it returns is the one those bytes encode.
#[verifier::external_body]
pub(crate) fn utf8_text(bytes: Vec<u8>) -> (r: Option<String>)
    ensures
        r.is_some() == valid_utf8(bytes@),
        r matches Some(s) ==> encode_utf8(s@) == bytes@,
{
    String::from_utf8(bytes).ok()
}

/// Reads a text at `pos`.
pub fn get_str(b: &[u8], pos: usize) -> (r: Option<(String, usize)>)
    ensures
        r matches Some((v, n)) ==> n == pos + enc_str(v@).len() && at(b@, pos as int, enc_str(v@)),
        forall|v: Seq<char>| #[trigger] at(b@, pos as int, enc_str(v)) ==> (r matches Some((w, n))
            && w@ == v && n == pos + enc_str(v).len()),
{
    let (raw, n) = match get_bytes(b, pos) {
        Some(x) => x,
        None => {
            return None;
        },
    };
    let ghost raw_view = raw@;
    match utf8_text(raw) {
        Some(s) => {
            proof {
                assert forall|v: Seq<char>| #[trigger] at(b@, pos as int, enc_str(v)) implies s@
                    == v by {
                    vstd::utf8::encode_utf8_decode_utf8(v);
                    vstd::utf8::encode_utf8_decode_utf8(s@);
                }
            }
            Some((s, n))
        },
        None => {
            proof {
                assert forall|v: Seq<char>| !#[trigger] at(b@, pos as int, enc_str(v)) by {
                    vstd::utf8::encode_utf8_valid_utf8(v);
                }
            }
            None
        },
    }
}


/// The tag byte of a message kind.
pub open spec fn type_tag(t: MessageType) -> u8 {
    match t {
        MessageType::Request => 0,
        MessageType::Response => 1,
        MessageType::Event => 2,
        MessageType::Subscribe => 3,
        MessageType::Unsubscribe => 4,
        MessageType::Heartbeat => 5,
        MessageType::Error => 6,
        MessageType::ServiceRegister => 7,
        MessageType::ServiceUnregister => 8,
        MessageType::ServiceQuery => 9,
        MessageType::ServiceDirectory => 10,
        MessageType::SubscriptionRequest => 11,
        MessageType::SubscriptionAccept => 12,
        MessageType::SubscriptionReject => 13,
        MessageType::SubscriptionData => 14,
        MessageType::SubscriptionCancel => 15,
        MessageType::Shutdown => 16,
    }
}

/// The tag byte of a priority.
pub open spec fn priority_tag(p: Priority) -> u8 {
    match p {
        Priority::Low => 0,
        Priority::Normal => 1,
        Priority::High => 2,
    }
}

/// The encoding of envelope metadata.
pub open spec fn enc_metadata(m: MessageMetadata) -> Seq<u8> {
    le64(m.timestamp) + seq![priority_tag(m.priority)] + enc_opt_u64(m.ttl) + enc_bool(m.retain)
}

/// The encoding of the routing part of an envelope.
pub open spec fn header_bytes(
    id: u128,
    t: MessageType,
    source: Seq<char>,
    target: Option<Seq<char>>,
    topic: Option<Seq<char>>,
) -> Seq<u8> {
    enc_u128(id) + seq![type_tag(t)] + enc_str(source) + enc_opt_str(target) + enc_opt_str(topic)
}

/// The encoding of an envelope: its fields in declaration order.
pub open spec fn message_bytes(m: MessageView) -> Seq<u8> {
    header_bytes(m.id, m.msg_type, m.source, m.target, m.topic) + enc_bytes(m.payload)
        + enc_opt_u128(m.correlation_id) + enc_metadata(m.metadata)
}

fn message_type_tag(t: MessageType) -> (r: u8)
    ensures
        r == type_tag(t),
{
    match t {
        MessageType::Request => 0,
        MessageType::Response => 1,
        MessageType::Event => 2,
        MessageType::Subscribe => 3,
        MessageType::Unsubscribe => 4,
        MessageType::Heartbeat => 5,
        MessageType::Error => 6,
        MessageType::ServiceRegister => 7,
        MessageType::ServiceUnregister => 8,
        MessageType::ServiceQuery => 9,
        MessageType::ServiceDirectory => 10,
        MessageType::SubscriptionRequest => 11,
        MessageType::SubscriptionAccept => 12,
        MessageType::SubscriptionReject => 13,
        MessageType::SubscriptionData => 14,
        MessageType::SubscriptionCancel => 15,
        MessageType::Shutdown => 16,
    }
}

fn message_type_of(tag: u8) -> (r: Option<MessageType>)
    ensures
        r matches Some(t) ==> type_tag(t) == tag,
        forall|t: MessageType| type_tag(t) == tag ==> r == Some(t),
{
    match tag {
        0 => Some(MessageType::Request),
        1 => Some(MessageType::Response),
        2 => Some(MessageType::Event),
        3 => Some(MessageType::Subscribe),
        4 => Some(MessageType::Unsubscribe),
        5 => Some(MessageType::Heartbeat),
        6 => Some(MessageType::Error),
        7 => Some(MessageType::ServiceRegister),
        8 => Some(MessageType::ServiceUnregister),
        9 => Some(MessageType::ServiceQuery),
        10 => Some(MessageType::ServiceDirectory),
        11 => Some(MessageType::SubscriptionRequest),
        12 => Some(MessageType::SubscriptionAccept),
        13 => Some(MessageType::SubscriptionReject),
        14 => Some(MessageType::SubscriptionData),
        15 => Some(MessageType::SubscriptionCancel),
        16 => Some(MessageType::Shutdown),
        _ => None,
    }
}

fn priority_of(tag: u8) -> (r: Option<Priority>)
    ensures
        r matches Some(p) ==> priority_tag(p) == tag,
        forall|p: Priority| priority_tag(p) == tag ==> r == Some(p),
{
    match tag {
        0 => Some(Priority::Low),
        1 => Some(Priority::Normal),
        2 => Some(Priority::High),
        _ => None,
    }
}

/// Reads an optional text at `pos`.
pub fn get_opt_str(b: &[u8], pos: usize) -> (r: Option<(Option<String>, usize)>)
    ensures
        r matches Some((v, n)) ==> n == pos + enc_opt_str(opt_view(v)).len() && at(
            b@,
            pos as int,
            enc_opt_str(opt_view(v)),
        ),
        forall|v: Option<Seq<char>>| #[trigger] at(b@, pos as int, enc_opt_str(v)) ==> (r matches Some(
            (w, n),
        ) && opt_view(w) == v && n == pos + enc_opt_str(v).len()),
{
    let (tag, q1) = match get_u8(b, pos) {
        Some(x) => x,
        None => {
            proof {
                assert forall|v: Option<Seq<char>>| !#[trigger] at(b@, pos as int, enc_opt_str(v)) by {
                    match v {
                        Some(s) => lemma_at_concat(b@, pos as int, seq![1u8], enc_str(s)),
                        None => {},
                    }
                }
            }
            return None;
        },
    };
    if tag == 0 {
        proof {
            assert forall|v: Option<Seq<char>>| #[trigger] at(b@, pos as int, enc_opt_str(v)) implies v is None by {
                if let Some(s) = v {
                    lemma_at_concat(b@, pos as int, seq![1u8], enc_str(s));
                }
            }
        }
        Some((None, q1))
    } else if tag == 1 {
        match get_str(b, q1) {
            Some((s, q2)) => {
                proof {
                    lemma_at_concat(b@, pos as int, seq![1u8], enc_str(s@));
                    assert forall|v: Option<Seq<char>>| #[trigger] at(b@, pos as int, enc_opt_str(v)) implies v == Some(s@) by {
                        if let Some(t) = v {
                            lemma_at_concat(b@, pos as int, seq![1u8], enc_str(t));
                        }
                    }
                }
                Some((Some(s), q2))
            },
            None => {
                proof {
                    assert forall|v: Option<Seq<char>>| !#[trigger] at(b@, pos as int, enc_opt_str(v)) by {
                        if let Some(t) = v {
                            lemma_at_concat(b@, pos as int, seq![1u8], enc_str(t));
                        }
                    }
                }
                None
            },
        }
    } else {
        proof {
            assert forall|v: Option<Seq<char>>| !#[trigger] at(b@, pos as int, enc_opt_str(v)) by {
                if let Some(t) = v {
                    lemma_at_concat(b@, pos as int, seq![1u8], enc_str(t));
                }
            }
        }
        None
    }
}

/// Reads an optional `u64` at `pos`.
pub fn get_opt_u64(b: &[u8], pos: usize) -> (r: Option<(Option<u64>, usize)>)
    ensures
        r matches Some((v, n)) ==> n == pos + enc_opt_u64(v).len() && at(b@, pos as int, enc_opt_u64(v)),
        forall|v: Option<u64>| #[trigger] at(b@, pos as int, enc_opt_u64(v)) ==> r == Some(
            (v, (pos + enc_opt_u64(v).len()) as usize),
        ),
{
    let (tag, q1) = match get_u8(b, pos) {
        Some(x) => x,
        None => {
            proof {
                assert forall|v: Option<u64>| !#[trigger] at(b@, pos as int, enc_opt_u64(v)) by {
                    if let Some(x) = v {
                        lemma_at_concat(b@, pos as int, seq![1u8], le64(x));
                    }
                }
            }
            return None;
        },
    };
    if tag == 0 {
        proof {
            assert forall|v: Option<u64>| #[trigger] at(b@, pos as int, enc_opt_u64(v)) implies v is None by {
                if let Some(x) = v {
                    lemma_at_concat(b@, pos as int, seq![1u8], le64(x));
                }
            }
        }
        Some((None, q1))
    } else if tag == 1 {
        match get_u64(b, q1) {
            Some((x, q2)) => {
                proof {
                    lemma_at_concat(b@, pos as int, seq![1u8], le64(x));
                    assert forall|v: Option<u64>| #[trigger] at(b@, pos as int, enc_opt_u64(v)) implies v == Some(x) by {
                        if let Some(y) = v {
                            lemma_at_concat(b@, pos as int, seq![1u8], le64(y));
                        }
                    }
                }
                Some((Some(x), q2))
            },
            None => {
                proof {
                    assert forall|v: Option<u64>| !#[trigger] at(b@, pos as int, enc_opt_u64(v)) by {
                        if let Some(y) = v {
                            lemma_at_concat(b@, pos as int, seq![1u8], le64(y));
                        }
                    }
                }
                None
            },
        }
    } else {
        proof {
            assert forall|v: Option<u64>| !#[trigger] at(b@, pos as int, enc_opt_u64(v)) by {
                if let Some(y) = v {
                    lemma_at_concat(b@, pos as int, seq![1u8], le64(y));
                }
            }
        }
        None
    }
}

/// Reads an optional `u128` at `pos`.
pub fn get_opt_u128(b: &[u8], pos: usize) -> (r: Option<(Option<u128>, usize)>)
    ensures
        r matches Some((v, n)) ==> n == pos + enc_opt_u128(v).len() && at(b@, pos as int, enc_opt_u128(v)),
        forall|v: Option<u128>| #[trigger] at(b@, pos as int, enc_opt_u128(v)) ==> r == Some(
            (v, (pos + enc_opt_u128(v).len()) as usize),
        ),
{
    let (tag, q1) = match get_u8(b, pos) {
        Some(x) => x,
        None => {
            proof {
                assert forall|v: Option<u128>| !#[trigger] at(b@, pos as int, enc_opt_u128(v)) by {
                    if let Some(x) = v {
                        lemma_at_concat(b@, pos as int, seq![1u8], enc_u128(x));
                    }
                }
            }
            return None;
        },
    };
    if tag == 0 {
        proof {
            assert forall|v: Option<u128>| #[trigger] at(b@, pos as int, enc_opt_u128(v)) implies v is None by {
                if let Some(x) = v {
                    lemma_at_concat(b@, pos as int, seq![1u8], enc_u128(x));
                }
            }
        }
        Some((None, q1))
    } else if tag == 1 {
        match get_u128(b, q1) {
            Some((x, q2)) => {
                proof {
                    lemma_at_concat(b@, pos as int, seq![1u8], enc_u128(x));
                    assert forall|v: Option<u128>| #[trigger] at(b@, pos as int, enc_opt_u128(v)) implies v == Some(x) by {
                        if let Some(y) = v {
                            lemma_at_concat(b@, pos as int, seq![1u8], enc_u128(y));
                        }
                    }
                }
                Some((Some(x), q2))
            },
            None => {
                proof {
                    assert forall|v: Option<u128>| !#[trigger] at(b@, pos as int, enc_opt_u128(v)) by {
                        if let Some(y) = v {
                            lemma_at_concat(b@, pos as int, seq![1u8], enc_u128(y));
                        }
                    }
                }
                None
            },
        }
    } else {
        proof {
            assert forall|v: Option<u128>| !#[trigger] at(b@, pos as int, enc_opt_u128(v)) by {
                if let Some(y) = v {
                    lemma_at_concat(b@, pos as int, seq![1u8], enc_u128(y));
                }
            }
        }
        None
    }
}

/// Encodes an envelope.
pub fn encode_message(m: &Message) -> (r: Vec<u8>)
    ensures
        r@ == message_bytes(m@),
{
    let mut out: Vec<u8> = Vec::new();
    put_u128(&mut out, m.id);
    put_u8(&mut out, message_type_tag(m.msg_type));
    put_str(&mut out, m.source.as_str());
    put_opt_str(&mut out, &m.target);
    put_opt_str(&mut out, &m.topic);
    let ghost head = out@;
    put_bytes(&mut out, m.payload.as_slice());
    put_opt_u128(&mut out, m.correlation_id);
    let ghost middle = out@;
    put_u64(&mut out, m.metadata.timestamp);
    put_u8(&mut out, priority_tag_of(m.metadata.priority));
    put_opt_u64(&mut out, m.metadata.ttl);
    put_u8(&mut out, if m.metadata.retain { 1 } else { 0 });
    assert(head =~= header_bytes(m.id, m.msg_type, m@.source, m@.target, m@.topic));
    assert(out@.subrange(middle.len() as int, out@.len() as int) =~= enc_metadata(m.metadata));
    assert(out@ =~= message_bytes(m@));
    out
}

fn priority_tag_of(p: Priority) -> (r: u8)
    ensures
        r == priority_tag(p),
{
    match p {
        Priority::Low => 0,
        Priority::Normal => 1,
        Priority::High => 2,
    }
}


/// Reads envelope metadata at `pos`.
pub fn get_metadata(b: &[u8], pos: usize) -> (r: Option<(MessageMetadata, usize)>)
    ensures
        r matches Some((v, n)) ==> n == pos + enc_metadata(v).len() && at(b@, pos as int, enc_metadata(v)),
        forall|v: MessageMetadata| #[trigger] at(b@, pos as int, enc_metadata(v)) ==> r == Some(
            (v, (pos + enc_metadata(v).len()) as usize),
        ),
{
    let (timestamp, q1) = match get_u64(b, pos) {
        Some(x) => x,
        None => {
            proof {
                assert forall|v: MessageMetadata| !#[trigger] at(b@, pos as int, enc_metadata(v)) by {
                    lemma_metadata_parts(b@, pos as int, v);
                }
            }
            return None;
        },
    };
    let (ptag, q2) = match get_u8(b, q1) {
        Some(x) => x,
        None => {
            proof {
                assert forall|v: MessageMetadata| !#[trigger] at(b@, pos as int, enc_metadata(v)) by {
                    lemma_metadata_parts(b@, pos as int, v);
                }
            }
            return None;
        },
    };
    let priority = match priority_of(ptag) {
        Some(p) => p,
        None => {
            proof {
                assert forall|v: MessageMetadata| !#[trigger] at(b@, pos as int, enc_metadata(v)) by {
                    lemma_metadata_parts(b@, pos as int, v);
                }
            }
            return None;
        },
    };
    let (ttl, q3) = match get_opt_u64(b, q2) {
        Some(x) => x,
        None => {
            proof {
                assert forall|v: MessageMetadata| !#[trigger] at(b@, pos as int, enc_metadata(v)) by {
                    lemma_metadata_parts(b@, pos as int, v);
                }
            }
            return None;
        },
    };
    let (rtag, q4) = match get_u8(b, q3) {
        Some(x) => x,
        None => {
            proof {
                assert forall|v: MessageMetadata| !#[trigger] at(b@, pos as int, enc_metadata(v)) by {
                    lemma_metadata_parts(b@, pos as int, v);
                }
            }
            return None;
        },
    };
    if rtag > 1 {
        proof {
            assert forall|v: MessageMetadata| !#[trigger] at(b@, pos as int, enc_metadata(v)) by {
                lemma_metadata_parts(b@, pos as int, v);
            }
        }
        return None;
    }
    let md = MessageMetadata { timestamp, priority, ttl, retain: rtag == 1 };
    proof {
        assert(enc_bool(rtag == 1) == seq![rtag]);
        lemma_metadata_parts(b@, pos as int, md);
        lemma_at_concat(b@, pos as int, le64(timestamp), seq![ptag]);
        lemma_at_concat(b@, pos as int, le64(timestamp) + seq![ptag], enc_opt_u64(ttl));
        lemma_at_concat(b@, pos as int, le64(timestamp) + seq![ptag] + enc_opt_u64(ttl), seq![rtag]);
        assert forall|v: MessageMetadata| #[trigger] at(b@, pos as int, enc_metadata(v)) implies v == md by {
            lemma_metadata_parts(b@, pos as int, v);
        }
    }
    Some((md, q4))
}

proof fn lemma_metadata_parts(b: Seq<u8>, pos: int, v: MessageMetadata)
    ensures
        at(b, pos, enc_metadata(v)) ==> {
            &&& at(b, pos, le64(v.timestamp))
            &&& at(b, pos + 8, seq![priority_tag(v.priority)])
            &&& at(b, pos + 9, enc_opt_u64(v.ttl))
            &&& at(b, pos + 9 + enc_opt_u64(v.ttl).len(), enc_bool(v.retain))
        },
{
    let a = le64(v.timestamp);
    let p = seq![priority_tag(v.priority)];
    let t = enc_opt_u64(v.ttl);
    let r = enc_bool(v.retain);
    lemma_at_concat(b, pos, a + p + t, r);
    lemma_at_concat(b, pos, a + p, t);
    lemma_at_concat(b, pos, a, p);
}

proof fn lemma_header_parts(
    b: Seq<u8>,
    id: u128,
    t: MessageType,
    s: Seq<char>,
    tg: Option<Seq<char>>,
    tp: Option<Seq<char>>,
)
    ensures
        at(b, 0, header_bytes(id, t, s, tg, tp)) ==> {
            &&& at(b, 0, enc_u128(id))
            &&& at(b, 16, seq![type_tag(t)])
            &&& at(b, 17, enc_str(s))
            &&& at(b, 17int + enc_str(s).len(), enc_opt_str(tg))
            &&& at(b, 17int + enc_str(s).len() + enc_opt_str(tg).len(), enc_opt_str(tp))
        },
{
    let e1 = enc_u128(id);
    let e2 = seq![type_tag(t)];
    let e3 = enc_str(s);
    let e4 = enc_opt_str(tg);
    let e5 = enc_opt_str(tp);
    lemma_at_concat(b, 0, e1 + e2 + e3 + e4, e5);
    lemma_at_concat(b, 0, e1 + e2 + e3, e4);
    lemma_at_concat(b, 0, e1 + e2, e3);
    lemma_at_concat(b, 0, e1, e2);
}

/// Reads the routing part of an envelope at the start of `b`.
pub fn get_header(b: &[u8]) -> (r: Option<(u128, MessageType, String, Option<String>, Option<String>, usize)>)
    ensures
        r matches Some((id, t, s, tg, tp, n)) ==> n == header_bytes(id, t, s@, opt_view(tg), opt_view(tp)).len()
            && at(b@, 0, header_bytes(id, t, s@, opt_view(tg), opt_view(tp))),
        forall|id: u128, t: MessageType, s: Seq<char>, tg: Option<Seq<char>>, tp: Option<Seq<char>>|
            #[trigger] at(b@, 0, header_bytes(id, t, s, tg, tp)) ==> (r matches Some((id2, t2, s2, tg2, tp2, n))
            && id2 == id && t2 == t && s2@ == s && opt_view(tg2) == tg && opt_view(tp2) == tp
            && n == header_bytes(id, t, s, tg, tp).len()),
{
    let (id, q1) = match get_u128(b, 0) {
        Some(x) => x,
        None => {
            proof {
                assert forall|id: u128, t: MessageType, s: Seq<char>, tg: Option<Seq<char>>, tp: Option<Seq<char>>|
                    !#[trigger] at(b@, 0, header_bytes(id, t, s, tg, tp)) by {
                    lemma_header_parts(b@, id, t, s, tg, tp);
                }
            }
            return None;
        },
    };
    let (tag, q2) = match get_u8(b, q1) {
        Some(x) => x,
        None => {
            proof {
                assert forall|id: u128, t: MessageType, s: Seq<char>, tg: Option<Seq<char>>, tp: Option<Seq<char>>|
                    !#[trigger] at(b@, 0, header_bytes(id, t, s, tg, tp)) by {
                    lemma_header_parts(b@, id, t, s, tg, tp);
                }
            }
            return None;
        },
    };
    let msg_type = match message_type_of(tag) {
        Some(t) => t,
        None => {
            proof {
                assert forall|id: u128, t: MessageType, s: Seq<char>, tg: Option<Seq<char>>, tp: Option<Seq<char>>|
                    !#[trigger] at(b@, 0, header_bytes(id, t, s, tg, tp)) by {
                    lemma_header_parts(b@, id, t, s, tg, tp);
                }
            }
            return None;
        },
    };
    let (source, q3) = match get_str(b, q2) {
        Some(x) => x,
        None => {
            proof {
                assert forall|id: u128, t: MessageType, s: Seq<char>, tg: Option<Seq<char>>, tp: Option<Seq<char>>|
                    !#[trigger] at(b@, 0, header_bytes(id, t, s, tg, tp)) by {
                    lemma_header_parts(b@, id, t, s, tg, tp);
                }
            }
            return None;
        },
    };
    let (target, q4) = match get_opt_str(b, q3) {
        Some(x) => x,
        None => {
            proof {
                assert forall|id: u128, t: MessageType, s: Seq<char>, tg: Option<Seq<char>>, tp: Option<Seq<char>>|
                    !#[trigger] at(b@, 0, header_bytes(id, t, s, tg, tp)) by {
                    lemma_header_parts(b@, id, t, s, tg, tp);
                }
            }
            return None;
        },
    };
    let (topic, q5) = match get_opt_str(b, q4) {
        Some(x) => x,
        None => {
            proof {
                assert forall|id: u128, t: MessageType, s: Seq<char>, tg: Option<Seq<char>>, tp: Option<Seq<char>>|
                    !#[trigger] at(b@, 0, header_bytes(id, t, s, tg, tp)) by {
                    lemma_header_parts(b@, id, t, s, tg, tp);
                }
            }
            return None;
        },
    };
    proof {
        let e1 = enc_u128(id);
        let e2 = seq![tag];
        let e3 = enc_str(source@);
        let e4 = enc_opt_str(opt_view(target));
        let e5 = enc_opt_str(opt_view(topic));
        lemma_at_concat(b@, 0, e1, e2);
        lemma_at_concat(b@, 0, e1 + e2, e3);
        lemma_at_concat(b@, 0, e1 + e2 + e3, e4);
        lemma_at_concat(b@, 0, e1 + e2 + e3 + e4, e5);
        assert forall|i: u128, t: MessageType, s: Seq<char>, tg: Option<Seq<char>>, tp: Option<Seq<char>>|
            #[trigger] at(b@, 0, header_bytes(i, t, s, tg, tp)) implies i == id && t == msg_type && s == source@
            && tg == opt_view(target) && tp == opt_view(topic) by {
            lemma_header_parts(b@, i, t, s, tg, tp);
        }
    }
    Some((id, msg_type, source, target, topic, q5))
}

proof fn lemma_message_parts(b: Seq<u8>, v: MessageView)
    ensures
        at(b, 0, message_bytes(v)) ==> {
            let h = header_bytes(v.id, v.msg_type, v.source, v.target, v.topic);
            &&& at(b, 0, h)
            &&& at(b, h.len() as int, enc_bytes(v.payload))
            &&& at(b, h.len() as int + enc_bytes(v.payload).len(), enc_opt_u128(v.correlation_id))
            &&& at(b, h.len() as int + enc_bytes(v.payload).len() + enc_opt_u128(v.correlation_id).len(), enc_metadata(v.metadata))
        },
{
    let h = header_bytes(v.id, v.msg_type, v.source, v.target, v.topic);
    let e2 = enc_bytes(v.payload);
    let e3 = enc_opt_u128(v.correlation_id);
    let e4 = enc_metadata(v.metadata);
    lemma_at_concat(b, 0, h + e2 + e3, e4);
    lemma_at_concat(b, 0, h + e2, e3);
    lemma_at_concat(b, 0, h, e2);
}

/// Decodes an envelope. It succeeds exactly on the encodings of envelopes,
/// and returns the one that was encoded.
#[verifier::rlimit(60)]
pub fn decode_message(b: &[u8]) -> (r: Option<Message>)
    ensures
        r matches Some(m) ==> message_bytes(m@) == b@,
        forall|v: MessageView| message_bytes(v) == b@ ==> (r matches Some(m) && m@ == v),
{
    proof {
        assert(b@.subrange(0, b@.len() as int) =~= b@);
    }
    let (id, msg_type, source, target, topic, q1) = match get_header(b) {
        Some(x) => x,
        None => {
            proof {
                assert forall|v: MessageView| message_bytes(v) != b@ by {
                    lemma_message_parts(b@, v);
                }
            }
            return None;
        },
    };
    let (payload, q2) = match get_bytes(b, q1) {
        Some(x) => x,
        None => {
            proof {
                assert forall|v: MessageView| message_bytes(v) != b@ by {
                    lemma_message_parts(b@, v);
                }
            }
            return None;
        },
    };
    let (correlation_id, q3) = match get_opt_u128(b, q2) {
        Some(x) => x,
        None => {
            proof {
                assert forall|v: MessageView| message_bytes(v) != b@ by {
                    lemma_message_parts(b@, v);
                }
            }
            return None;
        },
    };
    let (metadata, q4) = match get_metadata(b, q3) {
        Some(x) => x,
        None => {
            proof {
                assert forall|v: MessageView| message_bytes(v) != b@ by {
                    lemma_message_parts(b@, v);
                }
            }
            return None;
        },
    };
    if q4 != b.len() {
        proof {
            assert forall|v: MessageView| message_bytes(v) != b@ by {
                lemma_message_parts(b@, v);
            }
        }
        return None;
    }
    let m = Message { id, msg_type, source, target, topic, payload, correlation_id, metadata };
    proof {
        let h = header_bytes(id, msg_type, m@.source, m@.target, m@.topic);
        lemma_at_concat(b@, 0, h, enc_bytes(m@.payload));
        lemma_at_concat(b@, 0, h + enc_bytes(m@.payload), enc_opt_u128(correlation_id));
        lemma_at_concat(b@, 0, h + enc_bytes(m@.payload) + enc_opt_u128(correlation_id), enc_metadata(metadata));
        assert(b@.subrange(0, b@.len() as int) =~= b@);
        assert forall|v: MessageView| message_bytes(v) == b@ implies m@ == v by {
            lemma_message_parts(b@, v);
        }
    }
    Some(m)
}


/// The concatenated encodings of a list of texts.
pub open spec fn strs_body(v: Seq<Seq<char>>) -> Seq<u8>
    decreases v.len(),
{
    if v.len() == 0 {
        Seq::<u8>::empty()
    } else {
        strs_body(v.drop_last()) + enc_str(v.last())
    }
}

/// The encoding of a list of texts: its length, then each text.
pub open spec fn enc_strs(v: Seq<Seq<char>>) -> Seq<u8> {
    le64(v.len() as u64) + strs_body(v)
}

/// The encoding of a service record.
pub open spec fn enc_info(name: Seq<char>, methods: Seq<Seq<char>>, endpoint: Seq<char>, at_ms: u64) -> Seq<u8> {
    enc_str(name) + enc_strs(methods) + enc_str(endpoint) + le64(at_ms)
}

/// The encoding of a service record held in a `ServiceInfo`.
pub open spec fn info_bytes(i: ServiceInfo) -> Seq<u8> {
    enc_info(i.name@, string_views(i.methods@), i.process_name@, i.registered_at)
}

proof fn lemma_strs_len(v: Seq<Seq<char>>)
    ensures
        strs_body(v).len() >= v.len(),
    decreases v.len(),
{
    if v.len() > 0 {
        lemma_strs_len(v.drop_last());
    }
}

proof fn lemma_strs_prefix(v: Seq<Seq<char>>, k: int)
    requires
        0 <= k <= v.len(),
    ensures
        strs_body(v) == strs_body(v.take(k)) + strs_body(v).subrange(
            strs_body(v.take(k)).len() as int,
            strs_body(v).len() as int,
        ),
        strs_body(v.take(k)).len() <= strs_body(v).len(),
    decreases v.len() - k,
{
    if k == v.len() {
        assert(v.take(k) =~= v);
        assert(strs_body(v).subrange(strs_body(v).len() as int, strs_body(v).len() as int) =~= Seq::<u8>::empty());
        assert(strs_body(v) =~= strs_body(v) + Seq::<u8>::empty());
    } else {
        lemma_strs_prefix(v.drop_last(), k);
        assert(v.drop_last().take(k) =~= v.take(k));
        let a = strs_body(v.take(k));
        let d = strs_body(v.drop_last());
        assert(strs_body(v) == d + enc_str(v.last()));
        assert(strs_body(v) =~= a + strs_body(v).subrange(a.len() as int, strs_body(v).len() as int));
    }
}

/// Appends the encoding of a list of texts.
pub fn put_strs(out: &mut Vec<u8>, v: &Vec<String>)
    ensures
        final(out)@ == old(out)@ + enc_strs(string_views(v@)),
{
    put_u64(out, v.len() as u64);
    let ghost start = out@;
    let mut i: usize = 0;
    while i < v.len()
        invariant
            i <= v@.len(),
            out@ == start + strs_body(string_views(v@).take(i as int)),
        decreases v@.len() - i,
    {
        put_str(out, v[i].as_str());
        proof {
            assert(string_views(v@).take(i + 1 as int).drop_last() =~= string_views(v@).take(i as int));
        }
        i = i + 1;
        proof {
            assert(out@ =~= start + strs_body(string_views(v@).take(i as int)));
        }
    }
    assert(string_views(v@).take(i as int) =~= string_views(v@));
    assert(final(out)@ =~= old(out)@ + enc_strs(string_views(v@)));
}

proof fn lemma_strs_item_at(b: Seq<u8>, pos: int, v: Seq<Seq<char>>, i: int)
    requires
        at(b, pos, enc_strs(v)),
        0 <= i < v.len(),
    ensures
        at(b, pos + 8, strs_body(v.take(i))),
        at(b, pos + 8 + strs_body(v.take(i)).len(), enc_str(v[i])),
        v.take(i + 1) == v.take(i).push(v[i]),
{
    lemma_at_concat(b, pos, le64(v.len() as u64), strs_body(v));
    lemma_strs_prefix(v, i + 1);
    assert(v.take(i + 1).drop_last() =~= v.take(i));
    lemma_at_concat(
        b,
        pos + 8,
        strs_body(v.take(i + 1)),
        strs_body(v).subrange(strs_body(v.take(i + 1)).len() as int, strs_body(v).len() as int),
    );
    lemma_at_concat(b, pos + 8, strs_body(v.take(i)), enc_str(v[i]));
    assert(v.take(i + 1) =~= v.take(i).push(v[i]));
}

/// Reads a list of texts at `pos`.
pub fn get_strs(b: &[u8], pos: usize) -> (r: Option<(Vec<String>, usize)>)
    ensures
        r matches Some((v, n)) ==> n == pos + enc_strs(string_views(v@)).len() && at(
            b@,
            pos as int,
            enc_strs(string_views(v@)),
        ),
        forall|v: Seq<Seq<char>>| #[trigger] at(b@, pos as int, enc_strs(v)) ==> (r matches Some((w, n))
            && string_views(w@) == v && n == pos + enc_strs(v).len()),
{
    let (count, q1) = match get_u64(b, pos) {
        Some(x) => x,
        None => {
            proof {
                assert forall|v: Seq<Seq<char>>| !#[trigger] at(b@, pos as int, enc_strs(v)) by {
                    lemma_at_concat(b@, pos as int, le64(v.len() as u64), strs_body(v));
                }
            }
            return None;
        },
    };
    let mut out: Vec<String> = Vec::new();
    let mut p: usize = q1;
    let mut i: u64 = 0;
    let blen = b.len();
    proof {
        assert(string_views(out@) =~= Seq::<Seq<char>>::empty());
        assert(b@.subrange(q1 as int, q1 as int) =~= Seq::<u8>::empty());
        assert forall|v: Seq<Seq<char>>| #[trigger] at(b@, pos as int, enc_strs(v)) implies v.len() == count
            && string_views(out@) == v.take(0) by {
            lemma_at_concat(b@, pos as int, le64(v.len() as u64), strs_body(v));
            lemma_strs_len(v);
            assert(v.take(0) =~= Seq::<Seq<char>>::empty());
        }
    }
    while i < count
        invariant
            q1 == pos + 8,
            i <= count,
            out@.len() == i,
            at(b@, q1 as int, strs_body(string_views(out@))),
            p == q1 + strs_body(string_views(out@)).len(),
            at(b@, pos as int, le64(count)),
            blen == b@.len(),
            forall|v: Seq<Seq<char>>| #[trigger] at(b@, pos as int, enc_strs(v)) ==> v.len() == count
                && string_views(out@) == v.take(i as int),
        decreases count - i,
    {
        let ghost prev = string_views(out@);
        match get_str(b, p) {
            Some((s, np)) => {
                proof {
                    lemma_at_concat(b@, q1 as int, strs_body(prev), enc_str(s@));
                }
                out.push(s);
                proof {
                    assert(string_views(out@) =~= prev.push(s@));
                    assert(string_views(out@).drop_last() =~= prev);
                    assert forall|v: Seq<Seq<char>>| #[trigger] at(b@, pos as int, enc_strs(v)) implies string_views(out@) == v.take(i + 1) by {
                        lemma_strs_item_at(b@, pos as int, v, i as int);
                    }
                }
                p = np;
                i = i + 1;
            },
            None => {
                proof {
                    assert forall|v: Seq<Seq<char>>| !#[trigger] at(b@, pos as int, enc_strs(v)) by {
                        if at(b@, pos as int, enc_strs(v)) {
                            lemma_strs_item_at(b@, pos as int, v, i as int);
                        }
                    }
                }
                return None;
            },
        }
    }
    proof {
        lemma_at_concat(b@, pos as int, le64(count), strs_body(string_views(out@)));
        assert(string_views(out@).len() as u64 == count);
        assert forall|v: Seq<Seq<char>>| #[trigger] at(b@, pos as int, enc_strs(v)) implies string_views(out@) == v by {
            assert(v.take(count as int) =~= v);
        }
    }
    Some((out, p))
}

/// Encodes a service record.
pub fn encode_service_info(info: &ServiceInfo) -> (r: Vec<u8>)
    ensures
        r@ == info_bytes(*info),
{
    let mut out: Vec<u8> = Vec::new();
    put_str(&mut out, info.name.as_str());
    put_strs(&mut out, &info.methods);
    put_str(&mut out, info.process_name.as_str());
    put_u64(&mut out, info.registered_at);
    assert(out@ =~= info_bytes(*info));
    out
}

proof fn lemma_info_parts(b: Seq<u8>, pos: int, n: Seq<char>, m: Seq<Seq<char>>, e: Seq<char>, t: u64)
    ensures
        at(b, pos, enc_info(n, m, e, t)) ==> {
            &&& at(b, pos, enc_str(n))
            &&& at(b, pos + enc_str(n).len(), enc_strs(m))
            &&& at(b, pos + enc_str(n).len() + enc_strs(m).len(), enc_str(e))
            &&& at(b, pos + enc_str(n).len() + enc_strs(m).len() + enc_str(e).len(), le64(t))
        },
{
    lemma_at_concat(b, pos, enc_str(n) + enc_strs(m) + enc_str(e), le64(t));
    lemma_at_concat(b, pos, enc_str(n) + enc_strs(m), enc_str(e));
    lemma_at_concat(b, pos, enc_str(n), enc_strs(m));
}

/// Reads a service record at `pos`.
pub fn get_service_info(b: &[u8], pos: usize) -> (r: Option<(ServiceInfo, usize)>)
    ensures
        r matches Some((v, n)) ==> n == pos + info_bytes(v).len() && at(b@, pos as int, info_bytes(v)),
        forall|nm: Seq<char>, m: Seq<Seq<char>>, e: Seq<char>, t: u64| #[trigger] at(b@, pos as int, enc_info(nm, m, e, t))
            ==> (r matches Some((w, n)) && w.name@ == nm && string_views(w.methods@) == m
            && w.process_name@ == e && w.registered_at == t && n == pos + enc_info(nm, m, e, t).len()),
{
    let (name, q1) = match get_str(b, pos) {
        Some(x) => x,
        None => {
            proof {
                assert forall|nm: Seq<char>, m: Seq<Seq<char>>, e: Seq<char>, t: u64| !#[trigger] at(b@, pos as int, enc_info(nm, m, e, t)) by {
                    lemma_info_parts(b@, pos as int, nm, m, e, t);
                }
            }
            return None;
        },
    };
    let (methods, q2) = match get_strs(b, q1) {
        Some(x) => x,
        None => {
            proof {
                assert forall|nm: Seq<char>, m: Seq<Seq<char>>, e: Seq<char>, t: u64| !#[trigger] at(b@, pos as int, enc_info(nm, m, e, t)) by {
                    lemma_info_parts(b@, pos as int, nm, m, e, t);
                }
            }
            return None;
        },
    };
    let (process_name, q3) = match get_str(b, q2) {
        Some(x) => x,
        None => {
            proof {
                assert forall|nm: Seq<char>, m: Seq<Seq<char>>, e: Seq<char>, t: u64| !#[trigger] at(b@, pos as int, enc_info(nm, m, e, t)) by {
                    lemma_info_parts(b@, pos as int, nm, m, e, t);
                }
            }
            return None;
        },
    };
    let (registered_at, q4) = match get_u64(b, q3) {
        Some(x) => x,
        None => {
            proof {
                assert forall|nm: Seq<char>, m: Seq<Seq<char>>, e: Seq<char>, t: u64| !#[trigger] at(b@, pos as int, enc_info(nm, m, e, t)) by {
                    lemma_info_parts(b@, pos as int, nm, m, e, t);
                }
            }
            return None;
        },
    };
    let info = ServiceInfo { name, methods, process_name, registered_at };
    proof {
        let e1 = enc_str(info.name@);
        let e2 = enc_strs(string_views(info.methods@));
        let e3 = enc_str(info.process_name@);
        lemma_at_concat(b@, pos as int, e1, e2);
        lemma_at_concat(b@, pos as int, e1 + e2, e3);
        lemma_at_concat(b@, pos as int, e1 + e2 + e3, le64(registered_at));
        assert forall|nm: Seq<char>, m: Seq<Seq<char>>, e: Seq<char>, t: u64| #[trigger] at(b@, pos as int, enc_info(nm, m, e, t))
            implies info.name@ == nm && string_views(info.methods@) == m && info.process_name@ == e && info.registered_at == t by {
            lemma_info_parts(b@, pos as int, nm, m, e, t);
        }
    }
    Some((info, q4))
}

/// Decodes a service record that fills all of `b`.
pub fn decode_service_info(b: &[u8]) -> (r: Option<ServiceInfo>)
    ensures
        r matches Some(v) ==> info_bytes(v) == b@,
        forall|nm: Seq<char>, m: Seq<Seq<char>>, e: Seq<char>, t: u64| enc_info(nm, m, e, t) == b@
            ==> (r matches Some(w) && w.name@ == nm && string_views(w.methods@) == m
            && w.process_name@ == e && w.registered_at == t),
{
    proof {
        assert(b@.subrange(0, b@.len() as int) =~= b@);
    }
    let r = get_service_info(b, 0);
    proof {
        assert forall|nm: Seq<char>, m: Seq<Seq<char>>, e: Seq<char>, t: u64| enc_info(nm, m, e, t) == b@
            implies (r matches Some((w, n)) && w.name@ == nm && string_views(w.methods@) == m
            && w.process_name@ == e && w.registered_at == t && n == b@.len()) by {
            assert(at(b@, 0, enc_info(nm, m, e, t)));
        }
    }
    match r {
        Some((info, n)) => {
            if n == b.len() {
                Some(info)
            } else {
                None
            }
        },
        None => None,
    }
}
/// The mathematical value of a service record.
pub type InfoView = (Seq<char>, Seq<Seq<char>>, Seq<char>, u64);

/// The view of a service record.
pub open spec fn info_view(i: ServiceInfo) -> InfoView {
    (i.name@, string_views(i.methods@), i.process_name@, i.registered_at)
}

/// The views of a list of service records.
pub open spec fn info_views(v: Seq<ServiceInfo>) -> Seq<InfoView> {
    v.map_values(|i: ServiceInfo| info_view(i))
}

/// The encoding of a service record given by its view.
pub open spec fn enc_info_view(i: InfoView) -> Seq<u8> {
    enc_info(i.0, i.1, i.2, i.3)
}

/// Appends the encoding of a service record.
pub fn put_service_info(out: &mut Vec<u8>, info: &ServiceInfo)
    ensures
        final(out)@ == old(out)@ + info_bytes(*info),
{
    put_str(out, info.name.as_str());
    put_strs(out, &info.methods);
    put_str(out, info.process_name.as_str());
    put_u64(out, info.registered_at);
    assert(final(out)@ =~= old(out)@ + info_bytes(*info));
}

/// The concatenated encodings of a list of service records.
pub open spec fn infos_body(v: Seq<InfoView>) -> Seq<u8>
    decreases v.len(),
{
    if v.len() == 0 {
        Seq::<u8>::empty()
    } else {
        infos_body(v.drop_last()) + enc_info_view(v.last())
    }
}

/// The encoding of a list of service records: its length, then each record.
pub open spec fn enc_infos(v: Seq<InfoView>) -> Seq<u8> {
    le64(v.len() as u64) + infos_body(v)
}

proof fn lemma_infos_len(v: Seq<InfoView>)
    ensures
        infos_body(v).len() >= v.len(),
    decreases v.len(),
{
    if v.len() > 0 {
        lemma_infos_len(v.drop_last());
    }
}

proof fn lemma_infos_prefix(v: Seq<InfoView>, k: int)
    requires
        0 <= k <= v.len(),
    ensures
        infos_body(v) == infos_body(v.take(k)) + infos_body(v).subrange(
            infos_body(v.take(k)).len() as int,
            infos_body(v).len() as int,
        ),
        infos_body(v.take(k)).len() <= infos_body(v).len(),
    decreases v.len() - k,
{
    if k == v.len() {
        assert(v.take(k) =~= v);
        assert(infos_body(v).subrange(infos_body(v).len() as int, infos_body(v).len() as int) =~= Seq::<u8>::empty());
        assert(infos_body(v) =~= infos_body(v) + Seq::<u8>::empty());
    } else {
        lemma_infos_prefix(v.drop_last(), k);
        assert(v.drop_last().take(k) =~= v.take(k));
        let a = infos_body(v.take(k));
        let d = infos_body(v.drop_last());
        assert(infos_body(v) == d + enc_info_view(v.last()));
        assert(infos_body(v) =~= a + infos_body(v).subrange(a.len() as int, infos_body(v).len() as int));
    }
}

/// Appends the encoding of a list of service records.
pub fn put_infos(out: &mut Vec<u8>, v: &Vec<ServiceInfo>)
    ensures
        final(out)@ == old(out)@ + enc_infos(info_views(v@)),
{
    put_u64(out, v.len() as u64);
    let ghost start = out@;
    let mut i: usize = 0;
    while i < v.len()
        invariant
            i <= v@.len(),
            out@ == start + infos_body(info_views(v@).take(i as int)),
        decreases v@.len() - i,
    {
        put_service_info(out, &v[i]);
        proof {
            assert(info_views(v@).take(i + 1 as int).drop_last() =~= info_views(v@).take(i as int));
        }
        i = i + 1;
        proof {
            assert(out@ =~= start + infos_body(info_views(v@).take(i as int)));
        }
    }
    assert(info_views(v@).take(i as int) =~= info_views(v@));
    assert(final(out)@ =~= old(out)@ + enc_infos(info_views(v@)));
}

proof fn lemma_infos_item_at(b: Seq<u8>, pos: int, v: Seq<InfoView>, i: int)
    requires
        at(b, pos, enc_infos(v)),
        0 <= i < v.len(),
    ensures
        at(b, pos + 8, infos_body(v.take(i))),
        at(b, pos + 8 + infos_body(v.take(i)).len(), enc_info(v[i].0, v[i].1, v[i].2, v[i].3)),
        v.take(i + 1) == v.take(i).push(v[i]),
{
    lemma_at_concat(b, pos, le64(v.len() as u64), infos_body(v));
    lemma_infos_prefix(v, i + 1);
    assert(v.take(i + 1).drop_last() =~= v.take(i));
    lemma_at_concat(
        b,
        pos + 8,
        infos_body(v.take(i + 1)),
        infos_body(v).subrange(infos_body(v.take(i + 1)).len() as int, infos_body(v).len() as int),
    );
    lemma_at_concat(b, pos + 8, infos_body(v.take(i)), enc_info_view(v[i]));
    assert(v.take(i + 1) =~= v.take(i).push(v[i]));
}

/// Reads a list of service records at `pos`.
pub fn get_infos(b: &[u8], pos: usize) -> (r: Option<(Vec<ServiceInfo>, usize)>)
    ensures
        r matches Some((v, n)) ==> n == pos + enc_infos(info_views(v@)).len() && at(
            b@,
            pos as int,
            enc_infos(info_views(v@)),
        ),
        forall|v: Seq<InfoView>| #[trigger] at(b@, pos as int, enc_infos(v)) ==> (r matches Some((w, n))
            && info_views(w@) == v && n == pos + enc_infos(v).len()),
{
    let (count, q1) = match get_u64(b, pos) {
        Some(x) => x,
        None => {
            proof {
                assert forall|v: Seq<InfoView>| !#[trigger] at(b@, pos as int, enc_infos(v)) by {
                    lemma_at_concat(b@, pos as int, le64(v.len() as u64), infos_body(v));
                }
            }
            return None;
        },
    };
    let mut out: Vec<ServiceInfo> = Vec::new();
    let mut p: usize = q1;
    let mut i: u64 = 0;
    let blen = b.len();
    proof {
        assert(info_views(out@) =~= Seq::<InfoView>::empty());
        assert(b@.subrange(q1 as int, q1 as int) =~= Seq::<u8>::empty());
        assert forall|v: Seq<InfoView>| #[trigger] at(b@, pos as int, enc_infos(v)) implies v.len() == count
            && info_views(out@) == v.take(0) by {
            lemma_at_concat(b@, pos as int, le64(v.len() as u64), infos_body(v));
            lemma_infos_len(v);
            assert(v.take(0) =~= Seq::<InfoView>::empty());
        }
    }
    while i < count
        invariant
            q1 == pos + 8,
            i <= count,
            out@.len() == i,
            at(b@, q1 as int, infos_body(info_views(out@))),
            p == q1 + infos_body(info_views(out@)).len(),
            at(b@, pos as int, le64(count)),
            blen == b@.len(),
            forall|v: Seq<InfoView>| #[trigger] at(b@, pos as int, enc_infos(v)) ==> v.len() == count
                && info_views(out@) == v.take(i as int),
        decreases count - i,
    {
        let ghost prev = info_views(out@);
        match get_service_info(b, p) {
            Some((s, np)) => {
                proof {
                    lemma_at_concat(b@, q1 as int, infos_body(prev), info_bytes(s));
                }
                out.push(s);
                proof {
                    assert(info_views(out@) =~= prev.push(info_view(s)));
                    assert(info_views(out@).drop_last() =~= prev);
                    assert forall|v: Seq<InfoView>| #[trigger] at(b@, pos as int, enc_infos(v)) implies info_views(out@) == v.take(i + 1) by {
                        lemma_infos_item_at(b@, pos as int, v, i as int);
                    }
                }
                p = np;
                i = i + 1;
            },
            None => {
                proof {
                    assert forall|v: Seq<InfoView>| !#[trigger] at(b@, pos as int, enc_infos(v)) by {
                        if at(b@, pos as int, enc_infos(v)) {
                            lemma_infos_item_at(b@, pos as int, v, i as int);
                        }
                    }
                }
                return None;
            },
        }
    }
    proof {
        lemma_at_concat(b@, pos as int, le64(count), infos_body(info_views(out@)));
        assert(info_views(out@).len() as u64 == count);
        assert forall|v: Seq<InfoView>| #[trigger] at(b@, pos as int, enc_infos(v)) implies info_views(out@) == v by {
            assert(v.take(count as int) =~= v);
        }
    }
    Some((out, p))
}


/// Encodes a directory reply: the list of the sender's service records.
pub fn encode_directory(services: &Vec<ServiceInfo>) -> (r: Vec<u8>)
    ensures
        r@ == enc_infos(info_views(services@)),
{
    let mut out: Vec<u8> = Vec::new();
    put_infos(&mut out, services);
    assert(out@ =~= enc_infos(info_views(services@)));
    out
}

/// Decodes a directory reply that fills all of `b`.
pub fn decode_directory(b: &[u8]) -> (r: Option<Vec<ServiceInfo>>)
    ensures
        r matches Some(v) ==> enc_infos(info_views(v@)) == b@,
        forall|v: Seq<InfoView>| enc_infos(v) == b@ ==> (r matches Some(w) && info_views(w@) == v),
{
    proof {
        assert(b@.subrange(0, b@.len() as int) =~= b@);
    }
    let r = get_infos(b, 0);
    proof {
        assert forall|v: Seq<InfoView>| enc_infos(v) == b@ implies (r matches Some((w, n))
            && info_views(w@) == v && n == b@.len()) by {
            assert(at(b@, 0, enc_infos(v)));
        }
    }
    match r {
        Some((v, n)) => {
            if n == b.len() {
                Some(v)
            } else {
                None
            }
        },
        None => None,
    }
}

proof fn lemma_same_bytes(b: Seq<u8>, pos: int, x: Seq<u8>, y: Seq<u8>)
    requires
        at(b, pos, x),
        at(b, pos, y),
        x.len() == y.len(),
    ensures
        x == y,
{
}

proof fn lemma_le64_unique(x: u64, y: u64)
    requires
        le64(x) == le64(y),
    ensures
        x == y,
{
    assert(le64(x)[0] == le64(y)[0] && le64(x)[1] == le64(y)[1] && le64(x)[2] == le64(y)[2]);
    assert(le64(x)[3] == le64(y)[3] && le64(x)[4] == le64(y)[4] && le64(x)[5] == le64(y)[5]);
    assert(le64(x)[6] == le64(y)[6] && le64(x)[7] == le64(y)[7]);
    lemma_le64_rebuild(x);
    lemma_le64_rebuild(y);
}

proof fn lemma_u128_unique(b: Seq<u8>, pos: int, x: u128, y: u128)
    requires
        at(b, pos, enc_u128(x)),
        at(b, pos, enc_u128(y)),
    ensures
        x == y,
{
    lemma_at_concat(b, pos, le64(x as u64), le64((x >> 64) as u64));
    lemma_at_concat(b, pos, le64(y as u64), le64((y >> 64) as u64));
    lemma_same_bytes(b, pos, le64(x as u64), le64(y as u64));
    lemma_same_bytes(b, pos + 8, le64((x >> 64) as u64), le64((y >> 64) as u64));
    lemma_le64_unique(x as u64, y as u64);
    lemma_le64_unique((x >> 64) as u64, (y >> 64) as u64);
    lemma_u128_rebuild(x);
    lemma_u128_rebuild(y);
}

proof fn lemma_bytes_unique(b: Seq<u8>, pos: int, x: Seq<u8>, y: Seq<u8>)
    requires
        b.len() <= u64::MAX,
        at(b, pos, enc_bytes(x)),
        at(b, pos, enc_bytes(y)),
    ensures
        x == y,
{
    lemma_at_concat(b, pos, le64(x.len() as u64), x);
    lemma_at_concat(b, pos, le64(y.len() as u64), y);
    lemma_same_bytes(b, pos, le64(x.len() as u64), le64(y.len() as u64));
    lemma_le64_unique(x.len() as u64, y.len() as u64);
    lemma_same_bytes(b, pos + 8, x, y);
}

proof fn lemma_str_unique(b: Seq<u8>, pos: int, x: Seq<char>, y: Seq<char>)
    requires
        b.len() <= u64::MAX,
        at(b, pos, enc_str(x)),
        at(b, pos, enc_str(y)),
    ensures
        x == y,
{
    lemma_bytes_unique(b, pos, encode_utf8(x), encode_utf8(y));
    vstd::utf8::encode_utf8_decode_utf8(x);
    vstd::utf8::encode_utf8_decode_utf8(y);
}

proof fn lemma_opt_str_unique(b: Seq<u8>, pos: int, x: Option<Seq<char>>, y: Option<Seq<char>>)
    requires
        b.len() <= u64::MAX,
        at(b, pos, enc_opt_str(x)),
        at(b, pos, enc_opt_str(y)),
    ensures
        x == y,
{
    assert(b[pos] == enc_opt_str(x)[0] && b[pos] == enc_opt_str(y)[0]);
    if let (Some(s), Some(t)) = (x, y) {
        lemma_at_concat(b, pos, seq![1u8], enc_str(s));
        lemma_at_concat(b, pos, seq![1u8], enc_str(t));
        lemma_str_unique(b, pos + 1, s, t);
    }
}

proof fn lemma_opt_u64_unique(b: Seq<u8>, pos: int, x: Option<u64>, y: Option<u64>)
    requires
        at(b, pos, enc_opt_u64(x)),
        at(b, pos, enc_opt_u64(y)),
    ensures
        x == y,
{
    assert(b[pos] == enc_opt_u64(x)[0] && b[pos] == enc_opt_u64(y)[0]);
    if let (Some(s), Some(t)) = (x, y) {
        lemma_at_concat(b, pos, seq![1u8], le64(s));
        lemma_at_concat(b, pos, seq![1u8], le64(t));
        lemma_same_bytes(b, pos + 1, le64(s), le64(t));
        lemma_le64_unique(s, t);
    }
}

proof fn lemma_opt_u128_unique(b: Seq<u8>, pos: int, x: Option<u128>, y: Option<u128>)
    requires
        at(b, pos, enc_opt_u128(x)),
        at(b, pos, enc_opt_u128(y)),
    ensures
        x == y,
{
    assert(b[pos] == enc_opt_u128(x)[0] && b[pos] == enc_opt_u128(y)[0]);
    if let (Some(s), Some(t)) = (x, y) {
        lemma_at_concat(b, pos, seq![1u8], enc_u128(s));
        lemma_at_concat(b, pos, seq![1u8], enc_u128(t));
        lemma_u128_unique(b, pos + 1, s, t);
    }
}

proof fn lemma_metadata_unique(b: Seq<u8>, pos: int, x: MessageMetadata, y: MessageMetadata)
    requires
        at(b, pos, enc_metadata(x)),
        at(b, pos, enc_metadata(y)),
    ensures
        x == y,
{
    lemma_metadata_parts(b, pos, x);
    lemma_metadata_parts(b, pos, y);
    lemma_same_bytes(b, pos, le64(x.timestamp), le64(y.timestamp));
    lemma_le64_unique(x.timestamp, y.timestamp);
    assert(b[pos + 8] == priority_tag(x.priority) && b[pos + 8] == priority_tag(y.priority)) by {
        assert(b.subrange(pos + 8, pos + 9)[0] == b[pos + 8]);
    }
    lemma_opt_u64_unique(b, pos + 9, x.ttl, y.ttl);
    let q = pos + 9 + enc_opt_u64(x.ttl).len();
    assert(b[q] == enc_bool(x.retain)[0] && b[q] == enc_bool(y.retain)[0]) by {
        assert(b.subrange(q, q + 1)[0] == b[q]);
    }
}

proof fn lemma_header_unique(
    b: Seq<u8>,
    v: MessageView,
    w: MessageView,
)
    requires
        b.len() <= u64::MAX,
        at(b, 0, header_bytes(v.id, v.msg_type, v.source, v.target, v.topic)),
        at(b, 0, header_bytes(w.id, w.msg_type, w.source, w.target, w.topic)),
    ensures
        v.id == w.id,
        v.msg_type == w.msg_type,
        v.source == w.source,
        v.target == w.target,
        v.topic == w.topic,
{
    lemma_header_parts(b, v.id, v.msg_type, v.source, v.target, v.topic);
    lemma_header_parts(b, w.id, w.msg_type, w.source, w.target, w.topic);
    lemma_u128_unique(b, 0, v.id, w.id);
    assert(b[16] == type_tag(v.msg_type) && b[16] == type_tag(w.msg_type)) by {
        assert(b.subrange(16, 17)[0] == b[16]);
    }
    lemma_str_unique(b, 17, v.source, w.source);
    lemma_opt_str_unique(b, 17int + enc_str(v.source).len(), v.target, w.target);
    lemma_opt_str_unique(
        b,
        17int + enc_str(v.source).len() + enc_opt_str(v.target).len(),
        v.topic,
        w.topic,
    );
}

/// Two envelopes with the same encoding are the same envelope. With the
/// contracts of `encode_message` and `decode_message`, decoding the encoding
/// of any envelope gives back an equal envelope.
pub proof fn lemma_encoding_determines_envelope(v: MessageView, w: MessageView)
    requires
        message_bytes(v).len() <= u64::MAX,
        message_bytes(v) == message_bytes(w),
    ensures
        v == w,
{
    let b = message_bytes(v);
    assert(at(b, 0, b)) by {
        assert(b.subrange(0, b.len() as int) =~= b);
    }
    lemma_message_parts(b, v);
    lemma_message_parts(b, w);
    lemma_header_unique(b, v, w);
    let h = header_bytes(v.id, v.msg_type, v.source, v.target, v.topic);
    lemma_bytes_unique(b, h.len() as int, v.payload, w.payload);
    lemma_opt_u128_unique(b, h.len() as int + enc_bytes(v.payload).len(), v.correlation_id, w.correlation_id);
    lemma_metadata_unique(
        b,
        h.len() as int + enc_bytes(v.payload).len() + enc_opt_u128(v.correlation_id).len(),
        v.metadata,
        w.metadata,
    );
}
} // verus!
