//! The framing of one attribute: a header of length and kind, the payload,
//! and zero bytes up to the next multiple of four.

use crate::wire::{lemma_native_u16, native_u16, native_u16_bytes};
use netlink_packet_utils::nla::{DefaultNla, NlaBuffer};
use netlink_packet_utils::{DecodeError, Emitable};
use vstd::prelude::*;
use vstd::slice::slice_subrange;

verus! {

/// Flag bit of a kind: the payload is itself a sequence of attributes.
pub const NLA_F_NESTED: u16 = 0x8000;

/// Flag bit of a kind: the payload is in network byte order.
pub const NLA_F_NET_BYTEORDER: u16 = 0x4000;

/// The bits of a kind that number the attribute.
pub const NLA_TYPE_MASK: u16 = 0x3fff;

/// The largest payload whose length still fits the header's 16-bit field.
pub const NLA_MAX_VALUE_LEN: usize = 0xfffb;

/// `n` rounded up to a multiple of four.
pub open spec fn align4(n: int) -> int {
    (n + 3) / 4 * 4
}

/// The kind as it is written: with the nested flag set, the flag for
/// network byte order is not written.
pub open spec fn wire_kind(kind: u16) -> u16 {
    if kind & 0x8000 != 0 {
        kind & 0xbfff
    } else {
        kind
    }
}

/// The zero bytes that follow a payload of `n` bytes.
pub open spec fn padding(n: int) -> Seq<u8> {
    Seq::new((align4(n) - n) as nat, |i: int| 0u8)
}

/// The bytes of one attribute of the given kind and payload.
pub open spec fn nla_bytes(kind: u16, value: Seq<u8>) -> Seq<u8> {
    native_u16_bytes((value.len() + 4) as u16) + native_u16_bytes(wire_kind(kind)) + value
        + padding(value.len() as int)
}

/// The length that the header at the start of `b` states.
pub open spec fn frame_len(b: Seq<u8>) -> int {
    native_u16(b.subrange(0, 2)) as int
}

/// The kind, flags included, that the header at the start of `b` states.
pub open spec fn frame_raw_kind(b: Seq<u8>) -> u16 {
    native_u16(b.subrange(2, 4))
}

/// `b` starts with a whole attribute: a full header whose length covers
/// the header and does not reach past the end.
pub open spec fn frame_ok(b: Seq<u8>) -> bool {
    b.len() >= 4 && 4 <= frame_len(b) <= b.len()
}

/// The payload of the attribute at the start of `b`.
pub open spec fn frame_value(b: Seq<u8>) -> Seq<u8> {
    b.subrange(4, frame_len(b))
}

/// What follows the attribute at the start of `b` and its padding.
pub open spec fn frame_rest(b: Seq<u8>) -> Seq<u8> {
    if align4(frame_len(b)) >= b.len() {
        Seq::empty()
    } else {
        b.subrange(align4(frame_len(b)), b.len() as int)
    }
}

/// The header of one attribute, as plain values.
#[derive(Clone, Copy, Debug, PartialEq, Eq)]
pub struct NlaHead {
    /// The kind without its two flag bits.
    pub kind: u16,
    /// Whether the nested flag is set.
    pub nested: bool,
    /// Whether the flag for network byte order is set.
    pub net_byteorder: bool,
    /// The length of header and payload together.
    pub length: u16,
}

/// The header that the first four bytes of `b` spell.
pub open spec fn head_of(b: Seq<u8>) -> NlaHead {
    NlaHead {
        kind: frame_raw_kind(b) & 0x3fff,
        nested: frame_raw_kind(b) & 0x8000 != 0,
        net_byteorder: frame_raw_kind(b) & 0x4000 != 0,
        length: native_u16(b.subrange(0, 2)),
    }
}

/// An attribute kept as it came: its kind, flags included, and its payload.
#[derive(Clone, Debug, PartialEq, Eq)]
pub struct RawNla {
    pub kind: u16,
    pub value: Vec<u8>,
}

impl RawNla {
    pub fn new(kind: u16, value: Vec<u8>) -> (r: RawNla)
        ensures
            r.kind == kind,
            r.value@ == value@,
    {
        RawNla { kind, value }
    }
}

/// `NlaBuffer::new_checked` on the bytes from `pos` on, then the buffer's
/// `kind`, `nested_flag`, `network_byte_order_flag` and `length`. The first
/// succeeds exactly when four bytes of header are there and the stated length
/// is at least four and at most what is left; the four accessors read the
/// header's two 16-bit fields in the machine's byte order.
#[verifier::external_body]
pub(crate) fn read_head(buf: &[u8], pos: usize) -> (r: Result<NlaHead, DecodeError>)
    requires
        pos <= buf@.len(),
    ensures
        r is Ok <==> frame_ok(buf@.subrange(pos as int, buf@.len() as int)),
        r is Ok ==> r->Ok_0 == head_of(buf@.subrange(pos as int, buf@.len() as int)),
{
    match NlaBuffer::new_checked(&buf[pos..]) {
        Ok(nla) => Ok(
            NlaHead {
                kind: nla.kind(),
                nested: nla.nested_flag(),
                net_byteorder: nla.network_byte_order_flag(),
                length: nla.length(),
            },
        ),
        Err(e) => Err(e),
    }
}

/// `Emitable::emit` of a `DefaultNla` made of `kind` and `value`, into a
/// buffer of its `buffer_len`: the length of header and payload, the kind,
/// the payload, and zero bytes up to a multiple of four.
#[verifier::external_body]
pub(crate) fn emit_nla(kind: u16, value: &[u8]) -> (out: Vec<u8>)
    requires
        value@.len() <= NLA_MAX_VALUE_LEN,
    ensures
        out@ == nla_bytes(kind, value@),
{
    let nla = DefaultNla::new(kind, value.to_vec());
    let mut out: Vec<u8> = Vec::new();
    out.resize(nla.buffer_len(), 0u8);
    nla.emit(&mut out);
    out
}

/// The attribute that starts at `pos`: its kind with the flags, its payload
/// and where the next attribute starts; `None` where no whole attribute
/// starts there.
pub fn next_frame<'a>(buf: &'a [u8], pos: usize) -> (r: Option<(u16, &'a [u8], usize)>)
    requires
        pos < buf@.len(),
    ensures
        ({
            let rest = buf@.subrange(pos as int, buf@.len() as int);
            match r {
                None => !frame_ok(rest),
                Some((kind, value, next)) => {
                    &&& frame_ok(rest)
                    &&& kind == frame_raw_kind(rest)
                    &&& value@ == frame_value(rest)
                    &&& pos < next <= buf@.len()
                    &&& buf@.subrange(next as int, buf@.len() as int) == frame_rest(rest)
                },
            }
        }),
{
    let ghost rest = buf@.subrange(pos as int, buf@.len() as int);
    let total: usize = buf.len();
    match read_head(buf, pos) {
        Err(_) => None,
        Ok(head) => {
            assert(frame_ok(rest));
            assert(rest.len() == buf@.len() - pos);
            assert(pos + 4 <= buf@.len());
            assert(head.length as int == frame_len(rest));
            let length: usize = head.length as usize;
            let base: u16 = head.kind;
            let nested: u16 = if head.nested { 0x8000 } else { 0 };
            let order: u16 = if head.net_byteorder { 0x4000 } else { 0 };
            let kind: u16 = base | nested | order;
            proof {
                let raw = frame_raw_kind(rest);
                assert(kind == raw) by (bit_vector)
                    requires
                        base == raw & 0x3fff,
                        nested == (if raw & 0x8000 != 0 { 0x8000u16 } else { 0u16 }),
                        order == (if raw & 0x4000 != 0 { 0x4000u16 } else { 0u16 }),
                        kind == base | nested | order,
                ;
            }
            let value = slice_subrange(buf, pos + 4, pos + length);
            let aligned: usize = (length + 3) / 4 * 4;
            let next: usize = if aligned >= total - pos {
                total
            } else {
                pos + aligned
            };
            proof {
                assert(value@ =~= frame_value(rest));
                assert(buf@.subrange(next as int, buf@.len() as int) =~= frame_rest(rest));
            }
            Some((kind, value, next))
        },
    }
}

/// The result of a group whose first attributes gave `done` and whose
/// remaining bytes gave `r`: the items follow `done`, and the place of a
/// failure counts from the start of the group.
pub open spec fn prepend<V, F>(done: Seq<V>, r: Result<Seq<V>, (nat, F)>) -> Result<
    Seq<V>,
    (nat, F),
> {
    match r {
        Ok(s) => Ok(done + s),
        Err((i, f)) => Err((done.len() + i, f)),
    }
}

/// Prepending one more item first is prepending to the longer sequence.
pub proof fn lemma_prepend_push<V, F>(done: Seq<V>, a: V, r: Result<Seq<V>, (nat, F)>)
    ensures
        prepend(done, prepend(seq![a], r)) == prepend(done.push(a), r),
{
    match r {
        Ok(s) => {
            assert(done + (seq![a] + s) =~= done.push(a) + s);
        },
        Err((i, f)) => {},
    }
}

/// Prepending nothing changes nothing, and so does appending nothing.
pub proof fn lemma_prepend_empty<V, F>(done: Seq<V>, r: Result<Seq<V>, (nat, F)>)
    ensures
        prepend(Seq::<V>::empty(), r) == r,
        prepend::<V, F>(done, Ok(Seq::<V>::empty())) == Ok::<Seq<V>, (nat, F)>(done),
{
    match r {
        Ok(s) => {
            assert(Seq::<V>::empty() + s =~= s);
        },
        Err((i, f)) => {},
    }
    assert(done + Seq::<V>::empty() =~= done);
}

/// What one attribute's bytes, followed by anything, decode to: the frame
/// is whole, kind and payload are those written, and the rest follows the
/// padding.
pub proof fn lemma_frame_of_nla(kind: u16, value: Seq<u8>, tail: Seq<u8>)
    requires
        value.len() <= NLA_MAX_VALUE_LEN,
    ensures
        nla_bytes(kind, value).len() == align4(value.len() as int + 4),
        frame_ok(nla_bytes(kind, value) + tail),
        frame_len(nla_bytes(kind, value) + tail) == value.len() + 4,
        frame_raw_kind(nla_bytes(kind, value) + tail) == wire_kind(kind),
        frame_value(nla_bytes(kind, value) + tail) == value,
        frame_rest(nla_bytes(kind, value) + tail) == tail,
{
    let b = nla_bytes(kind, value) + tail;
    let n = (value.len() + 4) as u16;
    lemma_native_u16(n);
    lemma_native_u16(wire_kind(kind));
    assert(b.subrange(0, 2) =~= native_u16_bytes(n));
    assert(b.subrange(2, 4) =~= native_u16_bytes(wire_kind(kind)));
    assert(b.subrange(4, value.len() as int + 4) =~= value);
    assert(align4(value.len() as int + 4) == 4 + align4(value.len() as int));
    if align4(frame_len(b)) >= b.len() {
        assert(tail =~= Seq::<u8>::empty());
    } else {
        assert(b.subrange(align4(frame_len(b)), b.len() as int) =~= tail);
    }
}

} // verus!
