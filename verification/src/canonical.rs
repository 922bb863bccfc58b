//! Encoding undoes decoding on bytes in canonical form: every attribute
//! padded with zero bytes to a multiple of four, every kind written with
//! the flags that encoding gives it, every name closed by a NUL byte.

use crate::channel::attr::{
    channel_kind, channel_value, decode_channel, decode_channels, encode_channel, encode_channels,
    ChannelAttrView,
};
use crate::error::{ChannelFault, HeaderFault};
use crate::header::{
    decode_header, decode_headers, encode_header, encode_headers, header_kind, header_value,
    HeaderView,
};
use crate::nla::{
    align4, frame_len, frame_ok, frame_raw_kind, frame_rest, frame_value, nla_bytes, prepend,
};
use crate::round_trip::{
    channel_kind_unknown, kind_kept, lemma_encode_channels_front, lemma_encode_headers_front,
};
use crate::wire::{lemma_native_u16_bytes, lemma_native_u32_bytes};
use vstd::prelude::*;
use vstd::utf8::*;

verus! {

/// `b` starts with a whole attribute whose padding is there and is zero.
pub open spec fn frame_padded(b: Seq<u8>) -> bool {
    &&& frame_ok(b)
    &&& align4(frame_len(b)) <= b.len()
    &&& forall|i: int| frame_len(b) <= i < align4(frame_len(b)) ==> b[i] == 0u8
}

/// `b` starts with a header sub-attribute in canonical form.
pub open spec fn header_frame_canonical(b: Seq<u8>) -> bool {
    let kind = frame_raw_kind(b);
    let value = frame_value(b);
    &&& frame_padded(b)
    &&& if kind == 1 || kind == 3 {
        value.len() == 4
    } else if kind == 2 {
        value.len() > 0 && value.last() == 0u8 && valid_utf8(value.drop_last())
    } else {
        kind_kept(kind) && kind & 0x3fff != 1 && kind & 0x3fff != 2 && kind & 0x3fff != 3
    }
}

/// `b` is a sequence of header sub-attributes in canonical form.
pub open spec fn headers_canonical_bytes(b: Seq<u8>) -> bool
    decreases b.len(),
{
    b.len() == 0 || (header_frame_canonical(b) && headers_canonical_bytes(frame_rest(b)))
}

/// `b` starts with a channel attribute in canonical form.
pub open spec fn channel_frame_canonical(b: Seq<u8>) -> bool {
    let kind = frame_raw_kind(b);
    let value = frame_value(b);
    &&& frame_padded(b)
    &&& if kind == 0x8001 {
        headers_canonical_bytes(value)
    } else if kind == 5 || kind == 9 {
        value.len() == 4
    } else {
        kind_kept(kind) && channel_kind_unknown(kind)
    }
}

/// `b` is a sequence of channel attributes in canonical form.
pub open spec fn channels_canonical_bytes(b: Seq<u8>) -> bool
    decreases b.len(),
{
    b.len() == 0 || (channel_frame_canonical(b) && channels_canonical_bytes(frame_rest(b)))
}

/// A padded attribute whose kind is written as it is consists of the bytes
/// of its kind and payload, and of what follows them.
pub proof fn lemma_frame_bytes(b: Seq<u8>)
    requires
        frame_padded(b),
        kind_kept(frame_raw_kind(b)),
    ensures
        b == nla_bytes(frame_raw_kind(b), frame_value(b)) + frame_rest(b),
        frame_rest(b).len() < b.len(),
{
    lemma_native_u16_bytes(b.subrange(0, 2));
    lemma_native_u16_bytes(b.subrange(2, 4));
    let value = frame_value(b);
    assert((value.len() + 4) as u16 == frame_len(b));
    assert(align4(value.len() as int) + 4 == align4(frame_len(b)));
    assert(b =~= nla_bytes(frame_raw_kind(b), value) + frame_rest(b));
}

proof fn lemma_plain_kinds()
    ensures
        kind_kept(1),
        kind_kept(2),
        kind_kept(3),
        kind_kept(5),
        kind_kept(9),
        kind_kept(0x8001),
        1u16 & 0x3fff == 1,
        2u16 & 0x3fff == 2,
        3u16 & 0x3fff == 3,
        5u16 & 0x3fff == 5,
        9u16 & 0x3fff == 9,
        0x8001u16 & 0x3fff == 1,
{
    assert(1u16 & 0x8000 == 0 && 2u16 & 0x8000 == 0 && 3u16 & 0x8000 == 0) by (bit_vector);
    assert(5u16 & 0x8000 == 0 && 9u16 & 0x8000 == 0) by (bit_vector);
    assert(0x8001u16 & 0x8000 != 0 && 0x8001u16 & 0xbfff == 0x8001) by (bit_vector);
    assert(1u16 & 0x3fff == 1 && 2u16 & 0x3fff == 2 && 3u16 & 0x3fff == 3) by (bit_vector);
    assert(5u16 & 0x3fff == 5 && 9u16 & 0x3fff == 9 && 0x8001u16 & 0x3fff == 1) by (bit_vector);
}

/// A canonical sub-attribute decodes, and what it decodes to is written
/// with the same kind and payload.
pub proof fn lemma_header_frame(b: Seq<u8>)
    requires
        header_frame_canonical(b),
    ensures
        kind_kept(frame_raw_kind(b)),
        decode_header(frame_raw_kind(b), frame_value(b)) is Ok,
        header_kind(decode_header(frame_raw_kind(b), frame_value(b))->Ok_0) == frame_raw_kind(b),
        header_value(decode_header(frame_raw_kind(b), frame_value(b))->Ok_0) == frame_value(b),
{
    lemma_plain_kinds();
    let kind = frame_raw_kind(b);
    let value = frame_value(b);
    if kind == 1 || kind == 3 {
        lemma_native_u32_bytes(value);
    } else if kind == 2 {
        let text = value.drop_last();
        decode_utf8_encode_utf8(text);
        assert(text.push(0u8) =~= value);
    }
}

/// Encoding undoes decoding for a header group: canonical bytes decode,
/// and what they decode to is written as those bytes.
pub proof fn lemma_headers_bytes(b: Seq<u8>)
    requires
        headers_canonical_bytes(b),
    ensures
        decode_headers(b) is Ok,
        encode_headers(decode_headers(b)->Ok_0) == b,
    decreases b.len(),
{
    if b.len() == 0 {
        assert(encode_headers(Seq::<HeaderView>::empty()) =~= b);
    } else {
        lemma_header_frame(b);
        lemma_frame_bytes(b);
        let rest = frame_rest(b);
        lemma_headers_bytes(rest);
        let h = decode_header(frame_raw_kind(b), frame_value(b))->Ok_0;
        let tail = decode_headers(rest)->Ok_0;
        let all = seq![h] + tail;
        assert(decode_headers(b) == prepend(seq![h], decode_headers(rest)));
        assert(decode_headers(b) == Ok::<Seq<HeaderView>, (nat, HeaderFault)>(all));
        lemma_encode_headers_front(all);
        assert(all.first() == h);
        assert(all.drop_first() =~= tail);
    }
}

/// A canonical channel attribute decodes, and what it decodes to is
/// written with the same kind and payload.
pub proof fn lemma_channel_frame(b: Seq<u8>)
    requires
        channel_frame_canonical(b),
    ensures
        kind_kept(frame_raw_kind(b)),
        decode_channel(frame_raw_kind(b), frame_value(b)) is Ok,
        channel_kind(decode_channel(frame_raw_kind(b), frame_value(b))->Ok_0) == frame_raw_kind(b),
        channel_value(decode_channel(frame_raw_kind(b), frame_value(b))->Ok_0) == frame_value(b),
{
    lemma_plain_kinds();
    let kind = frame_raw_kind(b);
    let value = frame_value(b);
    if kind == 0x8001 {
        lemma_headers_bytes(value);
    } else if kind == 5 || kind == 9 {
        lemma_native_u32_bytes(value);
    }
}

/// Encoding undoes decoding: canonical bytes decode to a group of channel
/// attributes, and that group is written as those bytes.
pub proof fn lemma_channels_bytes(b: Seq<u8>)
    requires
        channels_canonical_bytes(b),
    ensures
        decode_channels(b) is Ok,
        encode_channels(decode_channels(b)->Ok_0) == b,
    decreases b.len(),
{
    if b.len() == 0 {
        assert(encode_channels(Seq::<ChannelAttrView>::empty()) =~= b);
    } else {
        lemma_channel_frame(b);
        lemma_frame_bytes(b);
        let rest = frame_rest(b);
        lemma_channels_bytes(rest);
        let a = decode_channel(frame_raw_kind(b), frame_value(b))->Ok_0;
        let tail = decode_channels(rest)->Ok_0;
        let all = seq![a] + tail;
        assert(decode_channels(b) == prepend(seq![a], decode_channels(rest)));
        assert(decode_channels(b) == Ok::<Seq<ChannelAttrView>, (nat, ChannelFault)>(all));
        lemma_encode_channels_front(all);
        assert(all.first() == a);
        assert(all.drop_first() =~= tail);
    }
}

} // verus!
