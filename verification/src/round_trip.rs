//! Decoding undoes encoding, and encoding undoes decoding, stated over the
//! specification of the wire format.

use crate::channel::attr::{
    channel_fits, channel_kind, channel_value, channels_fit, decode_channel, decode_channels,
    encode_channel, encode_channels, ChannelAttrView,
};
use crate::error::{ChannelFault, HeaderFault};
use crate::header::{
    decode_header, decode_headers, encode_header, encode_headers, header_fits, header_kind,
    header_value, headers_fit, HeaderView,
};
use crate::nla::{
    align4, frame_len, frame_ok, frame_raw_kind, frame_rest, frame_value, lemma_frame_of_nla,
    lemma_prepend_empty, prepend, wire_kind,
};
use crate::wire::{lemma_native_u16_bytes, lemma_native_u32, text_bytes};
use vstd::prelude::*;
use vstd::utf8::*;

verus! {

/// A kind is written as it is: not both flag bits are set.
pub open spec fn kind_kept(kind: u16) -> bool {
    wire_kind(kind) == kind
}

/// A header sub-attribute that decoding can give: one kept as raw bytes
/// has none of the known kinds, and a kind that is written as it is.
pub open spec fn header_canonical(h: HeaderView) -> bool {
    h matches HeaderView::Other(kind, _) ==> {
        &&& kind_kept(kind)
        &&& kind & 0x3fff != 1
        &&& kind & 0x3fff != 2
        &&& kind & 0x3fff != 3
    }
}

/// Every sub-attribute is one that decoding can give.
pub open spec fn headers_canonical(s: Seq<HeaderView>) -> bool {
    forall|i: int| 0 <= i < s.len() ==> header_canonical(#[trigger] s[i])
}

/// A kind, flags aside, that the channel group does not know.
pub open spec fn channel_kind_unknown(kind: u16) -> bool {
    &&& kind & 0x3fff != 1
    &&& kind & 0x3fff != 5
    &&& kind & 0x3fff != 9
}

/// A channel attribute that decoding can give.
pub open spec fn channel_canonical(a: ChannelAttrView) -> bool {
    match a {
        ChannelAttrView::Header(s) => headers_canonical(s),
        ChannelAttrView::Other(kind, _) => kind_kept(kind) && channel_kind_unknown(kind),
        _ => true,
    }
}

/// The known kinds carry no flag that would be dropped, and stand for
/// themselves once the flags are masked off.
proof fn lemma_known_kinds()
    ensures
        wire_kind(1) == 1,
        wire_kind(2) == 2,
        wire_kind(3) == 3,
        wire_kind(5) == 5,
        wire_kind(9) == 9,
        wire_kind(0x8001) == 0x8001,
        0x8001u16 & 0x3fff == 1,
        1u16 & 0x3fff == 1,
        2u16 & 0x3fff == 2,
        3u16 & 0x3fff == 3,
        5u16 & 0x3fff == 5,
        9u16 & 0x3fff == 9,
{
    assert(1u16 & 0x8000 == 0) by (bit_vector);
    assert(2u16 & 0x8000 == 0) by (bit_vector);
    assert(3u16 & 0x8000 == 0) by (bit_vector);
    assert(5u16 & 0x8000 == 0) by (bit_vector);
    assert(9u16 & 0x8000 == 0) by (bit_vector);
    assert(0x8001u16 & 0x8000 != 0) by (bit_vector);
    assert(0x8001u16 & 0xbfff == 0x8001) by (bit_vector);
    assert(0x8001u16 & 0x3fff == 1) by (bit_vector);
    assert(1u16 & 0x3fff == 1) by (bit_vector);
    assert(2u16 & 0x3fff == 2) by (bit_vector);
    assert(3u16 & 0x3fff == 3) by (bit_vector);
    assert(5u16 & 0x3fff == 5) by (bit_vector);
    assert(9u16 & 0x3fff == 9) by (bit_vector);
}

/// A sub-attribute's payload decodes, under the kind it is written with,
/// to the sub-attribute.
pub proof fn lemma_header_value_round_trip(h: HeaderView)
    requires
        header_canonical(h),
    ensures
        decode_header(wire_kind(header_kind(h)), header_value(h)) == Ok::<HeaderView, HeaderFault>(
            h,
        ),
{
    lemma_known_kinds();
    match h {
        HeaderView::DevIndex(v) => {
            lemma_native_u32(v);
        },
        HeaderView::DevName(s) => {
            let value = encode_utf8(s).push(0u8);
            assert(text_bytes(value) =~= encode_utf8(s));
            encode_utf8_valid_utf8(s);
            encode_utf8_decode_utf8(s);
        },
        HeaderView::Flags(v) => {
            lemma_native_u32(v);
        },
        HeaderView::Other(kind, value) => {},
    }
}

/// The bytes of one sub-attribute, followed by anything, decode to that
/// sub-attribute followed by what the rest decodes to.
pub proof fn lemma_header_round_trip(h: HeaderView, tail: Seq<u8>)
    requires
        header_fits(h),
        header_canonical(h),
    ensures
        decode_headers(encode_header(h) + tail) == prepend(seq![h], decode_headers(tail)),
{
    lemma_frame_of_nla(header_kind(h), header_value(h), tail);
    lemma_header_value_round_trip(h);
}

/// A group's bytes start with those of its first sub-attribute.
pub proof fn lemma_encode_headers_front(s: Seq<HeaderView>)
    requires
        s.len() > 0,
    ensures
        encode_headers(s) == encode_header(s.first()) + encode_headers(s.drop_first()),
    decreases s.len(),
{
    if s.len() == 1 {
        assert(s.drop_last() =~= Seq::<HeaderView>::empty());
        assert(s.drop_first() =~= Seq::<HeaderView>::empty());
        assert(encode_headers(s) =~= encode_header(s.first()) + encode_headers(s.drop_first()));
    } else {
        let front = s.drop_last();
        lemma_encode_headers_front(front);
        assert(front.drop_first() =~= s.drop_first().drop_last());
        assert(front.first() == s.first());
        assert(s.drop_first().last() == s.last());
        assert(encode_headers(s) =~= encode_header(s.first()) + encode_headers(s.drop_first()));
    }
}

/// Decoding the bytes of a header group gives the group back.
pub proof fn lemma_headers_round_trip(s: Seq<HeaderView>)
    requires
        headers_fit(s),
        headers_canonical(s),
    ensures
        decode_headers(encode_headers(s)) == Ok::<Seq<HeaderView>, (nat, HeaderFault)>(s),
    decreases s.len(),
{
    if s.len() > 0 {
        let rest = s.drop_first();
        assert(headers_fit(rest)) by {
            assert forall|i: int| 0 <= i < rest.len() implies header_fits(#[trigger] rest[i]) by {
                assert(rest[i] == s[i + 1]);
            }
        }
        assert(headers_canonical(rest)) by {
            assert forall|i: int| 0 <= i < rest.len() implies header_canonical(
                #[trigger] rest[i],
            ) by {
                assert(rest[i] == s[i + 1]);
            }
        }
        lemma_headers_round_trip(rest);
        lemma_encode_headers_front(s);
        assert(header_fits(s[0]) && header_canonical(s[0]));
        lemma_header_round_trip(s.first(), encode_headers(rest));
        assert(seq![s.first()] + rest =~= s);
    } else {
        assert(s =~= Seq::<HeaderView>::empty());
        assert(encode_headers(s) =~= Seq::<u8>::empty());
    }
}

/// Decoding undoes encoding: the bytes of a channel attribute, followed by
/// anything, decode to that attribute followed by what the rest decodes to.
/// This holds of the header, of both counts, and of an attribute kept as
/// raw bytes whose kind is unknown and is written as it is.
pub proof fn lemma_channel_round_trip(a: ChannelAttrView, tail: Seq<u8>)
    requires
        channel_fits(a),
        channel_canonical(a),
    ensures
        decode_channel(wire_kind(channel_kind(a)), channel_value(a)) == Ok::<
            ChannelAttrView,
            ChannelFault,
        >(a),
        decode_channels(encode_channel(a) + tail) == prepend(seq![a], decode_channels(tail)),
        decode_channels(encode_channel(a)) == Ok::<Seq<ChannelAttrView>, (nat, ChannelFault)>(
            seq![a],
        ),
{
    lemma_known_kinds();
    match a {
        ChannelAttrView::Header(s) => {
            lemma_headers_round_trip(s);
        },
        ChannelAttrView::MaxCombined(v) => {
            lemma_native_u32(v);
        },
        ChannelAttrView::CombinedCount(v) => {
            lemma_native_u32(v);
        },
        ChannelAttrView::Other(kind, value) => {},
    }
    lemma_frame_of_nla(channel_kind(a), channel_value(a), tail);
    lemma_frame_of_nla(channel_kind(a), channel_value(a), Seq::empty());
    let alone = encode_channel(a) + Seq::<u8>::empty();
    assert(alone =~= encode_channel(a));
    assert(decode_channels(Seq::<u8>::empty()) == Ok::<Seq<ChannelAttrView>, (nat, ChannelFault)>(
        Seq::empty(),
    ));
    assert(decode_channels(alone) == prepend(seq![a], decode_channels(Seq::<u8>::empty())));
    lemma_prepend_empty::<ChannelAttrView, ChannelFault>(seq![a], Ok(Seq::empty()));
}

/// Every attribute is one that decoding can give.
pub open spec fn channels_canonical(s: Seq<ChannelAttrView>) -> bool {
    forall|i: int| 0 <= i < s.len() ==> channel_canonical(#[trigger] s[i])
}

/// A group's bytes start with those of its first attribute.
pub proof fn lemma_encode_channels_front(s: Seq<ChannelAttrView>)
    requires
        s.len() > 0,
    ensures
        encode_channels(s) == encode_channel(s.first()) + encode_channels(s.drop_first()),
    decreases s.len(),
{
    if s.len() == 1 {
        assert(s.drop_last() =~= Seq::<ChannelAttrView>::empty());
        assert(s.drop_first() =~= Seq::<ChannelAttrView>::empty());
        assert(encode_channels(s) =~= encode_channel(s.first()) + encode_channels(s.drop_first()));
    } else {
        let front = s.drop_last();
        lemma_encode_channels_front(front);
        assert(front.drop_first() =~= s.drop_first().drop_last());
        assert(front.first() == s.first());
        assert(s.drop_first().last() == s.last());
        assert(encode_channels(s) =~= encode_channel(s.first()) + encode_channels(s.drop_first()));
    }
}

/// Decoding the bytes of a whole group of channel attributes gives the
/// group back, in order.
pub proof fn lemma_channels_round_trip(s: Seq<ChannelAttrView>)
    requires
        channels_fit(s),
        channels_canonical(s),
    ensures
        decode_channels(encode_channels(s)) == Ok::<Seq<ChannelAttrView>, (nat, ChannelFault)>(s),
    decreases s.len(),
{
    if s.len() > 0 {
        let rest = s.drop_first();
        assert(channels_fit(rest)) by {
            assert forall|i: int| 0 <= i < rest.len() implies channel_fits(#[trigger] rest[i]) by {
                assert(rest[i] == s[i + 1]);
            }
        }
        assert(channels_canonical(rest)) by {
            assert forall|i: int| 0 <= i < rest.len() implies channel_canonical(
                #[trigger] rest[i],
            ) by {
                assert(rest[i] == s[i + 1]);
            }
        }
        lemma_channels_round_trip(rest);
        lemma_encode_channels_front(s);
        assert(channel_fits(s[0]) && channel_canonical(s[0]));
        lemma_channel_round_trip(s.first(), encode_channels(rest));
        assert(seq![s.first()] + rest =~= s);
    } else {
        assert(s =~= Seq::<ChannelAttrView>::empty());
        assert(encode_channels(s) =~= Seq::<u8>::empty());
    }
}

/// An attribute of unknown kind is kept as it is: decoding gives its kind,
/// flags included, and its payload, whatever the payload holds.
pub proof fn lemma_unknown_kind_kept(kind: u16, value: Seq<u8>)
    requires
        channel_kind_unknown(kind),
    ensures
        decode_channel(kind, value) == Ok::<ChannelAttrView, ChannelFault>(
            ChannelAttrView::Other(kind, value),
        ),
{
}

/// Encoding undoes decoding for an attribute of unknown kind: where `b` is
/// one whole attribute, padded with zero bytes to a multiple of four, of a
/// kind that is written as it is, it decodes to one raw attribute, and that
/// attribute's bytes are `b`.
pub proof fn lemma_unknown_kind_bytes(b: Seq<u8>)
    requires
        frame_ok(b),
        b.len() == align4(frame_len(b)),
        forall|i: int| frame_len(b) <= i < b.len() ==> b[i] == 0u8,
        channel_kind_unknown(frame_raw_kind(b)),
        kind_kept(frame_raw_kind(b)),
    ensures
        decode_channels(b) == Ok::<Seq<ChannelAttrView>, (nat, ChannelFault)>(
            seq![ChannelAttrView::Other(frame_raw_kind(b), frame_value(b))],
        ),
        encode_channel(ChannelAttrView::Other(frame_raw_kind(b), frame_value(b))) == b,
{
    let kind = frame_raw_kind(b);
    let value = frame_value(b);
    let a = ChannelAttrView::Other(kind, value);
    lemma_native_u16_bytes(b.subrange(0, 2));
    lemma_native_u16_bytes(b.subrange(2, 4));
    assert((value.len() + 4) as u16 == frame_len(b));
    assert(align4(value.len() as int) + 4 == align4(frame_len(b)));
    assert(encode_channel(a) =~= b);
    assert(frame_rest(b) =~= Seq::<u8>::empty());
    assert(decode_channels(Seq::<u8>::empty()) == Ok::<Seq<ChannelAttrView>, (nat, ChannelFault)>(
        Seq::empty(),
    ));
    assert(decode_channel(kind, value) == Ok::<ChannelAttrView, ChannelFault>(a));
    assert(decode_channels(b) == prepend(seq![a], decode_channels(frame_rest(b))));
    lemma_prepend_empty::<ChannelAttrView, ChannelFault>(seq![a], Ok(Seq::empty()));
}

/// A failure inside the header is a failure of the whole group: where the
/// first attribute of `b` is a header whose payload does not decode, `b`
/// does not decode, and the failure names the header, the place of the
/// sub-attribute in it and the reason.
pub proof fn lemma_nested_failure(b: Seq<u8>)
    requires
        frame_ok(b),
        frame_raw_kind(b) & 0x3fff == 1,
        decode_headers(frame_value(b)) is Err,
    ensures
        decode_channels(b) == Err::<Seq<ChannelAttrView>, (nat, ChannelFault)>(
            (
                0nat,
                ChannelFault::Header(
                    decode_headers(frame_value(b))->Err_0.0 as usize,
                    decode_headers(frame_value(b))->Err_0.1,
                ),
            ),
        ),
{
}

} // verus!
