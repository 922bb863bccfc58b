//! The attributes of the channel group: the queue counts of an interface.

use crate::error::{ChannelFault, Failure};
use crate::header::{
    decode_headers, emit_header_nlas, encode_header, encode_headers, header_fits, header_kind,
    header_value, header_views, headers_fit, parse_header_nlas, EthtoolHeader, HeaderView,
};
use crate::nla::{
    align4, emit_nla, frame_ok, frame_raw_kind, frame_rest, frame_value, lemma_frame_of_nla,
    lemma_prepend_empty, lemma_prepend_push, nla_bytes, next_frame, prepend, RawNla,
    NLA_MAX_VALUE_LEN,
};
use crate::wire::{lemma_native_u32, native_u32, native_u32_bytes, parse_u32, u32_to_native};
use vstd::prelude::*;
use vstd::slice::slice_to_vec;

verus! {

pub const ETHTOOL_A_CHANNELS_HEADER: u16 = 1;

pub const ETHTOOL_A_CHANNELS_COMBINED_MAX: u16 = 5;

pub const ETHTOOL_A_CHANNELS_COMBINED_COUNT: u16 = 9;

/// One attribute of the channel group.
#[derive(Debug, PartialEq, Eq, Clone)]
pub enum EthtoolChannelAttr {
    Header(Vec<EthtoolHeader>),
    MaxCombined(u32),
    CombinedCount(u32),
    Other(RawNla),
}

/// A channel attribute as a mathematical value.
pub enum ChannelAttrView {
    Header(Seq<HeaderView>),
    MaxCombined(u32),
    CombinedCount(u32),
    Other(u16, Seq<u8>),
}

impl View for EthtoolChannelAttr {
    type V = ChannelAttrView;

    open spec fn view(&self) -> ChannelAttrView {
        match self {
            EthtoolChannelAttr::Header(hdrs) => ChannelAttrView::Header(header_views(hdrs@)),
            EthtoolChannelAttr::MaxCombined(v) => ChannelAttrView::MaxCombined(*v),
            EthtoolChannelAttr::CombinedCount(v) => ChannelAttrView::CombinedCount(*v),
            EthtoolChannelAttr::Other(raw) => ChannelAttrView::Other(raw.kind, raw.value@),
        }
    }
}

/// An attribute of any group that a message can carry.
#[derive(Debug, PartialEq, Eq, Clone)]
pub enum EthtoolAttr {
    Channel(EthtoolChannelAttr),
}

impl View for EthtoolAttr {
    type V = ChannelAttrView;

    open spec fn view(&self) -> ChannelAttrView {
        match self {
            EthtoolAttr::Channel(a) => a@,
        }
    }
}

/// The views of a sequence of attributes.
pub open spec fn attr_views(s: Seq<EthtoolAttr>) -> Seq<ChannelAttrView> {
    s.map_values(|a: EthtoolAttr| a@)
}

/// The kind under which an attribute is written; the header carries the
/// nested flag.
pub open spec fn channel_kind(a: ChannelAttrView) -> u16 {
    match a {
        ChannelAttrView::Header(_) => 0x8001u16,
        ChannelAttrView::MaxCombined(_) => ETHTOOL_A_CHANNELS_COMBINED_MAX,
        ChannelAttrView::CombinedCount(_) => ETHTOOL_A_CHANNELS_COMBINED_COUNT,
        ChannelAttrView::Other(kind, _) => kind,
    }
}

/// The payload of an attribute: the header's sub-attributes one after the
/// other, a count as four bytes in the machine's byte order, anything else
/// as it is.
pub open spec fn channel_value(a: ChannelAttrView) -> Seq<u8> {
    match a {
        ChannelAttrView::Header(s) => encode_headers(s),
        ChannelAttrView::MaxCombined(v) => native_u32_bytes(v),
        ChannelAttrView::CombinedCount(v) => native_u32_bytes(v),
        ChannelAttrView::Other(_, value) => value,
    }
}

/// The attribute can be written: its payload, and that of each
/// sub-attribute, fits the 16-bit length field.
pub open spec fn channel_fits(a: ChannelAttrView) -> bool {
    &&& channel_value(a).len() <= NLA_MAX_VALUE_LEN
    &&& a matches ChannelAttrView::Header(s) ==> headers_fit(s)
}

/// The bytes of one attribute.
pub open spec fn encode_channel(a: ChannelAttrView) -> Seq<u8> {
    nla_bytes(channel_kind(a), channel_value(a))
}

/// The bytes of a sequence of attributes, one after the other.
pub open spec fn encode_channels(s: Seq<ChannelAttrView>) -> Seq<u8>
    decreases s.len(),
{
    if s.len() == 0 {
        Seq::empty()
    } else {
        encode_channels(s.drop_last()) + encode_channel(s.last())
    }
}

/// Every attribute can be written.
pub open spec fn channels_fit(s: Seq<ChannelAttrView>) -> bool {
    forall|i: int| 0 <= i < s.len() ==> channel_fits(#[trigger] s[i])
}

/// What a kind, flags included, and a payload decode to. The flags play no
/// part in telling the known kinds; an unknown kind is kept with them and
/// never fails.
pub open spec fn decode_channel(raw_kind: u16, value: Seq<u8>) -> Result<
    ChannelAttrView,
    ChannelFault,
> {
    let kind = raw_kind & 0x3fff;
    if kind == ETHTOOL_A_CHANNELS_HEADER {
        match decode_headers(value) {
            Ok(s) => Ok(ChannelAttrView::Header(s)),
            Err((i, f)) => Err(ChannelFault::Header(i as usize, f)),
        }
    } else if kind == ETHTOOL_A_CHANNELS_COMBINED_MAX {
        if value.len() == 4 {
            Ok(ChannelAttrView::MaxCombined(native_u32(value)))
        } else {
            Err(ChannelFault::MaxCombined)
        }
    } else if kind == ETHTOOL_A_CHANNELS_COMBINED_COUNT {
        if value.len() == 4 {
            Ok(ChannelAttrView::CombinedCount(native_u32(value)))
        } else {
            Err(ChannelFault::CombinedCount)
        }
    } else {
        Ok(ChannelAttrView::Other(raw_kind, value))
    }
}

/// What a buffer of channel attributes decodes to: the attributes in
/// order, or the first failure with the place of the attribute that caused
/// it.
pub open spec fn decode_channels(b: Seq<u8>) -> Result<Seq<ChannelAttrView>, (nat, ChannelFault)>
    decreases b.len(),
{
    if b.len() == 0 {
        Ok(Seq::empty())
    } else if !frame_ok(b) {
        Err((0nat, ChannelFault::Frame))
    } else {
        match decode_channel(frame_raw_kind(b), frame_value(b)) {
            Err(f) => Err((0nat, f)),
            Ok(a) => prepend(seq![a], decode_channels(frame_rest(b))),
        }
    }
}

/// A group's bytes grow with each attribute added.
pub proof fn lemma_encode_headers_prefix(s: Seq<HeaderView>, i: int)
    requires
        0 <= i <= s.len(),
    ensures
        encode_headers(s.take(i)).len() <= encode_headers(s).len(),
    decreases s.len(),
{
    if i == s.len() {
        assert(s.take(i) =~= s);
    } else {
        assert(s.drop_last().take(i) =~= s.take(i));
        lemma_encode_headers_prefix(s.drop_last(), i);
    }
}

/// The number of bytes of a header group, where each sub-attribute and the
/// group as a whole fit the 16-bit length field; `None` where one does not.
fn header_group_len(hdrs: &Vec<EthtoolHeader>) -> (r: Option<usize>)
    ensures
        match r {
            Some(n) => {
                &&& headers_fit(header_views(hdrs@))
                &&& n == encode_headers(header_views(hdrs@)).len()
                &&& n <= NLA_MAX_VALUE_LEN
            },
            None => !headers_fit(header_views(hdrs@)) || encode_headers(header_views(hdrs@)).len()
                > NLA_MAX_VALUE_LEN,
        },
{
    let ghost views = header_views(hdrs@);
    let mut total: usize = 0;
    let mut i: usize = 0;
    while i < hdrs.len()
        invariant
            i <= hdrs@.len(),
            views == header_views(hdrs@),
            total == encode_headers(views.take(i as int)).len(),
            total <= NLA_MAX_VALUE_LEN,
            headers_fit(views.take(i as int)),
        decreases hdrs@.len() - i,
    {
        if !hdrs[i].fits() {
            assert(!header_fits(views[i as int]));
            return None;
        }
        let n: usize = hdrs[i].value_len();
        let one: usize = (n + 3) / 4 * 4 + 4;
        proof {
            assert(views.take(i + 1).drop_last() =~= views.take(i as int));
            lemma_frame_of_nla(
                header_kind(views[i as int]),
                header_value(views[i as int]),
                Seq::empty(),
            );
            assert(encode_header(views[i as int]).len() == one);
            lemma_encode_headers_prefix(views, i + 1);
        }
        if one > NLA_MAX_VALUE_LEN - total {
            return None;
        }
        assert(headers_fit(views.take(i + 1))) by {
            assert forall|j: int| 0 <= j < i + 1 implies header_fits(
                #[trigger] views.take(i + 1)[j],
            ) by {
                if j < i {
                    assert(views.take(i as int)[j] == views.take(i + 1)[j]);
                }
            }
        }
        total = total + one;
        i = i + 1;
    }
    proof {
        assert(views.take(i as int) =~= views);
    }
    Some(total)
}

impl EthtoolChannelAttr {
    /// The kind under which this attribute is written.
    pub fn kind(&self) -> (k: u16)
        ensures
            k == channel_kind(self@),
    {
        match self {
            EthtoolChannelAttr::Header(_) => {
                let k: u16 = ETHTOOL_A_CHANNELS_HEADER | 0x8000;
                assert(k == 0x8001) by (bit_vector)
                    requires
                        k == 1u16 | 0x8000u16,
                ;
                k
            },
            EthtoolChannelAttr::MaxCombined(_) => ETHTOOL_A_CHANNELS_COMBINED_MAX,
            EthtoolChannelAttr::CombinedCount(_) => ETHTOOL_A_CHANNELS_COMBINED_COUNT,
            EthtoolChannelAttr::Other(raw) => raw.kind,
        }
    }

    /// Whether the attribute can be written: its payload, and that of each
    /// sub-attribute, fits the 16-bit length field. A count always can.
    pub fn fits(&self) -> (r: bool)
        ensures
            r == channel_fits(self@),
            self@ is MaxCombined || self@ is CombinedCount ==> r,
    {
        match self {
            EthtoolChannelAttr::Header(hdrs) => header_group_len(hdrs).is_some(),
            EthtoolChannelAttr::MaxCombined(v) => {
                proof {
                    lemma_native_u32(*v);
                }
                true
            },
            EthtoolChannelAttr::CombinedCount(v) => {
                proof {
                    lemma_native_u32(*v);
                }
                true
            },
            EthtoolChannelAttr::Other(raw) => raw.value.len() <= NLA_MAX_VALUE_LEN,
        }
    }

    /// The payload's bytes.
    pub fn emit_value(&self) -> (out: Vec<u8>)
        requires
            channel_fits(self@),
        ensures
            out@ == channel_value(self@),
    {
        match self {
            EthtoolChannelAttr::Header(hdrs) => emit_header_nlas(hdrs),
            EthtoolChannelAttr::MaxCombined(v) => u32_to_native(*v),
            EthtoolChannelAttr::CombinedCount(v) => u32_to_native(*v),
            EthtoolChannelAttr::Other(raw) => raw.value.clone(),
        }
    }

    /// The number of bytes of the payload.
    pub fn value_len(&self) -> (n: usize)
        requires
            channel_fits(self@),
        ensures
            n == channel_value(self@).len(),
    {
        match self {
            EthtoolChannelAttr::Header(hdrs) => {
                match header_group_len(hdrs) {
                    Some(n) => n,
                    None => 0,
                }
            },
            EthtoolChannelAttr::MaxCombined(v) => {
                proof {
                    lemma_native_u32(*v);
                }
                4
            },
            EthtoolChannelAttr::CombinedCount(v) => {
                proof {
                    lemma_native_u32(*v);
                }
                4
            },
            EthtoolChannelAttr::Other(raw) => raw.value.len(),
        }
    }

    /// The number of bytes of the whole attribute: header, payload and
    /// padding.
    pub fn buffer_len(&self) -> (n: usize)
        requires
            channel_fits(self@),
        ensures
            n == encode_channel(self@).len(),
            n == align4(channel_value(self@).len() as int) + 4,
    {
        proof {
            lemma_frame_of_nla(channel_kind(self@), channel_value(self@), Seq::empty());
        }
        (self.value_len() + 3) / 4 * 4 + 4
    }

    /// The bytes of this attribute: header, payload and padding.
    pub fn emit(&self) -> (out: Vec<u8>)
        requires
            channel_fits(self@),
        ensures
            out@ == encode_channel(self@),
    {
        let value = self.emit_value();
        emit_nla(self.kind(), value.as_slice())
    }

    /// Decodes one attribute from its kind, flags included, and its payload.
    pub fn parse(raw_kind: u16, value: &[u8]) -> (r: Result<EthtoolChannelAttr, ChannelFault>)
        ensures
            match r {
                Ok(a) => decode_channel(raw_kind, value@) == Ok::<ChannelAttrView, ChannelFault>(
                    a@,
                ),
                Err(f) => decode_channel(raw_kind, value@) == Err::<ChannelAttrView, ChannelFault>(
                    f,
                ),
            },
    {
        let kind: u16 = raw_kind & 0x3fff;
        if kind == ETHTOOL_A_CHANNELS_HEADER {
            match parse_header_nlas(value) {
                Ok(nlas) => Ok(EthtoolChannelAttr::Header(nlas)),
                Err(e) => Err(ChannelFault::Header(e.index, e.fault)),
            }
        } else if kind == ETHTOOL_A_CHANNELS_COMBINED_MAX {
            match parse_u32(value) {
                Ok(v) => Ok(EthtoolChannelAttr::MaxCombined(v)),
                Err(_) => Err(ChannelFault::MaxCombined),
            }
        } else if kind == ETHTOOL_A_CHANNELS_COMBINED_COUNT {
            match parse_u32(value) {
                Ok(v) => Ok(EthtoolChannelAttr::CombinedCount(v)),
                Err(_) => Err(ChannelFault::CombinedCount),
            }
        } else {
            Ok(EthtoolChannelAttr::Other(RawNla::new(raw_kind, slice_to_vec(value))))
        }
    }
}

/// Decodes a message's payload as channel attributes, in order, and stops
/// at the first that fails.
pub fn parse_channel_nlas(buffer: &[u8]) -> (r: Result<Vec<EthtoolAttr>, Failure<ChannelFault>>)
    ensures
        match r {
            Ok(nlas) => decode_channels(buffer@) == Ok::<
                Seq<ChannelAttrView>,
                (nat, ChannelFault),
            >(attr_views(nlas@)),
            Err(e) => decode_channels(buffer@) == Err::<Seq<ChannelAttrView>, (nat, ChannelFault)>(
                (e.index as nat, e.fault),
            ),
        },
{
    let mut nlas: Vec<EthtoolAttr> = Vec::new();
    let mut pos: usize = 0;
    proof {
        lemma_prepend_empty(attr_views(nlas@), decode_channels(buffer@));
        assert(buffer@.subrange(0, buffer@.len() as int) =~= buffer@);
        assert(attr_views(nlas@) =~= Seq::empty());
    }
    while pos < buffer.len()
        invariant
            pos <= buffer@.len(),
            decode_channels(buffer@) == prepend(
                attr_views(nlas@),
                decode_channels(buffer@.subrange(pos as int, buffer@.len() as int)),
            ),
        decreases buffer@.len() - pos,
    {
        let ghost done = attr_views(nlas@);
        let ghost rest = buffer@.subrange(pos as int, buffer@.len() as int);
        match next_frame(buffer, pos) {
            None => {
                return Err(Failure { index: nlas.len(), fault: ChannelFault::Frame });
            },
            Some((kind, value, next)) => {
                match EthtoolChannelAttr::parse(kind, value) {
                    Err(f) => {
                        return Err(Failure { index: nlas.len(), fault: f });
                    },
                    Ok(a) => {
                        let attr = EthtoolAttr::Channel(a);
                        proof {
                            lemma_prepend_push(done, attr@, decode_channels(frame_rest(rest)));
                            assert(attr_views(nlas@.push(attr)) =~= done.push(attr@));
                        }
                        nlas.push(attr);
                        pos = next;
                    },
                }
            },
        }
    }
    proof {
        lemma_prepend_empty(attr_views(nlas@), decode_channels(buffer@));
        assert(buffer@.subrange(pos as int, buffer@.len() as int) =~= Seq::<u8>::empty());
    }
    Ok(nlas)
}

/// The bytes of a sequence of attributes, one after the other.
pub fn emit_channel_nlas(nlas: &Vec<EthtoolAttr>) -> (out: Vec<u8>)
    requires
        channels_fit(attr_views(nlas@)),
    ensures
        out@ == encode_channels(attr_views(nlas@)),
{
    let mut out: Vec<u8> = Vec::new();
    let mut i: usize = 0;
    while i < nlas.len()
        invariant
            i <= nlas@.len(),
            channels_fit(attr_views(nlas@)),
            out@ == encode_channels(attr_views(nlas@).take(i as int)),
        decreases nlas@.len() - i,
    {
        let ghost views = attr_views(nlas@);
        assert(channel_fits(views[i as int]));
        let mut one = match &nlas[i] {
            EthtoolAttr::Channel(a) => a.emit(),
        };
        proof {
            assert(views.take(i + 1).drop_last() =~= views.take(i as int));
        }
        out.append(&mut one);
        i = i + 1;
    }
    proof {
        assert(attr_views(nlas@).take(i as int) =~= attr_views(nlas@));
    }
    out
}

} // verus!
