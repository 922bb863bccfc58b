//! The header attribute group, which says which interface a message is about.

use crate::error::{Failure, HeaderFault};
use crate::nla::{
    align4, emit_nla, frame_ok, frame_raw_kind, frame_rest, frame_value, lemma_frame_of_nla,
    lemma_prepend_empty, lemma_prepend_push, nla_bytes, next_frame, prepend, RawNla,
    NLA_MAX_VALUE_LEN,
};
use crate::wire::{
    lemma_native_u32, native_u32, native_u32_bytes, parse_string, parse_u32, text_bytes,
    u32_to_native,
};
use vstd::prelude::*;
use vstd::slice::slice_to_vec;
use vstd::string::*;
use vstd::utf8::*;

verus! {

pub const ETHTOOL_A_HEADER_DEV_INDEX: u16 = 1;

pub const ETHTOOL_A_HEADER_DEV_NAME: u16 = 2;

pub const ETHTOOL_A_HEADER_FLAGS: u16 = 3;

/// One sub-attribute of a message's header.
#[derive(Clone, Debug, PartialEq, Eq)]
pub enum EthtoolHeader {
    DevIndex(u32),
    DevName(String),
    Flags(u32),
    Other(RawNla),
}

/// A header sub-attribute as a mathematical value.
pub enum HeaderView {
    DevIndex(u32),
    DevName(Seq<char>),
    Flags(u32),
    Other(u16, Seq<u8>),
}

impl View for EthtoolHeader {
    type V = HeaderView;

    open spec fn view(&self) -> HeaderView {
        match self {
            EthtoolHeader::DevIndex(v) => HeaderView::DevIndex(*v),
            EthtoolHeader::DevName(s) => HeaderView::DevName(s@),
            EthtoolHeader::Flags(v) => HeaderView::Flags(*v),
            EthtoolHeader::Other(raw) => HeaderView::Other(raw.kind, raw.value@),
        }
    }
}

/// The views of a sequence of header sub-attributes.
pub open spec fn header_views(s: Seq<EthtoolHeader>) -> Seq<HeaderView> {
    s.map_values(|h: EthtoolHeader| h@)
}

/// The kind under which a sub-attribute is written.
pub open spec fn header_kind(h: HeaderView) -> u16 {
    match h {
        HeaderView::DevIndex(_) => ETHTOOL_A_HEADER_DEV_INDEX,
        HeaderView::DevName(_) => ETHTOOL_A_HEADER_DEV_NAME,
        HeaderView::Flags(_) => ETHTOOL_A_HEADER_FLAGS,
        HeaderView::Other(kind, _) => kind,
    }
}

/// The payload of a sub-attribute: integers in the machine's byte order,
/// a name as UTF-8 with a closing NUL byte, anything else as it is.
pub open spec fn header_value(h: HeaderView) -> Seq<u8> {
    match h {
        HeaderView::DevIndex(v) => native_u32_bytes(v),
        HeaderView::DevName(s) => encode_utf8(s).push(0u8),
        HeaderView::Flags(v) => native_u32_bytes(v),
        HeaderView::Other(_, value) => value,
    }
}

/// The payload's length fits the 16-bit length field.
pub open spec fn header_fits(h: HeaderView) -> bool {
    header_value(h).len() <= NLA_MAX_VALUE_LEN
}

/// The bytes of one sub-attribute.
pub open spec fn encode_header(h: HeaderView) -> Seq<u8> {
    nla_bytes(header_kind(h), header_value(h))
}

/// The bytes of a sequence of sub-attributes, one after the other.
pub open spec fn encode_headers(s: Seq<HeaderView>) -> Seq<u8>
    decreases s.len(),
{
    if s.len() == 0 {
        Seq::empty()
    } else {
        encode_headers(s.drop_last()) + encode_header(s.last())
    }
}

/// Every sub-attribute fits.
pub open spec fn headers_fit(s: Seq<HeaderView>) -> bool {
    forall|i: int| 0 <= i < s.len() ==> header_fits(#[trigger] s[i])
}

/// What a kind, flags included, and a payload decode to. The flags play no
/// part in telling the known kinds; an unknown kind is kept with them.
pub open spec fn decode_header(raw_kind: u16, value: Seq<u8>) -> Result<HeaderView, HeaderFault> {
    let kind = raw_kind & 0x3fff;
    if kind == ETHTOOL_A_HEADER_DEV_INDEX {
        if value.len() == 4 {
            Ok(HeaderView::DevIndex(native_u32(value)))
        } else {
            Err(HeaderFault::DevIndex)
        }
    } else if kind == ETHTOOL_A_HEADER_DEV_NAME {
        if valid_utf8(text_bytes(value)) {
            Ok(HeaderView::DevName(decode_utf8(text_bytes(value))))
        } else {
            Err(HeaderFault::DevName)
        }
    } else if kind == ETHTOOL_A_HEADER_FLAGS {
        if value.len() == 4 {
            Ok(HeaderView::Flags(native_u32(value)))
        } else {
            Err(HeaderFault::Flags)
        }
    } else {
        Ok(HeaderView::Other(raw_kind, value))
    }
}

/// What a buffer of sub-attributes decodes to: the attributes in order, or
/// the first failure with the place of the attribute that caused it.
pub open spec fn decode_headers(b: Seq<u8>) -> Result<Seq<HeaderView>, (nat, HeaderFault)>
    decreases b.len(),
{
    if b.len() == 0 {
        Ok(Seq::empty())
    } else if !frame_ok(b) {
        Err((0nat, HeaderFault::Frame))
    } else {
        match decode_header(frame_raw_kind(b), frame_value(b)) {
            Err(f) => Err((0nat, f)),
            Ok(h) => prepend(seq![h], decode_headers(frame_rest(b))),
        }
    }
}

impl EthtoolHeader {
    /// The kind under which this sub-attribute is written.
    pub fn kind(&self) -> (k: u16)
        ensures
            k == header_kind(self@),
    {
        match self {
            EthtoolHeader::DevIndex(_) => ETHTOOL_A_HEADER_DEV_INDEX,
            EthtoolHeader::DevName(_) => ETHTOOL_A_HEADER_DEV_NAME,
            EthtoolHeader::Flags(_) => ETHTOOL_A_HEADER_FLAGS,
            EthtoolHeader::Other(raw) => raw.kind,
        }
    }

    /// The payload's bytes.
    pub fn emit_value(&self) -> (out: Vec<u8>)
        ensures
            out@ == header_value(self@),
    {
        match self {
            EthtoolHeader::DevIndex(v) => u32_to_native(*v),
            EthtoolHeader::DevName(s) => {
                let mut out = s.as_str().as_bytes_vec();
                out.push(0u8);
                out
            },
            EthtoolHeader::Flags(v) => u32_to_native(*v),
            EthtoolHeader::Other(raw) => raw.value.clone(),
        }
    }

    /// The number of bytes of the payload.
    pub fn value_len(&self) -> (n: usize)
        requires
            header_fits(self@),
        ensures
            n == header_value(self@).len(),
    {
        proof {
            lemma_native_u32(0);
        }
        match self {
            EthtoolHeader::DevIndex(v) => {
                proof {
                    lemma_native_u32(*v);
                }
                4
            },
            EthtoolHeader::DevName(s) => s.as_str().as_bytes().len() + 1,
            EthtoolHeader::Flags(v) => {
                proof {
                    lemma_native_u32(*v);
                }
                4
            },
            EthtoolHeader::Other(raw) => raw.value.len(),
        }
    }

    /// Whether the payload's length fits the 16-bit length field. That of
    /// an index or of flags always does.
    pub fn fits(&self) -> (r: bool)
        ensures
            r == header_fits(self@),
            self@ is DevIndex || self@ is Flags ==> r,
    {
        match self {
            EthtoolHeader::DevIndex(v) => {
                proof {
                    lemma_native_u32(*v);
                }
                true
            },
            EthtoolHeader::DevName(s) => s.as_str().as_bytes().len() < NLA_MAX_VALUE_LEN,
            EthtoolHeader::Flags(v) => {
                proof {
                    lemma_native_u32(*v);
                }
                true
            },
            EthtoolHeader::Other(raw) => raw.value.len() <= NLA_MAX_VALUE_LEN,
        }
    }

    /// The number of bytes of the whole sub-attribute: header, payload and
    /// padding.
    pub fn buffer_len(&self) -> (n: usize)
        requires
            header_fits(self@),
        ensures
            n == encode_header(self@).len(),
            n == align4(header_value(self@).len() as int) + 4,
    {
        proof {
            lemma_frame_of_nla(header_kind(self@), header_value(self@), Seq::empty());
        }
        (self.value_len() + 3) / 4 * 4 + 4
    }

    /// The bytes of this sub-attribute: header, payload and padding.
    pub fn emit(&self) -> (out: Vec<u8>)
        requires
            header_fits(self@),
        ensures
            out@ == encode_header(self@),
    {
        let value = self.emit_value();
        emit_nla(self.kind(), value.as_slice())
    }

    /// Decodes one sub-attribute from its kind, flags included, and its
    /// payload.
    pub fn parse(raw_kind: u16, value: &[u8]) -> (r: Result<EthtoolHeader, HeaderFault>)
        ensures
            match r {
                Ok(h) => decode_header(raw_kind, value@) == Ok::<HeaderView, HeaderFault>(h@),
                Err(f) => decode_header(raw_kind, value@) == Err::<HeaderView, HeaderFault>(f),
            },
    {
        let kind: u16 = raw_kind & 0x3fff;
        if kind == ETHTOOL_A_HEADER_DEV_INDEX {
            match parse_u32(value) {
                Ok(v) => Ok(EthtoolHeader::DevIndex(v)),
                Err(_) => Err(HeaderFault::DevIndex),
            }
        } else if kind == ETHTOOL_A_HEADER_DEV_NAME {
            match parse_string(value) {
                Ok(s) => Ok(EthtoolHeader::DevName(s)),
                Err(_) => Err(HeaderFault::DevName),
            }
        } else if kind == ETHTOOL_A_HEADER_FLAGS {
            match parse_u32(value) {
                Ok(v) => Ok(EthtoolHeader::Flags(v)),
                Err(_) => Err(HeaderFault::Flags),
            }
        } else {
            Ok(EthtoolHeader::Other(RawNla::new(raw_kind, slice_to_vec(value))))
        }
    }
}

/// Decodes a buffer of header sub-attributes, in order, and stops at the
/// first that fails.
pub fn parse_header_nlas(buf: &[u8]) -> (r: Result<Vec<EthtoolHeader>, Failure<HeaderFault>>)
    ensures
        match r {
            Ok(nlas) => decode_headers(buf@) == Ok::<Seq<HeaderView>, (nat, HeaderFault)>(
                header_views(nlas@),
            ),
            Err(e) => decode_headers(buf@) == Err::<Seq<HeaderView>, (nat, HeaderFault)>(
                (e.index as nat, e.fault),
            ),
        },
{
    let mut nlas: Vec<EthtoolHeader> = Vec::new();
    let mut pos: usize = 0;
    proof {
        lemma_prepend_empty(header_views(nlas@), decode_headers(buf@));
        assert(buf@.subrange(0, buf@.len() as int) =~= buf@);
        assert(header_views(nlas@) =~= Seq::empty());
    }
    while pos < buf.len()
        invariant
            pos <= buf@.len(),
            decode_headers(buf@) == prepend(
                header_views(nlas@),
                decode_headers(buf@.subrange(pos as int, buf@.len() as int)),
            ),
        decreases buf@.len() - pos,
    {
        let ghost done = header_views(nlas@);
        let ghost rest = buf@.subrange(pos as int, buf@.len() as int);
        match next_frame(buf, pos) {
            None => {
                return Err(Failure { index: nlas.len(), fault: HeaderFault::Frame });
            },
            Some((kind, value, next)) => {
                match EthtoolHeader::parse(kind, value) {
                    Err(f) => {
                        return Err(Failure { index: nlas.len(), fault: f });
                    },
                    Ok(h) => {
                        proof {
                            lemma_prepend_push(done, h@, decode_headers(frame_rest(rest)));
                            assert(header_views(nlas@.push(h)) =~= done.push(h@));
                        }
                        nlas.push(h);
                        pos = next;
                    },
                }
            },
        }
    }
    proof {
        lemma_prepend_empty(header_views(nlas@), decode_headers(buf@));
        assert(buf@.subrange(pos as int, buf@.len() as int) =~= Seq::<u8>::empty());
    }
    Ok(nlas)
}

/// The bytes of a sequence of header sub-attributes, one after the other.
pub fn emit_header_nlas(nlas: &Vec<EthtoolHeader>) -> (out: Vec<u8>)
    requires
        headers_fit(header_views(nlas@)),
    ensures
        out@ == encode_headers(header_views(nlas@)),
{
    let mut out: Vec<u8> = Vec::new();
    let mut i: usize = 0;
    while i < nlas.len()
        invariant
            i <= nlas@.len(),
            headers_fit(header_views(nlas@)),
            out@ == encode_headers(header_views(nlas@).take(i as int)),
        decreases nlas@.len() - i,
    {
        let ghost views = header_views(nlas@);
        assert(header_fits(views[i as int]));
        let mut one = nlas[i].emit();
        proof {
            assert(views.take(i + 1).drop_last() =~= views.take(i as int));
        }
        out.append(&mut one);
        i = i + 1;
    }
    proof {
        assert(header_views(nlas@).take(i as int) =~= header_views(nlas@));
    }
    out
}

} // verus!
