//! The payload of a message of the family: a command and its attributes.

use crate::channel::attr::{
    attr_views, channels_fit, decode_channels, emit_channel_nlas, encode_channels,
    parse_channel_nlas, ChannelAttrView, EthtoolAttr, EthtoolChannelAttr,
};
use crate::error::{ChannelFault, EthtoolError};
use crate::header::{EthtoolHeader, HeaderView};
use vstd::prelude::*;
use vstd::string::*;

verus! {

pub const ETHTOOL_MSG_CHANNELS_GET: u8 = 17;

pub const ETHTOOL_MSG_CHANNELS_GET_REPLY: u8 = 18;

pub const ETHTOOL_MSG_CHANNELS_SET: u8 = 18;

/// What a message asks for or answers.
#[derive(Debug, PartialEq, Eq, Clone, Copy)]
pub enum EthtoolCmd {
    ChannelGet,
    ChannelGetReply,
    ChannelSet,
}

/// A message of the family.
#[derive(Debug, PartialEq, Eq, Clone)]
pub struct EthtoolMessage {
    pub cmd: EthtoolCmd,
    pub nlas: Vec<EthtoolAttr>,
}

/// The header that selects the interface of this name, or every interface
/// where there is none.
pub open spec fn selector(iface_name: Option<&str>) -> ChannelAttrView {
    match iface_name {
        Some(name) => ChannelAttrView::Header(seq![HeaderView::DevName(name@)]),
        None => ChannelAttrView::Header(Seq::empty()),
    }
}

/// The command byte under which each command travels.
pub open spec fn command_byte(cmd: EthtoolCmd) -> u8 {
    match cmd {
        EthtoolCmd::ChannelGet => ETHTOOL_MSG_CHANNELS_GET,
        EthtoolCmd::ChannelGetReply => ETHTOOL_MSG_CHANNELS_GET_REPLY,
        EthtoolCmd::ChannelSet => ETHTOOL_MSG_CHANNELS_SET,
    }
}

/// The header attribute that selects an interface.
fn selector_attr(iface_name: Option<&str>) -> (a: EthtoolAttr)
    ensures
        a@ == selector(iface_name),
{
    let mut hdrs: Vec<EthtoolHeader> = Vec::new();
    match iface_name {
        Some(name) => {
            hdrs.push(EthtoolHeader::DevName(String::from_str(name)));
            assert(crate::header::header_views(hdrs@) =~= seq![HeaderView::DevName(name@)]);
        },
        None => {
            assert(crate::header::header_views(hdrs@) =~= Seq::empty());
        },
    }
    EthtoolAttr::Channel(EthtoolChannelAttr::Header(hdrs))
}

impl EthtoolMessage {
    /// The request for the channel counts of one interface, or of all.
    pub fn new_channel_get(iface_name: Option<&str>) -> (m: EthtoolMessage)
        ensures
            m.cmd == EthtoolCmd::ChannelGet,
            attr_views(m.nlas@) == seq![selector(iface_name)],
    {
        let mut nlas: Vec<EthtoolAttr> = Vec::new();
        nlas.push(selector_attr(iface_name));
        assert(attr_views(nlas@) =~= seq![selector(iface_name)]);
        EthtoolMessage { cmd: EthtoolCmd::ChannelGet, nlas }
    }

    /// The request to set the combined count of an interface.
    pub fn new_channel_set(iface_name: Option<&str>, combined_count: u32) -> (m: EthtoolMessage)
        ensures
            m.cmd == EthtoolCmd::ChannelSet,
            attr_views(m.nlas@) == seq![
                selector(iface_name),
                ChannelAttrView::CombinedCount(combined_count),
            ],
    {
        let mut nlas: Vec<EthtoolAttr> = Vec::new();
        nlas.push(selector_attr(iface_name));
        nlas.push(EthtoolAttr::Channel(EthtoolChannelAttr::CombinedCount(combined_count)));
        assert(attr_views(nlas@) =~= seq![
            selector(iface_name),
            ChannelAttrView::CombinedCount(combined_count),
        ]);
        EthtoolMessage { cmd: EthtoolCmd::ChannelSet, nlas }
    }

    /// The command byte under which this message travels.
    pub fn message_type(&self) -> (b: u8)
        ensures
            b == command_byte(self.cmd),
    {
        match self.cmd {
            EthtoolCmd::ChannelGet => ETHTOOL_MSG_CHANNELS_GET,
            EthtoolCmd::ChannelGetReply => ETHTOOL_MSG_CHANNELS_GET_REPLY,
            EthtoolCmd::ChannelSet => ETHTOOL_MSG_CHANNELS_SET,
        }
    }

    /// Whether every attribute can be written.
    pub fn fits(&self) -> (r: bool)
        ensures
            r == channels_fit(attr_views(self.nlas@)),
    {
        let mut i: usize = 0;
        while i < self.nlas.len()
            invariant
                i <= self.nlas@.len(),
                forall|j: int|
                    0 <= j < i ==> crate::channel::attr::channel_fits(
                        #[trigger] attr_views(self.nlas@)[j],
                    ),
            decreases self.nlas@.len() - i,
        {
            let ok = match &self.nlas[i] {
                EthtoolAttr::Channel(a) => a.fits(),
            };
            if !ok {
                assert(!crate::channel::attr::channel_fits(attr_views(self.nlas@)[i as int]));
                return false;
            }
            i = i + 1;
        }
        true
    }

    /// The bytes of the attributes, one after the other.
    pub fn emit(&self) -> (out: Vec<u8>)
        requires
            channels_fit(attr_views(self.nlas@)),
        ensures
            out@ == encode_channels(attr_views(self.nlas@)),
    {
        emit_channel_nlas(&self.nlas)
    }

    /// Decodes a reply from its command byte and its attribute bytes. Only
    /// the reply to a channel query is known; its attributes are decoded in
    /// order and the first failure is reported with its place.
    pub fn parse(cmd: u8, payload: &[u8]) -> (r: Result<EthtoolMessage, EthtoolError>)
        ensures
            match r {
                Ok(m) => {
                    &&& cmd == ETHTOOL_MSG_CHANNELS_GET_REPLY
                    &&& m.cmd == EthtoolCmd::ChannelGetReply
                    &&& decode_channels(payload@) == Ok::<
                        Seq<ChannelAttrView>,
                        (nat, ChannelFault),
                    >(attr_views(m.nlas@))
                },
                Err(EthtoolError::UnknownCommand(c)) => c == cmd && cmd
                    != ETHTOOL_MSG_CHANNELS_GET_REPLY,
                Err(EthtoolError::Decode(e)) => {
                    &&& cmd == ETHTOOL_MSG_CHANNELS_GET_REPLY
                    &&& decode_channels(payload@) == Err::<
                        Seq<ChannelAttrView>,
                        (nat, ChannelFault),
                    >((e.index as nat, e.fault))
                },
                Err(_) => false,
            },
    {
        if cmd == ETHTOOL_MSG_CHANNELS_GET_REPLY {
            match parse_channel_nlas(payload) {
                Ok(nlas) => Ok(EthtoolMessage { cmd: EthtoolCmd::ChannelGetReply, nlas }),
                Err(e) => Err(EthtoolError::Decode(e)),
            }
        } else {
            Err(EthtoolError::UnknownCommand(cmd))
        }
    }
}

} // verus!
