//! The request to set an interface's combined channel count.

use crate::channel::attr::{attr_views, ChannelAttrView};
use crate::handle::{ethtool_execute, flags_of, EthtoolHandle, Envelope};
use crate::message::{selector, EthtoolCmd, EthtoolMessage};
use vstd::prelude::*;
use vstd::string::*;

verus! {

pub struct EthtoolChannelSetRequest {
    handle: EthtoolHandle,
    iface_name: Option<String>,
    combined_count: u32,
}

impl EthtoolChannelSetRequest {
    /// The request is about the interface of this name, or about every
    /// interface where there is none.
    pub closed spec fn selects(&self, iface_name: Option<&str>) -> bool {
        match (self.iface_name, iface_name) {
            (Some(mine), Some(name)) => mine@ == name@,
            (None, None) => true,
            _ => false,
        }
    }

    /// The connection over which the request will go.
    pub closed spec fn connection(&self) -> EthtoolHandle {
        self.handle
    }

    /// The request names no interface.
    pub closed spec fn dumps(&self) -> bool {
        self.iface_name is None
    }

    /// The combined count that the request sets.
    pub closed spec fn count(&self) -> u32 {
        self.combined_count
    }

    pub(crate) fn new(handle: EthtoolHandle, iface_name: Option<&str>, combined_count: u32) -> (r: Self)
        ensures
            r.connection() == handle,
            r.selects(iface_name),
            r.dumps() <==> iface_name is None,
            r.count() == combined_count,
    {
        let iface_name = match iface_name {
            Some(name) => Some(String::from_str(name)),
            None => None,
        };
        EthtoolChannelSetRequest { handle, iface_name, combined_count }
    }

    /// What to send, and over which connection: the new count in an
    /// envelope whose flags ask for an acknowledgement; a request that
    /// names no interface is sent as it is, with the flags of a dump.
    pub fn execute(self) -> (r: (EthtoolHandle, Envelope))
        ensures
            r.0 == self.connection(),
            r.1.flags == flags_of(self.dumps(), true),
            r.1.message.cmd == EthtoolCmd::ChannelSet,
            forall|name: Option<&str>|
                self.selects(name) ==> attr_views(r.1.message.nlas@) == seq![
                    selector(name),
                    ChannelAttrView::CombinedCount(self.count()),
                ],
    {
        let EthtoolChannelSetRequest { handle, iface_name, combined_count } = self;
        let is_dump = iface_name.is_none();
        let message = match &iface_name {
            Some(name) => EthtoolMessage::new_channel_set(Some(name.as_str()), combined_count),
            None => EthtoolMessage::new_channel_set(None, combined_count),
        };
        (handle, ethtool_execute(is_dump, message, true))
    }
}

} // verus!
