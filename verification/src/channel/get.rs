//! The query for an interface's channel counts.

use crate::channel::attr::attr_views;
use crate::handle::{ethtool_execute, flags_of, EthtoolHandle, Envelope};
use crate::message::{selector, EthtoolCmd, EthtoolMessage};
use vstd::prelude::*;
use vstd::string::*;

verus! {

pub struct EthtoolChannelGetRequest {
    handle: EthtoolHandle,
    iface_name: Option<String>,
}

impl EthtoolChannelGetRequest {
    /// The request is about the interface of this name, or about every
    /// interface where there is none.
    pub closed spec fn selects(&self, iface_name: Option<&str>) -> bool {
        match (self.iface_name, iface_name) {
            (Some(mine), Some(name)) => mine@ == name@,
            (None, None) => true,
            _ => false,
        }
    }

    /// The connection over which the request will go.
    pub closed spec fn connection(&self) -> EthtoolHandle {
        self.handle
    }

    /// The request asks for every interface.
    pub closed spec fn dumps(&self) -> bool {
        self.iface_name is None
    }

    pub(crate) fn new(handle: EthtoolHandle, iface_name: Option<&str>) -> (r: Self)
        ensures
            r.connection() == handle,
            r.selects(iface_name),
            r.dumps() <==> iface_name is None,
    {
        let iface_name = match iface_name {
            Some(name) => Some(String::from_str(name)),
            None => None,
        };
        EthtoolChannelGetRequest { handle, iface_name }
    }

    /// Whether the request asks for every interface.
    pub fn is_dump(&self) -> (r: bool)
        ensures
            r == self.dumps(),
    {
        self.iface_name.is_none()
    }

    /// What to send, and over which connection: the query in an envelope
    /// whose flags ask for an acknowledgement and, where no interface is
    /// named, for every interface.
    pub fn execute(self) -> (r: (EthtoolHandle, Envelope))
        ensures
            r.0 == self.connection(),
            r.1.flags == flags_of(self.dumps(), true),
            r.1.message.cmd == EthtoolCmd::ChannelGet,
            forall|name: Option<&str>|
                self.selects(name) ==> attr_views(r.1.message.nlas@) == seq![selector(name)],
    {
        let EthtoolChannelGetRequest { handle, iface_name } = self;
        let is_dump = iface_name.is_none();
        let message = match &iface_name {
            Some(name) => EthtoolMessage::new_channel_get(Some(name.as_str())),
            None => EthtoolMessage::new_channel_get(None),
        };
        (handle, ethtool_execute(is_dump, message, true))
    }
}

} // verus!
