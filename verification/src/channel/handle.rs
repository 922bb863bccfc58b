//! The handle that makes the requests of the channel group.

use crate::channel::get::EthtoolChannelGetRequest;
use crate::channel::set::EthtoolChannelSetRequest;
use crate::handle::EthtoolHandle;
use vstd::prelude::*;

verus! {

pub struct EthtoolChannelHandle(pub EthtoolHandle);

impl EthtoolChannelHandle {
    pub fn new(handle: EthtoolHandle) -> (r: Self)
        ensures
            r.0 == handle,
    {
        EthtoolChannelHandle(handle)
    }

    /// A query for the channel counts of the named interface, or of every
    /// interface where no name is given.
    pub fn get(&mut self, iface_name: Option<&str>) -> (r: EthtoolChannelGetRequest)
        ensures
            r.selects(iface_name),
            r.dumps() <==> iface_name is None,
            *final(self) == *old(self),
    {
        EthtoolChannelGetRequest::new(self.0.clone(), iface_name)
    }

    /// A request to set the combined count of the named interface.
    pub fn set(&mut self, iface_name: Option<&str>, combined_count: u32) -> (r:
        EthtoolChannelSetRequest)
        ensures
            r.selects(iface_name),
            r.dumps() <==> iface_name is None,
            r.count() == combined_count,
            *final(self) == *old(self),
    {
        EthtoolChannelSetRequest::new(self.0.clone(), iface_name, combined_count)
    }
}

} // verus!
