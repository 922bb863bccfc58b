//! What can be wrong with received bytes, and with a request.

use vstd::prelude::*;

verus! {

/// Why a header sub-attribute could not be decoded.
#[derive(Clone, Copy, Debug, PartialEq, Eq)]
pub enum HeaderFault {
    /// No whole attribute starts where one should: the bytes end too early
    /// or the stated length is out of range.
    Frame,
    /// The interface index is not four bytes wide.
    DevIndex,
    /// The interface name is not UTF-8.
    DevName,
    /// The flags are not four bytes wide.
    Flags,
}

/// Why a channel attribute could not be decoded.
#[derive(Clone, Copy, Debug, PartialEq, Eq)]
pub enum ChannelFault {
    /// No whole attribute starts where one should.
    Frame,
    /// The header's sub-attribute at this place failed, for this reason.
    Header(usize, HeaderFault),
    /// The maximum combined count is not four bytes wide.
    MaxCombined,
    /// The combined count is not four bytes wide.
    CombinedCount,
}

/// A failure together with the place, counted from zero, of the attribute
/// in its group that caused it.
#[derive(Clone, Copy, Debug, PartialEq, Eq)]
pub struct Failure<F> {
    pub index: usize,
    pub fault: F,
}

/// What a request can end in, item by item of its replies.
#[derive(Clone, Debug, PartialEq, Eq)]
pub enum EthtoolError {
    /// The request could not be handed to the transport; the text is the
    /// transport's description.
    RequestFailed(String),
    /// The kernel answered with an error status, which is kept.
    NetlinkError(i32),
    /// A reply that is neither a message of this family nor an error.
    UnexpectedMessage,
    /// A reply's attributes could not be decoded.
    Decode(Failure<ChannelFault>),
    /// A reply with a command that is not known.
    UnknownCommand(u8),
    /// A reply that the transport could not decode; the text is its
    /// description.
    Bug(String),
}

} // verus!
