//! Typed encoder, decoder and request planning for the ethtool netlink
//! family: attribute framing, the channel attribute group, request flags
//! and what the caller sees of the replies.

pub mod canonical;
pub mod channel;
pub mod error;
pub mod handle;
pub mod header;
pub mod message;
pub mod nla;
pub mod round_trip;
pub mod wire;

pub use channel::attr::{parse_channel_nlas, EthtoolAttr, EthtoolChannelAttr};
pub use channel::get::EthtoolChannelGetRequest;
pub use channel::handle::EthtoolChannelHandle;
pub use channel::set::EthtoolChannelSetRequest;
pub use error::{ChannelFault, EthtoolError, Failure, HeaderFault};
pub use handle::{
    ethtool_execute, failed_replies, reply_item, reply_items, request_failed, request_flags,
    Envelope, EthtoolHandle, Reply,
};
pub use header::EthtoolHeader;
pub use message::{EthtoolCmd, EthtoolMessage};
pub use nla::RawNla;
