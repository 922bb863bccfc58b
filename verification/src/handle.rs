//! The connection handle, the flags of a request, and what becomes of the
//! replies.

use crate::channel::handle::EthtoolChannelHandle;
use crate::error::EthtoolError;
use crate::message::EthtoolMessage;
use genetlink::GenetlinkHandle;
use vstd::prelude::*;
use vstd::string::*;

verus! {

/// The handle of an open generic-netlink connection; it is carried, and
/// nothing is known of its contents.
#[verifier::external_type_specification]
#[verifier::external_body]
pub struct ExGenetlinkHandle(GenetlinkHandle);

/// `GenetlinkHandle::clone`. The crate documents that a cloned handle uses
/// the same connection as the handle it was cloned from and shares its
/// cache of family ids; the clone that `derive` wrote copies the sender of
/// the connection's request queue and the pointer to the resolver. In
/// specifications a handle stands for that connection and that resolver,
/// so the clone is the same value.
pub assume_specification[ <GenetlinkHandle as Clone>::clone ](h: &GenetlinkHandle) -> (r:
    GenetlinkHandle)
    ensures
        r == *h,
;

/// `netlink_packet_core::NLM_F_REQUEST`, the flag of every request.
#[verifier::external_body]
fn nlm_f_request() -> (f: u16)
    ensures
        f == 1,
{
    netlink_packet_core::NLM_F_REQUEST
}

/// `netlink_packet_core::NLM_F_ACK`, the flag that asks for an
/// acknowledgement.
#[verifier::external_body]
fn nlm_f_ack() -> (f: u16)
    ensures
        f == 4,
{
    netlink_packet_core::NLM_F_ACK
}

/// `netlink_packet_core::NLM_F_DUMP`, the two flags of a query for every
/// instance.
#[verifier::external_body]
fn nlm_f_dump() -> (f: u16)
    ensures
        f == 0x300,
{
    netlink_packet_core::NLM_F_DUMP
}

/// The flags of a request: the request flag always; for a dump the dump
/// flags and the acknowledgement flag together, whatever was asked; else
/// the acknowledgement flag where one was asked for.
pub open spec fn flags_of(is_dump: bool, with_ack: bool) -> u16 {
    if is_dump {
        0x305
    } else if with_ack {
        0x005
    } else {
        0x001
    }
}

/// A message together with the flags of the envelope that carries it.
#[derive(Debug, PartialEq, Eq, Clone)]
pub struct Envelope {
    pub flags: u16,
    pub message: EthtoolMessage,
}

/// What the transport delivered for one reply.
#[derive(Debug, PartialEq, Eq, Clone)]
pub enum Reply {
    /// A message of the family.
    Message(EthtoolMessage),
    /// An error status of the kernel.
    Error(i32),
    /// Anything else that was well-formed.
    Unexpected,
    /// A message that did not decode, with the transport's description.
    Undecodable(String),
}

/// The text of a failure to hand a request to the transport, before the
/// transport's description.
pub open spec fn request_failed_prefix() -> Seq<char> {
    "BUG: Request failed with "@
}

/// The text of a reply that did not decode, before the transport's
/// description.
pub open spec fn decode_error_prefix() -> Seq<char> {
    "BUG: decode error "@
}

/// `item` is what the caller sees of `reply`: a message of the family as it
/// is, an error status as a typed error that keeps the status, anything
/// else as unexpected, and a reply that did not decode as a failure whose
/// text ends in the transport's description.
pub open spec fn is_item_of(item: Result<EthtoolMessage, EthtoolError>, reply: Reply) -> bool {
    match reply {
        Reply::Message(m) => item == Ok::<EthtoolMessage, EthtoolError>(m),
        Reply::Error(code) => item == Err::<EthtoolMessage, EthtoolError>(
            EthtoolError::NetlinkError(code),
        ),
        Reply::Unexpected => item == Err::<EthtoolMessage, EthtoolError>(
            EthtoolError::UnexpectedMessage,
        ),
        Reply::Undecodable(description) => item matches Err(EthtoolError::Bug(text)) && text@
            == decode_error_prefix() + description@,
    }
}

/// The flags of a request.
pub fn request_flags(is_dump: bool, with_ack: bool) -> (flags: u16)
    ensures
        flags == flags_of(is_dump, with_ack),
        flags & 0x001 == 0x001,
        (flags & 0x300 == 0x300) <==> is_dump,
        (flags & 0x300 == 0) <==> !is_dump,
        (flags & 0x004 == 0x004) <==> (is_dump || with_ack),
{
    let request: u16 = nlm_f_request();
    let ack: u16 = nlm_f_ack();
    let dump: u16 = nlm_f_dump();
    let mut flags: u16 = if is_dump {
        dump | request | ack
    } else {
        request
    };
    if with_ack {
        flags = flags | ack;
    }
    assert(0x300u16 | 0x001 | 0x004 == 0x305) by (bit_vector);
    assert(0x305u16 | 0x004 == 0x305) by (bit_vector);
    assert(0x001u16 | 0x004 == 0x005) by (bit_vector);
    assert(0x305u16 & 0x001 == 0x001 && 0x305u16 & 0x300 == 0x300 && 0x305u16 & 0x004 == 0x004)
        by (bit_vector);
    assert(0x005u16 & 0x001 == 0x001 && 0x005u16 & 0x300 == 0 && 0x005u16 & 0x004 == 0x004)
        by (bit_vector);
    assert(0x001u16 & 0x001 == 0x001 && 0x001u16 & 0x300 == 0 && 0x001u16 & 0x004 == 0)
        by (bit_vector);
    flags
}

/// Prepares a request: the message goes into an envelope with the flags
/// that `is_dump` and `with_ack` call for.
pub fn ethtool_execute(is_dump: bool, ethtool_msg: EthtoolMessage, with_ack: bool) -> (e: Envelope)
    ensures
        e.flags == flags_of(is_dump, with_ack),
        e.message == ethtool_msg,
{
    Envelope { flags: request_flags(is_dump, with_ack), message: ethtool_msg }
}

/// What the caller sees of one reply.
pub fn reply_item(reply: Reply) -> (item: Result<EthtoolMessage, EthtoolError>)
    ensures
        is_item_of(item, reply),
{
    match reply {
        Reply::Message(m) => Ok(m),
        Reply::Error(code) => Err(EthtoolError::NetlinkError(code)),
        Reply::Unexpected => Err(EthtoolError::UnexpectedMessage),
        Reply::Undecodable(description) => {
            let text = String::from_str("BUG: decode error ").concat(description.as_str());
            Err(EthtoolError::Bug(text))
        },
    }
}

/// The failure of a request that the transport refused: its text is the
/// transport's description behind a fixed prefix.
pub fn request_failed(description: &str) -> (e: EthtoolError)
    ensures
        e matches EthtoolError::RequestFailed(text) && text@ == request_failed_prefix()
            + description@,
{
    EthtoolError::RequestFailed(String::from_str("BUG: Request failed with ").concat(description))
}

/// The replies of a request that failed before any reply: exactly one
/// item, the failure.
pub fn failed_replies(error: EthtoolError) -> (items: Vec<Result<EthtoolMessage, EthtoolError>>)
    ensures
        items@ == seq![Err::<EthtoolMessage, EthtoolError>(error)],
{
    let mut items: Vec<Result<EthtoolMessage, EthtoolError>> = Vec::new();
    items.push(Err(error));
    assert(items@ =~= seq![Err::<EthtoolMessage, EthtoolError>(error)]);
    items
}

/// `items` is what the caller sees of a whole request: one item for each
/// reply, in the order of the replies, or the one failure where the
/// request could not be sent.
pub open spec fn are_items_of(
    items: Seq<Result<EthtoolMessage, EthtoolError>>,
    submission: Result<Vec<Reply>, EthtoolError>,
) -> bool {
    match submission {
        Ok(replies) => {
            &&& items.len() == replies@.len()
            &&& forall|j: int| 0 <= j < items.len() ==> is_item_of(#[trigger] items[j], replies@[j])
        },
        Err(error) => items == seq![Err::<EthtoolMessage, EthtoolError>(error)],
    }
}

/// The items of a whole request, from what the transport made of it: its
/// replies, or the failure to send it.
pub fn reply_items(submission: Result<Vec<Reply>, EthtoolError>) -> (items: Vec<
    Result<EthtoolMessage, EthtoolError>,
>)
    ensures
        are_items_of(items@, submission),
{
    match submission {
        Err(error) => failed_replies(error),
        Ok(replies) => {
            let ghost all = replies@;
            let mut left = replies;
            let mut back: Vec<Result<EthtoolMessage, EthtoolError>> = Vec::new();
            while left.len() > 0
                invariant
                    left@.len() + back@.len() == all.len(),
                    left@ == all.take(left@.len() as int),
                    forall|j: int|
                        0 <= j < back@.len() ==> is_item_of(
                            #[trigger] back@[j],
                            all[all.len() - 1 - j],
                        ),
                decreases left@.len(),
            {
                match left.pop() {
                    Some(reply) => {
                        back.push(reply_item(reply));
                    },
                    None => {},
                }
            }
            let ghost turned = back@;
            let mut items: Vec<Result<EthtoolMessage, EthtoolError>> = Vec::new();
            while back.len() > 0
                invariant
                    turned.len() == all.len(),
                    back@.len() + items@.len() == all.len(),
                    back@ == turned.take(back@.len() as int),
                    forall|j: int|
                        0 <= j < turned.len() ==> is_item_of(
                            #[trigger] turned[j],
                            all[all.len() - 1 - j],
                        ),
                    forall|j: int| 0 <= j < items@.len() ==> is_item_of(#[trigger] items@[j], all[j]),
                decreases back@.len(),
            {
                match back.pop() {
                    Some(item) => {
                        items.push(item);
                    },
                    None => {},
                }
            }
            items
        },
    }
}

/// A connection to the kernel's ethtool family. It can be cloned freely:
/// every clone speaks over the same connection.
#[derive(Debug)]
pub struct EthtoolHandle {
    pub handle: GenetlinkHandle,
}

impl Clone for EthtoolHandle {
    /// Another handle of the same connection.
    fn clone(&self) -> (r: Self)
        ensures
            r == *self,
    {
        EthtoolHandle { handle: self.handle.clone() }
    }
}

/// The handle for pause parameters.
pub struct EthtoolPauseHandle(pub EthtoolHandle);

/// The handle for feature flags.
pub struct EthtoolFeatureHandle(pub EthtoolHandle);

/// The handle for link modes.
pub struct EthtoolLinkModeHandle(pub EthtoolHandle);

/// The handle for ring sizes.
pub struct EthtoolRingHandle(pub EthtoolHandle);

/// The handle for coalescing parameters.
pub struct EthtoolCoalesceHandle(pub EthtoolHandle);

impl EthtoolHandle {
    pub fn new(handle: GenetlinkHandle) -> (r: Self)
        ensures
            r.handle == handle,
    {
        EthtoolHandle { handle }
    }

    /// The handle for pause parameters: it holds a clone of this handle, and so
    /// speaks over the same connection. This handle stays as it is.
    pub fn pause(&mut self) -> (r: EthtoolPauseHandle)
        ensures
            r.0 == *old(self),
            *final(self) == *old(self),
    {
        EthtoolPauseHandle(self.clone())
    }

    /// The handle for feature flags: it holds a clone of this handle, and so
    /// speaks over the same connection. This handle stays as it is.
    pub fn feature(&mut self) -> (r: EthtoolFeatureHandle)
        ensures
            r.0 == *old(self),
            *final(self) == *old(self),
    {
        EthtoolFeatureHandle(self.clone())
    }

    /// The handle for link modes: it holds a clone of this handle, and so
    /// speaks over the same connection. This handle stays as it is.
    pub fn link_mode(&mut self) -> (r: EthtoolLinkModeHandle)
        ensures
            r.0 == *old(self),
            *final(self) == *old(self),
    {
        EthtoolLinkModeHandle(self.clone())
    }

    /// The handle for ring sizes: it holds a clone of this handle, and so
    /// speaks over the same connection. This handle stays as it is.
    pub fn ring(&mut self) -> (r: EthtoolRingHandle)
        ensures
            r.0 == *old(self),
            *final(self) == *old(self),
    {
        EthtoolRingHandle(self.clone())
    }

    /// The handle for coalescing parameters: it holds a clone of this handle, and so
    /// speaks over the same connection. This handle stays as it is.
    pub fn coalesce(&mut self) -> (r: EthtoolCoalesceHandle)
        ensures
            r.0 == *old(self),
            *final(self) == *old(self),
    {
        EthtoolCoalesceHandle(self.clone())
    }

    /// The handle for channel counts: it holds a clone of this handle, and so
    /// speaks over the same connection. This handle stays as it is.
    pub fn channel(&mut self) -> (r: EthtoolChannelHandle)
        ensures
            r.0 == *old(self),
            *final(self) == *old(self),
    {
        EthtoolChannelHandle::new(self.clone())
    }
}

} // verus!
