//! Integers and text as they lie in an attribute's payload.
//!
//! The kernel lays integers out in the byte order of the machine, which
//! specifications reach through `vstd::endian::endianness`.

use byteorder::{ByteOrder, NativeEndian};
use netlink_packet_utils::DecodeError;
use vstd::bytes::*;
use vstd::endian::{endianness, Endian};
use vstd::prelude::*;
use vstd::utf8::*;

verus! {

/// The error that `netlink_packet_utils` reports; nothing is known of its contents.
#[verifier::external_type_specification]
#[verifier::external_body]
pub struct ExDecodeError(DecodeError);

/// The two bytes of `v` in the machine's byte order.
pub open spec fn native_u16_bytes(v: u16) -> Seq<u8> {
    match endianness() {
        Endian::Little => spec_u16_to_le_bytes(v),
        Endian::Big => spec_u16_to_le_bytes(v).reverse(),
    }
}

/// The number that two bytes hold in the machine's byte order.
pub open spec fn native_u16(b: Seq<u8>) -> u16 {
    match endianness() {
        Endian::Little => spec_u16_from_le_bytes(b),
        Endian::Big => spec_u16_from_le_bytes(b.reverse()),
    }
}

/// The four bytes of `v` in the machine's byte order.
pub open spec fn native_u32_bytes(v: u32) -> Seq<u8> {
    match endianness() {
        Endian::Little => spec_u32_to_le_bytes(v),
        Endian::Big => spec_u32_to_le_bytes(v).reverse(),
    }
}

/// The number that four bytes hold in the machine's byte order.
pub open spec fn native_u32(b: Seq<u8>) -> u32 {
    match endianness() {
        Endian::Little => spec_u32_from_le_bytes(b),
        Endian::Big => spec_u32_from_le_bytes(b.reverse()),
    }
}

/// Writing a 16-bit number and reading it back are inverse to each other.
pub proof fn lemma_native_u16(v: u16)
    ensures
        native_u16_bytes(v).len() == 2,
        native_u16(native_u16_bytes(v)) == v,
{
    lemma_auto_spec_u16_to_from_le_bytes();
    let le = spec_u16_to_le_bytes(v);
    assert(le.reverse().reverse() =~= le);
}

/// Reading two bytes and writing the number back gives the same bytes.
pub proof fn lemma_native_u16_bytes(b: Seq<u8>)
    requires
        b.len() == 2,
    ensures
        native_u16_bytes(native_u16(b)) == b,
{
    lemma_auto_spec_u16_to_from_le_bytes();
    assert(b.reverse().reverse() =~= b);
}

/// Writing a 32-bit number and reading it back are inverse to each other.
pub proof fn lemma_native_u32(v: u32)
    ensures
        native_u32_bytes(v).len() == 4,
        native_u32(native_u32_bytes(v)) == v,
{
    lemma_auto_spec_u32_to_from_le_bytes();
    let le = spec_u32_to_le_bytes(v);
    assert(le.reverse().reverse() =~= le);
}

/// Reading four bytes and writing the number back gives the same bytes.
pub proof fn lemma_native_u32_bytes(b: Seq<u8>)
    requires
        b.len() == 4,
    ensures
        native_u32_bytes(native_u32(b)) == b,
{
    lemma_auto_spec_u32_to_from_le_bytes();
    assert(b.reverse().reverse() =~= b);
}

/// A text payload without the one NUL byte that may end it.
pub open spec fn text_bytes(p: Seq<u8>) -> Seq<u8> {
    if p.len() > 0 && p.last() == 0u8 {
        p.drop_last()
    } else {
        p
    }
}

/// `byteorder::NativeEndian::write_u32` on a fresh buffer of four bytes:
/// the buffer then holds `v` in the machine's byte order.
#[verifier::external_body]
pub(crate) fn u32_to_native(v: u32) -> (b: Vec<u8>)
    ensures
        b@ == native_u32_bytes(v),
{
    let mut b: Vec<u8> = Vec::new();
    b.resize(4, 0u8);
    NativeEndian::write_u32(&mut b, v);
    b
}

/// `netlink_packet_utils::parsers::parse_u32`: a payload of exactly four
/// bytes is read in the machine's byte order, any other length is an error.
#[verifier::external_body]
pub(crate) fn parse_u32(payload: &[u8]) -> (r: Result<u32, DecodeError>)
    ensures
        r is Ok <==> payload@.len() == 4,
        r is Ok ==> r->Ok_0 == native_u32(payload@),
{
    netlink_packet_utils::parsers::parse_u32(payload)
}

/// `netlink_packet_utils::parsers::parse_string`: one trailing NUL byte, if
/// there is one, is dropped, and the rest is decoded as UTF-8; bytes that
/// are not UTF-8 are an error.
#[verifier::external_body]
pub(crate) fn parse_string(payload: &[u8]) -> (r: Result<String, DecodeError>)
    ensures
        r is Ok <==> valid_utf8(text_bytes(payload@)),
        r is Ok ==> r->Ok_0@ == decode_utf8(text_bytes(payload@)),
{
    netlink_packet_utils::parsers::parse_string(payload)
}

} // verus!
