//! The calls into `prost`. Each function here hands plain values to one function
//! of `prost::encoding` (or of `bytes`, which `prost` writes through) and states
//! what that function does over the model of the `wire` module. These contracts
//! are taken on trust; everything else in the crate is proved from them.

use crate::wire::{key_prefix, payload_len, string_field, string_prefix, WireKind, MAX_TAG};
use prost::encoding::{DecodeContext, WireType};
use prost::DecodeError;
use vstd::prelude::*;

verus! {

/// `prost::DecodeError`: why bytes are no message. Carried, never inspected.
#[verifier::external_type_specification]
#[verifier::external_body]
pub struct ExDecodeError(prost::DecodeError);

/// What `prost::encoding::skip_field` consumes of `bytes` where they follow the
/// key that opens a group with field number `tag`: the length of everything up
/// to and including the key that closes the group, or `None` where it returns
/// an error.
pub uninterp spec fn skipped_group(tag: u32, bytes: Seq<u8>) -> Option<nat>;

/// `bytes::BufMut::remaining_mut` of a `Vec<u8>`: the number of bytes that the
/// vector can still take, which is what its length leaves of `isize::MAX`.
#[verifier::external_body]
pub(crate) fn room_left(buf: &Vec<u8>) -> (room: usize)
    ensures
        room == isize::MAX - buf@.len(),
{
    prost::bytes::BufMut::remaining_mut(buf)
}

/// `prost::encoding::string::encoded_len`: the number of bytes that the string
/// field `tag` with text `value` takes on the wire.
#[verifier::external_body]
pub(crate) fn string_len(tag: u32, value: &String) -> (len: usize)
    requires
        1 <= tag <= MAX_TAG,
    ensures
        len == string_field(tag, value@).len(),
{
    prost::encoding::string::encoded_len(tag, value)
}

/// `prost::encoding::string::encode`: appends the string field `tag` with text
/// `value` to `buf`. The vector must have room for it.
#[verifier::external_body]
pub(crate) fn put_string(tag: u32, value: &String, buf: &mut Vec<u8>)
    requires
        1 <= tag <= MAX_TAG,
        old(buf)@.len() + string_field(tag, value@).len() <= isize::MAX,
    ensures
        final(buf)@ == old(buf)@ + string_field(tag, value@),
{
    prost::encoding::string::encode(tag, value, buf)
}

/// `prost::encoding::decode_key`: reads the key at the front of `bytes` and
/// returns the field number, the wire kind and the bytes after the key; an
/// error exactly where `key_prefix` finds no key.
#[verifier::external_body]
pub(crate) fn read_key<'a>(bytes: &'a [u8]) -> (r: Result<(u32, WireKind, &'a [u8]), DecodeError>)
    ensures
        match r {
            Ok((tag, kind, rest)) => key_prefix(bytes@) matches Some((t, k, len)) && t == tag && k
                == kind && rest@ == bytes@.skip(len as int),
            Err(_) => key_prefix(bytes@) is None,
        },
{
    let mut rest = bytes;
    let (tag, wire) = prost::encoding::decode_key(&mut rest)?;
    let kind = match wire {
        WireType::Varint => WireKind::Varint,
        WireType::SixtyFourBit => WireKind::SixtyFourBit,
        WireType::LengthDelimited => WireKind::LengthDelimited,
        WireType::StartGroup => WireKind::StartGroup,
        WireType::EndGroup => WireKind::EndGroup,
        WireType::ThirtyTwoBit => WireKind::ThirtyTwoBit,
    };
    Ok((tag, kind, rest))
}

/// `prost::encoding::string::merge`, into an empty string: reads the payload of
/// a string field at the front of `bytes` and returns the text and the bytes
/// after the payload; an error exactly where `string_prefix` finds no payload.
#[verifier::external_body]
pub(crate) fn read_string<'a>(kind: WireKind, bytes: &'a [u8]) -> (r: Result<
    (String, &'a [u8]),
    DecodeError,
>)
    ensures
        match r {
            Ok((text, rest)) => string_prefix(kind, bytes@) matches Some((t, len)) && t == text@
                && rest@ == bytes@.skip(len as int),
            Err(_) => string_prefix(kind, bytes@) is None,
        },
{
    let wire = match kind {
        WireKind::Varint => WireType::Varint,
        WireKind::SixtyFourBit => WireType::SixtyFourBit,
        WireKind::LengthDelimited => WireType::LengthDelimited,
        WireKind::StartGroup => WireType::StartGroup,
        WireKind::EndGroup => WireType::EndGroup,
        WireKind::ThirtyTwoBit => WireType::ThirtyTwoBit,
    };
    let mut rest = bytes;
    let mut text = String::new();
    prost::encoding::string::merge(wire, &mut text, &mut rest, DecodeContext::default())?;
    Ok((text, rest))
}

/// `prost::encoding::skip_field`: passes over the payload of a field whose
/// content is of no interest and returns the bytes after it. How far it goes is
/// `payload_len`, with `skipped_group` for the length of a group; it never goes
/// past the end of `bytes`.
#[verifier::external_body]
pub(crate) fn skip_unknown<'a>(kind: WireKind, tag: u32, bytes: &'a [u8]) -> (r: Result<
    &'a [u8],
    DecodeError,
>)
    ensures
        match r {
            Ok(rest) => payload_len(kind, bytes@, skipped_group(tag, bytes@)) matches Some(len)
                && len <= bytes@.len() && rest@ == bytes@.skip(len as int),
            Err(_) => payload_len(kind, bytes@, skipped_group(tag, bytes@)) is None,
        },
{
    let wire = match kind {
        WireKind::Varint => WireType::Varint,
        WireKind::SixtyFourBit => WireType::SixtyFourBit,
        WireKind::LengthDelimited => WireType::LengthDelimited,
        WireKind::StartGroup => WireType::StartGroup,
        WireKind::EndGroup => WireType::EndGroup,
        WireKind::ThirtyTwoBit => WireType::ThirtyTwoBit,
    };
    let mut rest = bytes;
    prost::encoding::skip_field(wire, tag, &mut rest, DecodeContext::default())?;
    Ok(rest)
}

} // verus!
