//! Messages of string fields, and the codec that is the same for all of them.

use crate::error::RepoError;
use crate::fields::{put_string, read_key, room_left, string_len};
use crate::wire::{key_prefix, lemma_key_prefix_len, string_field, WireKind, MAX_TAG};
use prost::DecodeError;
use vstd::prelude::*;

verus! {

/// A type of message: what its values are on the wire, and how one is read
/// field by field.
pub trait Message: View + Sized {
    /// The message on the wire.
    spec fn wire(message: Self::V) -> Seq<u8>;

    /// The message whose fields all have their default value.
    spec fn blank() -> Self::V;

    /// The message after the field `tag` of kind `kind`, whose payload stands
    /// at the front of `bytes`, has been read into it, and the length of that
    /// payload; `None` where the payload is malformed.
    spec fn field(message: Self::V, tag: u32, kind: WireKind, bytes: Seq<u8>) -> Option<
        (Self::V, nat),
    >;

    /// A message whose fields all have their default value.
    fn new_blank() -> (message: Self)
        ensures
            message@ == Self::blank(),
    ;

    /// The length of this message on the wire, or `None` where it is more
    /// than a `usize` holds.
    fn encoded_len(&self) -> (len: Option<usize>)
        ensures
            match len {
                Some(len) => len == Self::wire(self@).len(),
                None => Self::wire(self@).len() > usize::MAX,
            },
    ;

    /// Appends this message on the wire to `buf`, which must have room for it.
    fn encode_raw(&self, buf: &mut Vec<u8>)
        requires
            old(buf)@.len() + Self::wire(self@).len() <= isize::MAX,
        ensures
            final(buf)@ == old(buf)@ + Self::wire(self@),
    ;

    /// Reads the payload of the field `tag` of kind `kind` at the front of
    /// `bytes` into this message and returns the bytes that follow it. It
    /// fails exactly where `field` finds the payload malformed.
    fn merge_field<'a>(&mut self, tag: u32, kind: WireKind, bytes: &'a [u8]) -> (r: Result<
        &'a [u8],
        DecodeError,
    >)
        ensures
            match r {
                Ok(rest) => Self::field(old(self)@, tag, kind, bytes@) matches Some((next, len))
                    && next == final(self)@ && len <= bytes@.len() && rest@ == bytes@.skip(
                    len as int,
                ),
                Err(_) => Self::field(old(self)@, tag, kind, bytes@) is None,
            },
    ;
}

/// A message can be encoded where its encoding fits a byte vector.
pub open spec fn encodable<T: Message>(message: T::V) -> bool {
    T::wire(message).len() <= isize::MAX
}

/// The message that results from reading the fields in `bytes`, one after the
/// other, into `message`; `None` where a key or a payload is malformed.
pub open spec fn merge<T: Message>(message: T::V, bytes: Seq<u8>) -> Option<T::V>
    decreases bytes.len(),
{
    if bytes.len() == 0 {
        Some(message)
    } else {
        match key_prefix(bytes) {
            Some((tag, kind, head)) => match T::field(message, tag, kind, bytes.skip(head as int)) {
                Some((next, body)) if 1 <= head && head + body <= bytes.len() => merge::<T>(
                    next,
                    bytes.skip((head + body) as int),
                ),
                _ => None,
            },
            None => None,
        }
    }
}

/// The message that `bytes` encode, or `None` where they encode none.
pub open spec fn parse<T: Message>(bytes: Seq<u8>) -> Option<T::V> {
    merge::<T>(T::blank(), bytes)
}

/// A string field on the wire as a message holds it: nothing where the text is
/// empty, which is the default, and the field otherwise.
pub open spec fn text_field(tag: u32, text: Seq<char>) -> Seq<u8> {
    if text.len() == 0 {
        Seq::empty()
    } else {
        string_field(tag, text)
    }
}

/// The number of bytes that `text_field` takes.
pub fn text_len(tag: u32, value: &String) -> (len: usize)
    requires
        1 <= tag <= MAX_TAG,
    ensures
        len == text_field(tag, value@).len(),
{
    if value.as_str().is_empty() {
        0
    } else {
        string_len(tag, value)
    }
}

/// Appends `text_field` to `buf`, which must have room for it.
pub fn put_text(tag: u32, value: &String, buf: &mut Vec<u8>)
    requires
        1 <= tag <= MAX_TAG,
        old(buf)@.len() + text_field(tag, value@).len() <= isize::MAX,
    ensures
        final(buf)@ == old(buf)@ + text_field(tag, value@),
{
    if !value.as_str().is_empty() {
        put_string(tag, value, buf);
    }
}

/// Encodes a message into a new byte vector. It fails exactly where the
/// encoding would be longer than a vector can be.
pub fn encode<T: Message>(message: &T) -> (r: Result<Vec<u8>, RepoError>)
    ensures
        match r {
            Ok(bytes) => encodable::<T>(message@) && bytes@ == T::wire(message@),
            Err(e) => !encodable::<T>(message@) && e is Encode,
        },
{
    let mut buf: Vec<u8> = Vec::new();
    let remaining = room_left(&buf);
    match message.encoded_len() {
        Some(required) if required <= remaining => {
            message.encode_raw(&mut buf);
            Ok(buf)
        },
        _ => Err(RepoError::Encode),
    }
}

/// Decodes a message from `bytes`, all of which must belong to it. It fails
/// exactly where `parse` finds no message.
pub fn decode<T: Message>(bytes: &[u8]) -> (r: Result<T, DecodeError>)
    ensures
        match r {
            Ok(message) => parse::<T>(bytes@) == Some(message@),
            Err(_) => parse::<T>(bytes@) is None,
        },
{
    let mut message = T::new_blank();
    let mut rest = bytes;
    while rest.len() > 0
        invariant
            merge::<T>(message@, rest@) == parse::<T>(bytes@),
        decreases rest.len(),
    {
        let ghost whole = rest@;
        let (tag, kind, body) = read_key(rest)?;
        rest = message.merge_field(tag, kind, body)?;
        proof {
            lemma_key_prefix_len(whole);
            assert(rest@ =~= whole.skip(whole.len() - rest@.len()));
        }
    }
    Ok(message)
}

} // verus!
