//! Record types: messages with a natural key, filed under a prefix of their own.

use crate::message::{encodable, parse, Message};
use vstd::prelude::*;

verus! {

/// A type of record: a message with a natural key, and the prefix under which
/// a repository files its values.
pub trait Record: Message {
    /// The prefix of the store keys of this type.
    spec fn prefix() -> Seq<char>;

    /// The natural key of a record.
    spec fn key(record: Self::V) -> Seq<char>;

    /// Decoding gives back every record that can be encoded.
    proof fn round_trip(record: Self::V)
        requires
            encodable::<Self>(record),
        ensures
            parse::<Self>(Self::wire(record)) == Some(record),
    ;

    /// The prefix of the store keys of this type.
    fn key_prefix() -> (prefix: &'static str)
        ensures
            prefix@ == Self::prefix(),
    ;

    /// The natural key of this record.
    fn natural_key(&self) -> (key: &str)
        ensures
            key@ == Self::key(self@),
    ;
}

/// The key under which a repository holds the record of type `T` with natural
/// key `id`.
pub open spec fn store_key<T: Record>(id: Seq<char>) -> Seq<char> {
    T::prefix() + id
}

} // verus!
