//! Accounts, which are known by their name.

use crate::fields::{read_string, skip_unknown, skipped_group};
use crate::message::{encodable, merge, put_text, text_field, text_len, Message};
use crate::record::Record;
use crate::wire::{
    lemma_string_field_len, lemma_string_field_round_trip, payload_len, string_prefix, WireKind,
};
use prost::DecodeError;
use vstd::prelude::*;

verus! {

/// The prefix of the store keys of accounts.
pub const ACCOUNT_PREFIX: &'static str = "account:";

/// An account. Its name is its natural key.
#[derive(Debug, PartialEq, Eq, Default)]
pub struct Account {
    pub name: String,
}

/// What an account holds.
pub struct AccountView {
    pub name: Seq<char>,
}

impl View for Account {
    type V = AccountView;

    open spec fn view(&self) -> AccountView {
        AccountView { name: self.name@ }
    }
}

impl Clone for Account {
    fn clone(&self) -> (copy: Account)
        ensures
            copy@ == self@,
    {
        Account { name: self.name.clone() }
    }
}

impl Message for Account {
    /// The name is field 1.
    open spec fn wire(record: AccountView) -> Seq<u8> {
        text_field(1, record.name)
    }

    open spec fn blank() -> AccountView {
        AccountView { name: Seq::empty() }
    }

    /// Field 1 replaces the name; any other field is passed over.
    open spec fn field(record: AccountView, tag: u32, kind: WireKind, bytes: Seq<u8>) -> Option<
        (AccountView, nat),
    > {
        if tag == 1 {
            match string_prefix(kind, bytes) {
                Some((text, len)) => Some((AccountView { name: text }, len)),
                None => None,
            }
        } else {
            match payload_len(kind, bytes, skipped_group(tag, bytes)) {
                Some(len) => Some((record, len)),
                None => None,
            }
        }
    }

    fn new_blank() -> (record: Account) {
        Account { name: String::new() }
    }

    fn encoded_len(&self) -> (len: Option<usize>) {
        Some(text_len(1, &self.name))
    }

    fn encode_raw(&self, buf: &mut Vec<u8>) {
        put_text(1, &self.name, buf);
    }

    fn merge_field<'a>(&mut self, tag: u32, kind: WireKind, bytes: &'a [u8]) -> (r: Result<
        &'a [u8],
        DecodeError,
    >) {
        if tag == 1 {
            let (text, rest) = read_string(kind, bytes)?;
            self.name = text;
            Ok(rest)
        } else {
            skip_unknown(kind, tag, bytes)
        }
    }
}

/// An account can be encoded unless its name is longer than any that a
/// machine holds.
pub proof fn lemma_account_encodable(record: AccountView)
    requires
        20 + 4 * record.name.len() <= isize::MAX,
    ensures
        encodable::<Account>(record),
{
    lemma_string_field_len(1, record.name);
}

impl Record for Account {
    open spec fn prefix() -> Seq<char> {
        ACCOUNT_PREFIX@
    }

    open spec fn key(record: AccountView) -> Seq<char> {
        record.name
    }

    proof fn round_trip(record: AccountView) {
        if record.name.len() == 0 {
            assert(record.name =~= Self::blank().name);
        } else {
            let bytes = Self::wire(record);
            assert(bytes =~= bytes + Seq::empty());
            lemma_string_field_round_trip(1, record.name, Seq::empty());
            assert(merge::<Account>(record, Seq::empty()) == Some(record));
        }
    }

    fn key_prefix() -> (prefix: &'static str) {
        ACCOUNT_PREFIX
    }

    fn natural_key(&self) -> (key: &str) {
        self.name.as_str()
    }
}

} // verus!
