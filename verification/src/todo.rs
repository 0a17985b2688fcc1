//! Todos, which are known by their id.

use crate::fields::{read_string, skip_unknown, skipped_group};
use crate::message::{encodable, merge, put_text, text_field, text_len, Message};
use crate::record::Record;
use crate::wire::{
    lemma_string_field_len, lemma_string_field_round_trip, payload_len, string_field,
    string_prefix, WireKind,
};
use prost::DecodeError;
use vstd::prelude::*;
use vstd::utf8::encode_utf8;

verus! {

/// The prefix of the store keys of todos.
pub const TODO_PREFIX: &'static str = "todo:";

/// A todo. Its id is its natural key.
#[derive(Debug, PartialEq, Eq, Default)]
pub struct Todo {
    pub id: String,
    pub title: String,
    pub description: String,
}

/// What a todo holds.
pub struct TodoView {
    pub id: Seq<char>,
    pub title: Seq<char>,
    pub description: Seq<char>,
}

impl TodoView {
    /// This todo with the string field `tag` set to `text`.
    pub open spec fn with_text(self, tag: u32, text: Seq<char>) -> TodoView {
        if tag == 1 {
            TodoView { id: text, ..self }
        } else if tag == 2 {
            TodoView { title: text, ..self }
        } else if tag == 3 {
            TodoView { description: text, ..self }
        } else {
            self
        }
    }
}

impl View for Todo {
    type V = TodoView;

    open spec fn view(&self) -> TodoView {
        TodoView { id: self.id@, title: self.title@, description: self.description@ }
    }
}

impl Clone for Todo {
    fn clone(&self) -> (copy: Todo)
        ensures
            copy@ == self@,
    {
        Todo {
            id: self.id.clone(),
            title: self.title.clone(),
            description: self.description.clone(),
        }
    }
}

impl Message for Todo {
    /// The id is field 1, the title field 2 and the description field 3.
    open spec fn wire(record: TodoView) -> Seq<u8> {
        text_field(1, record.id) + text_field(2, record.title) + text_field(3, record.description)
    }

    open spec fn blank() -> TodoView {
        TodoView { id: Seq::empty(), title: Seq::empty(), description: Seq::empty() }
    }

    /// Fields 1 to 3 replace the string they stand for; any other field is
    /// passed over.
    open spec fn field(record: TodoView, tag: u32, kind: WireKind, bytes: Seq<u8>) -> Option<
        (TodoView, nat),
    > {
        if 1 <= tag <= 3 {
            match string_prefix(kind, bytes) {
                Some((text, len)) => Some((record.with_text(tag, text), len)),
                None => None,
            }
        } else {
            match payload_len(kind, bytes, skipped_group(tag, bytes)) {
                Some(len) => Some((record, len)),
                None => None,
            }
        }
    }

    fn new_blank() -> (record: Todo) {
        Todo { id: String::new(), title: String::new(), description: String::new() }
    }

    fn encoded_len(&self) -> (len: Option<usize>) {
        let id = text_len(1, &self.id);
        let title = text_len(2, &self.title);
        let description = text_len(3, &self.description);
        match id.checked_add(title) {
            Some(sum) => sum.checked_add(description),
            None => None,
        }
    }

    fn encode_raw(&self, buf: &mut Vec<u8>) {
        put_text(1, &self.id, buf);
        put_text(2, &self.title, buf);
        put_text(3, &self.description, buf);
    }

    fn merge_field<'a>(&mut self, tag: u32, kind: WireKind, bytes: &'a [u8]) -> (r: Result<
        &'a [u8],
        DecodeError,
    >) {
        if tag == 1 {
            let (text, rest) = read_string(kind, bytes)?;
            self.id = text;
            Ok(rest)
        } else if tag == 2 {
            let (text, rest) = read_string(kind, bytes)?;
            self.title = text;
            Ok(rest)
        } else if tag == 3 {
            let (text, rest) = read_string(kind, bytes)?;
            self.description = text;
            Ok(rest)
        } else {
            skip_unknown(kind, tag, bytes)
        }
    }
}

/// Reading a string field of a todo from the front of some bytes sets that
/// field and leaves the bytes that follow it to be read.
proof fn lemma_merge_text(record: TodoView, tag: u32, text: Seq<char>, rest: Seq<u8>)
    requires
        1 <= tag <= 3,
        encode_utf8(text).len() <= u64::MAX,
    ensures
        merge::<Todo>(record, string_field(tag, text) + rest) == merge::<Todo>(
            record.with_text(tag, text),
            rest,
        ),
{
    lemma_string_field_round_trip(tag, text, rest);
}

/// The same for a field as a message holds it, which is absent where the text
/// is empty: the record must then hold the empty text already.
proof fn lemma_merge_text_field(record: TodoView, tag: u32, text: Seq<char>, rest: Seq<u8>)
    requires
        1 <= tag <= 3,
        encode_utf8(text).len() <= u64::MAX,
        text.len() == 0 ==> record.with_text(tag, text) == record,
    ensures
        merge::<Todo>(record, text_field(tag, text) + rest) == merge::<Todo>(
            record.with_text(tag, text),
            rest,
        ),
{
    if text.len() == 0 {
        assert(text_field(tag, text) + rest =~= rest);
    } else {
        lemma_merge_text(record, tag, text, rest);
    }
}

/// A todo can be encoded unless its texts are longer than any that a machine
/// holds.
pub proof fn lemma_todo_encodable(record: TodoView)
    requires
        60 + 4 * (record.id.len() + record.title.len() + record.description.len()) <= isize::MAX,
    ensures
        encodable::<Todo>(record),
{
    lemma_string_field_len(1, record.id);
    lemma_string_field_len(2, record.title);
    lemma_string_field_len(3, record.description);
}

impl Record for Todo {
    open spec fn prefix() -> Seq<char> {
        TODO_PREFIX@
    }

    open spec fn key(record: TodoView) -> Seq<char> {
        record.id
    }

    proof fn round_trip(record: TodoView) {
        let first = text_field(1, record.id);
        let second = text_field(2, record.title);
        let third = text_field(3, record.description);
        let blank = Self::blank();
        let one = blank.with_text(1, record.id);
        let two = one.with_text(2, record.title);
        assert(record.id.len() == 0 ==> record.id =~= blank.id);
        assert(record.title.len() == 0 ==> record.title =~= one.title);
        assert(record.description.len() == 0 ==> record.description =~= two.description);
        assert(Self::wire(record) =~= first + (second + third));
        lemma_merge_text_field(blank, 1, record.id, second + third);
        lemma_merge_text_field(one, 2, record.title, third);
        assert(third =~= third + Seq::empty());
        lemma_merge_text_field(two, 3, record.description, Seq::empty());
        assert(merge::<Todo>(record, Seq::empty()) == Some(record));
    }

    fn key_prefix() -> (prefix: &'static str) {
        TODO_PREFIX
    }

    fn natural_key(&self) -> (key: &str) {
        self.id.as_str()
    }
}

} // verus!
