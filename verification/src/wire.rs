//! The protobuf wire format as far as string fields need it: base-128 varints,
//! field keys and length-delimited fields, each as a function on byte sequences.

use vstd::prelude::*;
use vstd::utf8::*;

verus! {

/// Largest field number that a key can carry.
pub const MAX_TAG: u32 = 0x1FFF_FFFF;

/// How the payload that follows a field key is laid out.
#[derive(Clone, Copy, Debug, PartialEq, Eq, Structural)]
pub enum WireKind {
    Varint,
    SixtyFourBit,
    LengthDelimited,
    StartGroup,
    EndGroup,
    ThirtyTwoBit,
}

impl WireKind {
    /// The number that stands for this kind in the low three bits of a key.
    pub open spec fn code(self) -> nat {
        match self {
            WireKind::Varint => 0,
            WireKind::SixtyFourBit => 1,
            WireKind::LengthDelimited => 2,
            WireKind::StartGroup => 3,
            WireKind::EndGroup => 4,
            WireKind::ThirtyTwoBit => 5,
        }
    }

    /// The kind that a code stands for, if any.
    pub open spec fn from_code(code: nat) -> Option<WireKind> {
        if code == 0 {
            Some(WireKind::Varint)
        } else if code == 1 {
            Some(WireKind::SixtyFourBit)
        } else if code == 2 {
            Some(WireKind::LengthDelimited)
        } else if code == 3 {
            Some(WireKind::StartGroup)
        } else if code == 4 {
            Some(WireKind::EndGroup)
        } else if code == 5 {
            Some(WireKind::ThirtyTwoBit)
        } else {
            None
        }
    }
}

/// The varint of `value`: seven bits per byte, least significant group first,
/// the high bit set on every byte but the last.
pub open spec fn varint(value: nat) -> Seq<u8>
    decreases value,
{
    if value < 128 {
        seq![value as u8]
    } else {
        seq![(128 + value % 128) as u8] + varint(value / 128)
    }
}

/// The varint at the front of `bytes` for a reader that takes at most `room`
/// more bytes: its value and its length. The tenth byte of a varint may only
/// carry the one bit that a 64-bit value still has room for.
pub open spec fn varint_scan(bytes: Seq<u8>, room: nat) -> Option<(nat, nat)>
    decreases room,
{
    if room == 0 || bytes.len() == 0 {
        None
    } else if bytes[0] < 128 {
        if room == 1 && bytes[0] >= 2 {
            None
        } else {
            Some((bytes[0] as nat, 1nat))
        }
    } else {
        match varint_scan(bytes.drop_first(), (room - 1) as nat) {
            Some((high, len)) => Some(((bytes[0] - 128) as nat + 128 * high, len + 1)),
            None => None,
        }
    }
}

/// The varint at the front of `bytes`: its value and its length, or `None`
/// where the bytes end early, run past ten bytes or overflow 64 bits.
pub open spec fn varint_prefix(bytes: Seq<u8>) -> Option<(nat, nat)> {
    varint_scan(bytes, 10)
}

/// The key that opens a field: the varint of the field number shifted left by
/// three bits, with the code of the wire kind in the low bits.
pub open spec fn field_key(tag: u32, kind: WireKind) -> Seq<u8> {
    varint(tag as nat * 8 + kind.code())
}

/// The key at the front of `bytes`: field number, wire kind and length of the
/// key, or `None` where no varint stands there, the value does not fit 32 bits,
/// the low bits name no wire kind or the field number is zero.
pub open spec fn key_prefix(bytes: Seq<u8>) -> Option<(u32, WireKind, nat)> {
    match varint_prefix(bytes) {
        Some((key, len)) => match WireKind::from_code(key % 8) {
            Some(kind) if 8 <= key <= u32::MAX => Some(((key / 8) as u32, kind, len)),
            _ => None,
        },
        None => None,
    }
}

/// A string field on the wire: its key, the varint of the number of bytes of
/// the text in UTF-8, and those bytes.
pub open spec fn string_field(tag: u32, text: Seq<char>) -> Seq<u8> {
    field_key(tag, WireKind::LengthDelimited) + varint(encode_utf8(text).len()) + encode_utf8(text)
}

/// The payload of a string field at the front of `bytes`, which follow a key of
/// kind `kind`: the text and the length of the payload, or `None` where the kind
/// is not length-delimited, no varint stands in front, fewer bytes follow than
/// it announces, or they are not UTF-8.
pub open spec fn string_prefix(kind: WireKind, bytes: Seq<u8>) -> Option<(Seq<char>, nat)> {
    match varint_prefix(bytes) {
        Some((size, len)) if kind == WireKind::LengthDelimited && len + size <= bytes.len()
            && valid_utf8(bytes.subrange(len as int, (len + size) as int)) => Some(
            (decode_utf8(bytes.subrange(len as int, (len + size) as int)), len + size),
        ),
        _ => None,
    }
}

/// The length of the payload of kind `kind` at the front of `bytes`, for a
/// reader to whom its content is of no interest: a varint, four or eight bytes,
/// a varint and as many bytes as it announces, or a group, whose length is
/// `group`; `None` where `bytes` hold no such payload or `kind` closes a group
/// that nothing opened.
pub open spec fn payload_len(kind: WireKind, bytes: Seq<u8>, group: Option<nat>) -> Option<nat> {
    match kind {
        WireKind::Varint => match varint_prefix(bytes) {
            Some((_, len)) => Some(len),
            None => None,
        },
        WireKind::SixtyFourBit => if bytes.len() >= 8 {
            Some(8)
        } else {
            None
        },
        WireKind::LengthDelimited => match varint_prefix(bytes) {
            Some((size, len)) if len + size <= bytes.len() => Some(len + size),
            _ => None,
        },
        WireKind::StartGroup => group,
        WireKind::EndGroup => None,
        WireKind::ThirtyTwoBit => if bytes.len() >= 4 {
            Some(4)
        } else {
            None
        },
    }
}

/// Values below this bound have a varint of at most `room` bytes that a
/// 64-bit reader accepts.
pub open spec fn varint_bound(room: nat) -> nat
    decreases room,
{
    if room == 0 {
        0
    } else if room == 1 {
        2
    } else {
        128 * varint_bound((room - 1) as nat)
    }
}

/// A scanned varint is not empty, lies inside the bytes, and its value is
/// below the bound of the room it was given.
pub proof fn lemma_varint_scan_len(bytes: Seq<u8>, room: nat)
    ensures
        varint_scan(bytes, room) matches Some((value, len)) ==> 1 <= len <= bytes.len() && len
            <= room && value < varint_bound(room),
        room >= 1 ==> varint_bound(room) >= 2,
        room >= 2 ==> varint_bound(room) >= 128,
    decreases room,
{
    if room >= 1 {
        lemma_varint_scan_len(bytes.drop_first(), (room - 1) as nat);
    }
}

/// Scanning reads back what `varint` wrote, whatever follows it.
pub proof fn lemma_varint_scan_round_trip(value: nat, rest: Seq<u8>, room: nat)
    requires
        value < varint_bound(room),
    ensures
        varint_scan(varint(value) + rest, room) == Some((value, varint(value).len())),
    decreases room,
{
    let bytes = varint(value) + rest;
    if value < 128 {
        assert(bytes[0] == value as u8);
    } else {
        assert(room >= 2);
        let tail = varint(value / 128);
        assert(bytes[0] == (128 + value % 128) as u8);
        assert(bytes.drop_first() =~= tail + rest);
        lemma_varint_scan_round_trip(value / 128, rest, (room - 1) as nat);
    }
}

/// Every 64-bit value is below the bound of a ten-byte varint.
pub proof fn lemma_varint_bound_ten()
    ensures
        varint_bound(10) == 0x1_0000_0000_0000_0000,
{
    reveal_with_fuel(varint_bound, 11);
}

/// The varint of a 64-bit value is read back whole, whatever follows it.
pub proof fn lemma_varint_round_trip(value: nat, rest: Seq<u8>)
    requires
        value <= u64::MAX,
    ensures
        varint_prefix(varint(value) + rest) == Some((value, varint(value).len())),
        1 <= varint(value).len() <= 10,
{
    lemma_varint_bound_ten();
    lemma_varint_scan_round_trip(value, rest, 10);
    lemma_varint_scan_len(varint(value) + rest, 10);
}

/// A key is not empty and lies inside the bytes.
pub proof fn lemma_key_prefix_len(bytes: Seq<u8>)
    ensures
        key_prefix(bytes) matches Some((tag, kind, len)) ==> 1 <= len <= bytes.len() && 1 <= tag
            <= MAX_TAG,
{
    lemma_varint_scan_len(bytes, 10);
}

/// The key of a field is read back whole, whatever follows it.
pub proof fn lemma_key_round_trip(tag: u32, kind: WireKind, rest: Seq<u8>)
    requires
        1 <= tag <= MAX_TAG,
    ensures
        key_prefix(field_key(tag, kind) + rest) == Some((tag, kind, field_key(tag, kind).len())),
{
    let key = tag as nat * 8 + kind.code();
    lemma_varint_round_trip(key, rest);
    assert(key % 8 == kind.code());
    assert(key / 8 == tag);
}

/// The payload of a string field is read back whole, whatever follows it.
pub proof fn lemma_string_payload_round_trip(text: Seq<char>, rest: Seq<u8>)
    requires
        encode_utf8(text).len() <= u64::MAX,
    ensures
        string_prefix(
            WireKind::LengthDelimited,
            varint(encode_utf8(text).len()) + encode_utf8(text) + rest,
        ) == Some((text, varint(encode_utf8(text).len()).len() + encode_utf8(text).len())),
{
    let body = encode_utf8(text);
    let head = varint(body.len());
    let bytes = head + body + rest;
    assert(bytes =~= head + (body + rest));
    lemma_varint_round_trip(body.len(), body + rest);
    assert(bytes.subrange(head.len() as int, (head.len() + body.len()) as int) =~= body);
    encode_utf8_valid_utf8(text);
    encode_utf8_decode_utf8(text);
}

/// A string field is read back whole, key and payload, whatever follows it.
pub proof fn lemma_string_field_round_trip(tag: u32, text: Seq<char>, rest: Seq<u8>)
    requires
        1 <= tag <= MAX_TAG,
        encode_utf8(text).len() <= u64::MAX,
    ensures
        ({
            let bytes = string_field(tag, text) + rest;
            let head = field_key(tag, WireKind::LengthDelimited).len();
            let body = (string_field(tag, text).len() - head) as nat;
            &&& 1 <= head <= string_field(tag, text).len()
            &&& key_prefix(bytes) == Some((tag, WireKind::LengthDelimited, head))
            &&& string_prefix(WireKind::LengthDelimited, bytes.skip(head as int)) == Some(
                (text, body),
            )
            &&& bytes.skip((head + body) as int) == rest
        }),
{
    let key = field_key(tag, WireKind::LengthDelimited);
    let payload = varint(encode_utf8(text).len()) + encode_utf8(text);
    let bytes = string_field(tag, text) + rest;
    assert(bytes =~= key + (payload + rest));
    lemma_key_round_trip(tag, WireKind::LengthDelimited, payload + rest);
    lemma_key_prefix_len(bytes);
    assert(bytes.skip(key.len() as int) =~= payload + rest);
    lemma_string_payload_round_trip(text, rest);
    assert(bytes.skip(string_field(tag, text).len() as int) =~= rest);
}

/// A text takes at least one byte and at most four for each of its characters
/// in UTF-8.
pub proof fn lemma_utf8_len(text: Seq<char>)
    ensures
        text.len() <= encode_utf8(text).len() <= 4 * text.len(),
    decreases text.len(),
{
    if text.len() > 0 {
        lemma_utf8_len(text.drop_first());
    }
}

/// A string field is at most twenty bytes longer than its text is in UTF-8.
pub proof fn lemma_string_field_len(tag: u32, text: Seq<char>)
    requires
        4 * text.len() <= u64::MAX,
    ensures
        encode_utf8(text).len() <= string_field(tag, text).len() <= 20 + 4 * text.len(),
{
    lemma_utf8_len(text);
    lemma_varint_round_trip(tag as nat * 8 + WireKind::LengthDelimited.code(), Seq::empty());
    lemma_varint_round_trip(encode_utf8(text).len(), Seq::empty());
}

} // verus!
