//! The cursors of `simple_bytes` over a header's bytes, and what is relied on of them.
//!
//! A cursor has bytes and a position among them, at which it writes or reads.
use simple_bytes::{Bytes, BytesArray, BytesRead, BytesSeek, BytesWrite};
use vstd::prelude::*;

use crate::endian::{be_bytes, le_bytes, le_value};

verus! {

/// `simple_bytes::BytesArray`: an array with a position to write and read at.
#[verifier::external_type_specification]
#[verifier::external_body]
pub struct ExBytesArray<const N: usize>(simple_bytes::BytesArray<N>);

/// `simple_bytes::Bytes`: a slice with a position to read at.
#[verifier::external_type_specification]
#[verifier::external_body]
pub struct ExBytes<'a>(simple_bytes::Bytes<'a>);

/// The bytes of an array cursor, wherever its position is.
pub uninterp spec fn array_bytes(cursor: BytesArray<92>) -> Seq<u8>;

/// The position of an array cursor.
pub uninterp spec fn array_position(cursor: BytesArray<92>) -> nat;

/// The bytes of a slice cursor, wherever its position is.
pub uninterp spec fn slice_bytes(reader: Bytes<'_>) -> Seq<u8>;

/// The position of a slice cursor.
pub uninterp spec fn slice_position(reader: Bytes<'_>) -> nat;

/// Whether `len` bytes can be written at the position of an array cursor.
pub open spec fn has_room(cursor: BytesArray<92>, len: nat) -> bool {
    array_position(cursor) + len <= array_bytes(cursor).len()
}

/// What an array cursor becomes when `data` is written at its position: the bytes there
/// are replaced, the others stay, and the position moves behind the new ones.
pub open spec fn written(before: BytesArray<92>, after: BytesArray<92>, data: Seq<u8>) -> bool {
    let position = array_position(before) as int;
    &&& array_position(after) == position + data.len()
    &&& array_bytes(after) == array_bytes(before).take(position) + data + array_bytes(before).skip(
        position + data.len(),
    )
}

/// The bytes that a slice cursor has not read yet.
pub open spec fn unread(reader: Bytes<'_>) -> Seq<u8> {
    slice_bytes(reader).skip(slice_position(reader) as int)
}

/// Whether `len` bytes are left to be read.
pub open spec fn has_unread(reader: Bytes<'_>, len: nat) -> bool {
    slice_position(reader) + len <= slice_bytes(reader).len()
}

/// What a slice cursor becomes when `len` bytes are read: the position moves behind them.
pub open spec fn advanced(before: Bytes<'_>, after: Bytes<'_>, len: nat) -> bool {
    &&& slice_bytes(after) == slice_bytes(before)
    &&& slice_position(after) == slice_position(before) + len
}

/// The next `len` bytes that a slice cursor reads.
pub open spec fn next_bytes(reader: Bytes<'_>, len: nat) -> Seq<u8> {
    slice_bytes(reader).subrange(
        slice_position(reader) as int,
        (slice_position(reader) + len) as int,
    )
}

/// `BytesArray::from`: a cursor at the start of `array`.
#[verifier::external_body]
pub(crate) fn from_array(array: [u8; 92]) -> (cursor: BytesArray<92>)
    ensures
        array_bytes(cursor) == array@,
        array_position(cursor) == 0,
{
    BytesArray::from(array)
}

/// `BytesWrite::write`: writes `data` at the position. It panics where fewer bytes are
/// left.
#[verifier::external_body]
pub(crate) fn write(cursor: &mut BytesArray<92>, data: &[u8])
    requires
        has_room(*old(cursor), data@.len()),
    ensures
        written(*old(cursor), *final(cursor), data@),
{
    BytesWrite::write(cursor, data)
}

/// `BytesWrite::write_le_u16`: writes two bytes, the low one first. It panics where fewer are
/// left.
#[verifier::external_body]
pub(crate) fn write_le_u16(cursor: &mut BytesArray<92>, value: u16)
    requires
        has_room(*old(cursor), 2),
    ensures
        written(*old(cursor), *final(cursor), le_bytes(value as nat, 2)),
{
    cursor.write_le_u16(value)
}

/// `BytesWrite::write_le_u32`: writes four bytes, the lowest first. It panics where fewer are
/// left.
#[verifier::external_body]
pub(crate) fn write_le_u32(cursor: &mut BytesArray<92>, value: u32)
    requires
        has_room(*old(cursor), 4),
    ensures
        written(*old(cursor), *final(cursor), le_bytes(value as nat, 4)),
{
    cursor.write_le_u32(value)
}

/// `BytesWrite::write_le_u64`: writes eight bytes, the lowest first. It panics where fewer are
/// left.
#[verifier::external_body]
pub(crate) fn write_le_u64(cursor: &mut BytesArray<92>, value: u64)
    requires
        has_room(*old(cursor), 8),
    ensures
        written(*old(cursor), *final(cursor), le_bytes(value as nat, 8)),
{
    cursor.write_le_u64(value)
}

/// `BytesWrite::write_u32`: writes four bytes, the highest first. It panics where fewer are
/// left.
#[verifier::external_body]
pub(crate) fn write_u32(cursor: &mut BytesArray<92>, value: u32)
    requires
        has_room(*old(cursor), 4),
    ensures
        written(*old(cursor), *final(cursor), be_bytes(value as nat, 4)),
{
    cursor.write_u32(value)
}

/// `BytesSeek::seek`: moves to `position` and leaves the bytes as they are. A position
/// behind the last byte is left out: there the cursor panics, now or when it is used.
#[verifier::external_body]
pub(crate) fn seek(cursor: &mut BytesArray<92>, position: usize)
    requires
        has_room(*old(cursor), 0),
        position <= array_bytes(*old(cursor)).len(),
    ensures
        array_bytes(*final(cursor)) == array_bytes(*old(cursor)),
        array_position(*final(cursor)) == position,
{
    BytesSeek::seek(cursor, position)
}

/// `BytesRead::as_slice`: all the bytes.
#[verifier::external_body]
pub(crate) fn as_slice(cursor: &BytesArray<92>) -> (all: &[u8])
    ensures
        all@ == array_bytes(*cursor),
{
    cursor.as_slice()
}

/// `BytesArray::into_array`: all the bytes.
#[verifier::external_body]
pub(crate) fn into_array(cursor: BytesArray<92>) -> (array: [u8; 92])
    ensures
        array@ == array_bytes(cursor),
{
    cursor.into_array()
}

/// `Bytes::from`: a cursor at the start of `data`.
#[verifier::external_body]
pub(crate) fn from_slice<'a>(data: &'a [u8]) -> (reader: Bytes<'a>)
    ensures
        slice_bytes(reader) == data@,
        slice_position(reader) == 0,
{
    Bytes::from(data)
}

/// `BytesRead::remaining`: the bytes from the position on. It panics where the position
/// lies behind the last byte.
#[verifier::external_body]
pub(crate) fn remaining<'r>(reader: &'r Bytes<'_>) -> (rest: &'r [u8])
    requires
        has_unread(*reader, 0),
    ensures
        rest@ == unread(*reader),
{
    reader.remaining()
}

/// `BytesRead::read`: the next `len` bytes. It panics where fewer are left.
#[verifier::external_body]
pub(crate) fn read(reader: &mut Bytes<'_>, len: usize) -> (data: Vec<u8>)
    requires
        has_unread(*old(reader), len as nat),
    ensures
        data@ == next_bytes(*old(reader), len as nat),
        advanced(*old(reader), *final(reader), len as nat),
{
    reader.read(len).to_vec()
}

/// `BytesRead::read_le_u16`: the next two bytes as a number, the low one first. It panics
/// where fewer are left.
#[verifier::external_body]
pub(crate) fn read_le_u16(reader: &mut Bytes<'_>) -> (value: u16)
    requires
        has_unread(*old(reader), 2),
    ensures
        value == le_value(next_bytes(*old(reader), 2)),
        advanced(*old(reader), *final(reader), 2),
{
    reader.read_le_u16()
}

/// `BytesRead::read_le_u32`: the next four bytes as a number, the lowest first. It panics
/// where fewer are left.
#[verifier::external_body]
pub(crate) fn read_le_u32(reader: &mut Bytes<'_>) -> (value: u32)
    requires
        has_unread(*old(reader), 4),
    ensures
        value == le_value(next_bytes(*old(reader), 4)),
        advanced(*old(reader), *final(reader), 4),
{
    reader.read_le_u32()
}

/// `BytesRead::read_le_u64`: the next eight bytes as a number, the lowest first. It panics
/// where fewer are left.
#[verifier::external_body]
pub(crate) fn read_le_u64(reader: &mut Bytes<'_>) -> (value: u64)
    requires
        has_unread(*old(reader), 8),
    ensures
        value == le_value(next_bytes(*old(reader), 8)),
        advanced(*old(reader), *final(reader), 8),
{
    reader.read_le_u64()
}

/// What is meant by the words on a slice cursor: how much is left, what comes next, and how
/// the cursor moves.
pub proof fn law_reader_words(before: Bytes<'_>, after: Bytes<'_>, len: nat)
    ensures
        has_unread(before, len) <==> slice_position(before) + len <= slice_bytes(before).len(),
        has_unread(before, 0) ==> unread(before).len() == slice_bytes(before).len()
            - slice_position(before),
        has_unread(before, len) ==> {
            &&& next_bytes(before, len).len() == len
            &&& forall|i: int|
                0 <= i < len ==> #[trigger] next_bytes(before, len)[i] == slice_bytes(
                    before,
                )[slice_position(before) + i] && next_bytes(before, len)[i] == unread(before)[i]
        },
        advanced(before, after, len) <==> slice_bytes(after) == slice_bytes(before)
            && slice_position(after) == slice_position(before) + len,
{
}

/// What is meant by the words on an array cursor: how much room is left, and what writing
/// does to the bytes behind the position, at it, and ahead.
pub proof fn law_writer_words(before: BytesArray<92>, after: BytesArray<92>, data: Seq<u8>)
    ensures
        has_room(before, data.len()) <==> array_position(before) + data.len() <= array_bytes(
            before,
        ).len(),
        written(before, after, data) && has_room(before, data.len()) ==> {
            let start = array_position(before) as int;
            let end = start + data.len();
            &&& array_position(after) == end
            &&& array_bytes(after).len() == array_bytes(before).len()
            &&& forall|i: int|
                0 <= i < array_bytes(before).len() ==> #[trigger] array_bytes(after)[i] == if start
                    <= i < end {
                    data[i - start]
                } else {
                    array_bytes(before)[i]
                }
        },
{
}

} // verus!
