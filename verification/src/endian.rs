//! The byte orders in which integers are stored.
use vstd::prelude::*;

verus! {

/// The `width` low bytes of `value`, least significant byte first.
pub open spec fn le_bytes(value: nat, width: nat) -> Seq<u8>
    decreases width,
{
    if width == 0 {
        Seq::empty()
    } else {
        seq![(value % 256) as u8] + le_bytes(value / 256, (width - 1) as nat)
    }
}

/// The number whose bytes are `bytes`, least significant byte first.
pub open spec fn le_value(bytes: Seq<u8>) -> nat
    decreases bytes.len(),
{
    if bytes.len() == 0 {
        0
    } else {
        bytes[0] as nat + 256 * le_value(bytes.skip(1))
    }
}

/// The `width` low bytes of `value`, most significant byte first.
pub open spec fn be_bytes(value: nat, width: nat) -> Seq<u8> {
    le_bytes(value, width).reverse()
}

/// The number whose bytes are `bytes`, most significant byte first.
pub open spec fn be_value(bytes: Seq<u8>) -> nat {
    le_value(bytes.reverse())
}

/// As many zeros as are asked for.
pub open spec fn zeros(len: nat) -> Seq<u8> {
    Seq::new(len, |i: int| 0u8)
}

/// The number of values that `width` bytes can hold.
pub open spec fn byte_range(width: nat) -> nat
    decreases width,
{
    if width == 0 {
        1
    } else {
        256 * byte_range((width - 1) as nat)
    }
}

/// Storing a number takes as many bytes as asked for.
pub broadcast proof fn lemma_le_bytes_len(value: nat, width: nat)
    ensures
        #[trigger] le_bytes(value, width).len() == width,
    decreases width,
{
    if width > 0 {
        lemma_le_bytes_len(value / 256, (width - 1) as nat);
    }
}

/// A number that fits is read back as it was stored.
pub proof fn lemma_le_value_of_bytes(value: nat, width: nat)
    requires
        value < byte_range(width),
    ensures
        le_value(le_bytes(value, width)) == value,
    decreases width,
{
    broadcast use lemma_le_bytes_len;

    if width > 0 {
        let rest = le_bytes(value / 256, (width - 1) as nat);
        lemma_le_value_of_bytes(value / 256, (width - 1) as nat);
        assert(le_bytes(value, width).skip(1) =~= rest);
    }
}

/// Bytes that were read as a number are stored again as they were.
pub proof fn lemma_le_bytes_of_value(bytes: Seq<u8>)
    ensures
        le_bytes(le_value(bytes), bytes.len()) == bytes,
        le_value(bytes) < byte_range(bytes.len()),
    decreases bytes.len(),
{
    if bytes.len() > 0 {
        lemma_le_bytes_of_value(bytes.skip(1));
        let v = le_value(bytes);
        assert(v % 256 == bytes[0] as nat);
        assert(v / 256 == le_value(bytes.skip(1)));
        assert(le_bytes(v, bytes.len()) =~= bytes);
    } else {
        assert(bytes =~= Seq::empty());
    }
}

/// How many values fit in the widths that are in use.
pub proof fn lemma_byte_ranges()
    ensures
        byte_range(2) == 0x1_0000,
        byte_range(4) == 0x1_0000_0000,
        byte_range(8) == 0x1_0000_0000_0000_0000,
{
    reveal_with_fuel(byte_range, 9);
}

/// Storing the bytes of a big-endian number in the other order turns them around.
pub proof fn lemma_le_bytes_of_be_value(bytes: Seq<u8>)
    ensures
        le_bytes(be_value(bytes), bytes.len()) == bytes.reverse(),
        be_value(bytes) < byte_range(bytes.len()),
{
    lemma_le_bytes_of_value(bytes.reverse());
}

/// Reading bytes in one order and storing them in the other turns them around.
pub proof fn lemma_be_bytes_of_le_value(bytes: Seq<u8>)
    ensures
        be_bytes(le_value(bytes), bytes.len()) == bytes.reverse(),
{
    lemma_le_bytes_of_value(bytes);
}

/// Zero is stored as zeros.
pub proof fn lemma_le_bytes_of_zero(width: nat)
    ensures
        le_bytes(0, width) == zeros(width),
    decreases width,
{
    if width > 0 {
        lemma_le_bytes_of_zero((width - 1) as nat);
    }
    assert(le_bytes(0, width) =~= zeros(width));
}

/// What each byte counts for in a number: a little-endian one has its lowest byte first, a
/// big-endian one its highest.
pub proof fn law_byte_weights(bytes: Seq<u8>)
    ensures
        bytes.len() == 2 ==> le_value(bytes) == bytes[0] + 0x100 * bytes[1],
        bytes.len() == 4 ==> le_value(bytes) == bytes[0] + 0x100 * bytes[1]
            + 0x1_0000 * bytes[2] + 0x100_0000 * bytes[3],
        bytes.len() == 8 ==> le_value(bytes) == bytes[0] + 0x100 * bytes[1]
            + 0x1_0000 * bytes[2] + 0x100_0000 * bytes[3]
            + 0x1_0000_0000 * bytes[4] + 0x100_0000_0000 * bytes[5]
            + 0x1_0000_0000_0000 * bytes[6] + 0x100_0000_0000_0000 * bytes[7],
        bytes.len() == 2 ==> be_value(bytes) == bytes[1] + 0x100 * bytes[0],
        bytes.len() == 4 ==> be_value(bytes) == bytes[3] + 0x100 * bytes[2]
            + 0x1_0000 * bytes[1] + 0x100_0000 * bytes[0],
{
    reveal_with_fuel(le_value, 9);
}

/// The bytes of a number that fits count up to that number, in both orders.
pub proof fn law_bytes_of_number(value: nat)
    ensures
        value < 0x1_0000 ==> {
            let bytes = le_bytes(value, 2);
            bytes.len() == 2 && value == bytes[0] + 0x100 * bytes[1]
        },
        value < 0x1_0000_0000 ==> {
            let bytes = le_bytes(value, 4);
            bytes.len() == 4 && value == bytes[0] + 0x100 * bytes[1]
                + 0x1_0000 * bytes[2] + 0x100_0000 * bytes[3]
        },
        value < 0x1_0000_0000_0000_0000 ==> {
            let bytes = le_bytes(value, 8);
            bytes.len() == 8 && value == bytes[0] + 0x100 * bytes[1]
                + 0x1_0000 * bytes[2] + 0x100_0000 * bytes[3]
                + 0x1_0000_0000 * bytes[4] + 0x100_0000_0000 * bytes[5]
                + 0x1_0000_0000_0000 * bytes[6] + 0x100_0000_0000_0000 * bytes[7]
        },
        value < 0x1_0000 ==> {
            let bytes = be_bytes(value, 2);
            bytes.len() == 2 && value == bytes[1] + 0x100 * bytes[0]
        },
        value < 0x1_0000_0000 ==> {
            let bytes = be_bytes(value, 4);
            bytes.len() == 4 && value == bytes[3] + 0x100 * bytes[2]
                + 0x1_0000 * bytes[1] + 0x100_0000 * bytes[0]
        },
{
    lemma_byte_ranges();
    assert forall|width: nat| width == 2 || width == 4 || width == 8 implies {
        &&& #[trigger] le_bytes(value, width).len() == width
        &&& value < byte_range(width) ==> le_value(le_bytes(value, width)) == value
    } by {
        lemma_le_bytes_len(value, width);
        if value < byte_range(width) {
            lemma_le_value_of_bytes(value, width);
        }
    }
    law_byte_weights(le_bytes(value, 2));
    law_byte_weights(le_bytes(value, 4));
    law_byte_weights(le_bytes(value, 8));
}

/// Zeros are as many as are asked for, and zero.
pub proof fn law_zeros(len: nat)
    ensures
        zeros(len).len() == len,
        forall|i: int| 0 <= i < len ==> #[trigger] zeros(len)[i] == 0,
{
}

} // verus!
