//! The checksum that guards a header and its partition table.
use vstd::prelude::*;

verus! {

/// One bit more: the lowest bit is shifted out, and where it was set, the polynomial of the
/// checksum (`0x04c11db7` with its bits in reverse) is added.
pub open spec fn crc_bit(crc: u32) -> u32 {
    if crc & 1 == 1 {
        (crc >> 1) ^ 0xedb8_8320
    } else {
        crc >> 1
    }
}

/// One byte more, bit by bit, the lowest first.
pub open spec fn crc_byte(crc: u32, byte: u8) -> u32 {
    crc_bit(crc_bit(crc_bit(crc_bit(crc_bit(crc_bit(crc_bit(crc_bit(crc ^ byte as u32))))))))
}

/// All of `bytes` more, in turn.
pub open spec fn crc_fold(crc: u32, bytes: Seq<u8>) -> u32
    decreases bytes.len(),
{
    if bytes.len() == 0 {
        crc
    } else {
        crc_byte(crc_fold(crc, bytes.drop_last()), bytes.last())
    }
}

/// The checksum CRC-32/ISO-HDLC of `bytes`: it begins with all bits set, and all bits are
/// turned at the end.
pub open spec fn crc32_iso_hdlc(bytes: Seq<u8>) -> u32 {
    !crc_fold(0xffff_ffff, bytes)
}

/// `crc::Crc::digest`, `Digest::update` and `Digest::finalize` over all of `bytes`, with
/// the parameters `crc::CRC_32_ISO_HDLC`: width 32, polynomial `0x04c11db7`, reflected
/// both ways, begun and ended with all bits set.
#[verifier::external_body]
fn digest(bytes: &[u8]) -> (sum: u32)
    ensures
        sum == crc32_iso_hdlc(bytes@),
{
    let crc = crc::Crc::<u32>::new(&crc::CRC_32_ISO_HDLC);
    let mut digest = crc.digest();
    digest.update(bytes);
    digest.finalize()
}

/// The CRC32 of `b`.
pub fn calculate_crc32(b: &[u8]) -> (sum: u32)
    ensures
        sum == crc32_iso_hdlc(b@),
{
    digest(b)
}

/// No two values come to the same by one bit more.
proof fn lemma_crc_bit_injective(a: u32, b: u32)
    requires
        crc_bit(a) == crc_bit(b),
    ensures
        a == b,
{
    assert((if a & 1 == 1 {
        (a >> 1) ^ 0xedb8_8320
    } else {
        a >> 1
    }) == (if b & 1 == 1 {
        (b >> 1) ^ 0xedb8_8320
    } else {
        b >> 1
    }) ==> a == b) by (bit_vector);
}

/// No two values come to the same by one byte more, and no two bytes bring a value to the
/// same.
proof fn lemma_crc_byte_injective(a: u32, b: u32, x: u8, y: u8)
    requires
        crc_byte(a, x) == crc_byte(b, y),
    ensures
        a == b <==> x == y,
{
    let p1 = a ^ x as u32;
    let q1 = b ^ y as u32;
    let (p2, q2) = (crc_bit(p1), crc_bit(q1));
    let (p3, q3) = (crc_bit(p2), crc_bit(q2));
    let (p4, q4) = (crc_bit(p3), crc_bit(q3));
    let (p5, q5) = (crc_bit(p4), crc_bit(q4));
    let (p6, q6) = (crc_bit(p5), crc_bit(q5));
    let (p7, q7) = (crc_bit(p6), crc_bit(q6));
    let (p8, q8) = (crc_bit(p7), crc_bit(q7));
    lemma_crc_bit_injective(p8, q8);
    lemma_crc_bit_injective(p7, q7);
    lemma_crc_bit_injective(p6, q6);
    lemma_crc_bit_injective(p5, q5);
    lemma_crc_bit_injective(p4, q4);
    lemma_crc_bit_injective(p3, q3);
    lemma_crc_bit_injective(p2, q2);
    lemma_crc_bit_injective(p1, q1);
    assert(a ^ (x as u32) == b ^ (y as u32) ==> (a == b <==> x == y)) by (bit_vector);
}

/// No two values come to the same by the same bytes.
proof fn lemma_crc_fold_injective(a: u32, b: u32, bytes: Seq<u8>)
    requires
        crc_fold(a, bytes) == crc_fold(b, bytes),
    ensures
        a == b,
    decreases bytes.len(),
{
    if bytes.len() > 0 {
        let rest = bytes.drop_last();
        lemma_crc_byte_injective(
            crc_fold(a, rest),
            crc_fold(b, rest),
            bytes.last(),
            bytes.last(),
        );
        lemma_crc_fold_injective(a, b, rest);
    }
}

/// Bytes in two parts are taken part by part.
proof fn lemma_crc_fold_parts(crc: u32, first: Seq<u8>, second: Seq<u8>)
    ensures
        crc_fold(crc, first + second) == crc_fold(crc_fold(crc, first), second),
    decreases second.len(),
{
    if second.len() == 0 {
        assert(first + second =~= first);
    } else {
        assert((first + second).drop_last() =~= first + second.drop_last());
        lemma_crc_fold_parts(crc, first, second.drop_last());
    }
}

/// The checksum tells bytes apart that differ in one place.
pub proof fn law_one_byte_changes_checksum(bytes: Seq<u8>, i: int, byte: u8)
    requires
        0 <= i < bytes.len(),
        byte != bytes[i],
    ensures
        crc32_iso_hdlc(bytes.update(i, byte)) != crc32_iso_hdlc(bytes),
{
    let changed = bytes.update(i, byte);
    let before = bytes.take(i);
    let after = bytes.skip(i + 1);
    let start = crc_fold(0xffff_ffff, before);
    assert(bytes =~= before.push(bytes[i]) + after);
    assert(changed =~= before.push(byte) + after);
    lemma_crc_fold_parts(0xffff_ffff, before.push(bytes[i]), after);
    lemma_crc_fold_parts(0xffff_ffff, before.push(byte), after);
    assert(before.push(bytes[i]).drop_last() =~= before);
    assert(before.push(byte).drop_last() =~= before);
    let one = crc_fold(0xffff_ffff, bytes);
    let other = crc_fold(0xffff_ffff, changed);
    if one == other {
        lemma_crc_fold_injective(crc_byte(start, bytes[i]), crc_byte(start, byte), after);
        lemma_crc_byte_injective(start, start, bytes[i], byte);
    }
    assert(!one == !other ==> one == other) by (bit_vector);
}

/// The checksum of no bytes is 0, and that of one byte more follows from the checksum before
/// and that byte, however many bytes there are.
pub proof fn law_checksum_goes_on(bytes: Seq<u8>, byte: u8)
    ensures
        crc32_iso_hdlc(Seq::empty()) == 0,
        crc32_iso_hdlc(bytes.push(byte)) == !crc_byte(!crc32_iso_hdlc(bytes), byte),
{
    let start = crc_fold(0xffff_ffff, bytes);
    assert(bytes.push(byte).drop_last() =~= bytes);
    assert(!0xffff_ffffu32 == 0) by (bit_vector);
    assert(!(!start) == start) by (bit_vector);
}

/// One bit more of a sum is the sum of one bit more of each part.
proof fn lemma_crc_bit_sum(a: u32, b: u32)
    ensures
        crc_bit(a ^ b) == crc_bit(a) ^ crc_bit(b),
{
    assert((if (a ^ b) & 1 == 1 {
        ((a ^ b) >> 1) ^ 0xedb8_8320
    } else {
        (a ^ b) >> 1
    }) == (if a & 1 == 1 {
        (a >> 1) ^ 0xedb8_8320
    } else {
        a >> 1
    }) ^ (if b & 1 == 1 {
        (b >> 1) ^ 0xedb8_8320
    } else {
        b >> 1
    })) by (bit_vector);
}

/// A value without its lowest bit set is just shifted.
proof fn lemma_crc_bit_even(a: u32)
    requires
        a & 1 == 0,
    ensures
        crc_bit(a) == a >> 1,
{
    assert(a & 1 == 0 ==> a & 1 != 1) by (bit_vector);
}

/// One byte more shifts the value by a byte, and adds what comes of its lowest byte and the
/// new one alone.
pub proof fn law_crc_by_bytes(crc: u32, byte: u8, index: u8)
    requires
        index == (crc ^ byte as u32) & 0xff,
    ensures
        crc_byte(crc, byte) == (crc >> 8) ^ crc_byte(0, index),
{
    let x = crc ^ byte as u32;
    let hi = x & 0xffff_ff00;
    let lo = index as u32;
    assert(x == hi ^ lo) by (bit_vector)
        requires
            hi == x & 0xffff_ff00,
            lo == x & 0xff,
    ;
    assert(0u32 ^ lo == lo) by (bit_vector);
    let (h1, l1) = (crc_bit(hi), crc_bit(lo));
    lemma_crc_bit_sum(hi, lo);
    let (h2, l2) = (crc_bit(h1), crc_bit(l1));
    lemma_crc_bit_sum(h1, l1);
    let (h3, l3) = (crc_bit(h2), crc_bit(l2));
    lemma_crc_bit_sum(h2, l2);
    let (h4, l4) = (crc_bit(h3), crc_bit(l3));
    lemma_crc_bit_sum(h3, l3);
    let (h5, l5) = (crc_bit(h4), crc_bit(l4));
    lemma_crc_bit_sum(h4, l4);
    let (h6, l6) = (crc_bit(h5), crc_bit(l5));
    lemma_crc_bit_sum(h5, l5);
    let (h7, l7) = (crc_bit(h6), crc_bit(l6));
    lemma_crc_bit_sum(h6, l6);
    let (h8, l8) = (crc_bit(h7), crc_bit(l7));
    lemma_crc_bit_sum(h7, l7);
    assert(hi & 1 == 0) by (bit_vector)
        requires
            hi == x & 0xffff_ff00,
    ;
    lemma_crc_bit_even(hi);
    assert(h1 & 1 == 0) by (bit_vector)
        requires
            hi == x & 0xffff_ff00,
            h1 == hi >> 1,
    ;
    lemma_crc_bit_even(h1);
    assert(h1 >> 1 == hi >> 2) by (bit_vector)
        requires
            h1 == hi >> 1,
    ;
    assert(h2 & 1 == 0) by (bit_vector)
        requires
            hi == x & 0xffff_ff00,
            h2 == hi >> 2,
    ;
    lemma_crc_bit_even(h2);
    assert(h2 >> 1 == hi >> 3) by (bit_vector)
        requires
            h2 == hi >> 2,
    ;
    assert(h3 & 1 == 0) by (bit_vector)
        requires
            hi == x & 0xffff_ff00,
            h3 == hi >> 3,
    ;
    lemma_crc_bit_even(h3);
    assert(h3 >> 1 == hi >> 4) by (bit_vector)
        requires
            h3 == hi >> 3,
    ;
    assert(h4 & 1 == 0) by (bit_vector)
        requires
            hi == x & 0xffff_ff00,
            h4 == hi >> 4,
    ;
    lemma_crc_bit_even(h4);
    assert(h4 >> 1 == hi >> 5) by (bit_vector)
        requires
            h4 == hi >> 4,
    ;
    assert(h5 & 1 == 0) by (bit_vector)
        requires
            hi == x & 0xffff_ff00,
            h5 == hi >> 5,
    ;
    lemma_crc_bit_even(h5);
    assert(h5 >> 1 == hi >> 6) by (bit_vector)
        requires
            h5 == hi >> 5,
    ;
    assert(h6 & 1 == 0) by (bit_vector)
        requires
            hi == x & 0xffff_ff00,
            h6 == hi >> 6,
    ;
    lemma_crc_bit_even(h6);
    assert(h6 >> 1 == hi >> 7) by (bit_vector)
        requires
            h6 == hi >> 6,
    ;
    assert(h7 & 1 == 0) by (bit_vector)
        requires
            hi == x & 0xffff_ff00,
            h7 == hi >> 7,
    ;
    lemma_crc_bit_even(h7);
    assert(h7 >> 1 == hi >> 8) by (bit_vector)
        requires
            h7 == hi >> 7,
    ;
    assert(hi >> 8 == crc >> 8) by (bit_vector)
        requires
            hi == (crc ^ byte as u32) & 0xffff_ff00,
    ;
}

/// Bytes with their own checksum behind them, lowest byte first, all have the same checksum.
pub proof fn law_checksum_of_checked_bytes(bytes: Seq<u8>, sum: Seq<u8>)
    requires
        sum.len() == 4,
        crc32_iso_hdlc(bytes) == sum[0] + 0x100 * sum[1] + 0x1_0000 * sum[2] + 0x100_0000 * sum[3],
    ensures
        crc32_iso_hdlc(bytes + sum) == 0x2144_df1c,
{
    let c = crc_fold(0xffff_ffff, bytes);
    let crc = !c;
    let (s0, s1, s2, s3) = (sum[0], sum[1], sum[2], sum[3]);
    assert(s0 == crc & 0xff && s1 == (crc >> 8) & 0xff && s2 == (crc >> 16) & 0xff && s3 == (crc
        >> 24) & 0xff) by (bit_vector)
        requires
            crc == s0 + 0x100 * s1 + 0x1_0000 * s2 + 0x100_0000 * s3,
    ;
    assert(crc_byte(0, 0xff) == 0x2d02ef8d) by (bit_vector);
    assert((c ^ s0 as u32) & 0xff == 0xff) by (bit_vector)
        requires
            crc == !c,
            s0 == crc & 0xff,
    ;
    law_crc_by_bytes(c, s0, 0xff);
    let c1 = crc_byte(c, s0);
    assert(c1 == (c >> 8) ^ 0x2d02ef8d) by (bit_vector)
        requires
            c1 == (c >> 8) ^ 0x2d02ef8d,
    ;
    assert(crc_byte(0, 0x72) == 0xbe0b1010) by (bit_vector);
    assert((c1 ^ s1 as u32) & 0xff == 0x72) by (bit_vector)
        requires
            crc == !c,
            s1 == (crc >> 8) & 0xff,
            c1 == (c >> 8) ^ 0x2d02ef8d,
    ;
    law_crc_by_bytes(c1, s1, 0x72);
    let c2 = crc_byte(c1, s1);
    assert(c2 == (c >> 16) ^ 0xbe2612ff) by (bit_vector)
        requires
            c2 == (c1 >> 8) ^ 0xbe0b1010,
            c1 == (c >> 8) ^ 0x2d02ef8d,
    ;
    assert(crc_byte(0, 0x00) == 0x00000000) by (bit_vector);
    assert((c2 ^ s2 as u32) & 0xff == 0x00) by (bit_vector)
        requires
            crc == !c,
            s2 == (crc >> 16) & 0xff,
            c2 == (c >> 16) ^ 0xbe2612ff,
    ;
    law_crc_by_bytes(c2, s2, 0x00);
    let c3 = crc_byte(c2, s2);
    assert(c3 == (c >> 24) ^ 0x00be2612) by (bit_vector)
        requires
            c3 == (c2 >> 8) ^ 0x00000000,
            c2 == (c >> 16) ^ 0xbe2612ff,
    ;
    assert(crc_byte(0, 0xed) == 0xdebb9ec5) by (bit_vector);
    assert((c3 ^ s3 as u32) & 0xff == 0xed) by (bit_vector)
        requires
            crc == !c,
            s3 == (crc >> 24) & 0xff,
            c3 == (c >> 24) ^ 0x00be2612,
    ;
    law_crc_by_bytes(c3, s3, 0xed);
    let c4 = crc_byte(c3, s3);
    assert(c4 == 0xdebb20e3) by (bit_vector)
        requires
            c4 == (c3 >> 8) ^ 0xdebb9ec5,
            c3 == (c >> 24) ^ 0x00be2612,
    ;
    let b1 = bytes.push(s0);
    let b2 = b1.push(s1);
    let b3 = b2.push(s2);
    let b4 = b3.push(s3);
    assert(b1.drop_last() =~= bytes);
    assert(crc_fold(0xffff_ffff, b1) == c1);
    assert(b2.drop_last() =~= b1);
    assert(crc_fold(0xffff_ffff, b2) == c2);
    assert(b3.drop_last() =~= b2);
    assert(crc_fold(0xffff_ffff, b3) == c3);
    assert(b4.drop_last() =~= b3);
    assert(crc_fold(0xffff_ffff, b4) == c4);
    assert(bytes + sum =~= b4);
    assert(!0xdebb20e3u32 == 0x2144_df1c) by (bit_vector);
}

} // verus!
