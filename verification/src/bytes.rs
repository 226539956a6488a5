//! Little-endian byte lanes.

use vstd::prelude::*;

verus! {

/// `256` to the power `lanes`.
pub open spec fn lane_scale(lanes: nat) -> nat
    decreases lanes,
{
    if lanes == 0 {
        1
    } else {
        256 * lane_scale((lanes - 1) as nat)
    }
}

/// The number that little-endian `bytes` stand for.
pub open spec fn le_value(bytes: Seq<u8>) -> nat
    decreases bytes.len(),
{
    if bytes.len() == 0 {
        0
    } else {
        bytes[0] as nat + 256 * le_value(bytes.drop_first())
    }
}

/// Byte `lane` of `value`, counted from the least significant byte.
pub open spec fn le_byte(value: nat, lane: nat) -> u8
    decreases lane,
{
    if lane == 0 {
        (value % 256) as u8
    } else {
        le_byte(value / 256, (lane - 1) as nat)
    }
}

/// The lowest `size` bytes of `value`, least significant first.
pub open spec fn le_bytes(value: nat, size: nat) -> Seq<u8> {
    Seq::new(size, |lane: int| le_byte(value, lane as nat))
}

/// More lanes never make the scale smaller.
pub proof fn lemma_lane_scale_monotonic(low: nat, high: nat)
    requires
        low <= high,
    ensures
        0 < lane_scale(low) <= lane_scale(high),
    decreases high,
{
    if high == 0 {
    } else if low == high {
        lemma_lane_scale_monotonic((low - 1) as nat, (high - 1) as nat);
    } else {
        lemma_lane_scale_monotonic(low, (high - 1) as nat);
    }
}

/// The scales of the access sizes.
pub proof fn lemma_lane_scale_values()
    ensures
        lane_scale(0) == 1,
        lane_scale(1) == 0x100,
        lane_scale(2) == 0x1_0000,
        lane_scale(3) == 0x100_0000,
        lane_scale(4) == 0x1_0000_0000,
        lane_scale(8) == 0x1_0000_0000_0000_0000,
{
    reveal_with_fuel(lane_scale, 9);
}

/// A value of `n` bytes lies below `256^n`.
pub proof fn lemma_le_value_bound(bytes: Seq<u8>)
    ensures
        le_value(bytes) < lane_scale(bytes.len()),
    decreases bytes.len(),
{
    if bytes.len() > 0 {
        lemma_le_value_bound(bytes.drop_first());
    }
}

/// The bytes of the value of `bytes` are `bytes`.
pub proof fn lemma_le_byte_of_value(bytes: Seq<u8>, lane: nat)
    requires
        lane < bytes.len(),
    ensures
        le_byte(le_value(bytes), lane) == bytes[lane as int],
    decreases lane,
{
    let rest = le_value(bytes.drop_first());
    assert(le_value(bytes) == bytes[0] as nat + 256 * rest);
    assert(le_value(bytes) / 256 == rest);
    assert(le_value(bytes) % 256 == bytes[0] as nat);
    if lane > 0 {
        lemma_le_byte_of_value(bytes.drop_first(), (lane - 1) as nat);
    }
}

/// Splitting a value into lanes and joining them again keeps the lanes taken.
pub proof fn lemma_le_value_of_bytes(value: nat, size: nat)
    ensures
        le_value(le_bytes(value, size)) == value % lane_scale(size),
    decreases size,
{
    let bytes = le_bytes(value, size);
    if size > 0 {
        let scale = lane_scale((size - 1) as nat);
        lemma_lane_scale_monotonic((size - 1) as nat, (size - 1) as nat);
        lemma_le_value_of_bytes(value / 256, (size - 1) as nat);
        assert(bytes.drop_first() =~= le_bytes(value / 256, (size - 1) as nat));
        vstd::arithmetic::div_mod::lemma_mod_breakdown(value as int, 256, scale as int);
    } else {
        assert(value % 1 == 0);
    }
}

/// Joins `size` bytes that start at `offset`, least significant first.
pub fn le_decode(bytes: &[u8], offset: usize, size: usize) -> (value: u64)
    requires
        size <= 8,
        offset + size <= bytes@.len(),
    ensures
        value == le_value(bytes@.subrange(offset as int, offset + size)),
        value < lane_scale(size as nat),
{
    let length: usize = bytes.len();
    let mut value: u64 = 0;
    let mut lane: usize = size;
    let ghost end = offset + size;
    while lane > 0
        invariant
            lane <= size <= 8,
            end == offset + size <= length,
            length == bytes@.len(),
            value == le_value(bytes@.subrange(offset + lane, end)),
        decreases lane,
    {
        lane = lane - 1;
        proof {
            let tail = bytes@.subrange(offset + lane + 1, end);
            let whole = bytes@.subrange(offset + lane, end);
            lemma_le_value_bound(tail);
            lemma_lane_scale_values();
            lemma_lane_scale_monotonic((size - lane) as nat, 8);
            assert(lane_scale((size - lane) as nat) == 256 * lane_scale(
                (size - lane - 1) as nat,
            ));
            assert(whole.drop_first() =~= tail);
            assert(whole[0] == bytes@[offset + lane]);
        }
        value = value * 256 + bytes[offset + lane] as u64;
    }
    proof {
        lemma_le_value_bound(bytes@.subrange(offset as int, end));
    }
    value
}

/// Byte `lane` of `value`.
pub fn le_lane(value: u64, lane: usize) -> (byte: u8)
    ensures
        byte == le_byte(value as nat, lane as nat),
{
    let mut rest: u64 = value;
    let mut left: usize = lane;
    while left > 0
        invariant
            le_byte(rest as nat, left as nat) == le_byte(value as nat, lane as nat),
        decreases left,
    {
        rest = rest / 256;
        left = left - 1;
    }
    (rest % 256) as u8
}

/// Little-endian order: the first byte counts ones, the next ones count 256 times as much each.
pub proof fn law_bytes_are_little_endian(bytes: Seq<u8>)
    ensures
        bytes.len() == 0 ==> le_value(bytes) == 0,
        bytes.len() == 1 ==> le_value(bytes) == bytes[0],
        bytes.len() == 2 ==> le_value(bytes) == bytes[0] + 0x100 * bytes[1],
        bytes.len() == 4 ==> le_value(bytes) == bytes[0] + 0x100 * bytes[1] + 0x1_0000 * bytes[2]
            + 0x100_0000 * bytes[3],
        bytes.len() == 8 ==> le_value(bytes) == bytes[0] + 0x100 * bytes[1] + 0x1_0000 * bytes[2]
            + 0x100_0000 * bytes[3] + 0x1_0000_0000 * bytes[4] + 0x100_0000_0000 * bytes[5]
            + 0x1_0000_0000_0000 * bytes[6] + 0x100_0000_0000_0000 * bytes[7],
{
    reveal_with_fuel(le_value, 9);
    if bytes.len() >= 1 {
        let r1 = bytes.drop_first();
        if bytes.len() >= 2 {
            let r2 = r1.drop_first();
            assert(r1[0] == bytes[1]);
            if bytes.len() >= 4 {
                let r3 = r2.drop_first();
                let r4 = r3.drop_first();
                assert(r2[0] == bytes[2] && r3[0] == bytes[3]);
                if bytes.len() >= 8 {
                    let r5 = r4.drop_first();
                    let r6 = r5.drop_first();
                    let r7 = r6.drop_first();
                    assert(r4[0] == bytes[4] && r5[0] == bytes[5] && r6[0] == bytes[6] && r7[0]
                        == bytes[7]);
                }
            }
        }
    }
}

/// Each byte of a value, counted from the least significant one.
pub proof fn law_byte_lanes(value: nat)
    ensures
        le_byte(value, 0) == value % 0x100,
        le_byte(value, 1) == value / 0x100 % 0x100,
        le_byte(value, 2) == value / 0x1_0000 % 0x100,
        le_byte(value, 3) == value / 0x100_0000 % 0x100,
        le_byte(value, 4) == value / 0x1_0000_0000 % 0x100,
        le_byte(value, 5) == value / 0x100_0000_0000 % 0x100,
        le_byte(value, 6) == value / 0x1_0000_0000_0000 % 0x100,
        le_byte(value, 7) == value / 0x100_0000_0000_0000 % 0x100,
{
    reveal_with_fuel(le_byte, 8);
}

/// Decoding gives the bytes their little-endian weights, and a lane is one such byte: what is
/// decoded has the decoded bytes as its lanes.
pub proof fn law_lanes_undo_decoding(
    bytes: &[u8],
    offset: usize,
    size: usize,
    value: u64,
    lane: usize,
    byte: u8,
)
    requires
        size <= 8,
        offset + size <= bytes@.len(),
        lane < size,
        call_ensures(le_decode, (bytes, offset, size), value),
        call_ensures(le_lane, (value, lane), byte),
    ensures
        byte == bytes@[offset + lane],
        size == 1 ==> value == bytes@[offset as int],
        size == 2 ==> value == bytes@[offset as int] + 0x100 * bytes@[offset + 1],
        size == 4 ==> value == bytes@[offset as int] + 0x100 * bytes@[offset + 1] + 0x1_0000
            * bytes@[offset + 2] + 0x100_0000 * bytes@[offset + 3],
{
    let part = bytes@.subrange(offset as int, offset + size);
    lemma_le_byte_of_value(part, lane as nat);
    law_bytes_are_little_endian(part);
}

} // verus!
