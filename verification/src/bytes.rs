//! Little endian integers inside byte sequences.

use vstd::prelude::*;

verus! {

/// The unsigned 16 bit integer stored at `at`.
pub open spec fn u16_le(bytes: Seq<u8>, at: int) -> u16 {
    (bytes[at] + 0x100 * bytes[at + 1]) as u16
}

/// The unsigned 32 bit integer stored at `at`.
pub open spec fn u32_le(bytes: Seq<u8>, at: int) -> u32 {
    (bytes[at] + 0x100 * bytes[at + 1] + 0x1_0000 * bytes[at + 2] + 0x100_0000 * bytes[at
        + 3]) as u32
}

/// The two's complement 16 bit integer stored at `at`.
pub open spec fn i16_le(bytes: Seq<u8>, at: int) -> i16 {
    let raw = u16_le(bytes, at);
    if raw < 0x8000 {
        raw as i16
    } else {
        (raw - 0x1_0000) as i16
    }
}

/// The two's complement 32 bit integer stored at `at`.
pub open spec fn i32_le(bytes: Seq<u8>, at: int) -> i32 {
    let raw = u32_le(bytes, at);
    if raw < 0x8000_0000 {
        raw as i32
    } else {
        (raw - 0x1_0000_0000) as i32
    }
}

/// The two bytes that store `value`, low byte first.
pub open spec fn u16_bytes(value: u16) -> Seq<u8> {
    seq![(value % 0x100) as u8, (value / 0x100) as u8]
}

/// The four bytes that store `value`, low byte first.
pub open spec fn u32_bytes(value: u32) -> Seq<u8> {
    seq![
        (value % 0x100) as u8,
        ((value / 0x100) % 0x100) as u8,
        ((value / 0x1_0000) % 0x100) as u8,
        (value / 0x100_0000) as u8,
    ]
}

/// So many bytes, all of them zero.
pub open spec fn zeros(len: nat) -> Seq<u8> {
    Seq::new(len, |at: int| 0u8)
}

/// Reads the unsigned 16 bit integer stored at `at`.
pub fn read_u16(bytes: &[u8], at: usize) -> (value: u16)
    requires
        at + 2 <= bytes.len(),
    ensures
        value == u16_le(bytes@, at as int),
{
    bytes[at] as u16 + 0x100 * (bytes[at + 1] as u16)
}

/// Reads the unsigned 32 bit integer stored at `at`.
pub fn read_u32(bytes: &[u8], at: usize) -> (value: u32)
    requires
        at + 4 <= bytes.len(),
    ensures
        value == u32_le(bytes@, at as int),
{
    bytes[at] as u32 + 0x100 * (bytes[at + 1] as u32) + 0x1_0000 * (bytes[at + 2] as u32)
        + 0x100_0000 * (bytes[at + 3] as u32)
}

/// Reads the two's complement 16 bit integer stored at `at`.
pub fn read_i16(bytes: &[u8], at: usize) -> (value: i16)
    requires
        at + 2 <= bytes.len(),
    ensures
        value == i16_le(bytes@, at as int),
{
    let raw: u16 = read_u16(bytes, at);
    if raw < 0x8000 {
        raw as i16
    } else {
        (raw as i32 - 0x1_0000) as i16
    }
}

/// Reads the two's complement 32 bit integer stored at `at`.
pub fn read_i32(bytes: &[u8], at: usize) -> (value: i32)
    requires
        at + 4 <= bytes.len(),
    ensures
        value == i32_le(bytes@, at as int),
{
    let raw: u32 = read_u32(bytes, at);
    if raw < 0x8000_0000 {
        raw as i32
    } else {
        (raw as i64 - 0x1_0000_0000) as i32
    }
}

/// Stores `value` in two bytes, low byte first.
pub fn write_u16(value: u16) -> (bytes: [u8; 2])
    ensures
        bytes@ == u16_bytes(value),
{
    [(value % 0x100) as u8, (value / 0x100) as u8]
}

/// Stores `value` in four bytes, low byte first.
pub fn write_u32(value: u32) -> (bytes: [u8; 4])
    ensures
        bytes@ == u32_bytes(value),
{
    [
        (value % 0x100) as u8,
        ((value / 0x100) % 0x100) as u8,
        ((value / 0x1_0000) % 0x100) as u8,
        (value / 0x100_0000) as u8,
    ]
}

/// Whether `a` and `b` hold the same bytes.
pub fn same_bytes(a: &[u8], b: &[u8]) -> (same: bool)
    ensures
        same == (a@ == b@),
{
    if a.len() != b.len() {
        return false;
    }
    let mut at: usize = 0;
    while at < a.len()
        invariant
            at <= a.len(),
            a.len() == b.len(),
            forall|i: int| 0 <= i < at ==> a@[i] == b@[i],
        decreases a.len() - at,
    {
        if a[at] != b[at] {
            assert(a@[at as int] != b@[at as int]);
            return false;
        }
        at = at + 1;
    }
    assert(a@ == b@);
    true
}

/// Copies `source` over `target`, starting at `at`.
pub fn copy_into(target: &mut [u8], at: usize, source: &[u8])
    requires
        at + source.len() <= old(target).len(),
    ensures
        final(target)@ == old(target)@.take(at as int) + source@ + old(target)@.skip(
            at + source@.len(),
        ),
{
    let mut copied: usize = 0;
    while copied < source.len()
        invariant
            copied <= source.len(),
            at + source.len() <= target.len(),
            target@.len() == old(target)@.len(),
            target@ == old(target)@.take(at as int) + source@.take(copied as int) + old(
                target,
            )@.skip(at + copied),
        decreases source.len() - copied,
    {
        target[at + copied] = source[copied];
        copied = copied + 1;
    }
    assert(source@.take(copied as int) == source@);
}

/// What is stored in two bytes is read back.
pub proof fn law_u16_round_trip(value: u16)
    ensures
        u16_le(u16_bytes(value), 0) == value,
{
}

/// What is stored in four bytes is read back.
pub proof fn law_u32_round_trip(value: u32)
    ensures
        u32_le(u32_bytes(value), 0) == value,
{
}

/// Two bytes are worth the first and 256 times the second; as a signed number,
/// the second counts negative from 128 on.
pub proof fn law_two_bytes_are_little_endian(bytes: Seq<u8>, at: int)
    requires
        0 <= at,
        at + 2 <= bytes.len(),
    ensures
        u16_le(bytes, at) == bytes[at] + 256 * bytes[at + 1],
        i16_le(bytes, at) == bytes[at] + 256 * (if bytes[at + 1] < 128 {
            bytes[at + 1] as int
        } else {
            bytes[at + 1] - 256
        }),
{
}

/// Each of four bytes is worth 256 times as much as the one before it; as a
/// signed number, the last counts negative from 128 on.
pub proof fn law_four_bytes_are_little_endian(bytes: Seq<u8>, at: int)
    requires
        0 <= at,
        at + 4 <= bytes.len(),
    ensures
        u32_le(bytes, at) == bytes[at] + 256 * (bytes[at + 1] + 256 * (bytes[at + 2] + 256
            * bytes[at + 3])),
        i32_le(bytes, at) == bytes[at] + 256 * (bytes[at + 1] + 256 * (bytes[at + 2] + 256 * (
        if bytes[at + 3] < 128 {
            bytes[at + 3] as int
        } else {
            bytes[at + 3] - 256
        }))),
{
}

/// A stored number takes two or four bytes, which are worth it.
pub proof fn law_numbers_are_stored_low_byte_first(short: u16, long: u32)
    ensures
        u16_bytes(short).len() == 2,
        u16_bytes(short)[0] + 256 * u16_bytes(short)[1] == short,
        u32_bytes(long).len() == 4,
        u32_bytes(long)[0] + 256 * (u32_bytes(long)[1] + 256 * (u32_bytes(long)[2] + 256
            * u32_bytes(long)[3])) == long,
{
}

/// As many zeros as asked for, and nothing else.
pub proof fn law_zeros_are_zero(len: nat, at: int)
    ensures
        zeros(len).len() == len,
        0 <= at < len ==> zeros(len)[at] == 0,
{
}

} // verus!
