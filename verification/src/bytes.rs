//! Little-endian integers in byte strings: how bytes spell a value, and the
//! readers and writers that go with it.

use pinocchio::pubkey::Pubkey;
use vstd::prelude::*;

verus! {

/// The unsigned 16-bit value that two bytes at `at` spell.
pub open spec fn u16_le(bytes: Seq<u8>, at: int) -> int {
    bytes[at] + bytes[at + 1] * 0x100
}

/// The unsigned 32-bit value that four bytes at `at` spell.
pub open spec fn u32_le(bytes: Seq<u8>, at: int) -> int {
    u16_le(bytes, at) + u16_le(bytes, at + 2) * 0x1_0000
}

/// The unsigned 64-bit value that eight bytes at `at` spell.
pub open spec fn u64_le(bytes: Seq<u8>, at: int) -> int {
    u32_le(bytes, at) + u32_le(bytes, at + 4) * 0x1_0000_0000
}

/// The unsigned 128-bit value that sixteen bytes at `at` spell.
pub open spec fn u128_le(bytes: Seq<u8>, at: int) -> int {
    u64_le(bytes, at) + u64_le(bytes, at + 8) * 0x1_0000_0000_0000_0000
}

/// The signed 64-bit value that eight bytes at `at` spell in two's complement.
pub open spec fn i64_le(bytes: Seq<u8>, at: int) -> int {
    if u64_le(bytes, at) >= 0x8000_0000_0000_0000 {
        u64_le(bytes, at) - 0x1_0000_0000_0000_0000
    } else {
        u64_le(bytes, at)
    }
}

/// The signed 128-bit value that sixteen bytes at `at` spell in two's complement.
pub open spec fn i128_le(bytes: Seq<u8>, at: int) -> int {
    if u128_le(bytes, at) >= 0x8000_0000_0000_0000_0000_0000_0000_0000 {
        u128_le(bytes, at) - 0x1_0000_0000_0000_0000_0000_0000_0000_0000
    } else {
        u128_le(bytes, at)
    }
}

/// Tells whether `after` is `before` with `count` bytes appended.
pub open spec fn appended(before: Seq<u8>, after: Seq<u8>, count: int) -> bool {
    &&& after.len() == before.len() + count
    &&& forall|j: int| 0 <= j < before.len() ==> #[trigger] after[j] == before[j]
}

/// Reads an unsigned 16-bit value.
pub fn read_u16_le(data: &[u8], at: usize) -> (value: u16)
    requires
        at + 2 <= data@.len(),
    ensures
        value == u16_le(data@, at as int),
{
    (data[at] as u16) + (data[at + 1] as u16) * 0x100
}

/// Reads an unsigned 32-bit value.
pub fn read_u32_le(data: &[u8], at: usize) -> (value: u32)
    requires
        at + 4 <= data@.len(),
    ensures
        value == u32_le(data@, at as int),
{
    let len: usize = data.len();
    (read_u16_le(data, at) as u32) + (read_u16_le(data, at + 2) as u32) * 0x1_0000
}

/// Reads an unsigned 64-bit value.
pub fn read_u64_le(data: &[u8], at: usize) -> (value: u64)
    requires
        at + 8 <= data@.len(),
    ensures
        value == u64_le(data@, at as int),
{
    let len: usize = data.len();
    (read_u32_le(data, at) as u64) + (read_u32_le(data, at + 4) as u64) * 0x1_0000_0000
}

/// Reads an unsigned 128-bit value.
pub fn read_u128_le(data: &[u8], at: usize) -> (value: u128)
    requires
        at + 16 <= data@.len(),
    ensures
        value == u128_le(data@, at as int),
{
    let len: usize = data.len();
    (read_u64_le(data, at) as u128) + (read_u64_le(data, at + 8) as u128)
        * 0x1_0000_0000_0000_0000
}

/// Reads a signed 64-bit value.
pub fn read_i64_le(data: &[u8], at: usize) -> (value: i64)
    requires
        at + 8 <= data@.len(),
    ensures
        value == i64_le(data@, at as int),
{
    let raw: u64 = read_u64_le(data, at);
    if raw >= 0x8000_0000_0000_0000 {
        let below: u64 = u64::MAX - raw;
        -(below as i64) - 1
    } else {
        raw as i64
    }
}

/// Reads a signed 128-bit value.
pub fn read_i128_le(data: &[u8], at: usize) -> (value: i128)
    requires
        at + 16 <= data@.len(),
    ensures
        value == i128_le(data@, at as int),
{
    let raw: u128 = read_u128_le(data, at);
    if raw >= 0x8000_0000_0000_0000_0000_0000_0000_0000 {
        let below: u128 = u128::MAX - raw;
        -(below as i128) - 1
    } else {
        raw as i128
    }
}

/// Reads an address.
pub fn read_pubkey(data: &[u8], at: usize) -> (key: Pubkey)
    requires
        at + 32 <= data@.len(),
    ensures
        key@ == data@.subrange(at as int, at + 32),
{
    let len: usize = data.len();
    let mut key: Pubkey = [0u8; 32];
    let mut i: usize = 0;
    while i < 32
        invariant
            i <= 32,
            at + 32 <= data@.len(),
            len == data@.len(),
            forall|j: int| 0 <= j < i ==> key@[j] == data@[at + j],
        decreases 32 - i,
    {
        key[i] = data[at + i];
        i += 1;
    }
    assert(key@ =~= data@.subrange(at as int, at + 32));
    key
}

/// Appends an unsigned 16-bit value.
pub fn write_u16_le(out: &mut Vec<u8>, value: u16)
    ensures
        appended(old(out)@, final(out)@, 2),
        u16_le(final(out)@, old(out)@.len() as int) == value,
{
    out.push((value % 0x100) as u8);
    out.push((value / 0x100) as u8);
}

/// Appends an unsigned 32-bit value.
pub fn write_u32_le(out: &mut Vec<u8>, value: u32)
    ensures
        appended(old(out)@, final(out)@, 4),
        u32_le(final(out)@, old(out)@.len() as int) == value,
{
    write_u16_le(out, (value % 0x1_0000) as u16);
    write_u16_le(out, (value / 0x1_0000) as u16);
}

/// Appends an unsigned 64-bit value.
pub fn write_u64_le(out: &mut Vec<u8>, value: u64)
    ensures
        appended(old(out)@, final(out)@, 8),
        u64_le(final(out)@, old(out)@.len() as int) == value,
{
    write_u32_le(out, (value % 0x1_0000_0000) as u32);
    write_u32_le(out, (value / 0x1_0000_0000) as u32);
}

/// Appends an unsigned 128-bit value.
pub fn write_u128_le(out: &mut Vec<u8>, value: u128)
    ensures
        appended(old(out)@, final(out)@, 16),
        u128_le(final(out)@, old(out)@.len() as int) == value,
{
    write_u64_le(out, (value % 0x1_0000_0000_0000_0000) as u64);
    write_u64_le(out, (value / 0x1_0000_0000_0000_0000) as u64);
}

/// Appends a signed 64-bit value in two's complement.
pub fn write_i64_le(out: &mut Vec<u8>, value: i64)
    ensures
        appended(old(out)@, final(out)@, 8),
        i64_le(final(out)@, old(out)@.len() as int) == value,
{
    let raw: u64 = if value >= 0 {
        value as u64
    } else {
        u64::MAX - ((-(value + 1)) as u64)
    };
    write_u64_le(out, raw);
}

/// Appends a signed 128-bit value in two's complement.
pub fn write_i128_le(out: &mut Vec<u8>, value: i128)
    ensures
        appended(old(out)@, final(out)@, 16),
        i128_le(final(out)@, old(out)@.len() as int) == value,
{
    let raw: u128 = if value >= 0 {
        value as u128
    } else {
        u128::MAX - ((-(value + 1)) as u128)
    };
    write_u128_le(out, raw);
}

/// Appends the bytes of an address.
pub fn write_pubkey(out: &mut Vec<u8>, key: &Pubkey)
    ensures
        appended(old(out)@, final(out)@, 32),
        final(out)@.subrange(old(out)@.len() as int, old(out)@.len() as int + 32) == key@,
{
    let ghost before = out@;
    let mut i: usize = 0;
    while i < 32
        invariant
            i <= 32,
            out@.len() == before.len() + i,
            forall|j: int| 0 <= j < before.len() ==> out@[j] == before[j],
            forall|j: int| 0 <= j < i ==> out@[before.len() + j] == key@[j],
        decreases 32 - i,
    {
        out.push(key[i]);
        i += 1;
    }
    assert(out@.subrange(before.len() as int, before.len() as int + 32) =~= key@);
}

/// Appends `count` zero bytes.
pub fn write_zeros(out: &mut Vec<u8>, count: usize)
    ensures
        appended(old(out)@, final(out)@, count as int),
        forall|j: int| old(out)@.len() <= j < final(out)@.len() ==> final(out)@[j] == 0,
{
    let ghost before = out@;
    let mut i: usize = 0;
    while i < count
        invariant
            i <= count,
            out@.len() == before.len() + i,
            forall|j: int| 0 <= j < before.len() ==> out@[j] == before[j],
            forall|j: int| before.len() <= j < out@.len() ==> out@[j] == 0,
        decreases count - i,
    {
        out.push(0);
        i += 1;
    }
}

} // verus!
