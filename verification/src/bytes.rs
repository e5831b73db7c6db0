//! Little-endian numbers inside a byte region.
use vstd::prelude::*;

verus! {

/// `bytes` with `data` in place of what stood from `offset` on.
pub open spec fn overwrite(bytes: Seq<u8>, offset: int, data: Seq<u8>) -> Seq<u8> {
    Seq::new(
        bytes.len(),
        |k: int|
            if offset <= k < offset + data.len() {
                data[k - offset]
            } else {
                bytes[k]
            },
    )
}

/// The 16-bit number stored at `offset`, least significant byte first.
pub open spec fn le16(bytes: Seq<u8>, offset: int) -> u16 {
    (bytes[offset] + 0x100 * bytes[offset + 1]) as u16
}

/// The 32-bit number stored at `offset`, least significant byte first.
pub open spec fn le32(bytes: Seq<u8>, offset: int) -> u32 {
    (bytes[offset] + 0x100 * bytes[offset + 1] + 0x1_0000 * bytes[offset + 2] + 0x100_0000
        * bytes[offset + 3]) as u32
}

/// The 64-bit number stored at `offset`, least significant byte first.
pub open spec fn le64(bytes: Seq<u8>, offset: int) -> u64 {
    (le32(bytes, offset) + 0x1_0000_0000 * le32(bytes, offset + 4)) as u64
}

/// The two bytes of a 16-bit number, least significant first.
pub open spec fn bytes16(value: u16) -> Seq<u8> {
    seq![(value % 0x100) as u8, (value / 0x100) as u8]
}

/// The four bytes of a 32-bit number, least significant first.
pub open spec fn bytes32(value: u32) -> Seq<u8> {
    seq![
        (value % 0x100) as u8,
        (value / 0x100 % 0x100) as u8,
        (value / 0x1_0000 % 0x100) as u8,
        (value / 0x100_0000) as u8,
    ]
}

/// The eight bytes of a 64-bit number, least significant first.
pub open spec fn bytes64(value: u64) -> Seq<u8> {
    bytes32((value % 0x1_0000_0000) as u32) + bytes32((value / 0x1_0000_0000) as u32)
}

/// `bytes` with a 32-bit number stored at `offset`.
pub open spec fn put32(bytes: Seq<u8>, offset: int, value: u32) -> Seq<u8> {
    overwrite(bytes, offset, bytes32(value))
}

/// Reading a stored number gives it back, and storing it changes no number
/// that it does not overlap.
pub proof fn law_put32(bytes: Seq<u8>, offset: int, value: u32, other: int)
    requires
        0 <= offset && offset + 4 <= bytes.len(),
        0 <= other && other + 4 <= bytes.len(),
    ensures
        le32(put32(bytes, offset, value), offset) == value,
        other + 4 <= offset || offset + 4 <= other ==> le32(put32(bytes, offset, value), other)
            == le32(bytes, other),
        put32(bytes, offset, value).len() == bytes.len(),
{
}

/// A stored 16-bit number reads back.
pub proof fn law_stored_u16_reads_back(bytes: Seq<u8>, offset: int, value: u16)
    requires
        0 <= offset && offset + 2 <= bytes.len(),
    ensures
        le16(overwrite(bytes, offset, bytes16(value)), offset) == value,
{
}

/// A stored 64-bit number reads back.
pub proof fn law_stored_u64_reads_back(bytes: Seq<u8>, offset: int, value: u64)
    requires
        0 <= offset && offset + 8 <= bytes.len(),
    ensures
        le64(overwrite(bytes, offset, bytes64(value)), offset) == value,
{
    let low = (value % 0x1_0000_0000) as u32;
    let high = (value / 0x1_0000_0000) as u32;
    let half = put32(bytes, offset, low);
    assert(overwrite(bytes, offset, bytes64(value)) =~= put32(half, offset + 4, high));
    law_put32(bytes, offset, low, offset);
    law_put32(half, offset + 4, high, offset);
    law_put32(half, offset + 4, high, offset + 4);
}

/// Copy `data` over the bytes of `target` from `offset` on.
pub fn copy_into(target: &mut [u8], offset: usize, data: &[u8])
    requires
        offset + data@.len() <= old(target)@.len(),
    ensures
        final(target)@ == overwrite(old(target)@, offset as int, data@),
{
    let ghost before = target@;
    let size: usize = target.len();
    let mut i: usize = 0;
    while i < data.len()
        invariant
            i <= data@.len(),
            offset + data@.len() <= target@.len(),
            target@.len() == before.len(),
            target@.len() == size,
            forall|k: int|
                0 <= k < before.len() ==> #[trigger] target@[k] == (if offset <= k < offset + i {
                    data@[k - offset]
                } else {
                    before[k]
                }),
        decreases data@.len() - i,
    {
        target[offset + i] = data[i];
        i = i + 1;
    }
    assert(target@ =~= overwrite(before, offset as int, data@));
}

pub fn read16(bytes: &[u8], offset: usize) -> (r: u16)
    requires
        offset + 2 <= bytes@.len(),
    ensures
        r == le16(bytes@, offset as int),
{
    bytes[offset] as u16 + 0x100 * (bytes[offset + 1] as u16)
}

pub fn read32(bytes: &[u8], offset: usize) -> (r: u32)
    requires
        offset + 4 <= bytes@.len(),
    ensures
        r == le32(bytes@, offset as int),
{
    bytes[offset] as u32 + 0x100 * (bytes[offset + 1] as u32) + 0x1_0000 * (bytes[offset + 2] as u32)
        + 0x100_0000 * (bytes[offset + 3] as u32)
}

pub fn read64(bytes: &[u8], offset: usize) -> (r: u64)
    requires
        offset + 8 <= bytes@.len(),
    ensures
        r == le64(bytes@, offset as int),
{
    let size: usize = bytes.len();
    assert(offset + 8 <= size);
    read32(bytes, offset) as u64 + 0x1_0000_0000 * (read32(bytes, offset + 4) as u64)
}

pub fn write16(bytes: &mut [u8], offset: usize, value: u16)
    requires
        offset + 2 <= old(bytes)@.len(),
    ensures
        final(bytes)@ == overwrite(old(bytes)@, offset as int, bytes16(value)),
{
    let ghost before = bytes@;
    bytes[offset] = (value % 0x100) as u8;
    bytes[offset + 1] = (value / 0x100) as u8;
    assert(bytes@ =~= overwrite(before, offset as int, bytes16(value)));
}

pub fn write32(bytes: &mut [u8], offset: usize, value: u32)
    requires
        offset + 4 <= old(bytes)@.len(),
    ensures
        final(bytes)@ == put32(old(bytes)@, offset as int, value),
{
    let ghost before = bytes@;
    bytes[offset] = (value % 0x100) as u8;
    bytes[offset + 1] = (value / 0x100 % 0x100) as u8;
    bytes[offset + 2] = (value / 0x1_0000 % 0x100) as u8;
    bytes[offset + 3] = (value / 0x100_0000) as u8;
    assert(bytes@ =~= put32(before, offset as int, value));
}

pub fn write64(bytes: &mut [u8], offset: usize, value: u64)
    requires
        offset + 8 <= old(bytes)@.len(),
    ensures
        final(bytes)@ == overwrite(old(bytes)@, offset as int, bytes64(value)),
{
    let ghost before = bytes@;
    let size: usize = bytes.len();
    write32(&mut *bytes, offset, (value % 0x1_0000_0000) as u32);
    write32(&mut *bytes, offset + 4, (value / 0x1_0000_0000) as u32);
    assert(bytes@ =~= overwrite(before, offset as int, bytes64(value)));
}

/// Where the bytes of a half go when two halves are joined.
proof fn lemma_joined_bytes(low: u64, high: u64)
    by (bit_vector)
    requires
        low <= 0xffff_ffff,
        high <= 0xffff_ffff,
    ensures
        ((low + 0x1_0000_0000 * high) as u64) % 0x100 == low % 0x100,
        ((low + 0x1_0000_0000 * high) as u64) / 0x100 % 0x100 == low / 0x100 % 0x100,
        ((low + 0x1_0000_0000 * high) as u64) / 0x1_0000 % 0x100 == low / 0x1_0000 % 0x100,
        ((low + 0x1_0000_0000 * high) as u64) / 0x100_0000 % 0x100 == low / 0x100_0000,
        ((low + 0x1_0000_0000 * high) as u64) / 0x1_0000_0000 % 0x100 == high % 0x100,
        ((low + 0x1_0000_0000 * high) as u64) / 0x100_0000_0000 % 0x100 == high / 0x100 % 0x100,
        ((low + 0x1_0000_0000 * high) as u64) / 0x1_0000_0000_0000 % 0x100 == high / 0x1_0000
            % 0x100,
        ((low + 0x1_0000_0000 * high) as u64) / 0x100_0000_0000_0000 == high / 0x100_0000,
{
}

/// Where four bytes go when they are joined.
proof fn lemma_four_parts(b0: u32, b1: u32, b2: u32, b3: u32)
    by (bit_vector)
    requires
        b0 <= 0xff,
        b1 <= 0xff,
        b2 <= 0xff,
        b3 <= 0xff,
    ensures
        ((b0 + 0x100 * b1 + 0x1_0000 * b2 + 0x100_0000 * b3) as u32) % 0x100 == b0,
        ((b0 + 0x100 * b1 + 0x1_0000 * b2 + 0x100_0000 * b3) as u32) / 0x100 % 0x100 == b1,
        ((b0 + 0x100 * b1 + 0x1_0000 * b2 + 0x100_0000 * b3) as u32) / 0x1_0000 % 0x100 == b2,
        ((b0 + 0x100 * b1 + 0x1_0000 * b2 + 0x100_0000 * b3) as u32) / 0x100_0000 == b3,
{
}

/// The bytes of a 32-bit number, one by one.
proof fn lemma_four_bytes(bytes: Seq<u8>, offset: int)
    ensures
        le32(bytes, offset) % 0x100 == bytes[offset],
        le32(bytes, offset) / 0x100 % 0x100 == bytes[offset + 1],
        le32(bytes, offset) / 0x1_0000 % 0x100 == bytes[offset + 2],
        le32(bytes, offset) / 0x100_0000 == bytes[offset + 3],
{
    lemma_four_parts(
        bytes[offset] as u32,
        bytes[offset + 1] as u32,
        bytes[offset + 2] as u32,
        bytes[offset + 3] as u32,
    );
}

/// Numbers are stored least significant byte first: the byte `k` places behind
/// the first holds the bits from `8 * k` on, and every byte counts.
pub proof fn law_least_significant_byte_comes_first(bytes: Seq<u8>, offset: int)
    ensures
        le16(bytes, offset) % 0x100 == bytes[offset],
        le16(bytes, offset) / 0x100 == bytes[offset + 1],
        le32(bytes, offset) % 0x100 == bytes[offset],
        le32(bytes, offset) / 0x100 % 0x100 == bytes[offset + 1],
        le32(bytes, offset) / 0x1_0000 % 0x100 == bytes[offset + 2],
        le32(bytes, offset) / 0x100_0000 == bytes[offset + 3],
        le64(bytes, offset) % 0x100 == bytes[offset],
        le64(bytes, offset) / 0x100 % 0x100 == bytes[offset + 1],
        le64(bytes, offset) / 0x1_0000 % 0x100 == bytes[offset + 2],
        le64(bytes, offset) / 0x100_0000 % 0x100 == bytes[offset + 3],
        le64(bytes, offset) / 0x1_0000_0000 % 0x100 == bytes[offset + 4],
        le64(bytes, offset) / 0x100_0000_0000 % 0x100 == bytes[offset + 5],
        le64(bytes, offset) / 0x1_0000_0000_0000 % 0x100 == bytes[offset + 6],
        le64(bytes, offset) / 0x100_0000_0000_0000 == bytes[offset + 7],
{
    lemma_four_bytes(bytes, offset);
    lemma_four_bytes(bytes, offset + 4);
    lemma_joined_bytes(le32(bytes, offset) as u64, le32(bytes, offset + 4) as u64);
}

/// Taking a number apart gives its bytes, least significant first, and no more.
#[verifier::rlimit(40)]
pub proof fn law_numbers_come_apart_into_their_bytes(n16: u16, n32: u32, n64: u64)
    ensures
        bytes16(n16).len() == 2,
        bytes16(n16)[0] == n16 % 0x100,
        bytes16(n16)[1] == n16 / 0x100,
        bytes32(n32).len() == 4,
        bytes32(n32)[0] == n32 % 0x100,
        bytes32(n32)[1] == n32 / 0x100 % 0x100,
        bytes32(n32)[2] == n32 / 0x1_0000 % 0x100,
        bytes32(n32)[3] == n32 / 0x100_0000,
        bytes64(n64).len() == 8,
        bytes64(n64)[0] == n64 % 0x100,
        bytes64(n64)[1] == n64 / 0x100 % 0x100,
        bytes64(n64)[2] == n64 / 0x1_0000 % 0x100,
        bytes64(n64)[3] == n64 / 0x100_0000 % 0x100,
        bytes64(n64)[4] == n64 / 0x1_0000_0000 % 0x100,
        bytes64(n64)[5] == n64 / 0x100_0000_0000 % 0x100,
        bytes64(n64)[6] == n64 / 0x1_0000_0000_0000 % 0x100,
        bytes64(n64)[7] == n64 / 0x100_0000_0000_0000,
{
    let low = (n64 % 0x1_0000_0000) as u32;
    let high = (n64 / 0x1_0000_0000) as u32;
    assert(n64 == low + 0x1_0000_0000 * high);
    lemma_joined_bytes(low as u64, high as u64);
    assert forall|k: int| 0 <= k < 4 implies bytes64(n64)[k] == #[trigger] bytes32(low)[k] by {}
    assert forall|k: int| 0 <= k < 4 implies bytes64(n64)[4 + k] == #[trigger] bytes32(high)[k] by {}
    assert(bytes32(low)[0] == low % 0x100 && bytes32(high)[0] == high % 0x100);
    assert(bytes32(low)[1] == low / 0x100 % 0x100 && bytes32(high)[1] == high / 0x100 % 0x100);
    assert(bytes32(low)[2] == low / 0x1_0000 % 0x100 && bytes32(high)[2] == high / 0x1_0000 % 0x100);
    assert(bytes32(low)[3] == low / 0x100_0000 && bytes32(high)[3] == high / 0x100_0000);
    assert(bytes64(n64)[4int + 0] == bytes32(high)[0]);
    assert(bytes64(n64)[4int + 1] == bytes32(high)[1]);
    assert(bytes64(n64)[4int + 2] == bytes32(high)[2]);
    assert(bytes64(n64)[4int + 3] == bytes32(high)[3]);
}

/// Data that is copied in stands where it was put, and every other byte stays
/// what it was.
pub proof fn law_overwriting_stays_in_its_span(bytes: Seq<u8>, offset: int, data: Seq<u8>, k: int)
    requires
        0 <= offset && offset + data.len() <= bytes.len(),
        0 <= k < bytes.len(),
    ensures
        overwrite(bytes, offset, data).len() == bytes.len(),
        overwrite(bytes, offset, data).subrange(offset, offset + data.len()) == data,
        k < offset || k >= offset + data.len() ==> overwrite(bytes, offset, data)[k] == bytes[k],
{
    assert(overwrite(bytes, offset, data).subrange(offset, offset + data.len()) =~= data);
}

} // verus!
