//! Numbers inside byte sequences.

use vstd::prelude::*;

verus! {

/// The byte of `x` that counts multiples of `unit`, a power of 256.
pub open spec fn byte_of(x: int, unit: int) -> u8 {
    ((x / unit) % 256) as u8
}

/// Whether bit `mask`, a power of two, is set in `x`.
pub open spec fn has_bit(x: int, mask: int) -> bool {
    (x / mask) % 2 == 1
}

/// The little-endian 16-bit word at index `i`, counted in words.
pub open spec fn word_at(d: Seq<u8>, i: int) -> int {
    d[2 * i] + 256 * d[2 * i + 1]
}

/// The big-endian 16-bit number at byte `i`.
pub open spec fn be16_at(d: Seq<u8>, i: int) -> int {
    256 * d[i] + d[i + 1]
}

/// The big-endian 32-bit number at byte `i`.
pub open spec fn be32_at(d: Seq<u8>, i: int) -> int {
    0x100_0000 * d[i] + 0x1_0000 * d[i + 1] + 256 * d[i + 2] + d[i + 3]
}

/// A 16-bit number as two bytes, most significant first.
pub open spec fn be16(x: int) -> Seq<u8> {
    seq![byte_of(x, 256), byte_of(x, 1)]
}

/// A 32-bit number as four bytes, most significant first.
pub open spec fn be32(x: int) -> Seq<u8> {
    seq![byte_of(x, 0x100_0000), byte_of(x, 0x1_0000), byte_of(x, 256), byte_of(x, 1)]
}

/// `n` zero bytes.
pub open spec fn zero_bytes(n: nat) -> Seq<u8> {
    Seq::new(n, |i: int| 0u8)
}

/// The byte of `x` that counts multiples of `unit`.
pub fn byte_at(x: u64, unit: u64) -> (b: u8)
    requires
        unit > 0,
    ensures
        b == byte_of(x as int, unit as int),
{
    ((x / unit) % 256) as u8
}

/// Whether bit `mask` is set in `x`.
pub fn bit_set(x: u64, mask: u64) -> (b: bool)
    requires
        mask > 0,
    ensures
        b == has_bit(x as int, mask as int),
{
    (x / mask) % 2 == 1
}

/// The little-endian 16-bit word at index `i`.
pub fn read_word(d: &[u8], i: usize) -> (w: u16)
    requires
        2 * i + 1 < d@.len(),
    ensures
        w == word_at(d@, i as int),
{
    assert(d@.len() == d.len());
    d[2 * i] as u16 + 256 * (d[2 * i + 1] as u16)
}

/// The big-endian 16-bit number at byte `i`.
pub fn read_be16(d: &[u8], i: usize) -> (w: u16)
    requires
        i + 1 < d@.len(),
    ensures
        w == be16_at(d@, i as int),
{
    256 * (d[i] as u16) + d[i + 1] as u16
}

/// The big-endian 32-bit number at byte `i`.
pub fn read_be32(d: &[u8], i: usize) -> (w: u32)
    requires
        i + 3 < d@.len(),
    ensures
        w == be32_at(d@, i as int),
{
    0x100_0000 * (d[i] as u32) + 0x1_0000 * (d[i + 1] as u32) + 256 * (d[i + 2] as u32) + d[i + 3] as u32
}

/// Appends the bytes of `t` to `v`.
pub fn append_bytes(v: &mut Vec<u8>, t: &[u8])
    ensures
        final(v)@ == old(v)@ + t@,
{
    let ghost before = v@;
    v.extend_from_slice(t);
    assert(v@ =~= before + t@);
}

/// Appends a 16-bit number to `v`, most significant byte first.
pub fn append_be16(v: &mut Vec<u8>, x: u16)
    ensures
        final(v)@ == old(v)@ + be16(x as int),
{
    let ghost before = v@;
    v.push(byte_at(x as u64, 256));
    v.push(byte_at(x as u64, 1));
    assert(v@ =~= before + be16(x as int));
}

/// Appends a 32-bit number to `v`, most significant byte first.
pub fn append_be32(v: &mut Vec<u8>, x: u32)
    ensures
        final(v)@ == old(v)@ + be32(x as int),
{
    let ghost before = v@;
    v.push(byte_at(x as u64, 0x100_0000));
    v.push(byte_at(x as u64, 0x1_0000));
    v.push(byte_at(x as u64, 256));
    v.push(byte_at(x as u64, 1));
    assert(v@ =~= before + be32(x as int));
}

/// `n` zero bytes.
pub fn zeroed(n: usize) -> (v: Vec<u8>)
    ensures
        v@ == zero_bytes(n as nat),
{
    let v = vec![0u8; n];
    assert(v@ =~= zero_bytes(n as nat));
    v
}

/// Appends `n` zero bytes to `v`.
pub fn append_zeros(v: &mut Vec<u8>, n: usize)
    ensures
        final(v)@ == old(v)@ + zero_bytes(n as nat),
{
    let ghost before = v@;
    let z = zeroed(n);
    append_bytes(v, z.as_slice());
    assert(v@ =~= before + zero_bytes(n as nat));
}

/// A copy of `d[from..to]`.
pub fn copy_range(d: &[u8], from: usize, to: usize) -> (v: Vec<u8>)
    requires
        from <= to <= d@.len(),
    ensures
        v@ == d@.subrange(from as int, to as int),
{
    let part = vstd::slice::slice_subrange(d, from, to);
    let v = vstd::slice::slice_to_vec(part);
    assert(v@ =~= d@.subrange(from as int, to as int));
    v
}

} // verus!
