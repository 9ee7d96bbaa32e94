//! Big-endian integer fields, as the tracker and peer protocols lay them out.

use byteorder::{BigEndian, ByteOrder};
use vstd::prelude::*;

verus! {

/// The value of the first two bytes of `b`, most significant first.
pub open spec fn be16(b: Seq<u8>) -> nat {
    b[0] as nat * 0x100 + b[1] as nat
}

/// The value of the first four bytes of `b`, most significant first.
pub open spec fn be32(b: Seq<u8>) -> nat {
    b[0] as nat * 0x100_0000 + b[1] as nat * 0x1_0000 + b[2] as nat * 0x100 + b[3] as nat
}

/// The value of the first eight bytes of `b`, most significant first.
pub open spec fn be64(b: Seq<u8>) -> nat {
    be32(b) * 0x1_0000_0000 + be32(b.subrange(4, 8))
}

/// The two bytes of `n`, most significant first.
pub open spec fn be16_bytes(n: u16) -> Seq<u8> {
    seq![(n / 0x100) as u8, (n % 0x100) as u8]
}

/// The four bytes of `n`, most significant first.
pub open spec fn be32_bytes(n: u32) -> Seq<u8> {
    seq![
        (n / 0x100_0000) as u8,
        (n / 0x1_0000 % 0x100) as u8,
        (n / 0x100 % 0x100) as u8,
        (n % 0x100) as u8,
    ]
}

/// The eight bytes of `n`, most significant first.
pub open spec fn be64_bytes(n: u64) -> Seq<u8> {
    be32_bytes((n / 0x1_0000_0000) as u32) + be32_bytes((n % 0x1_0000_0000) as u32)
}

/// `byteorder::BigEndian::read_u16`: the first two bytes of `buf` as a
/// big-endian number; it panics on a shorter buffer, which `requires` rules out.
#[verifier::external_body]
pub(crate) fn read_u16_be(buf: &[u8]) -> (n: u16)
    requires
        buf@.len() >= 2,
    ensures
        n == be16(buf@),
{
    BigEndian::read_u16(buf)
}

/// `byteorder::BigEndian::read_u32`: the first four bytes of `buf` as a
/// big-endian number; it panics on a shorter buffer.
#[verifier::external_body]
pub(crate) fn read_u32_be(buf: &[u8]) -> (n: u32)
    requires
        buf@.len() >= 4,
    ensures
        n == be32(buf@),
{
    BigEndian::read_u32(buf)
}

/// `byteorder::BigEndian::read_u64`: the first eight bytes of `buf` as a
/// big-endian number; it panics on a shorter buffer.
#[verifier::external_body]
pub(crate) fn read_u64_be(buf: &[u8]) -> (n: u64)
    requires
        buf@.len() >= 8,
    ensures
        n == be64(buf@),
{
    BigEndian::read_u64(buf)
}

/// `byteorder::BigEndian::write_u16` into a fresh two-byte buffer: the bytes
/// of `n`, most significant first.
#[verifier::external_body]
pub(crate) fn write_u16_be(n: u16) -> (b: [u8; 2])
    ensures
        b@ == be16_bytes(n),
{
    let mut b = [0u8; 2];
    BigEndian::write_u16(&mut b, n);
    b
}

/// `byteorder::BigEndian::write_u32` into a fresh four-byte buffer: the bytes
/// of `n`, most significant first.
#[verifier::external_body]
pub(crate) fn write_u32_be(n: u32) -> (b: [u8; 4])
    ensures
        b@ == be32_bytes(n),
{
    let mut b = [0u8; 4];
    BigEndian::write_u32(&mut b, n);
    b
}

/// `byteorder::BigEndian::write_i32` into a fresh four-byte buffer: the
/// two's-complement bytes of `n`, most significant first.
#[verifier::external_body]
pub(crate) fn write_i32_be(n: i32) -> (b: [u8; 4])
    ensures
        b@ == be32_bytes(n as u32),
{
    let mut b = [0u8; 4];
    BigEndian::write_i32(&mut b, n);
    b
}

/// `byteorder::BigEndian::write_u64` into a fresh eight-byte buffer: the bytes
/// of `n`, most significant first.
#[verifier::external_body]
pub(crate) fn write_u64_be(n: u64) -> (b: [u8; 8])
    ensures
        b@ == be64_bytes(n),
{
    let mut b = [0u8; 8];
    BigEndian::write_u64(&mut b, n);
    b
}

/// Appends `bytes` to `out`.
pub fn append_bytes(out: &mut Vec<u8>, bytes: &[u8])
    ensures
        final(out)@ == old(out)@ + bytes@,
{
    let mut i: usize = 0;
    while i < bytes.len()
        invariant
            i <= bytes@.len(),
            out@ == old(out)@ + bytes@.subrange(0, i as int),
        decreases bytes@.len() - i,
    {
        out.push(bytes[i]);
        i = i + 1;
        assert(out@ =~= old(out)@ + bytes@.subrange(0, i as int));
    }
    assert(bytes@.subrange(0, i as int) =~= bytes@);
}

/// `n` zero bytes.
pub open spec fn zeros(n: nat) -> Seq<u8> {
    Seq::new(n, |i: int| 0u8)
}

/// Appends the four bytes of `n`, most significant first.
pub fn push_u32(out: &mut Vec<u8>, n: u32)
    ensures
        final(out)@ == old(out)@ + be32_bytes(n),
{
    let b = write_u32_be(n);
    append_bytes(out, b.as_slice());
}

/// Appends the two bytes of `n`, most significant first.
pub fn push_u16(out: &mut Vec<u8>, n: u16)
    ensures
        final(out)@ == old(out)@ + be16_bytes(n),
{
    let b = write_u16_be(n);
    append_bytes(out, b.as_slice());
}

/// Appends `n` zero bytes.
pub fn push_zeros(out: &mut Vec<u8>, n: usize)
    ensures
        final(out)@ == old(out)@ + zeros(n as nat),
{
    let mut i: usize = 0;
    while i < n
        invariant
            i <= n,
            out@ == old(out)@ + zeros(i as nat),
        decreases n - i,
    {
        out.push(0);
        i = i + 1;
        assert(out@ =~= old(out)@ + zeros(i as nat));
    }
}

/// Decoding the two bytes written for a `u16` gives the number back.
pub proof fn lemma_be16_roundtrip(n: u16)
    ensures
        be16(be16_bytes(n)) == n,
{
}

/// Decoding the four bytes written for a `u32` gives the number back.
pub proof fn lemma_be32_roundtrip(n: u32)
    ensures
        be32(be32_bytes(n)) == n,
{
}

/// Decoding the eight bytes written for a `u64` gives the number back.
pub proof fn lemma_be64_roundtrip(n: u64)
    ensures
        be64(be64_bytes(n)) == n,
{
    let hi = (n / 0x1_0000_0000) as u32;
    let lo = (n % 0x1_0000_0000) as u32;
    lemma_be32_roundtrip(hi);
    lemma_be32_roundtrip(lo);
    assert(be64_bytes(n).subrange(4, 8) =~= be32_bytes(lo));
}

/// A big-endian number depends on its first four bytes only.
pub proof fn lemma_be32_range(b: Seq<u8>)
    requires
        b.len() >= 4,
    ensures
        be32(b) == be32(b.subrange(0, 4)),
{
}

} // verus!
