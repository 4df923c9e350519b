//! Big-endian integer fields as they appear on the wire: readers over a byte
//! buffer, writers used when building a datagram, and the round-trip facts
//! connecting them.

use vstd::prelude::*;

verus! {

/// The value of two octets read big-endian.
pub open spec fn spec_be16(b0: u8, b1: u8) -> int {
    b0 * 0x100 + b1
}

/// The value of four octets read big-endian.
pub open spec fn spec_be32(b0: u8, b1: u8, b2: u8, b3: u8) -> int {
    b0 * 0x1000000 + b1 * 0x10000 + b2 * 0x100 + b3
}

/// The value of six octets read big-endian (a MAC address, zero-extended).
pub open spec fn spec_be48(b0: u8, b1: u8, b2: u8, b3: u8, b4: u8, b5: u8) -> int {
    b0 * 0x10000000000 + b1 * 0x100000000 + b2 * 0x1000000 + b3 * 0x10000 + b4 * 0x100 + b5
}

/// The value of eight octets read big-endian.
pub open spec fn spec_be64(
    b0: u8,
    b1: u8,
    b2: u8,
    b3: u8,
    b4: u8,
    b5: u8,
    b6: u8,
    b7: u8,
) -> int {
    b0 * 0x100000000000000 + b1 * 0x1000000000000 + b2 * 0x10000000000 + b3 * 0x100000000 + b4
        * 0x1000000 + b5 * 0x10000 + b6 * 0x100 + b7
}

/// The big-endian u16 at `pos` in a buffer, as a spec value.
pub open spec fn spec_be16_at(s: Seq<u8>, pos: int) -> int {
    spec_be16(s[pos], s[pos + 1])
}

/// The big-endian u32 at `pos` in a buffer, as a spec value.
pub open spec fn spec_be32_at(s: Seq<u8>, pos: int) -> int {
    spec_be32(s[pos], s[pos + 1], s[pos + 2], s[pos + 3])
}

/// The big-endian u48 at `pos` in a buffer, as a spec value.
pub open spec fn spec_be48_at(s: Seq<u8>, pos: int) -> int {
    spec_be48(s[pos], s[pos + 1], s[pos + 2], s[pos + 3], s[pos + 4], s[pos + 5])
}

/// The big-endian u64 at `pos` in a buffer, as a spec value.
pub open spec fn spec_be64_at(s: Seq<u8>, pos: int) -> int {
    spec_be64(
        s[pos],
        s[pos + 1],
        s[pos + 2],
        s[pos + 3],
        s[pos + 4],
        s[pos + 5],
        s[pos + 6],
        s[pos + 7],
    )
}

/// Reads the big-endian u16 at `pos`.
pub fn be_u16_at(buf: &Vec<u8>, pos: usize) -> (r: u16)
    requires
        pos + 2 <= buf.len(),
    ensures
        r == spec_be16_at(buf@, pos as int),
{
    (buf[pos] as u16) * 0x100 + (buf[pos + 1] as u16)
}

/// Reads the big-endian u32 at `pos`.
pub fn be_u32_at(buf: &Vec<u8>, pos: usize) -> (r: u32)
    requires
        pos + 4 <= buf.len(),
    ensures
        r == spec_be32_at(buf@, pos as int),
{
    (buf[pos] as u32) * 0x1000000 + (buf[pos + 1] as u32) * 0x10000 + (buf[pos + 2] as u32) * 0x100
        + (buf[pos + 3] as u32)
}

/// Reads the big-endian 6-octet value at `pos`, zero-extended to u64.
pub fn be_u48_at(buf: &Vec<u8>, pos: usize) -> (r: u64)
    requires
        pos + 6 <= buf.len(),
    ensures
        r == spec_be48_at(buf@, pos as int),
        r < 0x1000000000000,
{
    (buf[pos] as u64) * 0x10000000000 + (buf[pos + 1] as u64) * 0x100000000 + (buf[pos + 2] as u64)
        * 0x1000000 + (buf[pos + 3] as u64) * 0x10000 + (buf[pos + 4] as u64) * 0x100 + (buf[pos
        + 5] as u64)
}

/// Reads the big-endian u64 at `pos`.
pub fn be_u64_at(buf: &Vec<u8>, pos: usize) -> (r: u64)
    requires
        pos + 8 <= buf.len(),
    ensures
        r == spec_be64_at(buf@, pos as int),
{
    (buf[pos] as u64) * 0x100000000000000 + (buf[pos + 1] as u64) * 0x1000000000000 + (buf[pos + 2]
        as u64) * 0x10000000000 + (buf[pos + 3] as u64) * 0x100000000 + (buf[pos + 4] as u64)
        * 0x1000000 + (buf[pos + 5] as u64) * 0x10000 + (buf[pos + 6] as u64) * 0x100 + (buf[pos
        + 7] as u64)
}

/// The two big-endian octets of a u16.
pub open spec fn spec_be16_bytes(x: u16) -> Seq<u8> {
    seq![(x / 0x100) as u8, (x % 0x100) as u8]
}

/// The four big-endian octets of a u32.
pub open spec fn spec_be32_bytes(x: u32) -> Seq<u8> {
    seq![
        (x / 0x1000000) as u8,
        ((x / 0x10000) % 0x100) as u8,
        ((x / 0x100) % 0x100) as u8,
        (x % 0x100) as u8,
    ]
}

/// The six big-endian octets of the low 48 bits of a u64.
pub open spec fn spec_be48_bytes(x: u64) -> Seq<u8> {
    seq![
        ((x / 0x10000000000) % 0x100) as u8,
        ((x / 0x100000000) % 0x100) as u8,
        ((x / 0x1000000) % 0x100) as u8,
        ((x / 0x10000) % 0x100) as u8,
        ((x / 0x100) % 0x100) as u8,
        (x % 0x100) as u8,
    ]
}

/// The eight big-endian octets of a u64.
pub open spec fn spec_be64_bytes(x: u64) -> Seq<u8> {
    seq![
        (x / 0x100000000000000) as u8,
        ((x / 0x1000000000000) % 0x100) as u8,
        ((x / 0x10000000000) % 0x100) as u8,
        ((x / 0x100000000) % 0x100) as u8,
        ((x / 0x1000000) % 0x100) as u8,
        ((x / 0x10000) % 0x100) as u8,
        ((x / 0x100) % 0x100) as u8,
        (x % 0x100) as u8,
    ]
}

/// Reading back the two octets written for a u16 yields the u16.
pub proof fn lemma_be16_roundtrip(x: u16)
    by (bit_vector)
    ensures
        spec_be16((x / 0x100) as u8, (x % 0x100) as u8) == x,
{
}

/// Reading back the four octets written for a u32 yields the u32.
pub proof fn lemma_be32_roundtrip(x: u32)
    by (bit_vector)
    ensures
        spec_be32(
            (x / 0x1000000) as u8,
            ((x / 0x10000) % 0x100) as u8,
            ((x / 0x100) % 0x100) as u8,
            (x % 0x100) as u8,
        ) == x,
{
}

/// Reading back the six octets written for a 48-bit value yields the value.
pub proof fn lemma_be48_roundtrip(x: u64)
    by (bit_vector)
    requires
        x < 0x1000000000000,
    ensures
        spec_be48(
            ((x / 0x10000000000) % 0x100) as u8,
            ((x / 0x100000000) % 0x100) as u8,
            ((x / 0x1000000) % 0x100) as u8,
            ((x / 0x10000) % 0x100) as u8,
            ((x / 0x100) % 0x100) as u8,
            (x % 0x100) as u8,
        ) == x,
{
}

/// Reading back the eight octets written for a u64 yields the u64.
pub proof fn lemma_be64_roundtrip(x: u64)
    by (bit_vector)
    ensures
        spec_be64(
            (x / 0x100000000000000) as u8,
            ((x / 0x1000000000000) % 0x100) as u8,
            ((x / 0x10000000000) % 0x100) as u8,
            ((x / 0x100000000) % 0x100) as u8,
            ((x / 0x1000000) % 0x100) as u8,
            ((x / 0x10000) % 0x100) as u8,
            ((x / 0x100) % 0x100) as u8,
            (x % 0x100) as u8,
        ) == x,
{
}

/// Appends the two big-endian octets of `x`.
pub fn push_be_u16(out: &mut Vec<u8>, x: u16)
    ensures
        final(out)@ == old(out)@ + spec_be16_bytes(x),
{
    out.push((x / 0x100) as u8);
    out.push((x % 0x100) as u8);
    proof {
        assert(final(out)@ =~= old(out)@ + spec_be16_bytes(x));
    }
}

/// Appends the four big-endian octets of `x`.
pub fn push_be_u32(out: &mut Vec<u8>, x: u32)
    ensures
        final(out)@ == old(out)@ + spec_be32_bytes(x),
{
    out.push((x / 0x1000000) as u8);
    out.push(((x / 0x10000) % 0x100) as u8);
    out.push(((x / 0x100) % 0x100) as u8);
    out.push((x % 0x100) as u8);
    proof {
        assert(final(out)@ =~= old(out)@ + spec_be32_bytes(x));
    }
}

/// Appends the six big-endian octets of the low 48 bits of `x`.
pub fn push_be_u48(out: &mut Vec<u8>, x: u64)
    ensures
        final(out)@ == old(out)@ + spec_be48_bytes(x),
{
    out.push(((x / 0x10000000000) % 0x100) as u8);
    out.push(((x / 0x100000000) % 0x100) as u8);
    out.push(((x / 0x1000000) % 0x100) as u8);
    out.push(((x / 0x10000) % 0x100) as u8);
    out.push(((x / 0x100) % 0x100) as u8);
    out.push((x % 0x100) as u8);
    proof {
        assert(final(out)@ =~= old(out)@ + spec_be48_bytes(x));
    }
}

/// Appends the eight big-endian octets of `x`.
pub fn push_be_u64(out: &mut Vec<u8>, x: u64)
    ensures
        final(out)@ == old(out)@ + spec_be64_bytes(x),
{
    out.push((x / 0x100000000000000) as u8);
    out.push(((x / 0x1000000000000) % 0x100) as u8);
    out.push(((x / 0x10000000000) % 0x100) as u8);
    out.push(((x / 0x100000000) % 0x100) as u8);
    out.push(((x / 0x1000000) % 0x100) as u8);
    out.push(((x / 0x10000) % 0x100) as u8);
    out.push(((x / 0x100) % 0x100) as u8);
    out.push((x % 0x100) as u8);
    proof {
        assert(final(out)@ =~= old(out)@ + spec_be64_bytes(x));
    }
}

} // verus!
