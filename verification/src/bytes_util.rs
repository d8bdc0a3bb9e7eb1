//! Small byte-level helpers shared by the framing and the offload code.

use vstd::prelude::*;

verus! {

/// The big-endian encoding of a 32-bit number.
pub open spec fn be32(code: u32) -> Seq<u8> {
    seq![
        (code / 0x100_0000) as u8,
        ((code / 0x1_0000) % 0x100) as u8,
        ((code / 0x100) % 0x100) as u8,
        (code % 0x100) as u8,
    ]
}

/// The big-endian encoding of a 16-bit number.
pub open spec fn be16(value: u16) -> Seq<u8> {
    seq![(value / 0x100) as u8, (value % 0x100) as u8]
}

/// The 16-bit number whose big-endian encoding is `hi`, `lo`.
pub open spec fn from_be16(hi: u8, lo: u8) -> u16 {
    (hi * 0x100 + lo) as u16
}

/// Encodes `code` in network byte order.
pub fn to_be32(code: u32) -> (r: [u8; 4])
    ensures
        r@ == be32(code),
{
    let b0: u8 = (code / 0x100_0000) as u8;
    let b1: u8 = ((code / 0x1_0000) % 0x100) as u8;
    let b2: u8 = ((code / 0x100) % 0x100) as u8;
    let b3: u8 = (code % 0x100) as u8;
    let r = [b0, b1, b2, b3];
    assert(r@ =~= be32(code));
    r
}

/// Reads the 16-bit big-endian number at `at`.
pub fn read_be16(bytes: &[u8], at: usize) -> (r: u16)
    requires
        at + 1 < bytes@.len(),
    ensures
        r == from_be16(bytes@[at as int], bytes@[at + 1]),
{
    let hi: u16 = bytes[at] as u16;
    let lo: u16 = bytes[at + 1] as u16;
    hi * 0x100 + lo
}

/// Splits a 16-bit number into the two bytes of its big-endian encoding.
pub fn to_be16(value: u16) -> (r: (u8, u8))
    ensures
        r.0 == be16(value)[0],
        r.1 == be16(value)[1],
        from_be16(r.0, r.1) == value,
{
    ((value / 0x100) as u8, (value % 0x100) as u8)
}

/// Appends every byte of `src` to `dst`.
pub fn append(dst: &mut Vec<u8>, src: &[u8])
    ensures
        final(dst)@ == old(dst)@ + src@,
{
    let mut i: usize = 0;
    while i < src.len()
        invariant
            i <= src.len(),
            dst@ == old(dst)@ + src@.subrange(0, i as int),
        decreases src.len() - i,
    {
        dst.push(src[i]);
        i += 1;
    }
    assert(src@.subrange(0, src.len() as int) =~= src@);
}

/// Appends the bytes of `src` from index `from` up to, not including, `to`.
pub fn append_range(dst: &mut Vec<u8>, src: &[u8], from: usize, to: usize)
    requires
        from <= to <= src.len(),
    ensures
        final(dst)@ == old(dst)@ + src@.subrange(from as int, to as int),
{
    let mut i: usize = from;
    while i < to
        invariant
            from <= i <= to <= src.len(),
            dst@ == old(dst)@ + src@.subrange(from as int, i as int),
        decreases to - i,
    {
        dst.push(src[i]);
        i += 1;
    }
}

} // verus!
