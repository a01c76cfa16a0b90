use vstd::prelude::*;
use vstd::arithmetic::div_mod::lemma_div_denominator;

verus! {

/// The two little-endian bytes of a 16-bit value.
pub open spec fn le16(v: int) -> Seq<u8> {
    seq![(v % 256) as u8, ((v / 256) % 256) as u8]
}

/// The four little-endian bytes of a 32-bit value.
pub open spec fn le32(v: int) -> Seq<u8> {
    seq![
        (v % 256) as u8,
        ((v / 256) % 256) as u8,
        ((v / 65536) % 256) as u8,
        ((v / 16777216) % 256) as u8,
    ]
}

/// The four big-endian bytes of a 32-bit value.
pub open spec fn be32(v: int) -> Seq<u8> {
    seq![
        ((v / 16777216) % 256) as u8,
        ((v / 65536) % 256) as u8,
        ((v / 256) % 256) as u8,
        (v % 256) as u8,
    ]
}

/// The 32-bit value stored little-endian at `pos`.
pub open spec fn read_le32(s: Seq<u8>, pos: int) -> int {
    s[pos] + 256 * s[pos + 1] + 65536 * s[pos + 2] + 16777216 * s[pos + 3]
}

/// The 32-bit value stored big-endian at `pos`.
pub open spec fn read_be32(s: Seq<u8>, pos: int) -> int {
    16777216 * s[pos] + 65536 * s[pos + 1] + 256 * s[pos + 2] + s[pos + 3]
}

/// The base-256 digits of a 32-bit value recompose to the value itself.
pub proof fn lemma_base256_digits(v: int)
    requires
        0 <= v < 0x1_0000_0000,
    ensures
        v == (v % 256) + 256 * ((v / 256) % 256) + 65536 * ((v / 65536) % 256)
            + 16777216 * ((v / 16777216) % 256),
{
    lemma_div_denominator(v, 256, 256);
    lemma_div_denominator(v, 65536, 256);
    assert(v / 16777216 < 256) by (nonlinear_arith)
        requires 0 <= v < 0x1_0000_0000,
    ;
    assert(v == 256 * (v / 256) + v % 256);
    assert(v / 256 == 256 * ((v / 256) / 256) + (v / 256) % 256);
    assert(v / 65536 == 256 * ((v / 65536) / 256) + (v / 65536) % 256);
}

/// Four little-endian bytes written by `le32` read back as the same value.
pub proof fn lemma_le32_roundtrip(s: Seq<u8>, pos: int, v: int)
    requires
        0 <= v < 0x1_0000_0000,
        0 <= pos,
        pos + 4 <= s.len(),
        s.subrange(pos, pos + 4) == le32(v),
    ensures
        read_le32(s, pos) == v,
{
    assert(s[pos] == le32(v)[0]);
    assert(s[pos + 1] == le32(v)[1]);
    assert(s[pos + 2] == le32(v)[2]);
    assert(s[pos + 3] == le32(v)[3]);
    lemma_base256_digits(v);
}

/// Four big-endian bytes written by `be32` read back as the same value.
pub proof fn lemma_be32_roundtrip(s: Seq<u8>, pos: int, v: int)
    requires
        0 <= v < 0x1_0000_0000,
        0 <= pos,
        pos + 4 <= s.len(),
        s.subrange(pos, pos + 4) == be32(v),
    ensures
        read_be32(s, pos) == v,
{
    assert(s[pos] == be32(v)[0]);
    assert(s[pos + 1] == be32(v)[1]);
    assert(s[pos + 2] == be32(v)[2]);
    assert(s[pos + 3] == be32(v)[3]);
    lemma_base256_digits(v);
}

/// Appends a 16-bit value in little-endian order.
pub fn push_le16(out: &mut Vec<u8>, v: u16)
    ensures
        final(out)@ == old(out)@ + le16(v as int),
{
    out.push((v % 256) as u8);
    out.push(((v / 256) % 256) as u8);
    proof {
        assert(out@ =~= old(out)@ + le16(v as int));
    }
}

/// Appends a 32-bit value in little-endian order.
pub fn push_le32(out: &mut Vec<u8>, v: u32)
    ensures
        final(out)@ == old(out)@ + le32(v as int),
{
    out.push((v % 256) as u8);
    out.push(((v / 256) % 256) as u8);
    out.push(((v / 65536) % 256) as u8);
    out.push(((v / 16777216) % 256) as u8);
    proof {
        assert(out@ =~= old(out)@ + le32(v as int));
    }
}

/// Appends a 32-bit value in big-endian order.
pub fn push_be32(out: &mut Vec<u8>, v: u32)
    ensures
        final(out)@ == old(out)@ + be32(v as int),
{
    out.push(((v / 16777216) % 256) as u8);
    out.push(((v / 65536) % 256) as u8);
    out.push(((v / 256) % 256) as u8);
    out.push((v % 256) as u8);
    proof {
        assert(out@ =~= old(out)@ + be32(v as int));
    }
}

/// Appends a whole byte sequence.
pub fn push_bytes(out: &mut Vec<u8>, bytes: &Vec<u8>)
    ensures
        final(out)@ == old(out)@ + bytes@,
{
    let mut i: usize = 0;
    while i < bytes.len()
        invariant
            i <= bytes@.len(),
            out@ == old(out)@ + bytes@.subrange(0, i as int),
        decreases bytes@.len() - i,
    {
        out.push(bytes[i]);
        i = i + 1;
        proof {
            assert(out@ =~= old(out)@ + bytes@.subrange(0, i as int));
        }
    }
    proof {
        assert(out@ =~= old(out)@ + bytes@);
    }
}

} // verus!
