//! Appending little-endian integers and byte strings to a buffer.
use vstd::prelude::*;
use vstd::bytes::{spec_u16_to_le_bytes, spec_u32_to_le_bytes, spec_u64_to_le_bytes, u16_to_le_bytes, u32_to_le_bytes, u64_to_le_bytes};

verus! {

/// Appends the two little-endian bytes of `value`.
pub fn push_u16_le(out: &mut Vec<u8>, value: u16)
    ensures
        final(out)@ == old(out)@ + spec_u16_to_le_bytes(value),
{
    let mut bytes = u16_to_le_bytes(value);
    out.append(&mut bytes);
}

/// Appends the four little-endian bytes of `value`.
pub fn push_u32_le(out: &mut Vec<u8>, value: u32)
    ensures
        final(out)@ == old(out)@ + spec_u32_to_le_bytes(value),
{
    let mut bytes = u32_to_le_bytes(value);
    out.append(&mut bytes);
}

/// Appends the eight little-endian bytes of `value`.
pub fn push_u64_le(out: &mut Vec<u8>, value: u64)
    ensures
        final(out)@ == old(out)@ + spec_u64_to_le_bytes(value),
{
    let mut bytes = u64_to_le_bytes(value);
    out.append(&mut bytes);
}

/// The eight little-endian two's-complement bytes of `value`.
pub open spec fn spec_i64_to_le_bytes(value: i64) -> Seq<u8> {
    spec_u64_to_le_bytes(value as u64)
}

/// Appends the eight little-endian two's-complement bytes of `value`.
pub fn push_i64_le(out: &mut Vec<u8>, value: i64)
    ensures
        final(out)@ == old(out)@ + spec_i64_to_le_bytes(value),
{
    push_u64_le(out, value as u64);
}

/// Appends `data`.
pub fn push_bytes(out: &mut Vec<u8>, data: &[u8])
    ensures
        final(out)@ == old(out)@ + data@,
{
    let ghost start = out@;
    let mut i: usize = 0;
    while i < data.len()
        invariant
            i <= data.len(),
            out@ == start + data@.take(i as int),
        decreases data.len() - i,
    {
        out.push(data[i]);
        assert(data@.take(i as int + 1) == data@.take(i as int).push(data@[i as int]));
        i = i + 1;
    }
    assert(data@.take(i as int) == data@);
}

/// The little-endian encodings have the width of their type, and decoding
/// them gives the value back.
pub proof fn lemma_le_round_trip(a: u16, b: u32, c: u64)
    ensures
        spec_u16_to_le_bytes(a).len() == 2,
        vstd::bytes::spec_u16_from_le_bytes(spec_u16_to_le_bytes(a)) == a,
        spec_u32_to_le_bytes(b).len() == 4,
        vstd::bytes::spec_u32_from_le_bytes(spec_u32_to_le_bytes(b)) == b,
        spec_u64_to_le_bytes(c).len() == 8,
        vstd::bytes::spec_u64_from_le_bytes(spec_u64_to_le_bytes(c)) == c,
{
    vstd::bytes::lemma_auto_spec_u16_to_from_le_bytes();
    vstd::bytes::lemma_auto_spec_u32_to_from_le_bytes();
    vstd::bytes::lemma_auto_spec_u64_to_from_le_bytes();
}

} // verus!
