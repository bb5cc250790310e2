//! The packaged-asset transform: puzzle source text is stored with the bit
//! order of every byte reversed, and a loader must undo that before parsing
//! word records.

use vstd::prelude::*;

verus! {

/// The byte with its eight bits in the opposite order.
pub open spec fn spec_reverse_bits(b: u8) -> u8 {
    ((b & 0x01) << 7) | ((b & 0x02) << 5) | ((b & 0x04) << 3) | ((b & 0x08) << 1)
        | ((b & 0x10) >> 1) | ((b & 0x20) >> 3) | ((b & 0x40) >> 5) | ((b & 0x80) >> 7)
}

/// Bit `i` of the reversed byte is bit `7 - i` of the original.
pub proof fn lemma_reverse_bits_mirrors(b: u8, i: u8)
    requires
        i < 8,
    ensures
        (spec_reverse_bits(b) >> i) & 1 == (b >> ((7 - i) as u8)) & 1,
{
    let r = spec_reverse_bits(b);
    assert((r >> i) & 1 == (b >> ((7 - i) as u8)) & 1) by (bit_vector)
        requires
            i < 8,
            r == ((b & 0x01) << 7) | ((b & 0x02) << 5) | ((b & 0x04) << 3) | ((b & 0x08) << 1)
                | ((b & 0x10) >> 1) | ((b & 0x20) >> 3) | ((b & 0x40) >> 5) | ((b & 0x80) >> 7);
}

/// Reversing twice gives the original byte back: the decode undoes the
/// packaging transform exactly.
pub proof fn lemma_reverse_bits_involution(b: u8)
    ensures
        spec_reverse_bits(spec_reverse_bits(b)) == b,
{
    let r = spec_reverse_bits(b);
    assert(((r & 0x01) << 7) | ((r & 0x02) << 5) | ((r & 0x04) << 3) | ((r & 0x08) << 1)
        | ((r & 0x10) >> 1) | ((r & 0x20) >> 3) | ((r & 0x40) >> 5) | ((r & 0x80) >> 7) == b)
        by (bit_vector)
        requires
            r == ((b & 0x01) << 7) | ((b & 0x02) << 5) | ((b & 0x04) << 3) | ((b & 0x08) << 1)
                | ((b & 0x10) >> 1) | ((b & 0x20) >> 3) | ((b & 0x40) >> 5) | ((b & 0x80) >> 7);
}

/// Reverses the bit order of one byte.
pub fn reverse_bits(b: u8) -> (r: u8)
    ensures
        r == spec_reverse_bits(b),
{
    ((b & 0x01) << 7) | ((b & 0x02) << 5) | ((b & 0x04) << 3) | ((b & 0x08) << 1)
        | ((b & 0x10) >> 1) | ((b & 0x20) >> 3) | ((b & 0x40) >> 5) | ((b & 0x80) >> 7)
}

/// Undoes the asset transform: reverses the bit order of every byte.
pub fn decode_asset(bytes: &Vec<u8>) -> (r: Vec<u8>)
    ensures
        r@.len() == bytes@.len(),
        forall|k: int| 0 <= k < r@.len() ==> #[trigger] r@[k] == spec_reverse_bits(bytes@[k]),
{
    let mut r: Vec<u8> = Vec::new();
    let mut k: usize = 0;
    while k < bytes.len()
        invariant
            0 <= k <= bytes@.len(),
            r@.len() == k,
            forall|j: int| 0 <= j < k ==> #[trigger] r@[j] == spec_reverse_bits(bytes@[j]),
        decreases bytes@.len() - k,
    {
        r.push(reverse_bits(bytes[k]));
        k += 1;
    }
    r
}

} // verus!
