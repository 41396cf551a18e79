use vstd::prelude::*;

verus! {

/// The byte each store's file is XOR-ed with: anonymous codes.
pub const ANON_STORE_MASK: u8 = 0xAA;

/// The byte each store's file is XOR-ed with: the broadcast list.
pub const BROADCAST_STORE_MASK: u8 = 0xCC;

/// The byte each store's file is XOR-ed with: the block lists.
pub const BLOCK_STORE_MASK: u8 = 0xBB;

/// Every byte of `data` XOR-ed with `mask`.
pub open spec fn spec_xor_mask(data: Seq<u8>, mask: u8) -> Seq<u8> {
    Seq::new(data.len(), |i: int| data[i] ^ mask)
}

/// XORs every byte of `data` with `mask`: the obfuscation applied to a
/// store's serialized bytes before they are written, and again after they
/// are read.
pub fn xor_mask(data: &[u8], mask: u8) -> (out: Vec<u8>)
    ensures
        out@ == spec_xor_mask(data@, mask),
{
    let mut out: Vec<u8> = Vec::with_capacity(data.len());
    let mut i: usize = 0;
    while i < data.len()
        invariant
            i <= data.len(),
            out@ == spec_xor_mask(data@.subrange(0, i as int), mask),
        decreases data.len() - i,
    {
        out.push(data[i] ^ mask);
        i = i + 1;
        assert(out@ =~= spec_xor_mask(data@.subrange(0, i as int), mask));
    }
    assert(data@.subrange(0, data.len() as int) =~= data@);
    out
}

/// Masking twice with the same byte gives back the original bytes, so a
/// store read back from its file is the store that was written.
pub proof fn lemma_xor_mask_involution(data: Seq<u8>, mask: u8)
    ensures
        spec_xor_mask(spec_xor_mask(data, mask), mask) == data,
{
    assert forall|i: int| 0 <= i < data.len() implies #[trigger] spec_xor_mask(
        spec_xor_mask(data, mask),
        mask,
    )[i] == data[i] by {
        let b = data[i];
        assert((b ^ mask) ^ mask == b) by (bit_vector);
    }
    assert(spec_xor_mask(spec_xor_mask(data, mask), mask) =~= data);
}

} // verus!
