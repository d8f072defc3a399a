use vstd::prelude::*;

verus! {

/// The four bytes of `n` in little-endian order.
pub open spec fn u32_le_seq(n: u32) -> Seq<u8> {
    seq![
        (n & 0xff) as u8,
        ((n >> 8) & 0xff) as u8,
        ((n >> 16) & 0xff) as u8,
        ((n >> 24) & 0xff) as u8,
    ]
}

/// The 32-bit value that four little-endian bytes encode.
pub open spec fn le_u32(b: Seq<u8>) -> u32
    recommends
        b.len() == 4,
{
    (b[0] + b[1] * 0x100 + b[2] * 0x10000 + b[3] * 0x1000000) as u32
}

/// Little-endian byte encoding of a 32-bit value.
pub fn le(num: &mut u32) -> (r: [u8; 4])
    ensures
        *final(num) == *old(num),
        r@ == u32_le_seq(*old(num)),
{
    let n = *num;
    let r: [u8; 4] = [
        (n & 0xff) as u8,
        ((n >> 8) & 0xff) as u8,
        ((n >> 16) & 0xff) as u8,
        ((n >> 24) & 0xff) as u8,
    ];
    proof {
        assert(r@ =~= u32_le_seq(n));
    }
    r
}

/// Reads a 32-bit value out of four little-endian bytes.
pub fn le_to_u32(b: &Vec<u8>) -> (n: u32)
    requires
        b@.len() == 4,
    ensures
        n == le_u32(b@),
{
    let n = b[0] as u32 | ((b[1] as u32) << 8) | ((b[2] as u32) << 16) | ((b[3] as u32) << 24);
    proof {
        let b0 = b@[0];
        let b1 = b@[1];
        let b2 = b@[2];
        let b3 = b@[3];
        assert(b0 as u32 | ((b1 as u32) << 8) | ((b2 as u32) << 16) | ((b3 as u32) << 24)
            == (b0 + b1 * 0x100 + b2 * 0x10000 + b3 * 0x1000000) as u32) by (bit_vector);
    }
    n
}

} // verus!
