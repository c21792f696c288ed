//! CRC-8 of frame payloads.
use vstd::prelude::*;

verus! {

/// Reflected generator polynomial.
pub const CRC_POLY: u8 = 0xB2;

/// One shift of the checksum register: the low bit falls out and, when it was
/// set, the polynomial is folded in.
pub open spec fn crc_shift(crc: u8) -> u8 {
    if crc & 1 == 1 {
        (crc >> 1) ^ CRC_POLY
    } else {
        crc >> 1
    }
}

/// `n` shifts of the checksum register.
pub open spec fn crc_shifts(crc: u8, n: nat) -> u8
    decreases n,
{
    if n == 0 {
        crc
    } else {
        crc_shift(crc_shifts(crc, (n - 1) as nat))
    }
}

/// The checksum register after `bytes`, starting from zero: each byte is
/// folded in and shifted out bit by bit.
pub open spec fn crc_register(bytes: Seq<u8>) -> u8
    decreases bytes.len(),
{
    if bytes.len() == 0 {
        0
    } else {
        crc_shifts(crc_register(bytes.drop_last()) ^ bytes.last(), 8)
    }
}

/// CRC-8 of `bytes`: the final register with every bit inverted.
pub open spec fn spec_crc8(bytes: Seq<u8>) -> u8 {
    crc_register(bytes) ^ 0xFF
}

/// CRC-8 over `data`: initial value 0, reflected polynomial `0xB2`, final
/// inversion.
pub fn crc8(data: &[u8]) -> (crc: u8)
    ensures
        crc == spec_crc8(data@),
{
    let mut crc: u8 = 0;
    let mut i: usize = 0;
    while i < data.len()
        invariant
            i <= data@.len(),
            crc == crc_register(data@.take(i as int)),
        decreases data@.len() - i,
    {
        proof {
            assert(data@.take(i + 1).drop_last() =~= data@.take(i as int));
        }
        let start: u8 = crc ^ data[i];
        let mut cur: u8 = start;
        let mut bit: u8 = 0;
        while bit < 8
            invariant
                bit <= 8,
                cur == crc_shifts(start, bit as nat),
            decreases 8 - bit,
        {
            if cur & 1 == 1 {
                cur = (cur >> 1) ^ CRC_POLY;
            } else {
                cur = cur >> 1;
            }
            bit = bit + 1;
        }
        crc = cur;
        i = i + 1;
    }
    proof {
        assert(data@.take(i as int) =~= data@);
    }
    crc ^ 0xFF
}

/// One byte more changes the checksum by one fixed step, whatever came before and
/// however long it was. The step is linear: with `x` the byte folded into the inverted
/// checksum, every bit of `x` adds its own constant, the remainder of that bit under
/// the polynomial. Without bytes the checksum is `0xFF`.
pub proof fn law_crc_goes_on(bytes: Seq<u8>, b: u8)
    ensures
        spec_crc8(Seq::<u8>::empty()) == 0xFFu8,
        ({
            let x = (spec_crc8(bytes) ^ 0xFF) ^ b;
            spec_crc8(bytes.push(b)) ^ 0xFF == (if x & 0x01 != 0 {
                    0x3eu8
                } else {
                    0u8
                }) ^ (if x & 0x02 != 0 {
                    0x7cu8
                } else {
                    0u8
                }) ^ (if x & 0x04 != 0 {
                    0xf8u8
                } else {
                    0u8
                }) ^ (if x & 0x08 != 0 {
                    0x95u8
                } else {
                    0u8
                }) ^ (if x & 0x10 != 0 {
                    0x4fu8
                } else {
                    0u8
                }) ^ (if x & 0x20 != 0 {
                    0x9eu8
                } else {
                    0u8
                }) ^ (if x & 0x40 != 0 {
                    0x59u8
                } else {
                    0u8
                }) ^ (if x & 0x80 != 0 {
                    0xb2u8
                } else {
                    0u8
                })
        }),
        spec_crc8(bytes.push(b)) == crc_shifts((spec_crc8(bytes) ^ 0xFF) ^ b, 8) ^ 0xFF,
{
    assert(bytes.push(b).drop_last() =~= bytes);
    let r = crc_register(bytes);
    assert((r ^ 0xFF) ^ 0xFF == r) by (bit_vector);
    assert(0u8 ^ 0xFFu8 == 0xFFu8) by (bit_vector);
    let x = (spec_crc8(bytes) ^ 0xFF) ^ b;
    let y = crc_shifts(x, 8);
    assert((y ^ 0xFF) ^ 0xFF == y) by (bit_vector);
    lemma_crc_shifts(x);
}

/// Eight shifts, bit by bit of the start.
proof fn lemma_crc_shifts(x: u8)
    ensures
        crc_shifts(x, 8) == (if x & 0x01 != 0 {
                    0x3eu8
                } else {
                    0u8
                }) ^ (if x & 0x02 != 0 {
                    0x7cu8
                } else {
                    0u8
                }) ^ (if x & 0x04 != 0 {
                    0xf8u8
                } else {
                    0u8
                }) ^ (if x & 0x08 != 0 {
                    0x95u8
                } else {
                    0u8
                }) ^ (if x & 0x10 != 0 {
                    0x4fu8
                } else {
                    0u8
                }) ^ (if x & 0x20 != 0 {
                    0x9eu8
                } else {
                    0u8
                }) ^ (if x & 0x40 != 0 {
                    0x59u8
                } else {
                    0u8
                }) ^ (if x & 0x80 != 0 {
                    0xb2u8
                } else {
                    0u8
                }),
{
    reveal_with_fuel(crc_shifts, 9);
    assert(crc_shift(crc_shift(crc_shift(crc_shift(crc_shift(crc_shift(crc_shift(crc_shift(x))))))))
        == (if x & 0x01 != 0 {
                    0x3eu8
                } else {
                    0u8
                }) ^ (if x & 0x02 != 0 {
                    0x7cu8
                } else {
                    0u8
                }) ^ (if x & 0x04 != 0 {
                    0xf8u8
                } else {
                    0u8
                }) ^ (if x & 0x08 != 0 {
                    0x95u8
                } else {
                    0u8
                }) ^ (if x & 0x10 != 0 {
                    0x4fu8
                } else {
                    0u8
                }) ^ (if x & 0x20 != 0 {
                    0x9eu8
                } else {
                    0u8
                }) ^ (if x & 0x40 != 0 {
                    0x59u8
                } else {
                    0u8
                }) ^ (if x & 0x80 != 0 {
                    0xb2u8
                } else {
                    0u8
                })) by (bit_vector);
}

/// A checksum tells the last byte: two texts that differ in it alone have different
/// checksums, and so do two texts of the same end whose beginnings have different
/// checksums.
pub proof fn law_crc_tells_apart(a: Seq<u8>, b: Seq<u8>, x: u8, y: u8)
    requires
        spec_crc8(a) == spec_crc8(b) ==> x != y,
        spec_crc8(a) == spec_crc8(b) || x == y,
    ensures
        spec_crc8(a.push(x)) != spec_crc8(b.push(y)),
{
    law_crc_goes_on(a, x);
    law_crc_goes_on(b, y);
    let p = spec_crc8(a);
    let q = spec_crc8(b);
    let u = (p ^ 0xFF) ^ x;
    let v = (q ^ 0xFF) ^ y;
    assert((p ^ 0xFF) ^ x != (q ^ 0xFF) ^ y) by (bit_vector)
        requires
            p == q ==> x != y,
            p == q || x == y,
    ;
    lemma_crc_shifts_differ(u, v);
    let c = crc_shifts(u, 8);
    let d = crc_shifts(v, 8);
    assert(c ^ 0xFF != d ^ 0xFF) by (bit_vector)
        requires
            c != d,
    ;
}

/// Eight shifts of different registers end in different registers.
proof fn lemma_crc_shifts_differ(u: u8, v: u8)
    requires
        u != v,
    ensures
        crc_shifts(u, 8) != crc_shifts(v, 8),
{
    reveal_with_fuel(crc_shifts, 9);
    assert(crc_shift(crc_shift(crc_shift(crc_shift(crc_shift(crc_shift(crc_shift(crc_shift(u))))))))
        != crc_shift(crc_shift(crc_shift(crc_shift(crc_shift(crc_shift(crc_shift(crc_shift(v)))))))))
        by (bit_vector)
        requires
            u != v,
    ;
}

} // verus!
