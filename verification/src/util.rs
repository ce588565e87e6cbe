//! Nibble and byte helpers for taking a 16-bit instruction word apart
//! and putting addresses and immediates back together.

use vstd::prelude::*;

verus! {

/// The 4-bit slice of `x` whose least significant bit sits at bit `num`.
pub fn get_octet(x: u16, num: u16) -> (r: u8)
    requires
        num <= 12,
    ensures
        r == (x >> num) & 0xf,
        r < 0x10,
{
    proof {
        assert(((x & (0xfu16 << num)) >> num) == ((x >> num) & 0xf) && ((x >> num) & 0xf) < 0x10)
            by (bit_vector)
            requires
                num <= 12,
        ;
    }
    ((x & (0xf << num)) >> num) as u8
}

/// Splits an instruction word into its four nibbles, most significant first.
pub fn to_octets(x: u16) -> (r: (u8, u8, u8, u8))
    ensures
        r.0 == (x >> 12) & 0xf,
        r.1 == (x >> 8) & 0xf,
        r.2 == (x >> 4) & 0xf,
        r.3 == x & 0xf,
        r.0 < 0x10 && r.1 < 0x10 && r.2 < 0x10 && r.3 < 0x10,
{
    let oct0 = get_octet(x, 0);
    let oct1 = get_octet(x, 4);
    let oct2 = get_octet(x, 8);
    let oct3 = get_octet(x, 12);
    proof {
        assert((x >> 0) & 0xf == x & 0xf) by (bit_vector);
    }
    (oct3, oct2, oct1, oct0)
}

/// Builds a 12-bit address from three nibbles, most significant first.
pub fn to_addr(octs: (u8, u8, u8)) -> (r: u16)
    requires
        octs.0 < 0x10,
        octs.1 < 0x10,
        octs.2 < 0x10,
    ensures
        r == octs.0 * 0x100 + octs.1 * 0x10 + octs.2,
        r < 0x1000,
{
    let (oct0, oct1, oct2) = octs;
    let r = (oct0 as u16) << 8 | (oct1 as u16) << 4 | (oct2 as u16);
    proof {
        assert((oct0 as u16) << 8 | (oct1 as u16) << 4 | (oct2 as u16)
            == oct0 * 0x100 + oct1 * 0x10 + oct2)
            by (bit_vector)
            requires
                oct0 < 0x10 && oct1 < 0x10 && oct2 < 0x10,
        ;
    }
    r
}

/// Builds a 16-bit opcode identifier from four nibbles, most significant first.
pub fn to_id(octs: (u8, u8, u8, u8)) -> (r: u16)
    requires
        octs.0 < 0x10,
        octs.1 < 0x10,
        octs.2 < 0x10,
        octs.3 < 0x10,
    ensures
        r == octs.0 * 0x1000 + octs.1 * 0x100 + octs.2 * 0x10 + octs.3,
{
    let (oct0, oct1, oct2, oct3) = octs;
    let r = (oct0 as u16) << 12 | (oct1 as u16) << 8 | (oct2 as u16) << 4 | (oct3 as u16);
    proof {
        assert((oct0 as u16) << 12 | (oct1 as u16) << 8 | (oct2 as u16) << 4 | (oct3 as u16)
            == oct0 * 0x1000 + oct1 * 0x100 + oct2 * 0x10 + oct3)
            by (bit_vector)
            requires
                oct0 < 0x10 && oct1 < 0x10 && oct2 < 0x10 && oct3 < 0x10,
        ;
    }
    r
}

/// Builds a byte immediate from two nibbles, most significant first.
pub fn to_u8(octs: (u8, u8)) -> (r: u8)
    requires
        octs.0 < 0x10,
        octs.1 < 0x10,
    ensures
        r == octs.0 * 0x10 + octs.1,
{
    let (oct0, oct1) = octs;
    let r = (oct0 << 4) | oct1;
    proof {
        assert((oct0 << 4) | oct1 == oct0 * 0x10 + oct1)
            by (bit_vector)
            requires
                oct0 < 0x10 && oct1 < 0x10,
        ;
    }
    r
}

/// True when bit `nth` of `x` is set, counting the most significant bit
/// as bit 0 (the order in which a display row's pixels are laid out).
pub fn test_nth_bit(x: u8, nth: u8) -> (r: bool)
    requires
        nth < 8,
    ensures
        r == ((x >> (7 - nth)) & 1 == 1),
{
    proof {
        assert(((x & (1u8 << ((7 - nth) as u8))) != 0) == ((x >> ((7 - nth) as u8)) & 1 == 1))
            by (bit_vector)
            requires
                nth < 8,
        ;
    }
    (x & (1 << (7 - nth))) != 0
}

} // verus!
