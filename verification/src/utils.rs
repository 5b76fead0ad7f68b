use vstd::prelude::*;
use vstd::arithmetic::power2::pow2;
use vstd::bits::lemma_u8_shr_is_div;

verus! {

/// `16^k` for the nibble positions of a 16-bit opcode.
pub open spec fn pow16(k: nat) -> nat
    decreases k,
{
    if k == 0 {
        1
    } else {
        16 * pow16((k - 1) as nat)
    }
}

/// The value of `length` consecutive nibbles of `value`, the lowest of them
/// `position` nibbles from the right.
pub open spec fn nibble_field(value: u16, position: nat, length: nat) -> nat {
    ((value as nat) / pow16(position)) % pow16(length)
}

/// Extracts `length` nibbles from `opcode`, starting `position` nibbles from the right (LSB).
///
/// e.g. `extract_nibbles(0xABCD, 2, 1)` returns `0xB` (the third nibble from the right).
pub fn extract_nibbles(opcode: u16, position: u8, length: u8) -> (r: u16)
    requires
        position <= 3,
        length <= 3,
    ensures
        r as nat == nibble_field(opcode, position as nat, length as nat),
{
    proof {
        reveal_with_fuel(pow16, 4);
        lemma_shift_nibbles(opcode);
    }
    let shifted: u16 = opcode >> (4 * position);
    proof {
        lemma_mask_nibbles(shifted);
    }
    let mask: u16 = (1u16 << (4 * length)) - 1;
    shifted & mask
}

/// Bit `position` of `number`, counting from the least significant bit.
pub open spec fn bit_of(number: u8, position: nat) -> nat {
    ((number as nat) / pow2(position)) % 2
}

/// Extracts bit from number in `position`, counting from LSB
pub fn extract_bit(number: u8, position: u8) -> (r: u8)
    requires
        position < 8,
    ensures
        r as nat == bit_of(number, position as nat),
{
    proof {
        lemma_u8_shr_is_div(number, position);
        let shifted: u8 = number >> position;
        assert((number & (1u8 << position)) >> position == (number >> position) & 1u8)
            by (bit_vector)
            requires
                position < 8,
        ;
        assert(shifted & 1u8 == shifted % 2) by (bit_vector);
    }
    (number & (1u8 << position)) >> position
}

/// Add x and y, and return result and carry
pub fn add_with_carry(lhs: u8, rhs: u8) -> (r: (u8, u8))
    ensures
        r.0 == (lhs + rhs) % 256,
        r.1 == (if lhs + rhs > 255 { 1u8 } else { 0u8 }),
{
    let result = lhs.wrapping_add(rhs);
    let carry: u8 = if lhs > 255 - rhs {
        1
    } else {
        0
    };
    (result, carry)
}

/// Subtract y from x, and return result and borrow
pub fn sub_with_borrow(lhs: u8, rhs: u8) -> (r: (u8, u8))
    ensures
        r.0 == (lhs - rhs + 256) % 256,
        r.1 == (if lhs >= rhs { 1u8 } else { 0u8 }),
{
    let result = lhs.wrapping_sub(rhs);
    let not_borrow: u8 = if lhs >= rhs {
        1
    } else {
        0
    };
    (result, not_borrow)
}

proof fn lemma_shift_nibbles(v: u16)
    ensures
        v >> 0u16 == v / 1,
        v >> 4u16 == v / 16,
        v >> 8u16 == v / 256,
        v >> 12u16 == v / 4096,
{
    assert(v >> 0u16 == v / 1) by (bit_vector);
    assert(v >> 4u16 == v / 16) by (bit_vector);
    assert(v >> 8u16 == v / 256) by (bit_vector);
    assert(v >> 12u16 == v / 4096) by (bit_vector);
}

proof fn lemma_mask_nibbles(v: u16)
    ensures
        1u16 << 0u16 == 1,
        1u16 << 4u16 == 16,
        1u16 << 8u16 == 256,
        1u16 << 12u16 == 4096,
        v & 0u16 == v % 1,
        v & 15u16 == v % 16,
        v & 255u16 == v % 256,
        v & 4095u16 == v % 4096,
{
    assert(1u16 << 0u16 == 1 && 1u16 << 4u16 == 16 && 1u16 << 8u16 == 256 && 1u16 << 12u16
        == 4096) by (bit_vector);
    assert(v & 0u16 == v % 1) by (bit_vector);
    assert(v & 15u16 == v % 16) by (bit_vector);
    assert(v & 255u16 == v % 256) by (bit_vector);
    assert(v & 4095u16 == v % 4096) by (bit_vector);
}

} // verus!
