//! Facts about the bit manipulations with which instructions decode their
//! operands and compute their flags.

use vstd::prelude::*;

verus! {

/// Operand fields of an opcode, and the top bit of a byte.
pub proof fn lemma_opcode_fields(op: u8)
    by (bit_vector)
    ensures
        op >> 4u8 == op / 16,
        op >> 3u8 == op / 8,
        (op << 2u8) >> 5u8 == (op / 8) % 8,
        op & 7u8 == op % 8,
        (op << 5u8) >> 5u8 == op % 8,
        ((op & 0x80u8) >> 7u8 == 1u8) == (op >= 128),
        op & 0xefu8 == (if (op / 16) % 2 == 1 { (op - 16) as u8 } else { op }),
        op & 0xdfu8 == (if (op / 32) % 2 == 1 { (op - 32) as u8 } else { op }),
{
}

/// The half-carry test of INC: a carry out of bit 3 happens exactly when the
/// low nibble was 0xF.
pub proof fn lemma_inc_half_carry(n: u8, m: u8)
    by (bit_vector)
    requires
        m == (if n == 255u8 { 0u8 } else { (n + 1) as u8 }),
    ensures
        ((n ^ 1u8 ^ m) & 0x10u8 == 0x10u8) == (n % 16 == 15),
{
}

/// The half-borrow test of DEC: a borrow from bit 4 happens exactly when the
/// low nibble was 0.
pub proof fn lemma_dec_half_borrow(n: u8, w: u8)
    by (bit_vector)
    requires
        w == (if (n & 0xfu8) < 1u8 { ((n & 0xfu8) + 256 - 1) as u8 } else { ((n & 0xfu8) - 1) as u8 }),
    ensures
        (w & 0x10u8 == 0x10u8) == (n % 16 == 0),
{
}

/// The half-carry test of an addition of nibbles.
pub proof fn lemma_add_half_carry(x: u8, y: u8, w: u8)
    by (bit_vector)
    requires
        w == (if (x & 0xfu8) + (y & 0xfu8) > 255 { ((x & 0xfu8) + (y & 0xfu8) - 256) as u8 } else { ((x & 0xfu8) + (y & 0xfu8)) as u8 }),
    ensures
        (w & 0x10u8 == 0x10u8) == (x % 16 + y % 16 >= 16),
{
}

/// The half-borrow test of a subtraction of nibbles.
pub proof fn lemma_sub_half_borrow(x: u8, y: u8, w: u8)
    by (bit_vector)
    requires
        w == (if (x & 0xfu8) < (y & 0xfu8) { ((x & 0xfu8) + 256 - (y & 0xfu8)) as u8 } else { ((x & 0xfu8) - (y & 0xfu8)) as u8 }),
    ensures
        (w & 0x10u8 == 0x10u8) == (x % 16 < y % 16),
{
}

/// Shifting left by one and filling bit 0 with `c` is doubling plus `c`,
/// reduced to eight bits.
pub proof fn lemma_rotate_left(a: u8, c: u8)
    by (bit_vector)
    requires
        c <= 1,
    ensures
        ((a << 1u8) | c) == ((a * 2 + c) % 256) as u8,
{
}

/// Testing bit `b` with a mask is testing the bit shifted down to bit 0.
pub proof fn lemma_bit_test(v: u8, b: u8)
    by (bit_vector)
    requires
        b < 8,
    ensures
        (v & (1u8 << b) == 0u8) == ((v >> b) & 1u8 == 0u8),
{
}

/// The eight pixels of a tile line, as the renderer extracts them, are the
/// pairs of same-position bits of the line's two bytes.
pub proof fn lemma_tile_line(lsb: u8, msb: u8)
    by (bit_vector)
    ensures
        ((lsb & 0x80u8) >> 7u8 | ((msb & 0x80u8) >> 7u8) << 1u8) == (((lsb >> 7u8) & 1u8) + 2 * ((msb >> 7u8) & 1u8)) as u8,
        ((lsb & 0x40u8) >> 6u8 | ((msb & 0x40u8) >> 6u8) << 1u8) == (((lsb >> 6u8) & 1u8) + 2 * ((msb >> 6u8) & 1u8)) as u8,
        ((lsb & 0x20u8) >> 5u8 | ((msb & 0x20u8) >> 5u8) << 1u8) == (((lsb >> 5u8) & 1u8) + 2 * ((msb >> 5u8) & 1u8)) as u8,
        ((lsb & 0x10u8) >> 4u8 | ((msb & 0x10u8) >> 4u8) << 1u8) == (((lsb >> 4u8) & 1u8) + 2 * ((msb >> 4u8) & 1u8)) as u8,
        ((lsb & 0x08u8) >> 3u8 | ((msb & 0x08u8) >> 3u8) << 1u8) == (((lsb >> 3u8) & 1u8) + 2 * ((msb >> 3u8) & 1u8)) as u8,
        ((lsb & 0x04u8) >> 2u8 | ((msb & 0x04u8) >> 2u8) << 1u8) == (((lsb >> 2u8) & 1u8) + 2 * ((msb >> 2u8) & 1u8)) as u8,
        ((lsb & 0x02u8) >> 1u8 | ((msb & 0x02u8) >> 1u8) << 1u8) == (((lsb >> 1u8) & 1u8) + 2 * ((msb >> 1u8) & 1u8)) as u8,
        ((lsb & 0x01u8) | (msb & 0x01u8) << 1u8) == (((lsb >> 0u8) & 1u8) + 2 * ((msb >> 0u8) & 1u8)) as u8,
{
}

/// Setting or clearing one flag bit leaves every other bit.
pub proof fn lemma_single_bits(bits: u8, m: u8, n: u8)
    by (bit_vector)
    requires
        m == 0x10u8 || m == 0x20u8 || m == 0x40u8 || m == 0x80u8,
        n == 0x10u8 || n == 0x20u8 || n == 0x40u8 || n == 0x80u8,
    ensures
        (bits | m) & m == m,
        (bits & !m) & m != m,
        m != n ==> ((bits | m) & n == n) == (bits & n == n),
        m != n ==> ((bits & !m) & n == n) == (bits & n == n),
        (bits | m) & 0x0fu8 == bits & 0x0fu8,
        (bits & !m) & 0x0fu8 == bits & 0x0fu8,
{
}

/// Masking with 1 leaves 0 or 1; a byte XORed with itself is 0.
pub proof fn lemma_low_bit(v: u8)
    by (bit_vector)
    ensures
        v & 1u8 <= 1u8,
        v ^ v == 0u8,
{
}

} // verus!
