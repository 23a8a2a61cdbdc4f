use vstd::prelude::*;

verus! {

pub proof fn lemma_u8_masks(x: u8)
    ensures
        x & 0x0F == x % 16,
        x & 0x80 != 0 <==> x >= 128,
        x & 0x01 != 0 <==> x % 2 == 1,
        x & 0x07 == x % 8,
        x & 0x03 == x % 4,
        x & 0x1F == x % 32,
        (x >> 3u8) & 0x07 == (x / 8) % 8,
        (x >> 4u8) & 0x03 == (x / 16) % 4,
        (x >> 3u8) & 0x03 == (x / 8) % 4,
        x >> 6u8 == x / 64,
        !x == 255 - x,
{
    assert((!x == 255 - x)
        && (x & 0x0F == x % 16)
        && (x & 0x80 != 0 <==> x >= 128)
        && (x & 0x01 != 0 <==> x % 2 == 1)
        && (x & 0x07 == x % 8)
        && (x & 0x03 == x % 4)
        && (x & 0x1F == x % 32)
        && ((x >> 3u8) & 0x07 == (x / 8) % 8)
        && ((x >> 4u8) & 0x03 == (x / 16) % 4)
        && ((x >> 3u8) & 0x03 == (x / 8) % 4)
        && (x >> 6u8 == x / 64)) by (bit_vector);
}

pub proof fn lemma_u16_masks(x: u16)
    ensures
        x & 0x0F == x % 16,
        x & 0xFF == x % 256,
        x & 0x0FFF == x % 4096,
        x & 31 == x % 32,
{
    assert((x & 31 == x % 32)
        && (x & 0x0F == x % 16)
        && (x & 0xFF == x % 256)
        && (x & 0x0FFF == x % 4096)) by (bit_vector);
}

/// The shift and rotate forms used by the rotate instructions, as arithmetic.
pub proof fn lemma_u8_shifts(v: u8)
    ensures
        (v << 1u8) == (v * 2) % 256,
        (v >> 1u8) == v / 2,
        (v << 1u8) | (v >> 7u8) == (v * 2) % 256 + v / 128,
        (v >> 1u8) | (v << 7u8) == v / 2 + (v % 2) * 128,
        (v << 1u8) | 1u8 == (v * 2) % 256 + 1,
        (v >> 1u8) | 0x80u8 == v / 2 + 128,
        (v << 1u8) | 0u8 == (v * 2) % 256,
        (v >> 1u8) | 0u8 == v / 2,
        (v >> 1u8) | (v & 0x80u8) == v / 2 + (v / 128) * 128,
        (v << 4u8) | (v >> 4u8) == (v % 16) * 16 + v / 16,
        1u8 << 7u8 == 0x80u8,
        0u8 << 7u8 == 0u8,
{
    assert((1u8 << 7u8 == 0x80u8)
        && (0u8 << 7u8 == 0u8)
        && ((v << 1u8) == (v * 2) % 256)
        && ((v >> 1u8) == v / 2)
        && ((v << 1u8) | (v >> 7u8) == (v * 2) % 256 + v / 128)
        && ((v >> 1u8) | (v << 7u8) == v / 2 + (v % 2) * 128)
        && ((v << 1u8) | 1u8 == (v * 2) % 256 + 1)
        && ((v >> 1u8) | 0x80u8 == v / 2 + 128)
        && ((v << 1u8) | 0u8 == (v * 2) % 256)
        && ((v >> 1u8) | 0u8 == v / 2)
        && ((v >> 1u8) | (v & 0x80u8) == v / 2 + (v / 128) * 128)
        && ((v << 4u8) | (v >> 4u8) == (v % 16) * 16 + v / 16)) by (bit_vector);
}

/// Sign extension of a byte offset, as used by JR, ADD SP,d and LD HL,SP+d.
pub proof fn lemma_sign_extend(d: u8)
    ensures
        (d as i8 as i16 as u16) == if d < 128 {
            d as u16
        } else {
            (d as u16 + 0xFF00u16) as u16
        },
{
    assert((d as i8 as i16 as u16) == if d < 128 {
        d as u16
    } else {
        (d as u16 + 0xFF00u16) as u16
    }) by (bit_vector);
}

/// Sign extension of a byte to 32 bits, as used by signed tile addressing.
pub proof fn lemma_sign_extend_i32(d: u8)
    ensures
        (d as i8 as i32) == if d < 128 {
            d as i32
        } else {
            (d as i32 - 256) as i32
        },
{
    assert((d as i8 as i32) == if d < 128 {
        d as i32
    } else {
        (d as i32 - 256) as i32
    }) by (bit_vector);
}

} // verus!
