use vstd::prelude::*;

verus! {

/// Bit of F that holds the zero flag (Z).
pub const FLAG_Z: u8 = 0x80;

/// Bit of F that holds the subtract flag (N).
pub const FLAG_N: u8 = 0x40;

/// Bit of F that holds the half-carry flag (H).
pub const FLAG_H: u8 = 0x20;

/// Bit of F that holds the carry flag (C).
pub const FLAG_C: u8 = 0x10;

/// The eight 8-bit CPU registers. F holds the flags in its high nibble.
#[derive(Clone, Copy, Debug, PartialEq, Eq, Structural)]
pub struct Registers {
    pub a: u8,
    pub f: u8,
    pub b: u8,
    pub c: u8,
    pub d: u8,
    pub e: u8,
    pub h: u8,
    pub l: u8,
}

/// The 16-bit value whose high byte is `hi` and low byte is `lo`.
pub open spec fn pair(hi: u8, lo: u8) -> u16 {
    (hi as int * 256 + lo as int) as u16
}

/// The high byte of a 16-bit value.
pub open spec fn high_byte(v: u16) -> u8 {
    (v / 256) as u8
}

/// The low byte of a 16-bit value.
pub open spec fn low_byte(v: u16) -> u8 {
    (v % 256) as u8
}

/// `f` with the bits of `mask` set when `set`, cleared otherwise.
pub open spec fn with_bit(f: u8, mask: u8, set: bool) -> u8 {
    if set {
        f | mask
    } else {
        f & !mask
    }
}

pub proof fn lemma_pair_bits(hi: u8, lo: u8)
    ensures
        ((hi as u16) << 8u16) | (lo as u16) == pair(hi, lo),
{
    assert(((hi as u16) << 8u16) | (lo as u16) == (hi as u16) * 256 + (lo as u16)) by (bit_vector);
}

pub proof fn lemma_split_bits(v: u16)
    ensures
        (v >> 8u16) as u8 == high_byte(v),
        v as u8 == low_byte(v),
        ((v as u8) & 0xF0u8) == ((v % 256) / 16 * 16) as u8,
{
    assert(((v >> 8u16) as u8 == (v / 256) as u8)
        && (v as u8 == (v % 256) as u8)
        && (((v as u8) & 0xF0u8) == ((v % 256) / 16 * 16) as u8)) by (bit_vector);
}

proof fn lemma_flag_masks()
    ensures
        !FLAG_Z == 0b0111_1111u8,
        !FLAG_N == 0b1011_1111u8,
        !FLAG_H == 0b1101_1111u8,
        !FLAG_C == 0b1110_1111u8,
{
    assert((!0x80u8 == 0b0111_1111u8)
        && (!0x40u8 == 0b1011_1111u8)
        && (!0x20u8 == 0b1101_1111u8)
        && (!0x10u8 == 0b1110_1111u8)) by (bit_vector);
}

impl Registers {
    /// AF as a 16-bit value.
    pub open spec fn af_spec(self) -> u16 {
        pair(self.a, self.f)
    }

    /// BC as a 16-bit value.
    pub open spec fn bc_spec(self) -> u16 {
        pair(self.b, self.c)
    }

    /// DE as a 16-bit value.
    pub open spec fn de_spec(self) -> u16 {
        pair(self.d, self.e)
    }

    /// HL as a 16-bit value.
    pub open spec fn hl_spec(self) -> u16 {
        pair(self.h, self.l)
    }

    /// The registers after writing `v` to AF: the low nibble of F always reads zero.
    pub open spec fn with_af(self, v: u16) -> Registers {
        Registers { a: high_byte(v), f: (low_byte(v) / 16 * 16) as u8, ..self }
    }

    pub open spec fn with_bc(self, v: u16) -> Registers {
        Registers { b: high_byte(v), c: low_byte(v), ..self }
    }

    pub open spec fn with_de(self, v: u16) -> Registers {
        Registers { d: high_byte(v), e: low_byte(v), ..self }
    }

    pub open spec fn with_hl(self, v: u16) -> Registers {
        Registers { h: high_byte(v), l: low_byte(v), ..self }
    }

    pub open spec fn zf(self) -> bool {
        self.f & FLAG_Z != 0
    }

    pub open spec fn nf(self) -> bool {
        self.f & FLAG_N != 0
    }

    pub open spec fn hf(self) -> bool {
        self.f & FLAG_H != 0
    }

    pub open spec fn cf(self) -> bool {
        self.f & FLAG_C != 0
    }

    pub open spec fn with_zf(self, set: bool) -> Registers {
        Registers { f: with_bit(self.f, FLAG_Z, set), ..self }
    }

    pub open spec fn with_nf(self, set: bool) -> Registers {
        Registers { f: with_bit(self.f, FLAG_N, set), ..self }
    }

    pub open spec fn with_hf(self, set: bool) -> Registers {
        Registers { f: with_bit(self.f, FLAG_H, set), ..self }
    }

    pub open spec fn with_cf(self, set: bool) -> Registers {
        Registers { f: with_bit(self.f, FLAG_C, set), ..self }
    }

    /// The registers with all four flags set to the given values.
    pub open spec fn with_flags(self, z: bool, n: bool, h: bool, c: bool) -> Registers {
        self.with_zf(z).with_nf(n).with_hf(h).with_cf(c)
    }

    /// The register state left behind by the boot ROM (DMG).
    pub open spec fn post_boot() -> Registers {
        Registers { a: 0x01, f: 0xB0, b: 0x00, c: 0x13, d: 0x00, e: 0xD8, h: 0x01, l: 0x4D }
    }

    pub fn new() -> (r: Self)
        ensures
            r == Registers::post_boot(),
    {
        // The state the boot ROM leaves behind: execution starts at 0x0100
        // without running it, so these are seeded here.
        Registers { a: 0x01, f: 0xB0, b: 0x00, c: 0x13, d: 0x00, e: 0xD8, h: 0x01, l: 0x4D }
    }

    pub fn af(&self) -> (r: u16)
        ensures
            r == self.af_spec(),
    {
        proof {
            lemma_pair_bits(self.a, self.f);
        }
        ((self.a as u16) << 8) | (self.f as u16)
    }

    pub fn set_af(&mut self, value: u16)
        ensures
            *final(self) == old(self).with_af(value),
    {
        proof {
            lemma_split_bits(value);
        }
        self.a = (value >> 8) as u8;
        // The low nibble of F is not backed by hardware and always reads zero.
        self.f = (value as u8) & 0xF0;
    }

    pub fn bc(&self) -> (r: u16)
        ensures
            r == self.bc_spec(),
    {
        proof {
            lemma_pair_bits(self.b, self.c);
        }
        ((self.b as u16) << 8) | (self.c as u16)
    }

    pub fn set_bc(&mut self, value: u16)
        ensures
            *final(self) == old(self).with_bc(value),
    {
        proof {
            lemma_split_bits(value);
        }
        self.b = (value >> 8) as u8;
        self.c = value as u8;
    }

    pub fn de(&self) -> (r: u16)
        ensures
            r == self.de_spec(),
    {
        proof {
            lemma_pair_bits(self.d, self.e);
        }
        ((self.d as u16) << 8) | (self.e as u16)
    }

    pub fn set_de(&mut self, value: u16)
        ensures
            *final(self) == old(self).with_de(value),
    {
        proof {
            lemma_split_bits(value);
        }
        self.d = (value >> 8) as u8;
        self.e = value as u8;
    }

    pub fn hl(&self) -> (r: u16)
        ensures
            r == self.hl_spec(),
    {
        proof {
            lemma_pair_bits(self.h, self.l);
        }
        ((self.h as u16) << 8) | (self.l as u16)
    }

    pub fn set_hl(&mut self, value: u16)
        ensures
            *final(self) == old(self).with_hl(value),
    {
        proof {
            lemma_split_bits(value);
        }
        self.h = (value >> 8) as u8;
        self.l = value as u8;
    }

    pub fn flag_zero(&self) -> (r: bool)
        ensures
            r == self.zf(),
    {
        self.f & 0b1000_0000 != 0
    }

    pub fn set_flag_zero(&mut self, set: bool)
        ensures
            *final(self) == old(self).with_zf(set),
    {
        proof {
            lemma_flag_masks();
        }
        if set {
            self.f |= 0b1000_0000;
        } else {
            self.f &= 0b0111_1111;
        }
    }

    pub fn flag_subtract(&self) -> (r: bool)
        ensures
            r == self.nf(),
    {
        self.f & 0b0100_0000 != 0
    }

    pub fn set_flag_subtract(&mut self, set: bool)
        ensures
            *final(self) == old(self).with_nf(set),
    {
        proof {
            lemma_flag_masks();
        }
        if set {
            self.f |= 0b0100_0000;
        } else {
            self.f &= 0b1011_1111;
        }
    }

    pub fn flag_half_carry(&self) -> (r: bool)
        ensures
            r == self.hf(),
    {
        self.f & 0b0010_0000 != 0
    }

    pub fn set_flag_half_carry(&mut self, set: bool)
        ensures
            *final(self) == old(self).with_hf(set),
    {
        proof {
            lemma_flag_masks();
        }
        if set {
            self.f |= 0b0010_0000;
        } else {
            self.f &= 0b1101_1111;
        }
    }

    pub fn flag_carry(&self) -> (r: bool)
        ensures
            r == self.cf(),
    {
        self.f & 0b0001_0000 != 0
    }

    pub fn set_flag_carry(&mut self, set: bool)
        ensures
            *final(self) == old(self).with_cf(set),
    {
        proof {
            lemma_flag_masks();
        }
        if set {
            self.f |= 0b0001_0000;
        } else {
            self.f &= 0b1110_1111;
        }
    }
}

/// Writing a register pair and reading it back gives the written value; writing
/// back what was read changes nothing.
pub proof fn law_pair_roundtrip(regs: Registers, v: u16)
    ensures
        regs.with_bc(v).bc_spec() == v,
        regs.with_de(v).de_spec() == v,
        regs.with_hl(v).hl_spec() == v,
        regs.with_bc(regs.bc_spec()) == regs,
        regs.with_de(regs.de_spec()) == regs,
        regs.with_hl(regs.hl_spec()) == regs,
{
}

/// AF reads back what was written with the low four bits cleared, and writing
/// back AF changes nothing when the low nibble of F is clear.
pub proof fn law_af_roundtrip(regs: Registers, v: u16)
    ensures
        regs.with_af(v).af_spec() == v / 16 * 16,
        regs.with_af(v).f % 16 == 0,
        regs.f % 16 == 0 ==> regs.with_af(regs.af_spec()) == regs,
{
    let vi = v as int;
    let r = regs.with_af(v);
    assert(r.a == vi / 256);
    assert(low_byte(v) == vi % 256);
    assert(r.f == (vi % 256) / 16 * 16);
    assert((vi / 256) * 256 + (vi % 256) / 16 * 16 == vi / 16 * 16) by (nonlinear_arith)
        requires
            0 <= vi < 65536,
    ;
    let w = regs.a as int * 256 + regs.f as int;
    assert(w / 256 == regs.a && w % 256 == regs.f) by (nonlinear_arith)
        requires
            w == regs.a as int * 256 + regs.f as int,
            0 <= regs.f < 256,
            0 <= regs.a < 256,
    ;
    if regs.f % 16 == 0 {
        assert(regs.af_spec() == w);
        assert(high_byte(regs.af_spec()) == regs.a);
        assert(low_byte(regs.af_spec()) == regs.f);
        assert(regs.f / 16 * 16 == regs.f);
    }
}

/// Each flag reads back what its setter wrote, and a setter leaves the other
/// flags and the low nibble of F as they were.
pub proof fn law_flag_set_get(regs: Registers, set: bool)
    ensures
        regs.with_zf(set).zf() == set,
        regs.with_nf(set).nf() == set,
        regs.with_hf(set).hf() == set,
        regs.with_cf(set).cf() == set,
        regs.with_zf(set).nf() == regs.nf() && regs.with_zf(set).hf() == regs.hf()
            && regs.with_zf(set).cf() == regs.cf(),
        regs.with_nf(set).zf() == regs.zf() && regs.with_nf(set).hf() == regs.hf()
            && regs.with_nf(set).cf() == regs.cf(),
        regs.with_hf(set).zf() == regs.zf() && regs.with_hf(set).nf() == regs.nf()
            && regs.with_hf(set).cf() == regs.cf(),
        regs.with_cf(set).zf() == regs.zf() && regs.with_cf(set).nf() == regs.nf()
            && regs.with_cf(set).hf() == regs.hf(),
        regs.with_zf(set).f & 0x0F == regs.f & 0x0F,
        regs.with_nf(set).f & 0x0F == regs.f & 0x0F,
        regs.with_hf(set).f & 0x0F == regs.f & 0x0F,
        regs.with_cf(set).f & 0x0F == regs.f & 0x0F,
{
    let f = regs.f;
    assert((((f | 0x80u8) & 0x80u8 != 0) && ((f & !0x80u8) & 0x80u8 == 0))
        && (((f | 0x40u8) & 0x40u8 != 0) && ((f & !0x40u8) & 0x40u8 == 0))
        && (((f | 0x20u8) & 0x20u8 != 0) && ((f & !0x20u8) & 0x20u8 == 0))
        && (((f | 0x10u8) & 0x10u8 != 0) && ((f & !0x10u8) & 0x10u8 == 0))
        && (((f | 0x80u8) & 0x40u8) == (f & 0x40u8) && ((f & !0x80u8) & 0x40u8) == (f & 0x40u8) && ((f | 0x80u8) & 0x20u8) == (f & 0x20u8) && ((f & !0x80u8) & 0x20u8) == (f & 0x20u8) && ((f | 0x80u8) & 0x10u8) == (f & 0x10u8) && ((f & !0x80u8) & 0x10u8) == (f & 0x10u8) && ((f | 0x80u8) & 0x0Fu8) == (f & 0x0Fu8) && ((f & !0x80u8) & 0x0Fu8) == (f & 0x0Fu8))
        && (((f | 0x40u8) & 0x80u8) == (f & 0x80u8) && ((f & !0x40u8) & 0x80u8) == (f & 0x80u8) && ((f | 0x40u8) & 0x20u8) == (f & 0x20u8) && ((f & !0x40u8) & 0x20u8) == (f & 0x20u8) && ((f | 0x40u8) & 0x10u8) == (f & 0x10u8) && ((f & !0x40u8) & 0x10u8) == (f & 0x10u8) && ((f | 0x40u8) & 0x0Fu8) == (f & 0x0Fu8) && ((f & !0x40u8) & 0x0Fu8) == (f & 0x0Fu8))
        && (((f | 0x20u8) & 0x80u8) == (f & 0x80u8) && ((f & !0x20u8) & 0x80u8) == (f & 0x80u8) && ((f | 0x20u8) & 0x40u8) == (f & 0x40u8) && ((f & !0x20u8) & 0x40u8) == (f & 0x40u8) && ((f | 0x20u8) & 0x10u8) == (f & 0x10u8) && ((f & !0x20u8) & 0x10u8) == (f & 0x10u8) && ((f | 0x20u8) & 0x0Fu8) == (f & 0x0Fu8) && ((f & !0x20u8) & 0x0Fu8) == (f & 0x0Fu8))
        && (((f | 0x10u8) & 0x80u8) == (f & 0x80u8) && ((f & !0x10u8) & 0x80u8) == (f & 0x80u8) && ((f | 0x10u8) & 0x40u8) == (f & 0x40u8) && ((f & !0x10u8) & 0x40u8) == (f & 0x40u8) && ((f | 0x10u8) & 0x20u8) == (f & 0x20u8) && ((f & !0x10u8) & 0x20u8) == (f & 0x20u8) && ((f | 0x10u8) & 0x0Fu8) == (f & 0x0Fu8) && ((f & !0x10u8) & 0x0Fu8) == (f & 0x0Fu8))) by (bit_vector);
}

} // verus!
