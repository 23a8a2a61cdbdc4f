use vstd::prelude::*;
use crate::memory::MemState;
use crate::registers::Registers;
use crate::tiles::Rgb;

verus! {

/// Screen width in pixels.
pub const SCREEN_WIDTH: usize = 160;

/// Screen height in pixels.
pub const SCREEN_HEIGHT: usize = 144;

/// Number of pixels in the framebuffer.
pub const SCREEN_PIXELS: usize = 23040;

/// IE: interrupt enable.
pub const REG_IE: u16 = 0xFFFF;

/// IF: interrupt request flags.
pub const REG_IF: u16 = 0xFF0F;

/// The abstract state of the machine.
pub ghost struct CpuState {
    pub regs: Registers,
    pub pc: u16,
    pub sp: u16,
    pub mem: MemState,
    pub cycles: u64,
    pub halted: bool,
    /// IME: the interrupt master enable.
    pub ime: bool,
    /// An EI is waiting to raise IME after the next instruction.
    pub ime_pending: bool,
    /// The next opcode fetch does not advance PC (the HALT bug).
    pub halt_bug: bool,
    pub div_counter: u16,
    pub tima_counter: u32,
    pub ppu_dots: u32,
    pub fb: Seq<Rgb>,
    /// BG/window color id (0-3) of each pixel of the last rendered line.
    pub bg_color: Seq<u8>,
    /// Whether each pixel of the last rendered line had CGB BG priority.
    pub bg_prio: Seq<bool>,
    pub trace: bool,
}

/// `v` reduced into the range of a byte.
pub open spec fn wrap8(v: int) -> u8 {
    (v % 256) as u8
}

/// `v` reduced into the range of a 16-bit word.
pub open spec fn wrap16(v: int) -> u16 {
    (v % 65536) as u16
}

pub proof fn lemma_wrap8(a: u8, b: u8)
    ensures
        a.wrapping_add(b) == wrap8(a + b),
        a.wrapping_sub(b) == wrap8(a - b),
        wrap8(a + b) == 0 <==> (a + b) % 256 == 0,
        wrap8(a - b) == 0 <==> (a - b) % 256 == 0,
{
}

pub proof fn lemma_wrap8_chain(a: u8, b: u8, c: u8)
    requires
        c <= 1,
    ensures
        wrap8(a + b).wrapping_add(c) == wrap8(a + b + c),
        wrap8(a - b).wrapping_sub(c) == wrap8(a - b - c),
{
    lemma_wrap8(wrap8(a + b), c);
    lemma_wrap8(wrap8(a - b), c);
    assert(((a + b) % 256 + c) % 256 == (a + b + c) % 256) by (nonlinear_arith);
    assert(((a - b) % 256 - c) % 256 == (a - b - c) % 256) by (nonlinear_arith);
}

pub proof fn lemma_wrap16(a: u16, b: u16)
    ensures
        a.wrapping_add(b) == wrap16(a + b),
        a.wrapping_sub(b) == wrap16(a - b),
{
}

/// A bool as 0 or 1.
pub open spec fn bit_of(b: bool) -> int {
    if b {
        1
    } else {
        0
    }
}

/// The registers after INC of `v` (Z, N, H; C untouched).
pub open spec fn inc_flags(r: Registers, v: u8) -> Registers {
    r.with_zf(wrap8(v + 1) == 0).with_nf(false).with_hf(v % 16 == 15)
}

/// The registers after DEC of `v` (Z, N, H; C untouched).
pub open spec fn dec_flags(r: Registers, v: u8) -> Registers {
    r.with_zf(wrap8(v - 1) == 0).with_nf(true).with_hf(v % 16 == 0)
}

/// ADD (carry_in false) or ADC A, v.
pub open spec fn add_spec(r: Registers, v: u8, carry_in: bool) -> Registers {
    let c = bit_of(carry_in);
    let sum = r.a + v + c;
    Registers {
        a: wrap8(sum),
        ..r.with_flags(wrap8(sum) == 0, false, r.a % 16 + v % 16 + c > 15, sum > 255)
    }
}

/// The flags of SUB/SBC/CP: A - v - carry.
pub open spec fn sub_flags(r: Registers, v: u8, carry_in: bool) -> Registers {
    let c = bit_of(carry_in);
    r.with_flags(wrap8(r.a - v - c) == 0, true, r.a % 16 < v % 16 + c, r.a < v + c)
}

/// SUB (carry_in false) or SBC A, v.
pub open spec fn sub_spec(r: Registers, v: u8, carry_in: bool) -> Registers {
    Registers { a: wrap8(r.a - v - bit_of(carry_in)), ..sub_flags(r, v, carry_in) }
}

pub open spec fn and_spec(r: Registers, v: u8) -> Registers {
    Registers { a: r.a & v, ..r.with_flags(r.a & v == 0, false, true, false) }
}

pub open spec fn xor_spec(r: Registers, v: u8) -> Registers {
    Registers { a: r.a ^ v, ..r.with_flags(r.a ^ v == 0, false, false, false) }
}

pub open spec fn or_spec(r: Registers, v: u8) -> Registers {
    Registers { a: r.a | v, ..r.with_flags(r.a | v == 0, false, false, false) }
}

/// CP v: the flags of A - v; A is unchanged.
pub open spec fn cp_spec(r: Registers, v: u8) -> Registers {
    sub_flags(r, v, false)
}

/// The eight ALU operations of opcodes 0x80-0xBF and the d8 forms.
pub open spec fn alu_spec(r: Registers, op: int, v: u8) -> Registers {
    if op == 0 {
        add_spec(r, v, false)
    } else if op == 1 {
        add_spec(r, v, r.cf())
    } else if op == 2 {
        sub_spec(r, v, false)
    } else if op == 3 {
        sub_spec(r, v, r.cf())
    } else if op == 4 {
        and_spec(r, v)
    } else if op == 5 {
        xor_spec(r, v)
    } else if op == 6 {
        or_spec(r, v)
    } else {
        cp_spec(r, v)
    }
}

/// Rotate left circular.
pub open spec fn rlc(v: u8) -> u8 {
    ((v * 2) % 256 + v / 128) as u8
}

/// Rotate right circular.
pub open spec fn rrc(v: u8) -> u8 {
    (v / 2 + (v % 2) * 128) as u8
}

/// Rotate left through carry.
pub open spec fn rl(v: u8, c: bool) -> u8 {
    ((v * 2) % 256 + bit_of(c)) as u8
}

/// Rotate right through carry.
pub open spec fn rr(v: u8, c: bool) -> u8 {
    (v / 2 + bit_of(c) * 128) as u8
}

/// The result and carry-out of CB rotate/shift sub-operation `sub` (RLC, RRC,
/// RL, RR, SLA, SRA, SWAP, SRL) on `v` with carry-in `c`.
pub open spec fn rot_spec(sub: int, v: u8, c: bool) -> (u8, bool) {
    if sub == 0 {
        (rlc(v), v >= 128)
    } else if sub == 1 {
        (rrc(v), v % 2 == 1)
    } else if sub == 2 {
        (rl(v, c), v >= 128)
    } else if sub == 3 {
        (rr(v, c), v % 2 == 1)
    } else if sub == 4 {
        (((v * 2) % 256) as u8, v >= 128)
    } else if sub == 5 {
        ((v / 2 + (v / 128) * 128) as u8, v % 2 == 1)
    } else if sub == 6 {
        (((v % 16) * 16 + v / 16) as u8, false)
    } else {
        ((v / 2) as u8, v % 2 == 1)
    }
}

/// DAA: the adjusted A and carry, from A and the N, H, C flags.
pub open spec fn daa_spec(r: Registers) -> (u8, bool) {
    if !r.nf() {
        let (a1, c1) = if r.cf() || r.a > 0x99 {
            (wrap8(r.a + 0x60), true)
        } else {
            (r.a, false)
        };
        let a2 = if r.hf() || a1 % 16 > 9 {
            wrap8(a1 + 0x06)
        } else {
            a1
        };
        (a2, c1)
    } else {
        let a1 = if r.cf() {
            wrap8(r.a - 0x60)
        } else {
            r.a
        };
        let a2 = if r.hf() {
            wrap8(a1 - 0x06)
        } else {
            a1
        };
        (a2, r.cf())
    }
}

impl CpuState {
    pub open spec fn wf(self) -> bool {
        &&& self.mem.wf()
        &&& self.fb.len() == SCREEN_PIXELS
        &&& self.bg_color.len() == SCREEN_WIDTH
        &&& self.bg_prio.len() == SCREEN_WIDTH
    }

    /// Room left in the cycle counter for one more instruction (the longest
    /// takes 24 cycles).
    pub open spec fn cycle_headroom(self) -> bool {
        self.cycles + 24 <= u64::MAX
    }

    pub open spec fn add_cycles(self, n: int) -> CpuState {
        CpuState { cycles: (self.cycles + n) as u64, ..self }
    }

    pub open spec fn with_regs(self, r: Registers) -> CpuState {
        CpuState { regs: r, ..self }
    }

    pub open spec fn with_mem(self, m: MemState) -> CpuState {
        CpuState { mem: m, ..self }
    }

    pub open spec fn with_pc(self, pc: u16) -> CpuState {
        CpuState { pc: pc, ..self }
    }

    /// Fetch the byte at PC; PC advances unless the HALT bug is armed, which
    /// a fetch disarms.
    pub open spec fn fetch8(self) -> (CpuState, u8) {
        let b = self.mem.read(self.pc);
        if self.halt_bug {
            (CpuState { halt_bug: false, ..self }, b)
        } else {
            (CpuState { pc: wrap16(self.pc + 1), ..self }, b)
        }
    }

    /// Fetch the little-endian word at PC; PC advances by 2.
    pub open spec fn fetch16(self) -> (CpuState, u16) {
        (CpuState { pc: wrap16(self.pc + 2), ..self }, self.mem.read_word(self.pc))
    }

    /// 8-bit operand by its 3-bit encoding: B, C, D, E, H, L, (HL), A.
    pub open spec fn operand(self, idx: int) -> u8 {
        if idx == 0 {
            self.regs.b
        } else if idx == 1 {
            self.regs.c
        } else if idx == 2 {
            self.regs.d
        } else if idx == 3 {
            self.regs.e
        } else if idx == 4 {
            self.regs.h
        } else if idx == 5 {
            self.regs.l
        } else if idx == 6 {
            self.mem.read(self.regs.hl_spec())
        } else {
            self.regs.a
        }
    }

    pub open spec fn with_operand(self, idx: int, v: u8) -> CpuState {
        if idx == 0 {
            self.with_regs(Registers { b: v, ..self.regs })
        } else if idx == 1 {
            self.with_regs(Registers { c: v, ..self.regs })
        } else if idx == 2 {
            self.with_regs(Registers { d: v, ..self.regs })
        } else if idx == 3 {
            self.with_regs(Registers { e: v, ..self.regs })
        } else if idx == 4 {
            self.with_regs(Registers { h: v, ..self.regs })
        } else if idx == 5 {
            self.with_regs(Registers { l: v, ..self.regs })
        } else if idx == 6 {
            self.with_mem(self.mem.write(self.regs.hl_spec(), v))
        } else {
            self.with_regs(Registers { a: v, ..self.regs })
        }
    }

    /// 16-bit register by its 2-bit encoding: BC, DE, HL, then SP (or AF when `use_af`).
    pub open spec fn rr(self, idx: int, use_af: bool) -> u16 {
        if idx == 0 {
            self.regs.bc_spec()
        } else if idx == 1 {
            self.regs.de_spec()
        } else if idx == 2 {
            self.regs.hl_spec()
        } else if use_af {
            self.regs.af_spec()
        } else {
            self.sp
        }
    }

    pub open spec fn with_rr(self, idx: int, use_af: bool, v: u16) -> CpuState {
        if idx == 0 {
            self.with_regs(self.regs.with_bc(v))
        } else if idx == 1 {
            self.with_regs(self.regs.with_de(v))
        } else if idx == 2 {
            self.with_regs(self.regs.with_hl(v))
        } else if use_af {
            self.with_regs(self.regs.with_af(v))
        } else {
            CpuState { sp: v, ..self }
        }
    }

    /// Branch condition by its 2-bit encoding: NZ, Z, NC, C.
    pub open spec fn condition(self, cc: int) -> bool {
        if cc == 0 {
            !self.regs.zf()
        } else if cc == 1 {
            self.regs.zf()
        } else if cc == 2 {
            !self.regs.cf()
        } else {
            self.regs.cf()
        }
    }

    /// Push a word: SP drops by 2, then the word is stored at the new SP.
    pub open spec fn push(self, v: u16) -> CpuState {
        let sp = wrap16(self.sp - 2);
        CpuState { sp: sp, mem: self.mem.write_word(sp, v), ..self }
    }

    /// Pop a word: it is read at SP, then SP rises by 2.
    pub open spec fn pop(self) -> (CpuState, u16) {
        (CpuState { sp: wrap16(self.sp + 2), ..self }, self.mem.read_word(self.sp))
    }
}

} // verus!
