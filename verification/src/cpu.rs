use vstd::prelude::*;
use crate::bits::lemma_u8_masks;
use crate::memory::{Memory, MemState};
use crate::model::{
    CpuState, SCREEN_PIXELS, SCREEN_WIDTH, add_spec, alu_spec, and_spec, cp_spec, dec_flags,
    inc_flags, or_spec, bit_of, lemma_wrap8, lemma_wrap8_chain, sub_spec, wrap8, xor_spec,
};
use crate::registers::Registers;
use crate::tiles::{Rgb, dmg_rgb_spec};

mod instructions;
mod interrupts;
mod timer;
mod ppu;
mod objects;
mod step;
mod debug;

verus! {

/// One of the seven 8-bit registers an instruction can name.
#[derive(Debug, Clone, Copy, PartialEq, Eq, Structural)]
pub enum Register {
    A,
    B,
    C,
    D,
    E,
    H,
    L,
}

impl Register {
    /// The value of this register in `r`.
    pub open spec fn value_in(self, r: Registers) -> u8 {
        match self {
            Register::A => r.a,
            Register::B => r.b,
            Register::C => r.c,
            Register::D => r.d,
            Register::E => r.e,
            Register::H => r.h,
            Register::L => r.l,
        }
    }

    /// `r` with this register set to `v`.
    pub open spec fn set_in(self, r: Registers, v: u8) -> Registers {
        match self {
            Register::A => Registers { a: v, ..r },
            Register::B => Registers { b: v, ..r },
            Register::C => Registers { c: v, ..r },
            Register::D => Registers { d: v, ..r },
            Register::E => Registers { e: v, ..r },
            Register::H => Registers { h: v, ..r },
            Register::L => Registers { l: v, ..r },
        }
    }

    /// Get the value of this register from a CPU.
    pub fn get(&self, cpu: &Cpu) -> (r: u8)
        ensures
            r == self.value_in(cpu@.regs),
    {
        match self {
            Register::A => cpu.registers.a,
            Register::B => cpu.registers.b,
            Register::C => cpu.registers.c,
            Register::D => cpu.registers.d,
            Register::E => cpu.registers.e,
            Register::H => cpu.registers.h,
            Register::L => cpu.registers.l,
        }
    }

    /// Set the value of this register in a CPU.
    pub fn set(&self, cpu: &mut Cpu, value: u8)
        ensures
            final(cpu)@ == old(cpu)@.with_regs(self.set_in(old(cpu)@.regs, value)),
    {
        match self {
            Register::A => cpu.registers.a = value,
            Register::B => cpu.registers.b = value,
            Register::C => cpu.registers.c = value,
            Register::D => cpu.registers.d = value,
            Register::E => cpu.registers.e = value,
            Register::H => cpu.registers.h = value,
            Register::L => cpu.registers.l = value,
        }
    }

    /// The name of this register.
    pub fn name(&self) -> (r: &'static str)
        ensures
            r@ == match self {
                Register::A => "A"@,
                Register::B => "B"@,
                Register::C => "C"@,
                Register::D => "D"@,
                Register::E => "E"@,
                Register::H => "H"@,
                Register::L => "L"@,
            },
    {
        match self {
            Register::A => "A",
            Register::B => "B",
            Register::C => "C",
            Register::D => "D",
            Register::E => "E",
            Register::H => "H",
            Register::L => "L",
        }
    }

    /// All registers, in operand-encoding order (B, C, D, E, H, L, A).
    pub fn all() -> (r: [Register; 7])
        ensures
            r@ == seq![
                Register::B,
                Register::C,
                Register::D,
                Register::E,
                Register::H,
                Register::L,
                Register::A,
            ],
    {
        let r = [Register::B, Register::C, Register::D, Register::E, Register::H, Register::L, Register::A];
        assert(r@ =~= seq![
            Register::B,
            Register::C,
            Register::D,
            Register::E,
            Register::H,
            Register::L,
            Register::A,
        ]);
        r
    }
}

/// The CPU with its memory bus, timer and picture-processing state.
#[derive(Clone)]
pub struct Cpu {
    pub registers: Registers,
    /// Program counter.
    pub pc: u16,
    /// Stack pointer.
    pub sp: u16,
    pub memory: Memory,
    /// Total cycles executed.
    pub cycles: u64,
    pub halted: bool,
    /// IME, the interrupt master enable.
    pub interrupts_enabled: bool,
    /// EI armed IME to turn on after the next instruction.
    pub ime_pending: bool,
    /// HALT bug: the next opcode fetch must not advance PC.
    pub halt_bug: bool,
    /// Accumulates cycles for DIV (DIV is its high byte).
    pub div_counter: u16,
    /// Accumulates cycles for TIMA.
    pub tima_counter: u32,
    /// Accumulates cycles within the current scanline.
    pub ppu_dots: u32,
    /// RGB per pixel, row by row.
    pub framebuffer: Vec<Rgb>,
    /// BG/window color id (0-3) of each pixel of the last rendered line,
    /// for sprite priority.
    pub bg_color: Vec<u8>,
    /// Whether each pixel of the last rendered line had CGB BG priority.
    pub bg_prio: Vec<bool>,
    /// Trace mode: the embedding application logs the state before each instruction.
    pub trace: bool,
}

impl View for Cpu {
    type V = CpuState;

    open spec fn view(&self) -> CpuState {
        CpuState {
            regs: self.registers,
            pc: self.pc,
            sp: self.sp,
            mem: self.memory@,
            cycles: self.cycles,
            halted: self.halted,
            ime: self.interrupts_enabled,
            ime_pending: self.ime_pending,
            halt_bug: self.halt_bug,
            div_counter: self.div_counter,
            tima_counter: self.tima_counter,
            ppu_dots: self.ppu_dots,
            fb: self.framebuffer@,
            bg_color: self.bg_color@,
            bg_prio: self.bg_prio@,
            trace: self.trace,
        }
    }
}

/// The state of a freshly constructed CPU: post-boot registers, PC at the
/// cartridge entry point 0x0100, SP at 0xFFFE, a blank (lightest green) screen.
pub open spec fn initial_state() -> CpuState {
    CpuState {
        regs: Registers::post_boot(),
        pc: 0x0100,
        sp: 0xFFFE,
        mem: MemState::initial(),
        cycles: 0,
        halted: false,
        ime: false,
        ime_pending: false,
        halt_bug: false,
        div_counter: 0,
        tima_counter: 0,
        ppu_dots: 0,
        fb: Seq::new(SCREEN_PIXELS as nat, |i: int| dmg_rgb_spec(0)),
        bg_color: Seq::new(SCREEN_WIDTH as nat, |i: int| 0u8),
        bg_prio: Seq::new(SCREEN_WIDTH as nat, |i: int| false),
        trace: false,
    }
}

/// A framebuffer of the lightest DMG shade.
fn blank_framebuffer() -> (fb: Vec<Rgb>)
    ensures
        fb@ == Seq::new(SCREEN_PIXELS as nat, |i: int| dmg_rgb_spec(0)),
{
    let mut fb: Vec<Rgb> = Vec::with_capacity(SCREEN_PIXELS);
    let mut i: usize = 0;
    while i < SCREEN_PIXELS
        invariant
            i <= SCREEN_PIXELS,
            fb@.len() == i,
            forall|j: int| 0 <= j < i ==> #[trigger] fb@[j] == dmg_rgb_spec(0),
        decreases SCREEN_PIXELS - i,
    {
        fb.push((224, 248, 208));
        i += 1;
    }
    assert(fb@ =~= Seq::new(SCREEN_PIXELS as nat, |i: int| dmg_rgb_spec(0)));
    fb
}

impl Cpu {
    /// A CPU in the post-boot state, with trace mode off.
    pub fn new() -> (cpu: Self)
        ensures
            cpu@ == initial_state(),
            cpu@.wf(),
    {
        let cpu = Cpu {
            registers: Registers::new(),
            pc: 0x0100,
            sp: 0xFFFE,
            memory: Memory::new(),
            cycles: 0,
            halted: false,
            interrupts_enabled: false,
            ime_pending: false,
            halt_bug: false,
            div_counter: 0,
            tima_counter: 0,
            ppu_dots: 0,
            framebuffer: blank_framebuffer(),
            bg_color: vec![0u8; 160],
            bg_prio: vec![false; 160],
            trace: false,
        };
        assert(cpu@.bg_color =~= initial_state().bg_color);
        assert(cpu@.bg_prio =~= initial_state().bg_prio);
        cpu
    }

    /// Fetch a byte from PC and advance PC (unless the HALT bug holds it back).
    pub(crate) fn fetch_byte(&mut self) -> (r: u8)
        requires
            old(self)@.wf(),
        ensures
            (final(self)@, r) == old(self)@.fetch8(),
    {
        let byte = self.memory.read_byte(self.pc);
        if self.halt_bug {
            // HALT bug: this fetch reads the byte but PC does not advance, so
            // the next fetch reads it again.
            self.halt_bug = false;
        } else {
            self.pc = self.pc.wrapping_add(1);
        }
        byte
    }

    /// Fetch a little-endian word from PC and advance PC by 2.
    pub(crate) fn fetch_word(&mut self) -> (r: u16)
        requires
            old(self)@.wf(),
        ensures
            (final(self)@, r) == old(self)@.fetch16(),
    {
        let word = self.memory.read_word(self.pc);
        self.pc = self.pc.wrapping_add(2);
        word
    }

    /// Read an 8-bit operand by its 3-bit encoding (0=B ... 6=(HL) ... 7=A).
    pub(crate) fn read_operand(&self, idx: u8) -> (r: u8)
        requires
            self@.wf(),
            idx < 8,
        ensures
            r == self@.operand(idx as int),
    {
        match idx {
            0 => self.registers.b,
            1 => self.registers.c,
            2 => self.registers.d,
            3 => self.registers.e,
            4 => self.registers.h,
            5 => self.registers.l,
            6 => self.memory.read_byte(self.registers.hl()),
            _ => self.registers.a,
        }
    }

    /// Write an 8-bit operand by its 3-bit encoding (0=B ... 6=(HL) ... 7=A).
    pub(crate) fn write_operand(&mut self, idx: u8, value: u8)
        requires
            old(self)@.wf(),
            idx < 8,
        ensures
            final(self)@ == old(self)@.with_operand(idx as int, value),
            final(self)@.wf(),
    {
        match idx {
            0 => self.registers.b = value,
            1 => self.registers.c = value,
            2 => self.registers.d = value,
            3 => self.registers.e = value,
            4 => self.registers.h = value,
            5 => self.registers.l = value,
            6 => {
                let hl = self.registers.hl();
                self.memory.write_byte(hl, value)
            },
            _ => self.registers.a = value,
        }
    }

    /// Read a 16-bit register by its 2-bit encoding: BC, DE, HL, then SP, or
    /// AF when `use_af`.
    pub fn read_rr(&self, idx: u8, use_af: bool) -> (r: u16)
        requires
            idx < 4,
        ensures
            r == self@.rr(idx as int, use_af),
    {
        match idx {
            0 => self.registers.bc(),
            1 => self.registers.de(),
            2 => self.registers.hl(),
            _ => {
                if use_af {
                    self.registers.af()
                } else {
                    self.sp
                }
            },
        }
    }

    /// Write a 16-bit register by its 2-bit encoding: BC, DE, HL, then SP, or
    /// AF when `use_af`.
    pub fn write_rr(&mut self, idx: u8, use_af: bool, value: u16)
        requires
            idx < 4,
        ensures
            final(self)@ == old(self)@.with_rr(idx as int, use_af, value),
    {
        match idx {
            0 => self.registers.set_bc(value),
            1 => self.registers.set_de(value),
            2 => self.registers.set_hl(value),
            _ => {
                if use_af {
                    self.registers.set_af(value)
                } else {
                    self.sp = value;
                }
            },
        }
    }

    /// Whether the branch with 2-bit condition code `cc` (NZ, Z, NC, C) is taken.
    pub fn check_condition(&self, cc: u8) -> (r: bool)
        requires
            cc < 4,
        ensures
            r == self@.condition(cc as int),
    {
        match cc {
            0 => !self.registers.flag_zero(),
            1 => self.registers.flag_zero(),
            2 => !self.registers.flag_carry(),
            _ => self.registers.flag_carry(),
        }
    }

    pub(crate) fn alu_dispatch(&mut self, op: u8, value: u8)
        requires
            op < 8,
        ensures
            final(self)@ == old(self)@.with_regs(alu_spec(old(self)@.regs, op as int, value)),
    {
        match op {
            0 => self.alu_add(value),
            1 => self.alu_adc(value),
            2 => self.alu_sub(value),
            3 => self.alu_sbc(value),
            4 => self.alu_and(value),
            5 => self.alu_xor(value),
            6 => self.alu_or(value),
            _ => self.alu_cp(value),
        }
    }

    pub(crate) fn alu_inc(&mut self, value: u8) -> (r: u8)
        ensures
            r == wrap8(value + 1),
            final(self)@ == old(self)@.with_regs(inc_flags(old(self)@.regs, value)),
    {
        proof {
            lemma_u8_masks(value);
        }
        let result = value.wrapping_add(1);
        self.registers.set_flag_zero(result == 0);
        self.registers.set_flag_subtract(false);
        self.registers.set_flag_half_carry((value & 0x0F) == 0x0F);
        result
    }

    pub(crate) fn alu_dec(&mut self, value: u8) -> (r: u8)
        ensures
            r == wrap8(value - 1),
            final(self)@ == old(self)@.with_regs(dec_flags(old(self)@.regs, value)),
    {
        proof {
            lemma_u8_masks(value);
        }
        let result = value.wrapping_sub(1);
        self.registers.set_flag_zero(result == 0);
        self.registers.set_flag_subtract(true);
        self.registers.set_flag_half_carry((value & 0x0F) == 0);
        result
    }

    pub(crate) fn alu_add(&mut self, value: u8)
        ensures
            final(self)@ == old(self)@.with_regs(add_spec(old(self)@.regs, value, false)),
    {
        let a = self.registers.a;
        proof {
            lemma_u8_masks(a);
            lemma_u8_masks(value);
            lemma_wrap8(a, value);
        }
        let result = a.wrapping_add(value);
        let half = (a & 0x0F) + (value & 0x0F) > 0x0F;
        let carry = a as u16 + value as u16 > 0xFF;
        assert(result == wrap8(a + value + bit_of(false)));
        assert(half == (a % 16 + value % 16 + bit_of(false) > 15));
        assert(carry == (a + value + bit_of(false) > 255));
        self.registers.set_flag_zero(result == 0);
        self.registers.set_flag_subtract(false);
        self.registers.set_flag_half_carry(half);
        self.registers.set_flag_carry(carry);
        self.registers.a = result;
    }

    pub(crate) fn alu_adc(&mut self, value: u8)
        ensures
            final(self)@ == old(self)@.with_regs(
                add_spec(old(self)@.regs, value, old(self)@.regs.cf()),
            ),
    {
        let a = self.registers.a;
        let carry = if self.registers.flag_carry() { 1u8 } else { 0u8 };
        proof {
            lemma_u8_masks(a);
            lemma_u8_masks(value);
            lemma_wrap8(a, value);
        }
        let partial = a.wrapping_add(value);
        let result = partial.wrapping_add(carry);
        let half = (a & 0x0F) + (value & 0x0F) + carry > 0x0F;
        let carry_out = (a as u16) + (value as u16) + (carry as u16) > 0xFF;
        let ghost c = bit_of(old(self)@.regs.cf());
        assert(carry == c);
        proof {
            lemma_wrap8_chain(a, value, carry);
        }
        assert(partial == wrap8(a + value));
        assert(result == wrap8(a + value + c));
        assert(half == (a % 16 + value % 16 + c > 15));
        assert(carry_out == (a + value + c > 255));
        self.registers.set_flag_zero(result == 0);
        self.registers.set_flag_subtract(false);
        self.registers.set_flag_half_carry(half);
        self.registers.set_flag_carry(carry_out);
        self.registers.a = result;
    }

    pub(crate) fn alu_sub(&mut self, value: u8)
        ensures
            final(self)@ == old(self)@.with_regs(sub_spec(old(self)@.regs, value, false)),
    {
        let a = self.registers.a;
        proof {
            lemma_u8_masks(a);
            lemma_u8_masks(value);
            lemma_wrap8(a, value);
        }
        let result = a.wrapping_sub(value);
        let half = (a & 0x0F) < (value & 0x0F);
        assert(result == wrap8(a - value - bit_of(false)));
        assert(half == (a % 16 < value % 16 + bit_of(false)));
        assert((a < value) == (a < value + bit_of(false)));
        self.registers.set_flag_zero(result == 0);
        self.registers.set_flag_subtract(true);
        self.registers.set_flag_half_carry(half);
        self.registers.set_flag_carry(a < value);
        self.registers.a = result;
    }

    pub(crate) fn alu_sbc(&mut self, value: u8)
        ensures
            final(self)@ == old(self)@.with_regs(
                sub_spec(old(self)@.regs, value, old(self)@.regs.cf()),
            ),
    {
        let a = self.registers.a;
        let carry = if self.registers.flag_carry() { 1u8 } else { 0u8 };
        proof {
            lemma_u8_masks(a);
            lemma_u8_masks(value);
            lemma_wrap8(a, value);
        }
        let partial = a.wrapping_sub(value);
        let result = partial.wrapping_sub(carry);
        let half = (a & 0x0F) < (value & 0x0F) + carry;
        let borrow = (a as u16) < (value as u16) + (carry as u16);
        let ghost c = bit_of(old(self)@.regs.cf());
        assert(carry == c);
        proof {
            lemma_wrap8_chain(a, value, carry);
        }
        assert(partial == wrap8(a - value));
        assert(result == wrap8(a - value - c));
        assert(half == (a % 16 < value % 16 + c));
        assert(borrow == (a < value + c));
        self.registers.set_flag_zero(result == 0);
        self.registers.set_flag_subtract(true);
        self.registers.set_flag_half_carry(half);
        self.registers.set_flag_carry(borrow);
        self.registers.a = result;
    }

    pub(crate) fn alu_and(&mut self, value: u8)
        ensures
            final(self)@ == old(self)@.with_regs(and_spec(old(self)@.regs, value)),
    {
        let result = self.registers.a & value;
        self.registers.set_flag_zero(result == 0);
        self.registers.set_flag_subtract(false);
        // AND always sets H.
        self.registers.set_flag_half_carry(true);
        self.registers.set_flag_carry(false);
        self.registers.a = result;
    }

    pub(crate) fn alu_xor(&mut self, value: u8)
        ensures
            final(self)@ == old(self)@.with_regs(xor_spec(old(self)@.regs, value)),
    {
        let result = self.registers.a ^ value;
        self.registers.set_flag_zero(result == 0);
        self.registers.set_flag_subtract(false);
        self.registers.set_flag_half_carry(false);
        self.registers.set_flag_carry(false);
        self.registers.a = result;
    }

    pub(crate) fn alu_or(&mut self, value: u8)
        ensures
            final(self)@ == old(self)@.with_regs(or_spec(old(self)@.regs, value)),
    {
        let result = self.registers.a | value;
        self.registers.set_flag_zero(result == 0);
        self.registers.set_flag_subtract(false);
        self.registers.set_flag_half_carry(false);
        self.registers.set_flag_carry(false);
        self.registers.a = result;
    }

    pub(crate) fn alu_cp(&mut self, value: u8)
        ensures
            final(self)@ == old(self)@.with_regs(cp_spec(old(self)@.regs, value)),
    {
        let a = self.registers.a;
        proof {
            lemma_u8_masks(a);
            lemma_u8_masks(value);
            lemma_wrap8(a, value);
        }
        let result = a.wrapping_sub(value);
        let half = (a & 0x0F) < (value & 0x0F);
        assert(result == wrap8(a - value - bit_of(false)));
        assert(half == (a % 16 < value % 16 + bit_of(false)));
        assert((a < value) == (a < value + bit_of(false)));
        self.registers.set_flag_zero(result == 0);
        self.registers.set_flag_subtract(true);
        self.registers.set_flag_half_carry(half);
        self.registers.set_flag_carry(a < value);
        // CP discards the result: A is unchanged.
    }
}

} // verus!
