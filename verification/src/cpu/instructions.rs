use vstd::prelude::*;
use crate::bits::{lemma_u16_masks, lemma_u8_masks, lemma_u8_shifts};
use crate::cpu::Cpu;
use crate::isa::{block0_spec, block3_spec, cb_spec, execute_spec, is_illegal_opcode, lemma_offset_add};
use crate::model::{bit_of, lemma_wrap16, lemma_wrap8};
use crate::registers::lemma_split_bits;

verus! {

impl Cpu {
    /// Execute an instruction whose opcode has been fetched.
    pub(crate) fn execute(&mut self, opcode: u8)
        requires
            old(self)@.wf(),
            old(self)@.cycle_headroom(),
            !is_illegal_opcode(opcode),
        ensures
            final(self)@ == execute_spec(old(self)@, opcode),
            final(self)@.wf(),
            final(self)@.tima_counter == old(self)@.tima_counter,
            final(self)@.ppu_dots == old(self)@.ppu_dots,
            old(self)@.cycles + 4 <= final(self)@.cycles <= old(self)@.cycles + 24,
    {
        proof {
            lemma_u8_masks(opcode);
        }
        match opcode {
            0x00..=0x3F => self.execute_block0(opcode),
            // LD r, r' and HALT (0x76)
            0x40..=0x7F => {
                if opcode == 0x76 {
                    // HALT bug: with IME off and an interrupt already pending the
                    // CPU does not halt; the next byte is read twice instead.
                    let ie = self.memory.read_byte(0xFFFF);
                    let iflag = self.memory.read_byte(0xFF0F);
                    if !self.interrupts_enabled && (ie & iflag & 0x1F) != 0 {
                        self.halt_bug = true;
                    } else {
                        self.halted = true;
                    }
                    self.cycles += 4;
                } else {
                    let dest = (opcode >> 3) & 0x07;
                    let src = opcode & 0x07;
                    let value = self.read_operand(src);
                    self.write_operand(dest, value);
                    self.cycles += if src == 6 || dest == 6 {
                        8
                    } else {
                        4
                    };
                }
            },
            // ADD/ADC/SUB/SBC/AND/XOR/OR/CP A, r
            0x80..=0xBF => {
                let src = opcode & 0x07;
                let op = (opcode >> 3) & 0x07;
                let value = self.read_operand(src);
                self.alu_dispatch(op, value);
                self.cycles += if src == 6 {
                    8
                } else {
                    4
                };
            },
            _ => self.execute_block3(opcode),
        }
    }

    /// Opcodes 0x00-0x3F: loads, 16-bit arithmetic, INC/DEC, relative jumps,
    /// accumulator rotates and flag operations.
    fn execute_block0(&mut self, opcode: u8)
        requires
            old(self)@.wf(),
            old(self)@.cycle_headroom(),
            opcode < 0x40,
        ensures
            final(self)@ == block0_spec(old(self)@, opcode as int),
            final(self)@.wf(),
            final(self)@.tima_counter == old(self)@.tima_counter,
            final(self)@.ppu_dots == old(self)@.ppu_dots,
            old(self)@.cycles + 4 <= final(self)@.cycles <= old(self)@.cycles + 24,
    {
        proof {
            lemma_u8_masks(opcode);
        }
        match opcode & 0x07 {
            0 => self.execute_block0_z0(opcode),
            1 => self.execute_block0_z1(opcode),
            2 => self.execute_block0_z2(opcode),
            3 => self.execute_block0_z3(opcode),
            4 => self.execute_block0_z4(opcode),
            5 => self.execute_block0_z5(opcode),
            6 => self.execute_block0_z6(opcode),
            _ => self.execute_block0_z7(opcode),
        }
    }

    /// Opcodes 0xC0-0xFF: jumps, calls, returns, stack, high-memory loads, the
    /// immediate ALU forms and the CB prefix.
    fn execute_block3(&mut self, opcode: u8)
        requires
            old(self)@.wf(),
            old(self)@.cycle_headroom(),
            opcode >= 0xC0,
            !is_illegal_opcode(opcode),
        ensures
            final(self)@ == block3_spec(old(self)@, opcode as int),
            final(self)@.wf(),
            final(self)@.tima_counter == old(self)@.tima_counter,
            final(self)@.ppu_dots == old(self)@.ppu_dots,
            old(self)@.cycles + 4 <= final(self)@.cycles <= old(self)@.cycles + 24,
    {
        proof {
            lemma_u8_masks(opcode);
        }
        match opcode & 0x07 {
            0 => self.execute_block3_z0(opcode),
            1 => self.execute_block3_z1(opcode),
            2 => self.execute_block3_z2(opcode),
            3 => self.execute_block3_z3(opcode),
            4 => self.execute_block3_z4(opcode),
            5 => self.execute_block3_z5(opcode),
            6 => self.execute_block3_z6(opcode),
            _ => self.execute_block3_z7(opcode),
        }
    }

    /// NOP, LD (a16),SP, STOP, JR and JR cc.
    #[verifier::rlimit(100)]
    #[verifier::spinoff_prover]
    fn execute_block0_z0(&mut self, opcode: u8)
        requires
            old(self)@.wf(),
            old(self)@.cycle_headroom(),
            opcode < 0x40,
            opcode % 8 == 0,
        ensures
            final(self)@ == block0_spec(old(self)@, opcode as int),
            final(self)@.wf(),
            final(self)@.tima_counter == old(self)@.tima_counter,
            final(self)@.ppu_dots == old(self)@.ppu_dots,
            old(self)@.cycles + 4 <= final(self)@.cycles <= old(self)@.cycles + 24,
    {
        proof {
            lemma_u8_masks(opcode);
        }
        match opcode {
            // NOP
            0x00 => {
                self.cycles += 4;
            },
            // JR e8: relative jump by a signed offset
            0x18 => {
                let d = self.fetch_byte();
                let offset = d as i8;
                proof {
                    lemma_offset_add(self.pc, d);
                }
                self.pc = self.pc.wrapping_add(offset as i16 as u16);
                self.cycles += 12;
            },
            // JR cc, e8: the offset is always fetched
            0x20 | 0x28 | 0x30 | 0x38 => {
                let cc = (opcode >> 3) & 0x03;
                let d = self.fetch_byte();
                let offset = d as i8;
                if self.check_condition(cc) {
                    proof {
                        lemma_offset_add(self.pc, d);
                    }
                    self.pc = self.pc.wrapping_add(offset as i16 as u16);
                    self.cycles += 12;
                } else {
                    self.cycles += 8;
                }
            },
            // LD (a16), SP
            0x08 => {
                let addr = self.fetch_word();
                self.memory.write_word(addr, self.sp);
                self.cycles += 20;
            },
            // STOP: performs an armed speed switch, otherwise stops the CPU.
            // It is a 2-byte opcode, so the next byte is consumed.
            0x10 => {
                self.fetch_byte();
                if !self.memory.try_speed_switch() {
                    self.halted = true;
                }
                self.cycles += 4;
            },
            _ => {
                proof {
                    assert(false);
                }
            },
        }
    }

    /// LD rr,d16 and ADD HL,rr.
    #[verifier::rlimit(100)]
    #[verifier::spinoff_prover]
    fn execute_block0_z1(&mut self, opcode: u8)
        requires
            old(self)@.wf(),
            old(self)@.cycle_headroom(),
            opcode < 0x40,
            opcode % 8 == 1,
        ensures
            final(self)@ == block0_spec(old(self)@, opcode as int),
            final(self)@.wf(),
            final(self)@.tima_counter == old(self)@.tima_counter,
            final(self)@.ppu_dots == old(self)@.ppu_dots,
            old(self)@.cycles + 4 <= final(self)@.cycles <= old(self)@.cycles + 24,
    {
        proof {
            lemma_u8_masks(opcode);
        }
        match opcode {
            // LD rr, d16
            0x01 | 0x11 | 0x21 | 0x31 => {
                let idx = (opcode >> 4) & 0x03;
                let value = self.fetch_word();
                self.write_rr(idx, false, value);
                self.cycles += 12;
            },
            // ADD HL, rr (Z is left alone)
            0x09 | 0x19 | 0x29 | 0x39 => {
                let idx = (opcode >> 4) & 0x03;
                let hl = self.registers.hl();
                let rr = self.read_rr(idx, false);
                proof {
                    lemma_wrap16(hl, rr);
                    lemma_u16_masks(hl);
                    lemma_u16_masks(rr);
                }
                let result = hl.wrapping_add(rr);
                self.registers.set_flag_subtract(false);
                self.registers.set_flag_half_carry((hl & 0x0FFF) + (rr & 0x0FFF) > 0x0FFF);
                self.registers.set_flag_carry((hl as u32) + (rr as u32) > 0xFFFF);
                self.registers.set_hl(result);
                self.cycles += 8;
            },
            _ => {
                proof {
                    assert(false);
                }
            },
        }
    }

    /// LD (rr),A and LD A,(rr), with HL+ and HL-.
    #[verifier::rlimit(100)]
    #[verifier::spinoff_prover]
    fn execute_block0_z2(&mut self, opcode: u8)
        requires
            old(self)@.wf(),
            old(self)@.cycle_headroom(),
            opcode < 0x40,
            opcode % 8 == 2,
        ensures
            final(self)@ == block0_spec(old(self)@, opcode as int),
            final(self)@.wf(),
            final(self)@.tima_counter == old(self)@.tima_counter,
            final(self)@.ppu_dots == old(self)@.ppu_dots,
            old(self)@.cycles + 4 <= final(self)@.cycles <= old(self)@.cycles + 24,
    {
        proof {
            lemma_u8_masks(opcode);
        }
        match opcode {
            // LD (rr), A: store A at BC / DE / HL+ / HL-
            0x02 | 0x12 | 0x22 | 0x32 => {
                let addr = match (opcode >> 4) & 0x03 {
                    0 => self.registers.bc(),
                    1 => self.registers.de(),
                    2 => {
                        let a = self.registers.hl();
                        proof {
                            lemma_wrap16(a, 1);
                        }
                        self.registers.set_hl(a.wrapping_add(1));
                        a
                    },
                    _ => {
                        let a = self.registers.hl();
                        proof {
                            lemma_wrap16(a, 1);
                        }
                        self.registers.set_hl(a.wrapping_sub(1));
                        a
                    },
                };
                self.memory.write_byte(addr, self.registers.a);
                self.cycles += 8;
            },
            // LD A, (rr): load A from BC / DE / HL+ / HL-
            0x0A | 0x1A | 0x2A | 0x3A => {
                let addr = match (opcode >> 4) & 0x03 {
                    0 => self.registers.bc(),
                    1 => self.registers.de(),
                    2 => {
                        let a = self.registers.hl();
                        proof {
                            lemma_wrap16(a, 1);
                        }
                        self.registers.set_hl(a.wrapping_add(1));
                        a
                    },
                    _ => {
                        let a = self.registers.hl();
                        proof {
                            lemma_wrap16(a, 1);
                        }
                        self.registers.set_hl(a.wrapping_sub(1));
                        a
                    },
                };
                self.registers.a = self.memory.read_byte(addr);
                self.cycles += 8;
            },
            _ => {
                proof {
                    assert(false);
                }
            },
        }
    }

    /// INC rr and DEC rr (no flags).
    #[verifier::rlimit(100)]
    #[verifier::spinoff_prover]
    fn execute_block0_z3(&mut self, opcode: u8)
        requires
            old(self)@.wf(),
            old(self)@.cycle_headroom(),
            opcode < 0x40,
            opcode % 8 == 3,
        ensures
            final(self)@ == block0_spec(old(self)@, opcode as int),
            final(self)@.wf(),
            final(self)@.tima_counter == old(self)@.tima_counter,
            final(self)@.ppu_dots == old(self)@.ppu_dots,
            old(self)@.cycles + 4 <= final(self)@.cycles <= old(self)@.cycles + 24,
    {
        proof {
            lemma_u8_masks(opcode);
        }
        match opcode {
            // INC rr
            0x03 | 0x13 | 0x23 | 0x33 => {
                let idx = (opcode >> 4) & 0x03;
                let old_value = self.read_rr(idx, false);
                proof {
                    lemma_wrap16(old_value, 1);
                }
                let value = old_value.wrapping_add(1);
                self.write_rr(idx, false, value);
                self.cycles += 8;
            },
            // DEC rr
            0x0B | 0x1B | 0x2B | 0x3B => {
                let idx = (opcode >> 4) & 0x03;
                let old_value = self.read_rr(idx, false);
                proof {
                    lemma_wrap16(old_value, 1);
                }
                let value = old_value.wrapping_sub(1);
                self.write_rr(idx, false, value);
                self.cycles += 8;
            },
            _ => {
                proof {
                    assert(false);
                }
            },
        }
    }

    /// INC r and INC (HL).
    #[verifier::rlimit(100)]
    #[verifier::spinoff_prover]
    fn execute_block0_z4(&mut self, opcode: u8)
        requires
            old(self)@.wf(),
            old(self)@.cycle_headroom(),
            opcode < 0x40,
            opcode % 8 == 4,
        ensures
            final(self)@ == block0_spec(old(self)@, opcode as int),
            final(self)@.wf(),
            final(self)@.tima_counter == old(self)@.tima_counter,
            final(self)@.ppu_dots == old(self)@.ppu_dots,
            old(self)@.cycles + 4 <= final(self)@.cycles <= old(self)@.cycles + 24,
    {
        proof {
            lemma_u8_masks(opcode);
        }
        match opcode {
            0x04 => {
                self.registers.b = self.alu_inc(self.registers.b);
                self.cycles += 4;
            },
            0x0C => {
                self.registers.c = self.alu_inc(self.registers.c);
                self.cycles += 4;
            },
            0x14 => {
                self.registers.d = self.alu_inc(self.registers.d);
                self.cycles += 4;
            },
            0x1C => {
                self.registers.e = self.alu_inc(self.registers.e);
                self.cycles += 4;
            },
            0x24 => {
                self.registers.h = self.alu_inc(self.registers.h);
                self.cycles += 4;
            },
            0x2C => {
                self.registers.l = self.alu_inc(self.registers.l);
                self.cycles += 4;
            },
            0x3C => {
                self.registers.a = self.alu_inc(self.registers.a);
                self.cycles += 4;
            },
            // INC (HL): Z/N/H, C unaffected
            0x34 => {
                let value = self.read_operand(6);
                let result = self.alu_inc(value);
                self.write_operand(6, result);
                self.cycles += 12;
            },
            _ => {
                proof {
                    assert(false);
                }
            },
        }
    }

    /// DEC r and DEC (HL).
    #[verifier::rlimit(100)]
    #[verifier::spinoff_prover]
    fn execute_block0_z5(&mut self, opcode: u8)
        requires
            old(self)@.wf(),
            old(self)@.cycle_headroom(),
            opcode < 0x40,
            opcode % 8 == 5,
        ensures
            final(self)@ == block0_spec(old(self)@, opcode as int),
            final(self)@.wf(),
            final(self)@.tima_counter == old(self)@.tima_counter,
            final(self)@.ppu_dots == old(self)@.ppu_dots,
            old(self)@.cycles + 4 <= final(self)@.cycles <= old(self)@.cycles + 24,
    {
        proof {
            lemma_u8_masks(opcode);
        }
        match opcode {
            0x05 => {
                self.registers.b = self.alu_dec(self.registers.b);
                self.cycles += 4;
            },
            0x0D => {
                self.registers.c = self.alu_dec(self.registers.c);
                self.cycles += 4;
            },
            0x15 => {
                self.registers.d = self.alu_dec(self.registers.d);
                self.cycles += 4;
            },
            0x1D => {
                self.registers.e = self.alu_dec(self.registers.e);
                self.cycles += 4;
            },
            0x25 => {
                self.registers.h = self.alu_dec(self.registers.h);
                self.cycles += 4;
            },
            0x2D => {
                self.registers.l = self.alu_dec(self.registers.l);
                self.cycles += 4;
            },
            0x3D => {
                self.registers.a = self.alu_dec(self.registers.a);
                self.cycles += 4;
            },
            // DEC (HL)
            0x35 => {
                let value = self.read_operand(6);
                let result = self.alu_dec(value);
                self.write_operand(6, result);
                self.cycles += 12;
            },
            _ => {
                proof {
                    assert(false);
                }
            },
        }
    }

    /// LD r,d8 and LD (HL),d8.
    #[verifier::rlimit(100)]
    #[verifier::spinoff_prover]
    fn execute_block0_z6(&mut self, opcode: u8)
        requires
            old(self)@.wf(),
            old(self)@.cycle_headroom(),
            opcode < 0x40,
            opcode % 8 == 6,
        ensures
            final(self)@ == block0_spec(old(self)@, opcode as int),
            final(self)@.wf(),
            final(self)@.tima_counter == old(self)@.tima_counter,
            final(self)@.ppu_dots == old(self)@.ppu_dots,
            old(self)@.cycles + 4 <= final(self)@.cycles <= old(self)@.cycles + 24,
    {
        proof {
            lemma_u8_masks(opcode);
        }
        match opcode {
            0x06 => {
                self.registers.b = self.fetch_byte();
                self.cycles += 8;
            },
            0x0E => {
                self.registers.c = self.fetch_byte();
                self.cycles += 8;
            },
            0x16 => {
                self.registers.d = self.fetch_byte();
                self.cycles += 8;
            },
            0x1E => {
                self.registers.e = self.fetch_byte();
                self.cycles += 8;
            },
            0x26 => {
                self.registers.h = self.fetch_byte();
                self.cycles += 8;
            },
            0x2E => {
                self.registers.l = self.fetch_byte();
                self.cycles += 8;
            },
            0x3E => {
                self.registers.a = self.fetch_byte();
                self.cycles += 8;
            },
            // LD (HL), d8
            0x36 => {
                let n = self.fetch_byte();
                self.write_operand(6, n);
                self.cycles += 12;
            },
            _ => {
                proof {
                    assert(false);
                }
            },
        }
    }

    /// Accumulator rotates, DAA, CPL, SCF, CCF.
    #[verifier::rlimit(100)]
    #[verifier::spinoff_prover]
    fn execute_block0_z7(&mut self, opcode: u8)
        requires
            old(self)@.wf(),
            old(self)@.cycle_headroom(),
            opcode < 0x40,
            opcode % 8 == 7,
        ensures
            final(self)@ == block0_spec(old(self)@, opcode as int),
            final(self)@.wf(),
            final(self)@.tima_counter == old(self)@.tima_counter,
            final(self)@.ppu_dots == old(self)@.ppu_dots,
            old(self)@.cycles + 4 <= final(self)@.cycles <= old(self)@.cycles + 24,
    {
        proof {
            lemma_u8_masks(opcode);
        }
        match opcode {
            // SCF: C=1, N=0, H=0; Z unchanged
            0x37 => {
                self.registers.set_flag_subtract(false);
                self.registers.set_flag_half_carry(false);
                self.registers.set_flag_carry(true);
                self.cycles += 4;
            },
            // CCF: C=!C, N=0, H=0; Z unchanged
            0x3F => {
                let c = self.registers.flag_carry();
                self.registers.set_flag_subtract(false);
                self.registers.set_flag_half_carry(false);
                self.registers.set_flag_carry(!c);
                self.cycles += 4;
            },
            // CPL: A = !A; N=1, H=1
            0x2F => {
                proof {
                    lemma_u8_masks(self.registers.a);
                }
                self.registers.a = !self.registers.a;
                self.registers.set_flag_subtract(true);
                self.registers.set_flag_half_carry(true);
                self.cycles += 4;
            },
            // DAA: decimal-adjust A after a BCD add or subtract
            0x27 => {
                self.daa();
                self.cycles += 4;
            },
            // RLCA: rotate A left; old bit 7 to carry and bit 0. Z always cleared.
            0x07 => {
                let a = self.registers.a;
                proof {
                    lemma_u8_masks(a);
                    lemma_u8_shifts(a);
                }
                let carry = a & 0x80 != 0;
                self.registers.a = (a << 1) | (a >> 7);
                self.registers.set_flag_zero(false);
                self.registers.set_flag_subtract(false);
                self.registers.set_flag_half_carry(false);
                self.registers.set_flag_carry(carry);
                self.cycles += 4;
            },
            // RRCA: rotate A right; old bit 0 to carry and bit 7.
            0x0F => {
                let a = self.registers.a;
                proof {
                    lemma_u8_masks(a);
                    lemma_u8_shifts(a);
                }
                let carry = a & 0x01 != 0;
                self.registers.a = (a >> 1) | (a << 7);
                self.registers.set_flag_zero(false);
                self.registers.set_flag_subtract(false);
                self.registers.set_flag_half_carry(false);
                self.registers.set_flag_carry(carry);
                self.cycles += 4;
            },
            // RLA: rotate A left through carry.
            0x17 => {
                let a = self.registers.a;
                proof {
                    lemma_u8_masks(a);
                    lemma_u8_shifts(a);
                }
                let old_carry: u8 = if self.registers.flag_carry() { 1 } else { 0 };
                let new_carry = a & 0x80 != 0;
                self.registers.a = (a << 1) | old_carry;
                self.registers.set_flag_zero(false);
                self.registers.set_flag_subtract(false);
                self.registers.set_flag_half_carry(false);
                self.registers.set_flag_carry(new_carry);
                self.cycles += 4;
            },
            // RRA: rotate A right through carry.
            0x1F => {
                let a = self.registers.a;
                proof {
                    lemma_u8_masks(a);
                    lemma_u8_shifts(a);
                }
                let old_carry: u8 = if self.registers.flag_carry() { 1 } else { 0 };
                let new_carry = a & 0x01 != 0;
                self.registers.a = (a >> 1) | (old_carry << 7);
                self.registers.set_flag_zero(false);
                self.registers.set_flag_subtract(false);
                self.registers.set_flag_half_carry(false);
                self.registers.set_flag_carry(new_carry);
                self.cycles += 4;
            },
            _ => {
                proof {
                    assert(false);
                }
            },
        }
    }

    /// RET cc, LDH (a8),A, ADD SP,r8, LDH A,(a8), LD HL,SP+r8.
    #[verifier::rlimit(100)]
    #[verifier::spinoff_prover]
    fn execute_block3_z0(&mut self, opcode: u8)
        requires
            old(self)@.wf(),
            old(self)@.cycle_headroom(),
            opcode >= 0xC0 && !is_illegal_opcode(opcode),
            opcode % 8 == 0,
        ensures
            final(self)@ == block3_spec(old(self)@, opcode as int),
            final(self)@.wf(),
            final(self)@.tima_counter == old(self)@.tima_counter,
            final(self)@.ppu_dots == old(self)@.ppu_dots,
            old(self)@.cycles + 4 <= final(self)@.cycles <= old(self)@.cycles + 24,
    {
        proof {
            lemma_u8_masks(opcode);
        }
        match opcode {
            // RET cc
            0xC0 | 0xC8 | 0xD0 | 0xD8 => {
                let cc = (opcode >> 3) & 0x03;
                if self.check_condition(cc) {
                    let addr = self.memory.read_word(self.sp);
                    proof {
                        lemma_wrap16(self.sp, 2);
                    }
                    self.sp = self.sp.wrapping_add(2);
                    self.pc = addr;
                    self.cycles += 20;
                } else {
                    self.cycles += 8;
                }
            },
            // LDH (a8), A
            0xE0 => {
                let n = self.fetch_byte();
                let addr = 0xFF00 + n as u16;
                self.memory.write_byte(addr, self.registers.a);
                self.cycles += 12;
            },
            // LDH A, (a8)
            0xF0 => {
                let n = self.fetch_byte();
                let addr = 0xFF00 + n as u16;
                self.registers.a = self.memory.read_byte(addr);
                self.cycles += 12;
            },
            // ADD SP, r8: H and C from the unsigned low nibble / low byte add.
            0xE8 => {
                let d = self.fetch_byte();
                let r8 = d as i8 as i16 as u16;
                let sp = self.sp;
                proof {
                    lemma_offset_add(sp, d);
                    lemma_u16_masks(sp);
                }
                self.registers.set_flag_zero(false);
                self.registers.set_flag_subtract(false);
                self.registers.set_flag_half_carry((sp & 0x0F) + (r8 & 0x0F) > 0x0F);
                self.registers.set_flag_carry((sp & 0xFF) + (r8 & 0xFF) > 0xFF);
                self.sp = sp.wrapping_add(r8);
                self.cycles += 16;
            },
            // LD HL, SP+r8: same flags as ADD SP, r8.
            0xF8 => {
                let d = self.fetch_byte();
                let r8 = d as i8 as i16 as u16;
                let sp = self.sp;
                proof {
                    lemma_offset_add(sp, d);
                    lemma_u16_masks(sp);
                }
                self.registers.set_flag_zero(false);
                self.registers.set_flag_subtract(false);
                self.registers.set_flag_half_carry((sp & 0x0F) + (r8 & 0x0F) > 0x0F);
                self.registers.set_flag_carry((sp & 0xFF) + (r8 & 0xFF) > 0xFF);
                let result = sp.wrapping_add(r8);
                proof {
                    lemma_split_bits(result);
                }
                self.registers.h = (result >> 8) as u8;
                self.registers.l = result as u8;
                self.cycles += 12;
            },
            _ => {
                proof {
                    assert(false);
                }
            },
        }
    }

    /// POP rr, RET, RETI, JP (HL), LD SP,HL.
    #[verifier::rlimit(100)]
    #[verifier::spinoff_prover]
    fn execute_block3_z1(&mut self, opcode: u8)
        requires
            old(self)@.wf(),
            old(self)@.cycle_headroom(),
            opcode >= 0xC0 && !is_illegal_opcode(opcode),
            opcode % 8 == 1,
        ensures
            final(self)@ == block3_spec(old(self)@, opcode as int),
            final(self)@.wf(),
            final(self)@.tima_counter == old(self)@.tima_counter,
            final(self)@.ppu_dots == old(self)@.ppu_dots,
            old(self)@.cycles + 4 <= final(self)@.cycles <= old(self)@.cycles + 24,
    {
        proof {
            lemma_u8_masks(opcode);
        }
        match opcode {
            // POP rr
            0xC1 | 0xD1 | 0xE1 | 0xF1 => {
                let idx = (opcode >> 4) & 0x03;
                let value = self.memory.read_word(self.sp);
                self.write_rr(idx, true, value);
                proof {
                    lemma_wrap16(self.sp, 2);
                }
                self.sp = self.sp.wrapping_add(2);
                self.cycles += 12;
            },
            // RET
            0xC9 => {
                let addr = self.memory.read_word(self.sp);
                proof {
                    lemma_wrap16(self.sp, 2);
                }
                self.sp = self.sp.wrapping_add(2);
                self.pc = addr;
                self.cycles += 16;
            },
            // RETI: return and enable interrupts at once
            0xD9 => {
                let addr = self.memory.read_word(self.sp);
                proof {
                    lemma_wrap16(self.sp, 2);
                }
                self.sp = self.sp.wrapping_add(2);
                self.pc = addr;
                self.interrupts_enabled = true;
                self.ime_pending = false;
                self.cycles += 16;
            },
            // JP (HL): jump to the address in HL
            0xE9 => {
                self.pc = self.registers.hl();
                self.cycles += 4;
            },
            // LD SP, HL
            0xF9 => {
                self.sp = self.registers.hl();
                self.cycles += 8;
            },
            _ => {
                proof {
                    assert(false);
                }
            },
        }
    }

    /// JP cc, LD (C),A, LD (a16),A, LD A,(C), LD A,(a16).
    #[verifier::rlimit(100)]
    #[verifier::spinoff_prover]
    fn execute_block3_z2(&mut self, opcode: u8)
        requires
            old(self)@.wf(),
            old(self)@.cycle_headroom(),
            opcode >= 0xC0 && !is_illegal_opcode(opcode),
            opcode % 8 == 2,
        ensures
            final(self)@ == block3_spec(old(self)@, opcode as int),
            final(self)@.wf(),
            final(self)@.tima_counter == old(self)@.tima_counter,
            final(self)@.ppu_dots == old(self)@.ppu_dots,
            old(self)@.cycles + 4 <= final(self)@.cycles <= old(self)@.cycles + 24,
    {
        proof {
            lemma_u8_masks(opcode);
        }
        match opcode {
            // JP cc, a16: the target is always fetched
            0xC2 | 0xCA | 0xD2 | 0xDA => {
                let cc = (opcode >> 3) & 0x03;
                let target = self.fetch_word();
                if self.check_condition(cc) {
                    self.pc = target;
                    self.cycles += 16;
                } else {
                    self.cycles += 12;
                }
            },
            // LD (C), A
            0xE2 => {
                let addr = 0xFF00 + self.registers.c as u16;
                self.memory.write_byte(addr, self.registers.a);
                self.cycles += 8;
            },
            // LD A, (C)
            0xF2 => {
                let addr = 0xFF00 + self.registers.c as u16;
                self.registers.a = self.memory.read_byte(addr);
                self.cycles += 8;
            },
            // LD (a16), A
            0xEA => {
                let addr = self.fetch_word();
                self.memory.write_byte(addr, self.registers.a);
                self.cycles += 16;
            },
            // LD A, (a16)
            0xFA => {
                let addr = self.fetch_word();
                self.registers.a = self.memory.read_byte(addr);
                self.cycles += 16;
            },
            _ => {
                proof {
                    assert(false);
                }
            },
        }
    }

    /// JP a16, the CB prefix, DI, EI.
    #[verifier::rlimit(100)]
    #[verifier::spinoff_prover]
    fn execute_block3_z3(&mut self, opcode: u8)
        requires
            old(self)@.wf(),
            old(self)@.cycle_headroom(),
            opcode >= 0xC0 && !is_illegal_opcode(opcode),
            opcode % 8 == 3,
        ensures
            final(self)@ == block3_spec(old(self)@, opcode as int),
            final(self)@.wf(),
            final(self)@.tima_counter == old(self)@.tima_counter,
            final(self)@.ppu_dots == old(self)@.ppu_dots,
            old(self)@.cycles + 4 <= final(self)@.cycles <= old(self)@.cycles + 24,
    {
        proof {
            lemma_u8_masks(opcode);
        }
        match opcode {
            // JP a16
            0xC3 => {
                let target = self.fetch_word();
                self.pc = target;
                self.cycles += 16;
            },
            // CB prefix: fetch the second opcode byte and run the extended table
            0xCB => {
                let cb_opcode = self.fetch_byte();
                self.execute_cb(cb_opcode);
            },
            // DI: clear IME at once and cancel a pending EI
            0xF3 => {
                self.interrupts_enabled = false;
                self.ime_pending = false;
                self.cycles += 4;
            },
            // EI: IME turns on after the next instruction
            0xFB => {
                self.ime_pending = true;
                self.cycles += 4;
            },
            _ => {
                proof {
                    assert(false);
                }
            },
        }
    }

    /// CALL cc.
    #[verifier::rlimit(100)]
    #[verifier::spinoff_prover]
    fn execute_block3_z4(&mut self, opcode: u8)
        requires
            old(self)@.wf(),
            old(self)@.cycle_headroom(),
            opcode >= 0xC0 && !is_illegal_opcode(opcode),
            opcode % 8 == 4,
        ensures
            final(self)@ == block3_spec(old(self)@, opcode as int),
            final(self)@.wf(),
            final(self)@.tima_counter == old(self)@.tima_counter,
            final(self)@.ppu_dots == old(self)@.ppu_dots,
            old(self)@.cycles + 4 <= final(self)@.cycles <= old(self)@.cycles + 24,
    {
        proof {
            lemma_u8_masks(opcode);
        }
        match opcode {
            // CALL cc, a16: the target is always fetched
            0xC4 | 0xCC | 0xD4 | 0xDC => {
                let cc = (opcode >> 3) & 0x03;
                let target = self.fetch_word();
                if self.check_condition(cc) {
                    proof {
                        lemma_wrap16(self.sp, 2);
                    }
                    self.sp = self.sp.wrapping_sub(2);
                    self.memory.write_word(self.sp, self.pc);
                    self.pc = target;
                    self.cycles += 24;
                } else {
                    self.cycles += 12;
                }
            },
            _ => {
                proof {
                    assert(false);
                }
            },
        }
    }

    /// PUSH rr and CALL a16.
    #[verifier::rlimit(100)]
    #[verifier::spinoff_prover]
    fn execute_block3_z5(&mut self, opcode: u8)
        requires
            old(self)@.wf(),
            old(self)@.cycle_headroom(),
            opcode >= 0xC0 && !is_illegal_opcode(opcode),
            opcode % 8 == 5,
        ensures
            final(self)@ == block3_spec(old(self)@, opcode as int),
            final(self)@.wf(),
            final(self)@.tima_counter == old(self)@.tima_counter,
            final(self)@.ppu_dots == old(self)@.ppu_dots,
            old(self)@.cycles + 4 <= final(self)@.cycles <= old(self)@.cycles + 24,
    {
        proof {
            lemma_u8_masks(opcode);
        }
        match opcode {
            // PUSH rr
            0xC5 | 0xD5 | 0xE5 | 0xF5 => {
                let idx = (opcode >> 4) & 0x03;
                let value = self.read_rr(idx, true);
                proof {
                    lemma_wrap16(self.sp, 2);
                }
                self.sp = self.sp.wrapping_sub(2);
                self.memory.write_word(self.sp, value);
                self.cycles += 16;
            },
            // CALL a16
            0xCD => {
                let target = self.fetch_word();
                proof {
                    lemma_wrap16(self.sp, 2);
                }
                self.sp = self.sp.wrapping_sub(2);
                self.memory.write_word(self.sp, self.pc);
                self.pc = target;
                self.cycles += 24;
            },
            _ => {
                proof {
                    assert(false);
                }
            },
        }
    }

    /// ALU operations with an immediate operand.
    #[verifier::rlimit(100)]
    #[verifier::spinoff_prover]
    fn execute_block3_z6(&mut self, opcode: u8)
        requires
            old(self)@.wf(),
            old(self)@.cycle_headroom(),
            opcode >= 0xC0 && !is_illegal_opcode(opcode),
            opcode % 8 == 6,
        ensures
            final(self)@ == block3_spec(old(self)@, opcode as int),
            final(self)@.wf(),
            final(self)@.tima_counter == old(self)@.tima_counter,
            final(self)@.ppu_dots == old(self)@.ppu_dots,
            old(self)@.cycles + 4 <= final(self)@.cycles <= old(self)@.cycles + 24,
    {
        proof {
            lemma_u8_masks(opcode);
        }
        match opcode {
            0xC6 => {
                let n = self.fetch_byte();
                self.alu_add(n);
                self.cycles += 8;
            },
            0xCE => {
                let n = self.fetch_byte();
                self.alu_adc(n);
                self.cycles += 8;
            },
            0xD6 => {
                let n = self.fetch_byte();
                self.alu_sub(n);
                self.cycles += 8;
            },
            0xDE => {
                let n = self.fetch_byte();
                self.alu_sbc(n);
                self.cycles += 8;
            },
            0xE6 => {
                let n = self.fetch_byte();
                self.alu_and(n);
                self.cycles += 8;
            },
            0xEE => {
                let n = self.fetch_byte();
                self.alu_xor(n);
                self.cycles += 8;
            },
            0xF6 => {
                let n = self.fetch_byte();
                self.alu_or(n);
                self.cycles += 8;
            },
            0xFE => {
                let n = self.fetch_byte();
                self.alu_cp(n);
                self.cycles += 8;
            },
            _ => {
                proof {
                    assert(false);
                }
            },
        }
    }

    /// RST.
    #[verifier::rlimit(100)]
    #[verifier::spinoff_prover]
    fn execute_block3_z7(&mut self, opcode: u8)
        requires
            old(self)@.wf(),
            old(self)@.cycle_headroom(),
            opcode >= 0xC0 && !is_illegal_opcode(opcode),
            opcode % 8 == 7,
        ensures
            final(self)@ == block3_spec(old(self)@, opcode as int),
            final(self)@.wf(),
            final(self)@.tima_counter == old(self)@.tima_counter,
            final(self)@.ppu_dots == old(self)@.ppu_dots,
            old(self)@.cycles + 4 <= final(self)@.cycles <= old(self)@.cycles + 24,
    {
        proof {
            lemma_u8_masks(opcode);
        }
        match opcode {
            // RST t: call the fixed vector t * 8
            0xC7 | 0xCF | 0xD7 | 0xDF | 0xE7 | 0xEF | 0xF7 | 0xFF => {
                let target = ((opcode >> 3) & 0x07) as u16 * 8;
                proof {
                    lemma_wrap16(self.sp, 2);
                }
                self.sp = self.sp.wrapping_sub(2);
                self.memory.write_word(self.sp, self.pc);
                self.pc = target;
                self.cycles += 16;
            },
            _ => {
                proof {
                    assert(false);
                }
            },
        }
    }

    /// DAA: decimal-adjust A after a BCD addition (N=0) or subtraction (N=1).
    fn daa(&mut self)
        ensures
            final(self)@ == old(self)@.with_regs(crate::isa::misc_a_spec(old(self)@.regs, 4)),
    {
        let mut a = self.registers.a;
        let mut carry = self.registers.flag_carry();
        proof {
            lemma_u8_masks(a);
            lemma_wrap8(a, 0x60);
        }
        if !self.registers.flag_subtract() {
            if carry || a > 0x99 {
                a = a.wrapping_add(0x60);
                carry = true;
            }
            proof {
                lemma_u8_masks(a);
                lemma_wrap8(a, 0x06);
            }
            if self.registers.flag_half_carry() || (a & 0x0F) > 0x09 {
                a = a.wrapping_add(0x06);
            }
        } else {
            if carry {
                a = a.wrapping_sub(0x60);
            }
            proof {
                lemma_wrap8(a, 0x06);
            }
            if self.registers.flag_half_carry() {
                a = a.wrapping_sub(0x06);
            }
        }
        self.registers.a = a;
        self.registers.set_flag_zero(a == 0);
        self.registers.set_flag_half_carry(false);
        self.registers.set_flag_carry(carry);
    }

    /// Decode and execute a CB-prefixed instruction.
    #[verifier::rlimit(100)]
    #[verifier::spinoff_prover]
    pub(crate) fn execute_cb(&mut self, opcode: u8)
        requires
            old(self)@.wf(),
            old(self)@.cycle_headroom(),
        ensures
            final(self)@ == cb_spec(old(self)@, opcode),
            final(self)@.wf(),
            final(self)@.tima_counter == old(self)@.tima_counter,
            final(self)@.ppu_dots == old(self)@.ppu_dots,
            old(self)@.cycles + 4 <= final(self)@.cycles <= old(self)@.cycles + 24,
    {
        proof {
            lemma_u8_masks(opcode);
        }
        let idx = opcode & 0x07;
        let group = opcode >> 6;
        let bit = (opcode >> 3) & 0x07;

        match group {
            // rotate/shift family, sub-operation selected by `bit`
            0 => {
                let value = self.read_operand(idx);
                let carry_in = self.registers.flag_carry();
                let cin: u8 = if carry_in { 1 } else { 0 };
                proof {
                    lemma_u8_masks(value);
                    lemma_u8_shifts(value);
                    assert(cin == bit_of(carry_in));
                }
                let (result, carry_out) = match bit {
                    0 => {
                        let c = value & 0x80 != 0;
                        let ci: u8 = if c { 1 } else { 0 };
                        ((value << 1) | ci, c)
                    },
                    1 => {
                        let c = value & 0x01 != 0;
                        let ci: u8 = if c { 1 } else { 0 };
                        ((value >> 1) | (ci << 7), c)
                    },
                    2 => {
                        let c = value & 0x80 != 0;
                        ((value << 1) | cin, c)
                    },
                    3 => {
                        let c = value & 0x01 != 0;
                        ((value >> 1) | (cin << 7), c)
                    },
                    4 => {
                        let c = value & 0x80 != 0;
                        (value << 1, c)
                    },
                    5 => {
                        let c = value & 0x01 != 0;
                        ((value >> 1) | (value & 0x80), c)
                    },
                    6 => ((value << 4) | (value >> 4), false),
                    _ => {
                        let c = value & 0x01 != 0;
                        (value >> 1, c)
                    },
                };
                self.write_operand(idx, result);
                self.registers.set_flag_zero(result == 0);
                self.registers.set_flag_subtract(false);
                self.registers.set_flag_half_carry(false);
                self.registers.set_flag_carry(carry_out);
                self.cycles += if idx == 6 {
                    16
                } else {
                    8
                };
            },
            // BIT b, r: Z = !bit, N = 0, H = 1, C unaffected
            1 => {
                let value = self.read_operand(idx);
                let is_set = (value >> bit) & 1 == 1;
                self.registers.set_flag_zero(!is_set);
                self.registers.set_flag_subtract(false);
                self.registers.set_flag_half_carry(true);
                self.cycles += if idx == 6 {
                    12
                } else {
                    8
                };
            },
            // RES b, r
            2 => {
                let value = self.read_operand(idx);
                self.write_operand(idx, value & !(1u8 << bit));
                self.cycles += if idx == 6 {
                    16
                } else {
                    8
                };
            },
            // SET b, r
            _ => {
                let value = self.read_operand(idx);
                self.write_operand(idx, value | (1u8 << bit));
                self.cycles += if idx == 6 {
                    16
                } else {
                    8
                };
            },
        }
    }
}

} // verus!
