//! The instruction set as state transitions, decoded by the opcode's bit
//! fields: x = bits 7-6, y = bits 5-3, z = bits 2-0, p = bits 5-4, q = bit 3.
use vstd::prelude::*;
use crate::memory::MemState;
use crate::model::{
    CpuState, REG_IE, REG_IF, alu_spec, bit_of, daa_spec, dec_flags, inc_flags, rl, rlc, rot_spec,
    rr, rrc, wrap16, wrap8,
};
use crate::registers::Registers;
use crate::bits::lemma_sign_extend;

verus! {

/// The two's-complement value of a byte read as a signed offset.
pub open spec fn signed8(b: u8) -> int {
    if b < 128 {
        b as int
    } else {
        b - 256
    }
}

/// Adding a sign-extended byte offset to a 16-bit value wraps like adding the signed offset.
pub proof fn lemma_offset_add(x: u16, d: u8)
    ensures
        x.wrapping_add(d as i8 as i16 as u16) == wrap16(x + signed8(d)),
        (d as i8 as i16 as u16) & 0x0F == d % 16,
        (d as i8 as i16 as u16) & 0xFF == d,
{
    lemma_sign_extend(d);
    let e = d as i8 as i16 as u16;
    assert(e & 0x0F == d % 16 && e & 0xFF == d) by (bit_vector)
        requires
            e == if d < 128 {
                d as u16
            } else {
                (d as u16 + 0xFF00u16) as u16
            },
    ;
}

/// The interrupts that are both enabled (IE) and requested (IF).
pub open spec fn pending_interrupts(m: MemState) -> u8 {
    m.read(REG_IE) & m.read(REG_IF) & 0x1F
}

/// The eleven opcodes the CPU does not implement (none is defined by the hardware).
pub open spec fn is_illegal_opcode(op: u8) -> bool {
    op == 0xD3 || op == 0xDB || op == 0xDD || op == 0xE3 || op == 0xE4 || op == 0xEB || op == 0xEC
        || op == 0xED || op == 0xF4 || op == 0xFC || op == 0xFD
}

/// Address used by LD (rr),A / LD A,(rr): BC, DE, HL then HL+1, HL then HL-1.
pub open spec fn indirect_address(s: CpuState, p: int) -> (CpuState, u16) {
    let hl = s.regs.hl_spec();
    if p == 0 {
        (s, s.regs.bc_spec())
    } else if p == 1 {
        (s, s.regs.de_spec())
    } else if p == 2 {
        (s.with_regs(s.regs.with_hl(wrap16(hl + 1))), hl)
    } else {
        (s.with_regs(s.regs.with_hl(wrap16(hl - 1))), hl)
    }
}

/// The flags of ADD SP,d / LD HL,SP+d: from the unsigned low nibble and low byte.
pub open spec fn sp_offset_flags(r: Registers, sp: u16, d: u8) -> Registers {
    r.with_zf(false).with_nf(false).with_hf(sp % 16 + d % 16 > 15).with_cf(sp % 256 + d > 255)
}

/// Accumulator rotates (RLCA, RRCA, RLA, RRA): Z, N and H are cleared.
pub open spec fn rotate_a_spec(r: Registers, y: int) -> Registers {
    let a = r.a;
    if y == 0 {
        Registers { a: rlc(a), ..r.with_flags(false, false, false, a >= 128) }
    } else if y == 1 {
        Registers { a: rrc(a), ..r.with_flags(false, false, false, a % 2 == 1) }
    } else if y == 2 {
        Registers { a: rl(a, r.cf()), ..r.with_flags(false, false, false, a >= 128) }
    } else {
        Registers { a: rr(a, r.cf()), ..r.with_flags(false, false, false, a % 2 == 1) }
    }
}

/// x = 0, z = 7: the four accumulator rotates, DAA, CPL, SCF, CCF.
pub open spec fn misc_a_spec(r: Registers, y: int) -> Registers {
    if y < 4 {
        rotate_a_spec(r, y)
    } else if y == 4 {
        let (a, c) = daa_spec(r);
        Registers { a: a, ..r }.with_zf(a == 0).with_hf(false).with_cf(c)
    } else if y == 5 {
        Registers { a: (255 - r.a) as u8, ..r }.with_nf(true).with_hf(true)
    } else if y == 6 {
        r.with_nf(false).with_hf(false).with_cf(true)
    } else {
        r.with_nf(false).with_hf(false).with_cf(!r.cf())
    }
}

/// Opcodes 0x00-0x3F.
pub open spec fn block0_spec(s: CpuState, o: int) -> CpuState {
    let y = (o / 8) % 8;
    let z = o % 8;
    let p = y / 2;
    let q = y % 2;
    if z == 0 {
        if y == 0 {
            s.add_cycles(4)
        } else if y == 1 {
            let (s1, addr) = s.fetch16();
            s1.with_mem(s1.mem.write_word(addr, s1.sp)).add_cycles(20)
        } else if y == 2 {
            let (s1, b) = s.fetch8();
            if s1.mem.speed_switch_armed() {
                s1.with_mem(s1.mem.switched_speed()).add_cycles(4)
            } else {
                CpuState { halted: true, ..s1 }.add_cycles(4)
            }
        } else if y == 3 {
            let (s1, d) = s.fetch8();
            s1.with_pc(wrap16(s1.pc + signed8(d))).add_cycles(12)
        } else {
            let (s1, d) = s.fetch8();
            if s1.condition(y - 4) {
                s1.with_pc(wrap16(s1.pc + signed8(d))).add_cycles(12)
            } else {
                s1.add_cycles(8)
            }
        }
    } else if z == 1 {
        if q == 0 {
            let (s1, v) = s.fetch16();
            s1.with_rr(p, false, v).add_cycles(12)
        } else {
            let hl = s.regs.hl_spec();
            let v = s.rr(p, false);
            s.with_regs(
                s.regs.with_nf(false).with_hf(hl % 4096 + v % 4096 > 4095).with_cf(
                    hl + v > 65535,
                ).with_hl(wrap16(hl + v)),
            ).add_cycles(8)
        }
    } else if z == 2 {
        let (s1, addr) = indirect_address(s, p);
        if q == 0 {
            s1.with_mem(s1.mem.write(addr, s1.regs.a)).add_cycles(8)
        } else {
            s1.with_regs(Registers { a: s1.mem.read(addr), ..s1.regs }).add_cycles(8)
        }
    } else if z == 3 {
        if q == 0 {
            s.with_rr(p, false, wrap16(s.rr(p, false) + 1)).add_cycles(8)
        } else {
            s.with_rr(p, false, wrap16(s.rr(p, false) - 1)).add_cycles(8)
        }
    } else if z == 4 {
        let v = s.operand(y);
        s.with_regs(inc_flags(s.regs, v)).with_operand(y, wrap8(v + 1)).add_cycles(
            if y == 6 {
                12
            } else {
                4
            },
        )
    } else if z == 5 {
        let v = s.operand(y);
        s.with_regs(dec_flags(s.regs, v)).with_operand(y, wrap8(v - 1)).add_cycles(
            if y == 6 {
                12
            } else {
                4
            },
        )
    } else if z == 6 {
        let (s1, v) = s.fetch8();
        s1.with_operand(y, v).add_cycles(
            if y == 6 {
                12
            } else {
                8
            },
        )
    } else {
        s.with_regs(misc_a_spec(s.regs, y)).add_cycles(4)
    }
}

/// Opcodes 0x40-0x7F: LD r, r' and HALT (0x76). HALT with IME off and an
/// interrupt pending does not halt: it arms the HALT bug instead.
pub open spec fn block1_spec(s: CpuState, o: int) -> CpuState {
    let y = (o / 8) % 8;
    let z = o % 8;
    if y == 6 && z == 6 {
        if !s.ime && pending_interrupts(s.mem) != 0 {
            CpuState { halt_bug: true, ..s }.add_cycles(4)
        } else {
            CpuState { halted: true, ..s }.add_cycles(4)
        }
    } else {
        s.with_operand(y, s.operand(z)).add_cycles(
            if y == 6 || z == 6 {
                8
            } else {
                4
            },
        )
    }
}

/// Opcodes 0x80-0xBF: ADD, ADC, SUB, SBC, AND, XOR, OR, CP with A.
pub open spec fn block2_spec(s: CpuState, o: int) -> CpuState {
    let y = (o / 8) % 8;
    let z = o % 8;
    s.with_regs(alu_spec(s.regs, y, s.operand(z))).add_cycles(
        if z == 6 {
            8
        } else {
            4
        },
    )
}

/// Call: push the return address (PC), jump to `target`.
pub open spec fn call_spec(s: CpuState, target: u16) -> CpuState {
    s.push(s.pc).with_pc(target)
}

/// Opcodes 0xC0-0xFF (the CB prefix continues in `cb_spec`).
pub open spec fn block3_spec(s: CpuState, o: int) -> CpuState {
    let y = (o / 8) % 8;
    let z = o % 8;
    let p = y / 2;
    let q = y % 2;
    if z == 0 {
        if y < 4 {
            if s.condition(y) {
                let (s1, a) = s.pop();
                s1.with_pc(a).add_cycles(20)
            } else {
                s.add_cycles(8)
            }
        } else if y == 4 {
            let (s1, n) = s.fetch8();
            s1.with_mem(s1.mem.write((0xFF00 + n) as u16, s1.regs.a)).add_cycles(12)
        } else if y == 6 {
            let (s1, n) = s.fetch8();
            s1.with_regs(Registers { a: s1.mem.read((0xFF00 + n) as u16), ..s1.regs }).add_cycles(
                12,
            )
        } else {
            let (s1, d) = s.fetch8();
            let r = sp_offset_flags(s1.regs, s1.sp, d);
            let result = wrap16(s1.sp + signed8(d));
            if y == 5 {
                CpuState { sp: result, ..s1.with_regs(r) }.add_cycles(16)
            } else {
                s1.with_regs(r.with_hl(result)).add_cycles(12)
            }
        }
    } else if z == 1 {
        if q == 0 {
            let (s1, v) = s.pop();
            s1.with_rr(p, true, v).add_cycles(12)
        } else if p == 0 {
            let (s1, a) = s.pop();
            s1.with_pc(a).add_cycles(16)
        } else if p == 1 {
            let (s1, a) = s.pop();
            CpuState { pc: a, ime: true, ime_pending: false, ..s1 }.add_cycles(16)
        } else if p == 2 {
            s.with_pc(s.regs.hl_spec()).add_cycles(4)
        } else {
            CpuState { sp: s.regs.hl_spec(), ..s }.add_cycles(8)
        }
    } else if z == 2 {
        if y < 4 {
            let (s1, t) = s.fetch16();
            if s1.condition(y) {
                s1.with_pc(t).add_cycles(16)
            } else {
                s1.add_cycles(12)
            }
        } else if y == 4 {
            s.with_mem(s.mem.write((0xFF00 + s.regs.c) as u16, s.regs.a)).add_cycles(8)
        } else if y == 6 {
            s.with_regs(Registers { a: s.mem.read((0xFF00 + s.regs.c) as u16), ..s.regs }).add_cycles(
                8,
            )
        } else {
            let (s1, addr) = s.fetch16();
            if y == 5 {
                s1.with_mem(s1.mem.write(addr, s1.regs.a)).add_cycles(16)
            } else {
                s1.with_regs(Registers { a: s1.mem.read(addr), ..s1.regs }).add_cycles(16)
            }
        }
    } else if z == 3 {
        if y == 0 {
            let (s1, t) = s.fetch16();
            s1.with_pc(t).add_cycles(16)
        } else if y == 1 {
            let (s1, cb) = s.fetch8();
            cb_spec(s1, cb)
        } else if y == 6 {
            CpuState { ime: false, ime_pending: false, ..s }.add_cycles(4)
        } else {
            CpuState { ime_pending: true, ..s }.add_cycles(4)
        }
    } else if z == 4 {
        let (s1, t) = s.fetch16();
        if s1.condition(y) {
            call_spec(s1, t).add_cycles(24)
        } else {
            s1.add_cycles(12)
        }
    } else if z == 5 {
        if q == 0 {
            s.push(s.rr(p, true)).add_cycles(16)
        } else {
            let (s1, t) = s.fetch16();
            call_spec(s1, t).add_cycles(24)
        }
    } else if z == 6 {
        let (s1, n) = s.fetch8();
        s1.with_regs(alu_spec(s1.regs, y, n)).add_cycles(8)
    } else {
        call_spec(s, (y * 8) as u16).add_cycles(16)
    }
}

/// The effect of executing opcode `op` (its byte already fetched).
pub open spec fn execute_spec(s: CpuState, op: u8) -> CpuState {
    let o = op as int;
    if o < 0x40 {
        block0_spec(s, o)
    } else if o < 0x80 {
        block1_spec(s, o)
    } else if o < 0xC0 {
        block2_spec(s, o)
    } else {
        block3_spec(s, o)
    }
}

/// Whether bit `b` of `v` is set.
pub open spec fn test_bit(v: u8, b: u8) -> bool {
    (v >> b) & 1 == 1
}

/// The effect of the CB-prefixed opcode `op`: rotates and shifts, BIT, RES, SET.
pub open spec fn cb_spec(s: CpuState, op: u8) -> CpuState {
    let o = op as int;
    let idx = o % 8;
    let group = o / 64;
    let b = (o / 8) % 8;
    let v = s.operand(idx);
    if group == 0 {
        let (res, carry) = rot_spec(b, v, s.regs.cf());
        let s1 = s.with_operand(idx, res);
        s1.with_regs(s1.regs.with_flags(res == 0, false, false, carry)).add_cycles(
            if idx == 6 {
                16
            } else {
                8
            },
        )
    } else if group == 1 {
        s.with_regs(s.regs.with_zf(!test_bit(v, b as u8)).with_nf(false).with_hf(true)).add_cycles(
            if idx == 6 {
                12
            } else {
                8
            },
        )
    } else if group == 2 {
        s.with_operand(idx, v & !(1u8 << b as u8)).add_cycles(
            if idx == 6 {
                16
            } else {
                8
            },
        )
    } else {
        s.with_operand(idx, v | (1u8 << b as u8)).add_cycles(
            if idx == 6 {
                16
            } else {
                8
            },
        )
    }
}

/// The highest-priority pending interrupt: the lowest set bit (VBlank = 0 ... Joypad = 4).
pub open spec fn interrupt_priority(pending: u8) -> u8 {
    if pending & 0x01 != 0 {
        0
    } else if pending & 0x02 != 0 {
        1
    } else if pending & 0x04 != 0 {
        2
    } else if pending & 0x08 != 0 {
        3
    } else {
        4
    }
}

/// Whether interrupt handling dispatches: IME is on and an enabled interrupt
/// is requested.
pub open spec fn interrupt_dispatches(s: CpuState) -> bool {
    s.ime && pending_interrupts(s.mem) != 0
}

/// The effect of interrupt handling before a fetch. A pending interrupt
/// (enabled and requested) always ends HALT; with IME on, the highest-priority
/// one is acknowledged (its IF bit cleared), IME is turned off and the CPU
/// calls its vector 0x40 + 8 * bit, taking 20 cycles.
pub open spec fn interrupt_spec(s: CpuState) -> CpuState {
    let iflag = s.mem.read(REG_IF);
    let pending = pending_interrupts(s.mem);
    if pending == 0 {
        s
    } else if !s.ime {
        CpuState { halted: false, ..s }
    } else {
        let bit = interrupt_priority(pending);
        let s1 = CpuState {
            halted: false,
            ime: false,
            mem: s.mem.write(REG_IF, iflag & !(1u8 << bit)),
            ..s
        };
        call_spec(s1, (0x40 + bit * 8) as u16).add_cycles(20)
    }
}

/// The memory after requesting interrupt `bit` (setting its IF bit).
pub open spec fn request_spec(m: MemState, bit: u8) -> MemState {
    m.write(REG_IF, m.read(REG_IF) | (1u8 << bit))
}

/// The lowest set bit of a nonzero 5-bit value is its trailing-zero count.
pub proof fn lemma_interrupt_priority(p: u8)
    requires
        0 < p < 32,
    ensures
        vstd::std_specs::bits::u8_trailing_zeros(p) == interrupt_priority(p),
        interrupt_priority(p) < 5,
        p & (1u8 << interrupt_priority(p)) != 0,
{
    vstd::std_specs::bits::axiom_u8_trailing_zeros(p);
    let t = vstd::std_specs::bits::u8_trailing_zeros(p);
    assert(t < 8);
    let t8 = t as u8;
    assert((p >> t8) & 1u8 == 1u8);
    if t8 >= 1 {
        assert((p >> 0u8) & 1u8 == 0u8);
    }
    if t8 >= 2 {
        assert((p >> 1u8) & 1u8 == 0u8);
    }
    if t8 >= 3 {
        assert((p >> 2u8) & 1u8 == 0u8);
    }
    if t8 >= 4 {
        assert((p >> 3u8) & 1u8 == 0u8);
    }
    if t8 >= 5 {
        assert((p >> 4u8) & 1u8 == 0u8);
    }
    assert(t8 < 5 && interrupt_priority(p) == t8 && p & (1u8 << t8) != 0) by (bit_vector)
        requires
            0 < p < 32,
            t8 < 8,
            (p >> t8) & 1u8 == 1u8,
            t8 >= 1 ==> (p >> 0u8) & 1u8 == 0u8,
            t8 >= 2 ==> (p >> 1u8) & 1u8 == 0u8,
            t8 >= 3 ==> (p >> 2u8) & 1u8 == 0u8,
            t8 >= 4 ==> (p >> 3u8) & 1u8 == 0u8,
            t8 >= 5 ==> (p >> 4u8) & 1u8 == 0u8,
    ;
}

} // verus!
