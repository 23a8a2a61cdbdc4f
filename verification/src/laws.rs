//! Properties that relate several operations of the machine.
use vstd::prelude::*;
use crate::registers::Registers;
use crate::isa::{block0_spec, block1_spec, block2_spec, block3_spec, cb_spec, is_illegal_opcode, execute_spec, interrupt_spec, interrupt_priority, pending_interrupts};
use crate::memory::{is_banking_register, law_read_after_write, law_word_roundtrip, law_write_frame, next_addr};
use crate::model::{CpuState, REG_IF, wrap16};
use crate::machine::{finish_step_spec, lemma_devices_frame, next_opcode};
use crate::video::{REG_LY, REG_LYC, REG_STAT, ppu_mode, scanlines_done, update_stat_spec, lemma_scanlines_done_frame};

verus! {

/// The two stack bytes below SP are ordinary memory.
pub open spec fn stack_is_plain(s: CpuState) -> bool {
    !is_banking_register(wrap16(s.sp - 2)) && !is_banking_register(wrap16(s.sp - 1))
}

/// A pop gives back what a push stored, and SP returns to where it was.
pub proof fn law_push_pop(s: CpuState, v: u16)
    requires
        s.wf(),
        stack_is_plain(s),
    ensures
        s.push(v).pop().1 == v,
        s.push(v).pop().0.sp == s.sp,
{
    let sp = wrap16(s.sp - 2);
    assert(next_addr(sp) == wrap16(s.sp - 1));
    law_word_roundtrip(s.mem, sp, v);
}

/// CALL then RET resumes right after the CALL's operand with SP balanced
/// (`s` is the state after the CALL opcode was fetched).
pub proof fn law_call_then_ret(s: CpuState)
    requires
        s.wf(),
        stack_is_plain(s),
    ensures
        execute_spec(execute_spec(s, 0xCD), 0xC9).pc == wrap16(s.pc + 2),
        execute_spec(execute_spec(s, 0xCD), 0xC9).sp == s.sp,
{
    let (s1, t) = s.fetch16();
    assert(stack_is_plain(s1));
    law_push_pop(s1, s1.pc);
    let c = execute_spec(s, 0xCD);
    assert(c == s1.push(s1.pc).with_pc(t).add_cycles(24));
    assert(c.mem == s1.push(s1.pc).mem && c.sp == s1.push(s1.pc).sp);
}

/// A dispatched interrupt, returned from with RETI, resumes the interrupted
/// code at its PC with SP balanced and interrupts enabled again.
pub proof fn law_interrupt_then_reti(s: CpuState)
    requires
        s.wf(),
        s.ime,
        pending_interrupts(s.mem) != 0,
        stack_is_plain(s),
    ensures
        execute_spec(interrupt_spec(s), 0xD9).pc == s.pc,
        execute_spec(interrupt_spec(s), 0xD9).sp == s.sp,
        execute_spec(interrupt_spec(s), 0xD9).ime,
        !interrupt_spec(s).ime,
{
    let bit = interrupt_priority(pending_interrupts(s.mem));
    let s1 = CpuState {
        halted: false,
        ime: false,
        mem: s.mem.write(REG_IF, s.mem.read(REG_IF) & !(1u8 << bit)),
        ..s
    };
    law_read_after_write(s.mem, REG_IF, s.mem.read(REG_IF) & !(1u8 << bit));
    assert(stack_is_plain(s1));
    law_push_pop(s1, s1.pc);
}

/// Dispatching an interrupt acknowledges exactly the highest-priority
/// pending one: its IF bit is cleared and the CPU jumps to its vector.
pub proof fn law_interrupt_acknowledge(s: CpuState)
    requires
        s.wf(),
        s.ime,
        pending_interrupts(s.mem) != 0,
        stack_is_plain(s),
        wrap16(s.sp - 2) != REG_IF,
        wrap16(s.sp - 1) != REG_IF,
    ensures
        interrupt_spec(s).mem.read(REG_IF) == s.mem.read(REG_IF) & !(1u8
            << interrupt_priority(pending_interrupts(s.mem))),
        interrupt_spec(s).pc == 0x40 + 8 * interrupt_priority(pending_interrupts(s.mem)),
        !interrupt_spec(s).halted,
{
    let bit = interrupt_priority(pending_interrupts(s.mem));
    let v = s.mem.read(REG_IF) & !(1u8 << bit);
    let m1 = s.mem.write(REG_IF, v);
    law_read_after_write(s.mem, REG_IF, v);
    let sp = wrap16(s.sp - 2);
    let m2 = m1.write(sp, (s.pc % 256) as u8);
    law_write_frame(m1, sp, (s.pc % 256) as u8, REG_IF);
    law_read_after_write(m1, sp, (s.pc % 256) as u8);
    assert(next_addr(sp) == wrap16(s.sp - 1));
    law_write_frame(m2, next_addr(sp), (s.pc / 256) as u8, REG_IF);
    assert(bit < 5);
    assert((0x40 + bit * 8) as u16 == 0x40 + 8 * bit);
}

/// HALT with IME off and an interrupt pending does not halt; instead the next
/// byte is fetched twice (PC does not advance past it the first time).
pub proof fn law_halt_bug(s: CpuState)
    requires
        s.wf(),
        !s.halted,
        !s.ime,
        pending_interrupts(s.mem) != 0,
    ensures
        !execute_spec(s, 0x76).halted,
        execute_spec(s, 0x76).fetch8().0.pc == s.pc,
        execute_spec(s, 0x76).fetch8().1 == execute_spec(s, 0x76).fetch8().0.fetch8().1,
{
}

/// LY counts scanlines modulo 154: after `n` scanlines it has advanced by `n`
/// (lines 0-143 visible, 144-153 VBlank, then back to 0).
pub proof fn law_ly_cycles(s: CpuState, n: nat)
    requires
        s.wf(),
        s.mem.read(REG_LY) < 154,
    ensures
        scanlines_done(s, n).mem.read(REG_LY) == (s.mem.read(REG_LY) + n) % 154,
    decreases n,
{
    if n > 0 {
        law_ly_cycles(s, (n - 1) as nat);
        let p = scanlines_done(s, (n - 1) as nat);
        lemma_scanlines_done_frame(s, (n - 1) as nat);
        let ly = p.mem.read(REG_LY);
        let next: u8 = if ly >= 153 {
            0
        } else {
            (ly + 1) as u8
        };
        let m1 = p.mem.write(REG_LY, next);
        law_read_after_write(p.mem, REG_LY, next);
        if next == 144 {
            law_write_frame(m1, REG_IF, m1.read(REG_IF) | 1u8, REG_LY);
        }
    }
}

/// Updating STAT keeps bits 3-7 (the enable bits a game sets), puts the PPU
/// mode in bits 0-1 and the LY=LYC coincidence in bit 2.
pub proof fn law_stat_bits(s: CpuState)
    requires
        s.wf(),
    ensures
        update_stat_spec(s).mem.read(REG_STAT) & 0xF8 == s.mem.read(REG_STAT) & 0xF8,
        update_stat_spec(s).mem.read(REG_STAT) & 0x03 == ppu_mode(s.mem.read(REG_LY), s.ppu_dots),
        (update_stat_spec(s).mem.read(REG_STAT) & 0x04 != 0) == (s.mem.read(REG_LY) == s.mem.read(
            REG_LYC,
        )),
{
    let ly = s.mem.read(REG_LY);
    let mode = ppu_mode(ly, s.ppu_dots);
    let c: u8 = if ly == s.mem.read(REG_LYC) {
        1
    } else {
        0
    };
    let old_stat = s.mem.read(REG_STAT);
    let new_stat = (old_stat & !7u8) | mode | (c << 2u8);
    let m1 = s.mem.write(REG_STAT, new_stat);
    law_read_after_write(s.mem, REG_STAT, new_stat);
    law_write_frame(m1, REG_IF, m1.read(REG_IF) | (1u8 << 1u8), REG_STAT);
    assert(new_stat & 0xF8 == old_stat & 0xF8 && new_stat & 0x03 == mode && ((new_stat & 0x04
        != 0) == (c == 1))) by (bit_vector)
        requires
            new_stat == (old_stat & !7u8) | mode | (c << 2u8),
            mode < 4,
            c < 2,
    ;
}

/// The flag setters leave the low nibble of F alone; writing AF clears it.
pub proof fn lemma_flag_ops_low_nibble()
    ensures
        forall|r: Registers, b: bool| #[trigger] r.with_zf(b).f % 16 == r.f % 16,
        forall|r: Registers, b: bool| #[trigger] r.with_nf(b).f % 16 == r.f % 16,
        forall|r: Registers, b: bool| #[trigger] r.with_hf(b).f % 16 == r.f % 16,
        forall|r: Registers, b: bool| #[trigger] r.with_cf(b).f % 16 == r.f % 16,
        forall|r: Registers, v: u16| #[trigger] r.with_af(v).f % 16 == 0,
{
    assert(forall|f: u8|
        #![trigger f | 0x80u8]
        #![trigger f | 0x40u8]
        #![trigger f | 0x20u8]
        #![trigger f | 0x10u8]
        (f | 0x80u8) % 16 == f % 16 && (f & !0x80u8) % 16 == f % 16 && (f | 0x40u8)
            % 16 == f % 16 && (f & !0x40u8) % 16 == f % 16 && (f | 0x20u8) % 16 == f % 16 && (f
            & !0x20u8) % 16 == f % 16 && (f | 0x10u8) % 16 == f % 16 && (f & !0x10u8) % 16 == f
            % 16) by (bit_vector);
    assert forall|r: Registers, b: bool| #[trigger] r.with_zf(b).f % 16 == r.f % 16 by {
        assert((r.f | 0x80u8) % 16 == r.f % 16);
    }
    assert forall|r: Registers, b: bool| #[trigger] r.with_nf(b).f % 16 == r.f % 16 by {
        assert((r.f | 0x40u8) % 16 == r.f % 16);
    }
    assert forall|r: Registers, b: bool| #[trigger] r.with_hf(b).f % 16 == r.f % 16 by {
        assert((r.f | 0x20u8) % 16 == r.f % 16);
    }
    assert forall|r: Registers, b: bool| #[trigger] r.with_cf(b).f % 16 == r.f % 16 by {
        assert((r.f | 0x10u8) % 16 == r.f % 16);
    }
}

/// No instruction sets the low nibble of F: it stays zero.
#[verifier::rlimit(100)]
#[verifier::spinoff_prover]
pub proof fn law_flags_low_nibble(s: CpuState, op: u8)
    requires
        s.regs.f % 16 == 0,
        !is_illegal_opcode(op),
    ensures
        execute_spec(s, op).regs.f % 16 == 0,
{
    lemma_flag_ops_low_nibble();
    let o = op as int;
    if o < 0x40 {
        assert(block0_spec(s, o).regs.f % 16 == 0);
    } else if o < 0x80 {
        assert(block1_spec(s, o).regs.f % 16 == 0);
    } else if o < 0xC0 {
        assert(block2_spec(s, o).regs.f % 16 == 0);
    } else {
        let (s1, cb) = s.fetch8();
        assert(cb_spec(s1, cb).regs.f % 16 == 0);
        assert(block3_spec(s, o).regs.f % 16 == 0);
    }
}

/// Only DI, EI and RETI touch IME and the EI request: DI clears both, EI
/// arms the request, RETI turns IME on and clears the request.
#[verifier::rlimit(100)]
#[verifier::spinoff_prover]
pub proof fn lemma_execute_ime(s: CpuState, op: u8)
    ensures
        op == 0xF3 ==> !execute_spec(s, op).ime && !execute_spec(s, op).ime_pending,
        op == 0xFB ==> execute_spec(s, op).ime == s.ime && execute_spec(s, op).ime_pending,
        op == 0xD9 ==> execute_spec(s, op).ime && !execute_spec(s, op).ime_pending,
        op != 0xF3 && op != 0xFB && op != 0xD9 && !is_illegal_opcode(op) ==> execute_spec(s, op).ime
            == s.ime && execute_spec(s, op).ime_pending == s.ime_pending,
{
    let o = op as int;
    if o < 0x40 {
        assert(block0_spec(s, o).ime == s.ime && block0_spec(s, o).ime_pending == s.ime_pending);
    } else if o < 0x80 {
        assert(block1_spec(s, o).ime == s.ime && block1_spec(s, o).ime_pending == s.ime_pending);
    } else if o < 0xC0 {
        assert(block2_spec(s, o).ime == s.ime && block2_spec(s, o).ime_pending == s.ime_pending);
    } else {
        let (s1, cb) = s.fetch8();
        assert(cb_spec(s1, cb).ime == s.ime && cb_spec(s1, cb).ime_pending == s.ime_pending);
        let y = (o / 8) % 8;
        let z = o % 8;
        if z == 1 {
            assert(o == 0xD9 <==> y == 3);
        } else if z == 3 {
            assert(o == 0xF3 <==> y == 6);
            assert(o == 0xFB <==> y == 7);
        }
    }
}

/// EI takes effect only after the instruction that follows it: executing EI
/// leaves IME as it was, armed to turn on. DI turns IME off at once and
/// cancels an EI that is still waiting.
pub proof fn law_ei_delay(s: CpuState)
    ensures
        !s.ime_pending && next_opcode(s) == 0xFB ==> finish_step_spec(s).ime == s.ime
            && finish_step_spec(s).ime_pending,
        next_opcode(s) == 0xF3 ==> !finish_step_spec(s).ime && !finish_step_spec(s).ime_pending,
{
    let (s1, op) = s.fetch8();
    let s2 = execute_spec(s1, op);
    lemma_execute_ime(s1, op);
    let s3 = if s.ime_pending && s2.ime_pending {
        CpuState { ime: true, ime_pending: false, ..s2 }
    } else {
        s2
    };
    lemma_devices_frame(s3, (s3.cycles - s.cycles) as u32);
}

/// Once EI has armed IME, the next instruction ends with IME on, unless that
/// instruction is DI.
pub proof fn law_armed_ime_turns_on(s: CpuState)
    requires
        s.ime_pending,
        next_opcode(s) != 0xF3,
        !is_illegal_opcode(next_opcode(s)),
    ensures
        finish_step_spec(s).ime,
        !finish_step_spec(s).ime_pending,
{
    let (s1, op) = s.fetch8();
    let s2 = execute_spec(s1, op);
    lemma_execute_ime(s1, op);
    let s3 = if s2.ime_pending {
        CpuState { ime: true, ime_pending: false, ..s2 }
    } else {
        s2
    };
    lemma_devices_frame(s3, (s3.cycles - s.cycles) as u32);
}

/// INC rr and DEC rr change no flags; ADD HL,rr leaves Z alone.
pub proof fn law_16bit_arithmetic_flags(s: CpuState, op: u8)
    requires
        op < 0x40,
    ensures
        (op % 16 == 3 || op % 16 == 0x0B) ==> execute_spec(s, op).regs.f == s.regs.f,
        op % 16 == 9 ==> execute_spec(s, op).regs.zf() == s.regs.zf(),
{
    lemma_flag_bits_independent();
    if op % 16 == 9 {
        assert(op == 0x09 || op == 0x19 || op == 0x29 || op == 0x39);
        let hl = s.regs.hl_spec();
        let v = s.rr((op / 16) as int, false);
        let r1 = s.regs.with_nf(false);
        let r2 = r1.with_hf(hl % 4096 + v % 4096 > 4095);
        let r3 = r2.with_cf(hl + v > 65535);
        assert(r3.zf() == s.regs.zf());
    }
}

/// CP compares without changing A; BIT tests without changing C.
pub proof fn law_compare_and_test_keep_operands(s: CpuState, op: u8, cb: u8)
    ensures
        (0xB8 <= op <= 0xBF || op == 0xFE) ==> execute_spec(s, op).regs.a == s.regs.a,
        0x40 <= cb < 0x80 ==> cb_spec(s, cb).regs.cf() == s.regs.cf() && cb_spec(s, cb).regs.a == s.regs.a,
{
    lemma_flag_bits_independent();
    if op == 0xFE {
        let (s1, n) = s.fetch8();
        assert(s1.regs == s.regs);
    }
}

/// Setting one flag does not change another.
proof fn lemma_flag_bits_independent()
    ensures
        forall|r: Registers, b: bool| #[trigger] r.with_zf(b).cf() == r.cf(),
        forall|r: Registers, b: bool| #[trigger] r.with_nf(b).cf() == r.cf(),
        forall|r: Registers, b: bool| #[trigger] r.with_hf(b).cf() == r.cf(),
        forall|r: Registers, b: bool| #[trigger] r.with_nf(b).zf() == r.zf(),
        forall|r: Registers, b: bool| #[trigger] r.with_hf(b).zf() == r.zf(),
        forall|r: Registers, b: bool| #[trigger] r.with_cf(b).zf() == r.zf(),
{
    assert forall|r: Registers, b: bool| #[trigger] r.with_zf(b).cf() == r.cf() by {
        crate::registers::law_flag_set_get(r, b);
    }
    assert forall|r: Registers, b: bool| #[trigger] r.with_nf(b).cf() == r.cf() by {
        crate::registers::law_flag_set_get(r, b);
    }
    assert forall|r: Registers, b: bool| #[trigger] r.with_hf(b).cf() == r.cf() by {
        crate::registers::law_flag_set_get(r, b);
    }
    assert forall|r: Registers, b: bool| #[trigger] r.with_nf(b).zf() == r.zf() by {
        crate::registers::law_flag_set_get(r, b);
    }
    assert forall|r: Registers, b: bool| #[trigger] r.with_hf(b).zf() == r.zf() by {
        crate::registers::law_flag_set_get(r, b);
    }
    assert forall|r: Registers, b: bool| #[trigger] r.with_cf(b).zf() == r.zf() by {
        crate::registers::law_flag_set_get(r, b);
    }
}

} // verus!
