//! One step of the whole machine: interrupts, one instruction (or an idle
//! HALT tick), then the timer and the PPU for the cycles that took.
use vstd::prelude::*;
use crate::isa::{execute_spec, interrupt_spec, is_illegal_opcode};
use crate::model::CpuState;
use crate::timer::timer_spec;
use crate::video::{lemma_scanlines_done_keeps_cpu, step_ppu_spec};

verus! {

/// Cycles as the PPU sees them: it runs at base rate, so in double-speed mode
/// it gets half the CPU cycles.
pub open spec fn ppu_cycles(s: CpuState, cycles: u32) -> u32 {
    if s.mem.double_speed {
        cycles / 2
    } else {
        cycles
    }
}

/// The timer and PPU catching up with `cycles` CPU cycles.
pub open spec fn devices_spec(s: CpuState, cycles: u32) -> CpuState {
    let s1 = timer_spec(s, cycles);
    step_ppu_spec(s1, ppu_cycles(s1, cycles))
}

/// The timer and PPU leave the CPU's registers, PC, SP and interrupt enables alone.
pub proof fn lemma_devices_frame(s: CpuState, cycles: u32)
    ensures
        devices_spec(s, cycles).ime == s.ime,
        devices_spec(s, cycles).ime_pending == s.ime_pending,
        devices_spec(s, cycles).regs == s.regs,
        devices_spec(s, cycles).pc == s.pc,
        devices_spec(s, cycles).sp == s.sp,
{
    let s1 = timer_spec(s, cycles);
    let total = s1.ppu_dots + ppu_cycles(s1, cycles);
    lemma_scanlines_done_keeps_cpu(s1, (total / 456) as nat);
}

/// Room in the counters for one more step: an interrupt dispatch (20 cycles)
/// and the longest instruction (24 cycles).
pub open spec fn step_ready(s: CpuState) -> bool {
    &&& s.wf()
    &&& s.cycles + 44 <= u64::MAX
    &&& s.tima_counter + 24 <= u32::MAX
    &&& s.ppu_dots + 24 <= u32::MAX
}

/// The first half of a step: interrupts are handled; a halted CPU then idles
/// for 4 cycles (the timer and PPU still run) and no instruction follows.
/// Returns the state and whether an instruction is to be executed.
pub open spec fn begin_step_spec(s: CpuState) -> (CpuState, bool) {
    let s1 = interrupt_spec(s);
    if s1.halted {
        (devices_spec(s1.add_cycles(4), 4), false)
    } else {
        (s1, true)
    }
}

/// The second half of a step: fetch and execute one instruction; a preceding
/// EI takes effect once it is done, unless that instruction cancelled it (DI)
/// or settled IME itself (RETI); then the timer and PPU run for the cycles it
/// took.
pub open spec fn finish_step_spec(s: CpuState) -> CpuState {
    let (s1, op) = s.fetch8();
    let s2 = execute_spec(s1, op);
    let s3 = if s.ime_pending && s2.ime_pending {
        CpuState { ime: true, ime_pending: false, ..s2 }
    } else {
        s2
    };
    devices_spec(s3, (s3.cycles - s.cycles) as u32)
}

/// The opcode `finish_step` would fetch.
pub open spec fn next_opcode(s: CpuState) -> u8 {
    s.mem.read(s.pc)
}

/// Whether a step can run without meeting an undefined opcode.
pub open spec fn step_defined(s: CpuState) -> bool {
    let s1 = interrupt_spec(s);
    !s1.halted ==> !is_illegal_opcode(next_opcode(s1))
}

/// One whole step.
pub open spec fn step_spec(s: CpuState) -> CpuState {
    let (s1, run) = begin_step_spec(s);
    if run {
        finish_step_spec(s1)
    } else {
        s1
    }
}

} // verus!
