use vstd::prelude::*;
use crate::cpu::Cpu;
use crate::isa::{interrupt_spec, is_illegal_opcode};
use crate::machine::{begin_step_spec, devices_spec, finish_step_spec, next_opcode, ppu_cycles, step_defined, step_ready, step_spec};
use crate::timer::timer_spec;

verus! {

impl Cpu {
    /// Run the timer and the PPU for `cycles` CPU cycles.
    fn step_devices(&mut self, cycles: u32)
        requires
            old(self)@.wf(),
            cycles <= 24,
            old(self)@.tima_counter + 24 <= u32::MAX,
            old(self)@.ppu_dots + 24 <= u32::MAX,
        ensures
            final(self)@ == devices_spec(old(self)@, cycles),
            final(self)@.wf(),
    {
        // The timer follows the CPU (twice as fast in double speed).
        self.step_timer(cycles);
        // The PPU runs at base rate: halve its share in double speed.
        let ds: u32 = if self.memory.is_double_speed() {
            1
        } else {
            0
        };
        let dots = cycles >> ds;
        assert(dots == if ds == 1 { cycles / 2 } else { cycles }) by (bit_vector)
            requires
                dots == cycles >> ds,
                ds == 0 || ds == 1,
        ;
        assert(dots == ppu_cycles(timer_spec(old(self)@, cycles), cycles));
        self.step_ppu(dots);
    }

    /// The first half of a step: handle interrupts; a halted CPU idles for 4
    /// cycles. Returns whether an instruction is to be executed next (by
    /// `finish_step`).
    pub fn begin_step(&mut self) -> (run: bool)
        requires
            step_ready(old(self)@),
        ensures
            (final(self)@, run) == begin_step_spec(old(self)@),
            final(self)@.wf(),
            run ==> final(self)@.cycles <= old(self)@.cycles + 20,
            run ==> final(self)@.tima_counter == old(self)@.tima_counter,
            run ==> final(self)@.ppu_dots == old(self)@.ppu_dots,
    {
        // Interrupts first: this can dispatch, and wakes the CPU from HALT.
        self.handle_interrupts();
        if self.halted {
            self.cycles += 4;
            self.step_devices(4);
            return false;
        }
        true
    }

    /// The second half of a step: fetch and execute one instruction, then run
    /// the timer and the PPU for the cycles it took.
    pub fn finish_step(&mut self)
        requires
            old(self)@.wf(),
            old(self)@.cycle_headroom(),
            old(self)@.tima_counter + 24 <= u32::MAX,
            old(self)@.ppu_dots + 24 <= u32::MAX,
            !is_illegal_opcode(next_opcode(old(self)@)),
        ensures
            final(self)@ == finish_step_spec(old(self)@),
            final(self)@.wf(),
    {
        // EI enables interrupts after the next instruction: if an earlier EI
        // armed it, this is that instruction, so IME turns on once it is done,
        // unless the instruction itself cancelled the request (DI, RETI).
        let enable_ime = self.ime_pending;

        let before = self.cycles;
        let opcode = self.fetch_byte();
        self.execute(opcode);

        if enable_ime && self.ime_pending {
            self.interrupts_enabled = true;
            self.ime_pending = false;
        }

        let elapsed = (self.cycles - before) as u32;
        self.step_devices(elapsed);
    }

    /// Whether the opcode at PC is one the CPU does not implement.
    pub fn next_opcode_is_undefined(&self) -> (r: bool)
        requires
            self@.wf(),
        ensures
            r == is_illegal_opcode(next_opcode(self@)),
    {
        let op = self.memory.read_byte(self.pc);
        op == 0xD3 || op == 0xDB || op == 0xDD || op == 0xE3 || op == 0xE4 || op == 0xEB || op == 0xEC
            || op == 0xED || op == 0xF4 || op == 0xFC || op == 0xFD
    }

    /// Whether the cycle, timer and PPU counters have room for another step.
    pub fn counters_have_room(&self) -> (r: bool)
        ensures
            r == (self@.cycles + 44 <= u64::MAX && self@.tima_counter + 24 <= u32::MAX
                && self@.ppu_dots + 24 <= u32::MAX),
    {
        self.cycles <= u64::MAX - 44 && self.tima_counter <= u32::MAX - 24 && self.ppu_dots
            <= u32::MAX - 24
    }

    /// Execute one step: handle interrupts, then one instruction (or one idle
    /// tick while halted), then the timer and the PPU.
    pub fn step(&mut self)
        requires
            step_ready(old(self)@),
            step_defined(old(self)@),
        ensures
            final(self)@ == step_spec(old(self)@),
            final(self)@.wf(),
    {
        if self.begin_step() {
            self.finish_step();
        }
    }
}

} // verus!
