use vstd::prelude::*;
use crate::cpu::Cpu;
use crate::isa::{interrupt_dispatches, interrupt_spec, lemma_interrupt_priority, request_spec};
use crate::model::{lemma_wrap16, REG_IF};

verus! {

impl Cpu {
    /// Request an interrupt by setting its IF (0xFF0F) bit: 0 = VBlank ... 4 = Joypad.
    pub fn request_interrupt(&mut self, bit: u8)
        requires
            old(self)@.wf(),
            bit < 8,
        ensures
            final(self)@ == old(self)@.with_mem(request_spec(old(self)@.mem, bit)),
            final(self)@.wf(),
    {
        let iflag = self.memory.read_byte(0xFF0F);
        self.memory.write_byte(0xFF0F, iflag | (1 << bit));
    }

    /// Check for and dispatch a pending interrupt. Runs before each fetch.
    pub fn handle_interrupts(&mut self)
        requires
            old(self)@.wf(),
            interrupt_dispatches(old(self)@) ==> old(self)@.cycles + 20 <= u64::MAX,
        ensures
            final(self)@ == interrupt_spec(old(self)@),
            final(self)@.wf(),
    {
        let ie = self.memory.read_byte(0xFFFF);
        let iflag = self.memory.read_byte(0xFF0F);
        let pending = ie & iflag & 0x1F;
        if pending == 0 {
            return;
        }
        // A pending interrupt wakes the CPU from HALT, even with IME off.
        self.halted = false;
        if !self.interrupts_enabled {
            return;
        }
        // Highest priority is the lowest set bit (VBlank = 0 wins over Joypad = 4).
        proof {
            assert(pending < 32) by (bit_vector)
                requires
                    pending == ie & iflag & 0x1F,
            ;
            lemma_interrupt_priority(pending);
        }
        let bit = pending.trailing_zeros() as u8;
        // Acknowledge: clear the request and turn IME off for the handler.
        self.memory.write_byte(0xFF0F, iflag & !(1 << bit));
        self.interrupts_enabled = false;
        // Hardware CALL: push PC, jump to the vector.
        proof {
            lemma_wrap16(self.sp, 2);
        }
        self.sp = self.sp.wrapping_sub(2);
        self.memory.write_word(self.sp, self.pc);
        self.pc = 0x0040 + (bit as u16) * 8;
        self.cycles += 20;
    }
}

} // verus!
