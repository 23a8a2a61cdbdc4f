use vstd::prelude::*;
use crate::bits::lemma_u8_masks;
use crate::cpu::Cpu;
use crate::model::lemma_wrap16;
use crate::memory::law_write_frame;
use crate::timer::{REG_DIV, REG_TAC, lemma_tima_ticks_wf, tima_tick, tima_ticks, timer_enabled, timer_period, timer_spec};

verus! {

impl Cpu {
    /// Advance the timer by the number of cycles the last instruction took.
    pub fn step_timer(&mut self, cycles: u32)
        requires
            old(self)@.wf(),
            timer_enabled(old(self)@.mem.read(REG_TAC)) ==> old(self)@.tima_counter + cycles
                <= u32::MAX,
        ensures
            final(self)@ == timer_spec(old(self)@, cycles),
            final(self)@.wf(),
    {
        // DIV is the high byte of the 16-bit divider: it increments once every
        // 256 cycles.
        let c16 = cycles as u16;
        proof {
            assert(c16 == cycles % 65536) by (bit_vector)
                requires
                    c16 == cycles as u16,
            ;
            lemma_wrap16(self.div_counter, c16);
        }
        let ghost m0 = self@.mem;
        self.div_counter = self.div_counter.wrapping_add(c16);
        self.memory.write_byte(0xFF04, (self.div_counter >> 8) as u8);
        proof {
            law_write_frame(m0, REG_DIV, (self.div_counter >> 8) as u8, REG_TAC);
        }
        proof {
            let d = self.div_counter;
            assert((d >> 8u16) as u8 == (d / 256) as u8) by (bit_vector);
        }

        // TIMA only runs when TAC bit 2 is set.
        let tac = self.memory.read_byte(0xFF07);
        proof {
            lemma_u8_masks(tac);
            assert(tac & 0x04 == 0 <==> !timer_enabled(tac)) by (bit_vector);
        }
        if tac & 0x04 == 0 {
            return;
        }

        // Bits 1-0 pick how many CPU cycles make one TIMA tick.
        let period: u32 = match tac & 0x03 {
            0 => 1024,
            1 => 16,
            2 => 64,
            _ => 256,
        };
        assert(period == timer_period(tac));

        let ghost m1 = self.memory@;
        let ghost total = self.tima_counter + cycles;
        let ghost start = *self;
        self.tima_counter += cycles;
        let ghost mut k: nat = 0;
        while self.tima_counter >= period
            invariant
                self@.wf(),
                m1.wf(),
                period > 0,
                self.tima_counter + k * period == total,
                self@.mem == tima_ticks(m1, k),
                self@ == (crate::model::CpuState { tima_counter: self.tima_counter, mem: self@.mem, ..start@ }),
            decreases self.tima_counter,
        {
            self.tima_counter -= period;
            let tima = self.memory.read_byte(0xFF05);
            if tima == 0xFF {
                // Overflow: reload from TMA and request the timer interrupt (bit 2).
                let tma = self.memory.read_byte(0xFF06);
                self.memory.write_byte(0xFF05, tma);
                self.request_interrupt(2);
            } else {
                self.memory.write_byte(0xFF05, tima + 1);
            }
            proof {
                assert(self@.mem == tima_tick(tima_ticks(m1, k)));
                k = k + 1;
                assert(self.tima_counter + k * period == total) by (nonlinear_arith)
                    requires
                        self.tima_counter + period + (k - 1) * period == total,
                ;
                lemma_tima_ticks_wf(m1, k);
            }
        }
        proof {
            vstd::arithmetic::div_mod::lemma_fundamental_div_mod_converse(
                total as int,
                period as int,
                k as int,
                self.tima_counter as int,
            );
        }
    }
}

} // verus!
