use vstd::prelude::*;
use vstd::string::StringExecFns;
use crate::cpu::Cpu;
use crate::model::SCREEN_PIXELS;
use crate::status::{count_lit, count_nonzero, debug_state_spec};
use crate::text::{push_bool, push_dec, push_hex2, push_hex4};
use crate::tiles::dmg_rgb_spec;

verus! {

impl Cpu {
    /// How many addresses in `lo..hi` read nonzero.
    fn count_nonzero_range(&self, lo: u16, hi: u16) -> (n: usize)
        requires
            self@.wf(),
            lo <= hi,
        ensures
            n == count_nonzero(self@.mem, lo as int, hi as int),
    {
        let mut n: usize = 0;
        let mut a = lo;
        while a < hi
            invariant
                self@.wf(),
                lo <= a <= hi,
                n == count_nonzero(self@.mem, lo as int, a as int),
                n <= a - lo,
            decreases hi - a,
        {
            if self.memory.read_byte(a) != 0 {
                n += 1;
            }
            a += 1;
        }
        n
    }

    /// How many framebuffer pixels are not the blank (lightest) shade.
    fn count_lit_pixels(&self) -> (n: usize)
        requires
            self@.wf(),
        ensures
            n == count_lit(self@.fb, SCREEN_PIXELS as int),
    {
        let mut n: usize = 0;
        let mut i: usize = 0;
        while i < SCREEN_PIXELS
            invariant
                self@.wf(),
                i <= SCREEN_PIXELS,
                n == count_lit(self@.fb, i as int),
                n <= i,
            decreases SCREEN_PIXELS - i,
        {
            let p = self.framebuffer[i];
            if p.0 != 224 || p.1 != 248 || p.2 != 208 {
                n += 1;
            }
            i += 1;
        }
        n
    }

    /// A human-readable one-line snapshot of the CPU and key hardware state.
    /// Returns the string (the caller decides whether to print, log or assert).
    pub fn debug_state(&self) -> (r: String)
        requires
            self@.wf(),
        ensures
            r@ == debug_state_spec(self@),
    {
        // Occupancy: VRAM split so it shows where content is.
        let tiledata_nz = self.count_nonzero_range(0x8000, 0x9800);
        let map1_nz = self.count_nonzero_range(0x9800, 0x9C00);  // BG map (or window if LCDC bit 6 = 0)
        let map2_nz = self.count_nonzero_range(0x9C00, 0xA000);  // window map (or BG if LCDC bit 3 = 1)
        let fb_nz = self.count_lit_pixels();

        let mut out = String::from_str("A:");
        push_hex2(&mut out, self.registers.a);
        out.append(" F:");
        push_hex2(&mut out, self.registers.f);
        out.append("(");
        // F decoded into letters: the flag's letter if set, '-' if clear.
        out.append(if self.registers.flag_zero() { "Z" } else { "-" });
        out.append(if self.registers.flag_subtract() { "N" } else { "-" });
        out.append(if self.registers.flag_half_carry() { "H" } else { "-" });
        out.append(if self.registers.flag_carry() { "C" } else { "-" });
        out.append(") B:");
        push_hex2(&mut out, self.registers.b);
        out.append(" C:");
        push_hex2(&mut out, self.registers.c);
        out.append(" D:");
        push_hex2(&mut out, self.registers.d);
        out.append(" E:");
        push_hex2(&mut out, self.registers.e);
        out.append(" H:");
        push_hex2(&mut out, self.registers.h);
        out.append(" L:");
        push_hex2(&mut out, self.registers.l);
        out.append(" SP:");
        push_hex4(&mut out, self.sp);
        out.append(" PC:");
        push_hex4(&mut out, self.pc);
        out.append(" | LCDC:");
        push_hex2(&mut out, self.memory.read_byte(0xFF40));
        out.append(" STAT:");
        push_hex2(&mut out, self.memory.read_byte(0xFF41));
        out.append(" LY:");
        push_hex2(&mut out, self.memory.read_byte(0xFF44));
        out.append(" IE:");
        push_hex2(&mut out, self.memory.read_byte(0xFFFF));
        out.append(" IF:");
        push_hex2(&mut out, self.memory.read_byte(0xFF0F));
        out.append(" IME:");
        push_bool(&mut out, self.interrupts_enabled);
        out.append(" | SCY:");
        push_hex2(&mut out, self.memory.read_byte(0xFF42));
        out.append(" SCX:");
        push_hex2(&mut out, self.memory.read_byte(0xFF43));
        out.append(" BGP:");
        push_hex2(&mut out, self.memory.read_byte(0xFF47));
        out.append(" WY:");
        push_hex2(&mut out, self.memory.read_byte(0xFF4A));
        out.append(" WX:");
        push_hex2(&mut out, self.memory.read_byte(0xFF4B));
        out.append(" | tiledata_nz:");
        push_dec(&mut out, tiledata_nz);
        out.append(" map@9800_nz:");
        push_dec(&mut out, map1_nz);
        out.append(" map@9C00_nz:");
        push_dec(&mut out, map2_nz);
        out.append(" fb_nz:");
        push_dec(&mut out, fb_nz);
        out
    }
}

} // verus!
