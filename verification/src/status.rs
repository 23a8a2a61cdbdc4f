//! A one-line text snapshot of the CPU and key hardware registers.
use vstd::prelude::*;
use crate::memory::MemState;
use crate::model::{CpuState, REG_IE, REG_IF, SCREEN_PIXELS};
use crate::text::{dec, hex2, hex4};
use crate::tiles::{Rgb, dmg_rgb_spec};
use crate::video::{REG_BGP, REG_LCDC, REG_LY, REG_SCX, REG_SCY, REG_STAT, REG_WX, REG_WY};

verus! {

/// How many addresses in `lo..hi` read nonzero.
pub open spec fn count_nonzero(m: MemState, lo: int, hi: int) -> nat
    decreases hi - lo,
{
    if hi <= lo {
        0
    } else {
        count_nonzero(m, lo, hi - 1) + if m.read((hi - 1) as u16) != 0 {
            1nat
        } else {
            0nat
        }
    }
}

/// How many of the first `n` pixels differ from the blank (lightest) shade.
pub open spec fn count_lit(fb: Seq<Rgb>, n: int) -> nat
    decreases n,
{
    if n <= 0 {
        0
    } else {
        count_lit(fb, n - 1) + if fb[n - 1] != dmg_rgb_spec(0) {
            1nat
        } else {
            0nat
        }
    }
}

/// A flag's letter when set, `-` when clear.
pub open spec fn flag_text(set: bool, letter: Seq<char>) -> Seq<char> {
    if set {
        letter
    } else {
        "-"@
    }
}

/// The snapshot: registers with F decoded into flag letters, SP and PC, the
/// LCD and interrupt registers, the scroll/palette/window registers, and how
/// many bytes of tile data and of each tile map are nonzero and how many
/// framebuffer pixels are not blank.
pub open spec fn debug_state_spec(s: CpuState) -> Seq<char> {
    let r = s.regs;
    let m = s.mem;
    "A:"@ + hex2(r.a) + " F:"@ + hex2(r.f) + "("@ + flag_text(r.zf(), "Z"@) + flag_text(
        r.nf(),
        "N"@,
    ) + flag_text(r.hf(), "H"@) + flag_text(r.cf(), "C"@) + ") B:"@ + hex2(r.b) + " C:"@ + hex2(
        r.c,
    ) + " D:"@ + hex2(r.d) + " E:"@ + hex2(r.e) + " H:"@ + hex2(r.h) + " L:"@ + hex2(r.l)
        + " SP:"@ + hex4(s.sp) + " PC:"@ + hex4(s.pc) + " | LCDC:"@ + hex2(m.read(REG_LCDC))
        + " STAT:"@ + hex2(m.read(REG_STAT)) + " LY:"@ + hex2(m.read(REG_LY)) + " IE:"@ + hex2(
        m.read(REG_IE),
    ) + " IF:"@ + hex2(m.read(REG_IF)) + " IME:"@ + (if s.ime {
        "true"@
    } else {
        "false"@
    }) + " | SCY:"@ + hex2(m.read(REG_SCY)) + " SCX:"@ + hex2(m.read(REG_SCX)) + " BGP:"@ + hex2(
        m.read(REG_BGP),
    ) + " WY:"@ + hex2(m.read(REG_WY)) + " WX:"@ + hex2(m.read(REG_WX)) + " | tiledata_nz:"@
        + dec(count_nonzero(m, 0x8000, 0x9800)) + " map@9800_nz:"@ + dec(
        count_nonzero(m, 0x9800, 0x9C00),
    ) + " map@9C00_nz:"@ + dec(count_nonzero(m, 0x9C00, 0xA000)) + " fb_nz:"@ + dec(
        count_lit(s.fb, SCREEN_PIXELS as int),
    )
}

} // verus!
