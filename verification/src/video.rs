//! The picture processing unit: tile fetches, scanline rendering, sprites,
//! and the LY/STAT timing, as functions of the machine state.
use vstd::prelude::*;
use crate::isa::{request_spec, signed8};
use crate::memory::MemState;
use crate::model::{CpuState, SCREEN_WIDTH, bit_of};
use crate::tiles::{Rgb, dmg_rgb_spec, palette_shade, tile_row_spec};
use crate::sprites::{lemma_render_sprites_dots, render_sprites_spec};

verus! {

/// LCDC: LCD control.
pub const REG_LCDC: u16 = 0xFF40;

/// STAT: LCD status (bits 0-1 mode, bit 2 LY=LYC, bits 3-6 interrupt enables).
pub const REG_STAT: u16 = 0xFF41;

/// SCY: background scroll Y.
pub const REG_SCY: u16 = 0xFF42;

/// SCX: background scroll X.
pub const REG_SCX: u16 = 0xFF43;

/// LY: the current scanline.
pub const REG_LY: u16 = 0xFF44;

/// LYC: the scanline compared with LY.
pub const REG_LYC: u16 = 0xFF45;

/// BGP: DMG background palette.
pub const REG_BGP: u16 = 0xFF47;

/// OBP0: DMG object palette 0.
pub const REG_OBP0: u16 = 0xFF48;

/// OBP1: DMG object palette 1.
pub const REG_OBP1: u16 = 0xFF49;

/// WY: window top.
pub const REG_WY: u16 = 0xFF4A;

/// WX: window left plus 7.
pub const REG_WX: u16 = 0xFF4B;

/// Dots (base-speed cycles) per scanline.
pub const DOTS_PER_LINE: u32 = 456;

/// Address of the tile-map entry covering map pixel (`px_x`, `px_y`).
pub open spec fn map_entry_addr(map_base: u16, px_x: u16, px_y: u16) -> u16 {
    (map_base + ((px_y / 8) % 32) * 32 + (px_x / 8) % 32) as u16
}

/// Address of BG/window tile `tile_id`: unsigned from 0x8000 when LCDC bit 4
/// is set, otherwise signed from 0x9000.
pub open spec fn bg_tile_addr(tile_id: u8, lcdc: u8) -> int {
    if lcdc & 0x10 != 0 {
        0x8000 + tile_id * 16
    } else {
        0x9000 + signed8(tile_id) * 16
    }
}

/// DMG: color id (0-3) of map pixel (`px_x`, `px_y`) of the tile map at `map_base`.
pub open spec fn tile_pixel_spec(m: MemState, map_base: u16, px_x: u16, px_y: u16, lcdc: u8) -> u8 {
    let tile_id = m.read(map_entry_addr(map_base, px_x, px_y));
    let row_addr = bg_tile_addr(tile_id, lcdc) + (px_y % 8) * 2;
    tile_row_spec(m.read(row_addr as u16), m.read((row_addr + 1) as u16))[(px_x % 8) as int]
}

/// CGB: (rgb, color id, BG priority) of a map pixel, honoring the tile's
/// attribute byte in VRAM bank 1: palette (bits 0-2), tile bank (bit 3),
/// X flip (bit 5), Y flip (bit 6), priority (bit 7).
pub open spec fn cgb_tile_pixel_spec(m: MemState, map_base: u16, px_x: u16, px_y: u16, lcdc: u8) -> (
    Rgb,
    u8,
    bool,
) {
    let map_addr = map_entry_addr(map_base, px_x, px_y);
    let tile_id = m.vram(0, map_addr);
    let attr = m.vram(1, map_addr);
    let palette = attr & 0x07;
    let bank = (attr >> 3u8) & 1;
    let row: int = if attr & 0x40 != 0 {
        7 - px_y % 8
    } else {
        (px_y % 8) as int
    };
    let col: int = if attr & 0x20 != 0 {
        7 - px_x % 8
    } else {
        (px_x % 8) as int
    };
    let row_addr = bg_tile_addr(tile_id, lcdc) + row * 2;
    let color = tile_row_spec(m.vram(bank as int, row_addr as u16), m.vram(bank as int, (row_addr + 1) as u16))[col];
    (m.bg_color(palette as int, color as int), color, attr & 0x80 != 0)
}

/// The map, and the coordinates in it, of screen pixel `x` of line `ly`: the
/// window where it is enabled (LCDC bit 5) and has begun (top-left at screen
/// (WX-7, WY); it does not scroll), otherwise the background scrolled by (SCX, SCY).
pub open spec fn bg_source(m: MemState, ly: u8, x: int) -> (u16, u16, u16) {
    let lcdc = m.read(REG_LCDC);
    let wy = m.read(REG_WY);
    let wx = m.read(REG_WX);
    let scx = m.read(REG_SCX);
    let scy = m.read(REG_SCY);
    let bg_map: u16 = if lcdc & 0x08 != 0 {
        0x9C00
    } else {
        0x9800
    };
    let win_map: u16 = if lcdc & 0x40 != 0 {
        0x9C00
    } else {
        0x9800
    };
    if lcdc & 0x20 != 0 && ly >= wy && x + 7 >= wx {
        (win_map, (x + 7 - wx) as u16, (ly - wy) as u16)
    } else {
        (bg_map, ((x + scx) % 256) as u16, ((ly + scy) % 256) as u16)
    }
}

/// (rgb, color id, BG priority) of screen pixel `x` of line `ly`.
pub open spec fn bg_pixel(m: MemState, ly: u8, x: int) -> (Rgb, u8, bool) {
    let lcdc = m.read(REG_LCDC);
    let (map, mx, my) = bg_source(m, ly, x);
    if m.cgb {
        cgb_tile_pixel_spec(m, map, mx, my, lcdc)
    } else {
        let c = tile_pixel_spec(m, map, mx, my, lcdc);
        (dmg_rgb_spec(palette_shade(m.read(REG_BGP), c)), c, false)
    }
}

/// Whether the background of a line is blanked: DMG with LCDC bit 0 clear.
pub open spec fn bg_blanked(m: MemState) -> bool {
    !m.cgb && m.read(REG_LCDC) & 0x01 == 0
}

/// The state after rendering the background and window of line `ly` into
/// row `ly` of the framebuffer, recording each pixel's color id and priority.
pub open spec fn render_scanline_spec(s: CpuState, ly: u8) -> CpuState {
    let base = ly as int * SCREEN_WIDTH as int;
    if bg_blanked(s.mem) {
        CpuState {
            fb: Seq::new(
                s.fb.len(),
                |i: int|
                    if base <= i < base + SCREEN_WIDTH {
                        dmg_rgb_spec(0)
                    } else {
                        s.fb[i]
                    },
            ),
            bg_color: Seq::new(SCREEN_WIDTH as nat, |i: int| 0u8),
            bg_prio: Seq::new(SCREEN_WIDTH as nat, |i: int| false),
            ..s
        }
    } else {
        CpuState {
            fb: Seq::new(
                s.fb.len(),
                |i: int|
                    if base <= i < base + SCREEN_WIDTH {
                        bg_pixel(s.mem, ly, i - base).0
                    } else {
                        s.fb[i]
                    },
            ),
            bg_color: Seq::new(SCREEN_WIDTH as nat, |i: int| bg_pixel(s.mem, ly, i).1),
            bg_prio: Seq::new(SCREEN_WIDTH as nat, |i: int| bg_pixel(s.mem, ly, i).2),
            ..s
        }
    }
}

/// The PPU mode for line `ly` at dot `dots`: 1 VBlank, 2 OAM scan, 3 drawing, 0 HBlank.
pub open spec fn ppu_mode(ly: u8, dots: u32) -> u8 {
    if ly >= 144 {
        1
    } else if dots < 80 {
        2
    } else if dots < 252 {
        3
    } else {
        0
    }
}

/// The STAT enable bit for entering `mode` (none for mode 3).
pub open spec fn stat_enable_mask(mode: u8) -> u8 {
    if mode == 0 {
        0x08
    } else if mode == 2 {
        0x20
    } else if mode == 1 {
        0x10
    } else {
        0
    }
}

/// The state after recomputing STAT's mode and LY=LYC bits (bits 3-7 kept),
/// requesting the STAT interrupt (IF bit 1) on a rising edge: entering a mode
/// whose enable bit is set, or LY becoming equal to LYC with bit 6 set.
pub open spec fn update_stat_spec(s: CpuState) -> CpuState {
    let ly = s.mem.read(REG_LY);
    let mode = ppu_mode(ly, s.ppu_dots);
    let coincidence = ly == s.mem.read(REG_LYC);
    let old_stat = s.mem.read(REG_STAT);
    let new_stat = (old_stat & !7u8) | mode | ((bit_of(coincidence) as u8) << 2u8);
    let m1 = s.mem.write(REG_STAT, new_stat);
    let fire = (mode != old_stat & 0x03 && old_stat & stat_enable_mask(mode) != 0) || (coincidence
        && !(old_stat & 0x04 != 0) && old_stat & 0x40 != 0);
    if fire {
        s.with_mem(request_spec(m1, 1))
    } else {
        s.with_mem(m1)
    }
}

/// The state after one full scanline has elapsed: LY advances (153 wraps to
/// 0); reaching line 144 requests VBlank (IF bit 0); a visible line that is
/// starting is rendered (background, window, then sprites) with the registers
/// as they stand at its start.
pub open spec fn scanline_done(s: CpuState) -> CpuState {
    let ly = s.mem.read(REG_LY);
    let next: u8 = if ly >= 153 {
        0
    } else {
        (ly + 1) as u8
    };
    let s1 = s.with_mem(s.mem.write(REG_LY, next));
    let s2 = if next == 144 {
        s1.with_mem(request_spec(s1.mem, 0))
    } else {
        s1
    };
    if next < 144 {
        render_sprites_spec(render_scanline_spec(s2, next), next)
    } else {
        s2
    }
}

/// `n` scanlines elapsed.
pub open spec fn scanlines_done(s: CpuState, n: nat) -> CpuState
    decreases n,
{
    if n == 0 {
        s
    } else {
        scanline_done(scanlines_done(s, (n - 1) as nat))
    }
}

/// The PPU after `cycles` dots. With the LCD off (LCDC bit 7 clear) LY is
/// held at 0 and the dot count reset; otherwise every full 456 dots finish a
/// scanline, the remainder carries over, and STAT is brought up to date.
pub open spec fn step_ppu_spec(s: CpuState, cycles: u32) -> CpuState {
    if s.mem.read(REG_LCDC) & 0x80 == 0 {
        CpuState { ppu_dots: 0, mem: s.mem.write(REG_LY, 0), ..s }
    } else {
        let total = s.ppu_dots + cycles;
        update_stat_spec(
            CpuState {
                ppu_dots: (total % DOTS_PER_LINE as int) as u32,
                ..scanlines_done(s, (total / DOTS_PER_LINE as int) as nat)
            },
        )
    }
}

/// A scanline's effects do not depend on, nor change, the dot counter.
pub proof fn lemma_scanline_done_dots(s: CpuState, d: u32)
    ensures
        scanline_done(CpuState { ppu_dots: d, ..s }) == (CpuState { ppu_dots: d, ..scanline_done(s) }),
{
    let ly = s.mem.read(REG_LY);
    let next: u8 = if ly >= 153 {
        0
    } else {
        (ly + 1) as u8
    };
    let s1 = s.with_mem(s.mem.write(REG_LY, next));
    let s2 = if next == 144 {
        s1.with_mem(request_spec(s1.mem, 0))
    } else {
        s1
    };
    if next < 144 {
        let r = render_scanline_spec(s2, next);
        assert(render_scanline_spec(CpuState { ppu_dots: d, ..s2 }, next) == (CpuState {
            ppu_dots: d,
            ..r
        }));
        lemma_render_sprites_dots(r, d, next);
    }
}

/// Scanlines leave the CPU's registers, PC, SP and interrupt enables alone.
pub proof fn lemma_scanlines_done_keeps_cpu(s: CpuState, n: nat)
    ensures
        scanlines_done(s, n).ime == s.ime,
        scanlines_done(s, n).ime_pending == s.ime_pending,
        scanlines_done(s, n).regs == s.regs,
        scanlines_done(s, n).pc == s.pc,
        scanlines_done(s, n).sp == s.sp,
    decreases n,
{
    if n > 0 {
        lemma_scanlines_done_keeps_cpu(s, (n - 1) as nat);
    }
}

pub proof fn lemma_scanlines_done_frame(s: CpuState, n: nat)
    requires
        s.wf(),
    ensures
        scanlines_done(s, n).wf(),
        scanlines_done(s, n).ppu_dots == s.ppu_dots,
        scanlines_done(s, n).tima_counter == s.tima_counter,
        scanlines_done(s, n).cycles == s.cycles,
        scanlines_done(s, n).mem.double_speed == s.mem.double_speed,
    decreases n,
{
    if n > 0 {
        lemma_scanlines_done_frame(s, (n - 1) as nat);
    }
}

} // verus!
