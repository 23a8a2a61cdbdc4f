use vstd::prelude::*;
use crate::bits::{lemma_sign_extend_i32, lemma_u16_masks, lemma_u8_masks};
use crate::cpu::Cpu;
use crate::isa::signed8;
use crate::memory::in_vram;
use crate::model::{CpuState, SCREEN_PIXELS, SCREEN_WIDTH};
use crate::tiles::{Rgb, apply_palette, decode_tile_row, dmg_rgb, dmg_rgb_spec, palette_shade};
use crate::video::{
    lemma_scanline_done_dots, lemma_scanlines_done_frame, scanline_done, scanlines_done, step_ppu_spec,
    REG_LCDC, bg_blanked, bg_pixel, bg_source, bg_tile_addr, cgb_tile_pixel_spec, map_entry_addr,
    ppu_mode, render_scanline_spec, stat_enable_mask, tile_pixel_spec, update_stat_spec,
};

verus! {

/// Address of BG/window tile `tile_id` (LCDC bit 4 selects unsigned 0x8000
/// or signed 0x9000 addressing).
fn tile_address(tile_id: u8, lcdc: u8) -> (r: u16)
    ensures
        r == bg_tile_addr(tile_id, lcdc),
        0x8000 <= r <= 0x97F0,
{
    proof {
        lemma_sign_extend_i32(tile_id);
    }
    if lcdc & 0x10 != 0 {
        0x8000 + (tile_id as u16) * 16
    } else {
        (0x9000_i32 + (tile_id as i8 as i32) * 16) as u16
    }
}

impl Cpu {
    /// Color id (0-3) of one pixel of a tile map: `px_x`/`px_y` are
    /// coordinates in the 256x256 map space; `map_base` is 0x9800 or 0x9C00.
    /// Tile-data addressing follows LCDC bit 4 (unsigned 0x8000 vs signed 0x9000).
    pub(crate) fn tile_pixel(&self, map_base: u16, px_x: u16, px_y: u16, lcdc: u8) -> (r: u8)
        requires
            self@.wf(),
            map_base == 0x9800 || map_base == 0x9C00,
        ensures
            r == tile_pixel_spec(self@.mem, map_base, px_x, px_y, lcdc),
            r < 4,
    {
        proof {
            lemma_u16_masks(px_x / 8);
            lemma_u16_masks(px_y / 8);
        }
        let tile_col = (px_x / 8) & 31;
        let tile_row = (px_y / 8) & 31;
        let tile_id = self.memory.read_byte(map_base + tile_row * 32 + tile_col);
        let tile_addr = tile_address(tile_id, lcdc);
        let row_addr = tile_addr + (px_y % 8) * 2;
        let low = self.memory.read_byte(row_addr);
        let high = self.memory.read_byte(row_addr + 1);
        let row = decode_tile_row(low, high);
        row[(px_x % 8) as usize]
    }

    /// CGB version: (rgb, color id, BG priority) of a BG/window pixel,
    /// honoring the tile's attribute byte in VRAM bank 1 (palette, tile bank,
    /// X/Y flip, priority).
    pub(crate) fn cgb_tile_pixel(&self, map_base: u16, px_x: u16, px_y: u16, lcdc: u8) -> (r: (
        Rgb,
        u8,
        bool,
    ))
        requires
            self@.wf(),
            map_base == 0x9800 || map_base == 0x9C00,
        ensures
            r == cgb_tile_pixel_spec(self@.mem, map_base, px_x, px_y, lcdc),
            r.1 < 4,
    {
        proof {
            lemma_u16_masks(px_x / 8);
            lemma_u16_masks(px_y / 8);
        }
        let tile_col = (px_x / 8) & 31;
        let tile_row = (px_y / 8) & 31;
        let map_addr = map_base + tile_row * 32 + tile_col;

        let tile_id = self.memory.vram_read(0, map_addr);
        let attr = self.memory.vram_read(1, map_addr);
        proof {
            lemma_u8_masks(attr);
            assert((attr >> 3u8) & 1 < 2) by (bit_vector);
        }
        let palette = (attr & 0x07) as usize;
        let tile_bank = ((attr >> 3) & 1) as usize;
        let x_flip = attr & 0x20 != 0;
        let y_flip = attr & 0x40 != 0;
        let priority = attr & 0x80 != 0;

        let tile_addr = tile_address(tile_id, lcdc);

        let mut row = px_y % 8;
        if y_flip {
            row = 7 - row;
        }
        let row_addr = tile_addr + row * 2;
        let low = self.memory.vram_read(tile_bank, row_addr);
        let high = self.memory.vram_read(tile_bank, row_addr + 1);

        let mut col = (px_x % 8) as usize;
        if x_flip {
            col = 7 - col;
        }
        let color = decode_tile_row(low, high)[col];
        (self.memory.cgb_bg_color(palette, color as usize), color, priority)
    }

    /// Render one scanline (background + window) into the framebuffer.
    pub fn render_scanline(&mut self, ly: u8)
        requires
            old(self)@.wf(),
            ly < 144,
        ensures
            final(self)@ == render_scanline_spec(old(self)@, ly),
            final(self)@.wf(),
    {
        let ghost s0 = self@;
        let ghost base = ly as int * 160;
        let lcdc = self.memory.read_byte(0xFF40);
        let bgp = self.memory.read_byte(0xFF47);
        let cgb = self.memory.is_cgb();
        proof {
            lemma_u8_masks(lcdc);
        }

        // DMG only: BG disabled (LCDC bit 0) blanks the line. In CGB that bit
        // means something else and the background is always drawn.
        if !cgb && lcdc & 0x01 == 0 {
            let mut x: usize = 0;
            while x < 160
                invariant
                    x <= 160,
                    ly < 144,
                    base == ly as int * 160,
                    self@ == (CpuState {
                        fb: self.framebuffer@,
                        bg_color: self.bg_color@,
                        bg_prio: self.bg_prio@,
                        ..s0
                    }),
                    self.framebuffer@.len() == SCREEN_PIXELS,
                    self.bg_color@.len() == SCREEN_WIDTH,
                    self.bg_prio@.len() == SCREEN_WIDTH,
                    forall|i: int|
                        0 <= i < SCREEN_PIXELS ==> #[trigger] self.framebuffer@[i] == if base <= i
                            < base + x {
                            dmg_rgb_spec(0)
                        } else {
                            s0.fb[i]
                        },
                    forall|i: int|
                        0 <= i < SCREEN_WIDTH ==> #[trigger] self.bg_color@[i] == if i < x {
                            0u8
                        } else {
                            s0.bg_color[i]
                        },
                    forall|i: int|
                        0 <= i < SCREEN_WIDTH ==> #[trigger] self.bg_prio@[i] == if i < x {
                            false
                        } else {
                            s0.bg_prio[i]
                        },
                decreases 160 - x,
            {
                self.framebuffer[ly as usize * 160 + x] = dmg_rgb(0);
                self.bg_color[x] = 0;
                self.bg_prio[x] = false;
                x += 1;
            }
            proof {
                let t = render_scanline_spec(s0, ly);
                assert(self.framebuffer@ =~= t.fb);
                assert(self.bg_color@ =~= t.bg_color);
                assert(self.bg_prio@ =~= t.bg_prio);
            }
            return;
        }

        let scy = self.memory.read_byte(0xFF42);
        let scx = self.memory.read_byte(0xFF43);
        let wy = self.memory.read_byte(0xFF4A);
        let wx = self.memory.read_byte(0xFF4B);

        let window_on = lcdc & 0x20 != 0;
        let bg_map: u16 = if lcdc & 0x08 != 0 {
            0x9C00
        } else {
            0x9800
        };
        let win_map: u16 = if lcdc & 0x40 != 0 {
            0x9C00
        } else {
            0x9800
        };

        let mut x: u16 = 0;
        while x < 160
            invariant
                x <= 160,
                ly < 144,
                base == ly as int * 160,
                s0.wf(),
                !bg_blanked(s0.mem),
                cgb == s0.mem.cgb,
                lcdc == s0.mem.read(0xFF40),
                bgp == s0.mem.read(0xFF47),
                scy == s0.mem.read(0xFF42),
                scx == s0.mem.read(0xFF43),
                wy == s0.mem.read(0xFF4A),
                wx == s0.mem.read(0xFF4B),
                window_on == (lcdc & 0x20 != 0),
                bg_map == (if lcdc & 0x08 != 0 { 0x9C00u16 } else { 0x9800u16 }),
                win_map == (if lcdc & 0x40 != 0 { 0x9C00u16 } else { 0x9800u16 }),
                self@ == (CpuState {
                    fb: self.framebuffer@,
                    bg_color: self.bg_color@,
                    bg_prio: self.bg_prio@,
                    ..s0
                }),
                self.framebuffer@.len() == SCREEN_PIXELS,
                self.bg_color@.len() == SCREEN_WIDTH,
                self.bg_prio@.len() == SCREEN_WIDTH,
                forall|i: int|
                    0 <= i < SCREEN_PIXELS ==> #[trigger] self.framebuffer@[i] == if base <= i < base
                        + x {
                        bg_pixel(s0.mem, ly, i - base).0
                    } else {
                        s0.fb[i]
                    },
                forall|i: int|
                    0 <= i < SCREEN_WIDTH ==> #[trigger] self.bg_color@[i] == if i < x {
                        bg_pixel(s0.mem, ly, i).1
                    } else {
                        s0.bg_color[i]
                    },
                forall|i: int|
                    0 <= i < SCREEN_WIDTH ==> #[trigger] self.bg_prio@[i] == if i < x {
                        bg_pixel(s0.mem, ly, i).2
                    } else {
                        s0.bg_prio[i]
                    },
            decreases 160 - x,
        {
            // The window covers a pixel when enabled and past its origin
            // (top-left at screen (WX-7, WY)). The window does not scroll.
            let in_window = window_on && ly as u16 >= wy as u16 && x + 7 >= wx as u16;
            proof {
                lemma_u16_masks((x + scx as u16) as u16);
                lemma_u16_masks((ly as u16 + scy as u16) as u16);
            }
            let (map, mx, my) = if in_window {
                (win_map, x + 7 - wx as u16, ly as u16 - wy as u16)
            } else {
                (bg_map, (x + scx as u16) & 0xFF, (ly as u16 + scy as u16) & 0xFF)
            };
            assert((map, mx, my) == bg_source(s0.mem, ly, x as int));

            let (rgb, color_id, prio) = if cgb {
                self.cgb_tile_pixel(map, mx, my, lcdc)
            } else {
                let c = self.tile_pixel(map, mx, my, lcdc);
                (dmg_rgb(apply_palette(bgp, c)), c, false)
            };
            assert((rgb, color_id, prio) == bg_pixel(s0.mem, ly, x as int));
            self.bg_color[x as usize] = color_id;
            self.bg_prio[x as usize] = prio;
            self.framebuffer[ly as usize * 160 + x as usize] = rgb;
            x += 1;
        }
        proof {
            let t = render_scanline_spec(s0, ly);
            assert(self.framebuffer@ =~= t.fb);
            assert(self.bg_color@ =~= t.bg_color);
            assert(self.bg_prio@ =~= t.bg_prio);
        }
    }

    /// Advance the PPU by the dots the last instruction took.
    pub fn step_ppu(&mut self, cycles: u32)
        requires
            old(self)@.wf(),
            old(self)@.mem.read(REG_LCDC) & 0x80 != 0 ==> old(self)@.ppu_dots + cycles <= u32::MAX,
        ensures
            final(self)@ == step_ppu_spec(old(self)@, cycles),
            final(self)@.wf(),
    {
        let lcdc = self.memory.read_byte(0xFF40);
        if lcdc & 0x80 == 0 {
            // LCD off: LY held at 0, no timing, no drawing.
            self.ppu_dots = 0;
            self.memory.write_byte(0xFF44, 0);
            return;
        }
        let ghost s0 = self@;
        let ghost total = self.ppu_dots + cycles;

        // Accumulate dots for the current scanline.
        self.ppu_dots += cycles;

        // Each time a full scanline (456 dots) has elapsed...
        let ghost mut k: nat = 0;
        while self.ppu_dots >= 456
            invariant
                s0.wf(),
                self@.wf(),
                self.ppu_dots + k * 456 == total,
                self@ == (CpuState { ppu_dots: self.ppu_dots, ..scanlines_done(s0, k) }),
            decreases self.ppu_dots,
        {
            let ghost before = self@;
            self.ppu_dots -= 456;

            // ...advance to the next scanline (153 wraps to 0)...
            let ly = self.memory.read_byte(0xFF44);
            let next_ly = if ly >= 153 {
                0
            } else {
                ly + 1
            };
            self.memory.write_byte(0xFF44, next_ly);

            // ...request VBlank as it starts...
            if next_ly == 144 {
                self.request_interrupt(0);
            }

            // ...and render the line that is now starting, with the registers
            // as they stand at its start (after the previous line's HBlank),
            // so per-line raster effects land on the right line.
            if next_ly < 144 {
                self.render_scanline(next_ly);
                self.render_sprites(next_ly);
            }
            proof {
                lemma_scanlines_done_frame(s0, k);
                let sk = scanlines_done(s0, k);
                assert(before == (CpuState { ppu_dots: before.ppu_dots, ..sk }));
                lemma_scanline_done_dots(sk, self.ppu_dots);
                assert(self@ == (CpuState { ppu_dots: self.ppu_dots, ..scanline_done(sk) }));
                k = k + 1;
                assert(self.ppu_dots + k * 456 == total) by (nonlinear_arith)
                    requires
                        self.ppu_dots + 456 + (k - 1) * 456 == total,
                ;
                lemma_scanlines_done_frame(s0, k);
            }
        }
        proof {
            vstd::arithmetic::div_mod::lemma_fundamental_div_mod_converse(
                total as int,
                456,
                k as int,
                self.ppu_dots as int,
            );
        }
        self.update_stat();
    }

    /// Recompute STAT's mode and LY=LYC bits from LY and the dot position.
    pub(crate) fn update_stat(&mut self)
        requires
            old(self)@.wf(),
        ensures
            final(self)@ == update_stat_spec(old(self)@),
            final(self)@.wf(),
    {
        let ly = self.memory.read_byte(0xFF44);

        let mode: u8 = if ly >= 144 {
            1
        } else if self.ppu_dots < 80 {
            2
        } else if self.ppu_dots < 252 {
            3
        } else {
            0
        };

        let lyc = self.memory.read_byte(0xFF45);
        let coincidence = ly == lyc;
        let coincidence_bit: u8 = if coincidence {
            1
        } else {
            0
        };

        // Write bits 0-2, keeping bits 3-7 (the game's enable bits).
        let old_stat = self.memory.read_byte(0xFF41);
        let new_stat = (old_stat & !7) | mode | (coincidence_bit << 2);
        self.memory.write_byte(0xFF41, new_stat);

        // The STAT interrupt (IF bit 1) fires on rising edges.
        let prev_mode = old_stat & 0x03;
        let prev_coincidence = old_stat & 0x04 != 0;

        let mut fire = false;

        // The mode just changed: check the enable bit of the mode entered.
        if mode != prev_mode {
            let enable: u8 = match mode {
                0 => 0x08,
                2 => 0x20,
                1 => 0x10,
                _ => 0,
            };
            if old_stat & enable != 0 {
                fire = true;
            }
        }

        if coincidence && !prev_coincidence && (old_stat & 0x40 != 0) {
            fire = true;
        }

        if fire {
            self.request_interrupt(1);
        }
    }
}

} // verus!
