use vstd::prelude::*;
use crate::bits::lemma_u8_masks;
use crate::cpu::Cpu;
use crate::model::{CpuState, SCREEN_PIXELS, SCREEN_WIDTH};
use crate::sprites::{
    OAM_SPRITES, higher_priority, last_visible, lemma_last_visible_is_top, lemma_line_sprites_full,
    lemma_line_sprites_props, lemma_priority_strict_total, lemma_priority_transitive,
    lemma_top_sprite_same_members, line_sprites, no_duplicates, oam_byte, render_sprites_spec,
    sprite_color_at, sprite_height, sprite_on_line, sprite_pixel, sprites_draw_nothing, top_sprite,
};
use crate::tiles::{Rgb, apply_palette, decode_tile_row, dmg_rgb};

verus! {

/// Sprite pixels depend on memory and the line's BG info, not on the framebuffer.
proof fn lemma_sprite_pixel_ignores_fb(s1: CpuState, s2: CpuState, ly: u8, i: u16, sx: int)
    requires
        s1.mem == s2.mem,
        s1.bg_color == s2.bg_color,
        s1.bg_prio == s2.bg_prio,
    ensures
        sprite_pixel(s1, ly, i, sx) == sprite_pixel(s2, ly, i, sx),
{
}

impl Cpu {
    /// Byte `k` of OAM entry `i`.
    fn oam(&self, i: u16, k: u16) -> (r: u8)
        requires
            self@.wf(),
            i < OAM_SPRITES,
            k < 4,
        ensures
            r == oam_byte(self@.mem, i as int, k as int),
    {
        self.memory.read_byte(0xFE00 + i * 4 + k)
    }

    /// Whether sprite `a` is drawn over sprite `b`: CGB, lower OAM index; DMG,
    /// smaller X, then lower index.
    fn sprite_wins(&self, cgb: bool, a: u16, b: u16) -> (r: bool)
        requires
            self@.wf(),
            a < OAM_SPRITES,
            b < OAM_SPRITES,
        ensures
            r == higher_priority(self@.mem, cgb, a, b),
    {
        if cgb {
            a < b
        } else {
            let ax = self.oam(a, 1);
            let bx = self.oam(b, 1);
            ax < bx || (ax == bx && a < b)
        }
    }

    /// Draw sprite `i`'s pixels on line `ly`.
    fn draw_sprite(&mut self, ly: u8, i: u16, lcdc: u8, height: i16, cgb: bool)
        requires
            old(self)@.wf(),
            ly < 144 || forall|sx: int| !(#[trigger] sprite_pixel(old(self)@, ly, i, sx) is Some),
            i < OAM_SPRITES,
            lcdc == old(self)@.mem.read(0xFF40),
            height == sprite_height(lcdc),
            cgb == old(self)@.mem.cgb,
        ensures
            final(self)@ == (CpuState { fb: final(self)@.fb, ..old(self)@ }),
            final(self)@.fb.len() == SCREEN_PIXELS,
            forall|idx: int|
                0 <= idx < SCREEN_PIXELS ==> #[trigger] final(self)@.fb[idx] == {
                    let base = ly as int * SCREEN_WIDTH as int;
                    if base <= idx < base + SCREEN_WIDTH && sprite_pixel(old(self)@, ly, i, idx - base) is Some {
                        sprite_pixel(old(self)@, ly, i, idx - base).unwrap()
                    } else {
                        old(self)@.fb[idx]
                    }
                },
    {
        let ghost s0 = self@;
        let ghost base = ly as int * 160;
        let oam_y = self.oam(i, 0) as i16;
        let oam_x = self.oam(i, 1) as i16;
        let tile = self.oam(i, 2);
        let flags = self.oam(i, 3);
        proof {
            lemma_u8_masks(lcdc);
            lemma_u8_masks(flags);
            lemma_u8_masks(tile);
        }

        let top = oam_y - 16;
        let left = oam_x - 8;

        // Does this scanline fall within the sprite's vertical span?
        let mut row = ly as i16 - top;
        if row < 0 || row >= height {
            proof {
                assert forall|idx: int| 0 <= idx < SCREEN_PIXELS implies #[trigger] self@.fb[idx] == {
                    if base <= idx < base + SCREEN_WIDTH && sprite_pixel(s0, ly, i, idx - base) is Some {
                        sprite_pixel(s0, ly, i, idx - base).unwrap()
                    } else {
                        s0.fb[idx]
                    }
                } by {
                    assert(!sprite_on_line(s0.mem, i as int, ly, height as int));
                }
            }
            return;
        }
        if flags & 0x40 != 0 {
            row = height - 1 - row;  // Y flip
        }
        let row_u = row as u16;
        assert(row_u < 16);
        assert(tile & 0xFE <= 254) by (bit_vector);

        // 8x16: the low bit of the tile index is ignored; rows 0-7 use the
        // first tile, rows 8-15 the next.
        let tile_index: u8 = if height == 16 {
            (tile & 0xFE) + (row_u / 8) as u8
        } else {
            tile
        };
        let row_in_tile = row_u % 8;

        // Sprites always use unsigned 0x8000 tile addressing. In CGB mode
        // flags bit 3 picks the VRAM bank holding the tile.
        proof {
            assert((flags >> 3u8) & 1 < 2) by (bit_vector);
        }
        let tile_bank: usize = if cgb {
            ((flags >> 3) & 1) as usize
        } else {
            0
        };
        let addr = 0x8000 + tile_index as u16 * 16 + row_in_tile * 2;
        let low = self.memory.vram_read(tile_bank, addr);
        let high = self.memory.vram_read(tile_bank, addr + 1);
        let pixels = decode_tile_row(low, high);
        let dmg_palette = if flags & 0x10 != 0 {
            self.memory.read_byte(0xFF49)
        } else {
            self.memory.read_byte(0xFF48)
        };

        let mut col: i16 = 0;
        while col < 8
            invariant
                0 <= col <= 8,
                ly < 144 || forall|sx: int| !(#[trigger] sprite_pixel(s0, ly, i, sx) is Some),
                i < OAM_SPRITES,
                base == ly as int * 160,
                s0.wf(),
                lcdc == s0.mem.read(0xFF40),
                height == sprite_height(lcdc),
                cgb == s0.mem.cgb,
                left == oam_byte(s0.mem, i as int, 1) - 8,
                flags == oam_byte(s0.mem, i as int, 3),
                sprite_on_line(s0.mem, i as int, ly, height as int),
                forall|c: int| 0 <= c < 8 ==> pixels@[if flags & 0x20 != 0 { 7 - c } else { c }]
                    == sprite_color_at(s0.mem, ly, height as int, i, c),
                forall|c: int| 0 <= c < 8 ==> pixels@[c] < 4,
                dmg_palette == if flags & 0x10 != 0 { s0.mem.read(0xFF49) } else { s0.mem.read(0xFF48) },
                self@ == (CpuState { fb: self.framebuffer@, ..s0 }),
                self.framebuffer@.len() == SCREEN_PIXELS,
                forall|idx: int|
                    0 <= idx < SCREEN_PIXELS ==> #[trigger] self.framebuffer@[idx] == if base <= idx
                        < base + SCREEN_WIDTH && idx - base - left < col && sprite_pixel(
                        s0,
                        ly,
                        i,
                        idx - base,
                    ) is Some {
                        sprite_pixel(s0, ly, i, idx - base).unwrap()
                    } else {
                        s0.fb[idx]
                    },
            decreases 8 - col,
        {
            let px: i16 = if flags & 0x20 != 0 {
                7 - col
            } else {
                col
            };  // X flip
            let color = pixels[px as usize];
            assert(color == pixels@[px as int]);
            assert(color < 4);
            let screen_x = left + col;
            // Color 0 is transparent for sprites; skip pixels off-screen.
            if color != 0 && screen_x >= 0 && screen_x < 160 {
                // The BG covers this sprite pixel when the BG pixel is opaque
                // (color 1-3) and either the sprite is flagged behind BG or the
                // BG tile has CGB priority. In CGB, LCDC bit 0 clear disables
                // BG priority (sprites always win).
                let bg_c = self.bg_color[screen_x as usize];
                let bg_wins = bg_c != 0 && (flags & 0x80 != 0 || self.bg_prio[screen_x as usize])
                    && (!cgb || lcdc & 0x01 != 0);
                if !bg_wins {
                    let rgb = if cgb {
                        // CGB: flags bits 0-2 select one of 8 OBJ palettes.
                        assert(flags & 0x07 < 8) by (bit_vector);
                        self.memory.cgb_obj_color((flags & 0x07) as usize, color as usize)
                    } else {
                        // DMG: flags bit 4 picks OBP0/OBP1.
                        dmg_rgb(apply_palette(dmg_palette, color))
                    };
                    assert(sprite_pixel(s0, ly, i, screen_x as int) == Some(rgb));
                    self.framebuffer.set(ly as usize * 160 + screen_x as usize, rgb);
                } else {
                    assert(sprite_pixel(s0, ly, i, screen_x as int) is None);
                }
            } else {
                assert(sprite_pixel(s0, ly, i, screen_x as int) is None);
            }
            col += 1;
        }
        proof {
            assert forall|idx: int| 0 <= idx < SCREEN_PIXELS implies #[trigger] self@.fb[idx] == {
                if base <= idx < base + SCREEN_WIDTH && sprite_pixel(s0, ly, i, idx - base) is Some {
                    sprite_pixel(s0, ly, i, idx - base).unwrap()
                } else {
                    s0.fb[idx]
                }
            } by {
                if base <= idx < base + SCREEN_WIDTH && sprite_pixel(s0, ly, i, idx - base) is Some {
                    assert(idx - base - left < 8);
                }
            }
        }
    }

    /// Draw the sprites (OAM objects) that overlap scanline `ly`, on top of
    /// the background and window.
    pub fn render_sprites(&mut self, ly: u8)
        requires
            old(self)@.wf(),
            ly < 144 || sprites_draw_nothing(old(self)@, ly),
        ensures
            final(self)@ == render_sprites_spec(old(self)@, ly),
            final(self)@.wf(),
    {
        let ghost s0 = self@;
        let lcdc = self.memory.read_byte(0xFF40);
        proof {
            lemma_u8_masks(lcdc);
        }
        if lcdc & 0x02 == 0 {
            return;  // LCDC bit 1: sprites disabled
        }
        let height: i16 = if lcdc & 0x04 != 0 {
            16
        } else {
            8
        };  // LCDC bit 2: 8x16 or 8x8
        let cgb = self.memory.is_cgb();
        let ghost h = height as int;

        // Collect the first 10 sprites (in OAM order) that overlap this line:
        // the hardware draws at most 10 per line.
        let mut line: Vec<u16> = Vec::with_capacity(10);
        let mut i: u16 = 0;
        while i < 40
            invariant_except_break
                i <= 40,
                line@ == line_sprites(s0.mem, ly, h, i as nat),
                line@.len() < 10,
            invariant
                self@ == s0,
                s0.wf(),
                h == height,
                height == 8 || height == 16,
                ly < 144 || sprites_draw_nothing(s0, ly),
            ensures
                line@ == line_sprites(s0.mem, ly, h, OAM_SPRITES as nat),
            decreases 40 - i,
        {
            let top = self.oam(i, 0) as i16 - 16;
            if (ly as i16) >= top && (ly as i16) < top + height {
                line.push(i);
                if line.len() == 10 {
                    proof {
                        lemma_line_sprites_full(s0.mem, ly, h, (i + 1) as nat, OAM_SPRITES as nat);
                    }
                    break;
                }
            }
            i += 1;
        }
        proof {
            lemma_line_sprites_props(s0.mem, ly, h, OAM_SPRITES as nat);
        }

        // Order back-to-front so the highest-priority sprite is drawn last.
        let mut order: Vec<u16> = Vec::with_capacity(10);
        let mut j: usize = 0;
        while j < line.len()
            invariant
                self@ == s0,
                s0.wf(),
                cgb == s0.mem.cgb,
                j <= line@.len(),
                line@.len() <= 10,
                forall|a: int, b: int| 0 <= a < b < line@.len() ==> line@[a] < line@[b],
                forall|a: int| 0 <= a < line@.len() ==> line@[a] < OAM_SPRITES,
                order@.len() == j,
                forall|a: int| 0 <= a < order@.len() ==> order@[a] < OAM_SPRITES,
                forall|k: u16| order@.contains(k) <==> line@.subrange(0, j as int).contains(k),
                forall|a: int, b: int|
                    0 <= a < b < order@.len() ==> higher_priority(
                        s0.mem,
                        cgb,
                        #[trigger] order@[b],
                        #[trigger] order@[a],
                    ),
            decreases line@.len() - j,
        {
            let v = line[j];
            assert(!order@.contains(v)) by {
                if order@.contains(v) {
                    let q = choose|q: int| 0 <= q < j && line@.subrange(0, j as int)[q] == v;
                    assert(line@[q] == v);
                }
            }
            let mut p: usize = 0;
            while p < order.len() && !self.sprite_wins(cgb, order[p], v)
                invariant
                    self@ == s0,
                    s0.wf(),
                    p <= order@.len(),
                    v < OAM_SPRITES,
                    forall|a: int| 0 <= a < order@.len() ==> order@[a] < OAM_SPRITES,
                    forall|q: int| 0 <= q < p ==> !higher_priority(s0.mem, cgb, #[trigger] order@[q], v),
                decreases order@.len() - p,
            {
                p += 1;
            }
            let ghost old_order = order@;
            order.insert(p, v);
            proof {
                assert(order@ == old_order.insert(p as int, v));
                assert forall|q: int| 0 <= q < p implies higher_priority(s0.mem, cgb, v, #[trigger] old_order[q]) by {
                    assert(old_order.contains(old_order[q]));
                    lemma_priority_strict_total(s0.mem, cgb, v, old_order[q]);
                }
                assert forall|a: int, b: int| 0 <= a < b < order@.len() implies higher_priority(
                    s0.mem,
                    cgb,
                    #[trigger] order@[b],
                    #[trigger] order@[a],
                ) by {
                    if b < p {
                        assert(order@[a] == old_order[a] && order@[b] == old_order[b]);
                    } else if b == p {
                        assert(order@[a] == old_order[a]);
                    } else if a == p {
                        assert(order@[b] == old_order[b - 1]);
                        if b - 1 > p {
                            assert(higher_priority(s0.mem, cgb, old_order[b - 1], old_order[p as int]));
                            lemma_priority_transitive(s0.mem, cgb, old_order[b - 1], old_order[p as int], v);
                        }
                    } else if a < p {
                        assert(order@[a] == old_order[a] && order@[b] == old_order[b - 1]);
                    } else {
                        assert(order@[a] == old_order[a - 1] && order@[b] == old_order[b - 1]);
                    }
                }
                let sub1 = line@.subrange(0, j + 1);
                assert forall|k: u16| order@.contains(k) <==> sub1.contains(k) by {
                    if order@.contains(k) {
                        let q = choose|q: int| 0 <= q < order@.len() && order@[q] == k;
                        if q < p {
                            assert(old_order[q] == k);
                            assert(old_order.contains(k));
                            let r = choose|r: int| 0 <= r < j && line@.subrange(0, j as int)[r] == k;
                            assert(sub1[r] == k);
                        } else if q > p {
                            assert(old_order[q - 1] == k);
                            assert(old_order.contains(k));
                            let r = choose|r: int| 0 <= r < j && line@.subrange(0, j as int)[r] == k;
                            assert(sub1[r] == k);
                        } else {
                            assert(sub1[j as int] == k);
                        }
                    }
                    if sub1.contains(k) {
                        let r = choose|r: int| 0 <= r < sub1.len() && sub1[r] == k;
                        if r < j {
                            assert(line@.subrange(0, j as int)[r] == k);
                            assert(old_order.contains(k));
                            let q = choose|q: int| 0 <= q < old_order.len() && old_order[q] == k;
                            if q < p {
                                assert(order@[q] == k);
                            } else {
                                assert(order@[q + 1] == k);
                            }
                        } else {
                            assert(order@[p as int] == k);
                        }
                    }
                }
            }
            j += 1;
        }

        // Draw in that order.
        let ghost base = ly as int * 160;
        proof {
            if !(ly < 144) {
                let sel = line_sprites(s0.mem, ly, h, OAM_SPRITES as nat);
                assert(line@.subrange(0, line@.len() as int) =~= line@);
                assert forall|a: int, sx: int| 0 <= a < order@.len() implies !(#[trigger] sprite_pixel(
                    s0,
                    ly,
                    order@[a],
                    sx,
                ) is Some) by {
                    let k = order@[a];
                    assert(order@.contains(k));
                    let jj = choose|jj: int| 0 <= jj < line@.len() && line@[jj] == k;
                    assert(sel[jj] == k);
                }
            }
        }
        let mut n: usize = 0;
        while n < order.len()
            invariant
                n <= order@.len(),
                ly < 144 || forall|a: int, sx: int|
                    0 <= a < order@.len() ==> !(#[trigger] sprite_pixel(s0, ly, order@[a], sx) is Some),
                base == ly as int * 160,
                s0.wf(),
                lcdc == s0.mem.read(0xFF40),
                height == sprite_height(lcdc),
                cgb == s0.mem.cgb,
                forall|a: int| 0 <= a < order@.len() ==> order@[a] < OAM_SPRITES,
                self@ == (CpuState { fb: self@.fb, ..s0 }),
                self@.fb.len() == SCREEN_PIXELS,
                forall|idx: int|
                    0 <= idx < SCREEN_PIXELS ==> #[trigger] self@.fb[idx] == if base <= idx < base
                        + SCREEN_WIDTH {
                        match last_visible(s0, ly, order@.subrange(0, n as int), idx - base) {
                            Some(k) => sprite_pixel(s0, ly, k, idx - base).unwrap(),
                            None => s0.fb[idx],
                        }
                    } else {
                        s0.fb[idx]
                    },
            decreases order@.len() - n,
        {
            let ghost before = self@;
            let k = order[n];
            proof {
                if !(ly < 144) {
                    assert forall|sx: int| !(#[trigger] sprite_pixel(self@, ly, k, sx) is Some) by {
                        lemma_sprite_pixel_ignores_fb(self@, s0, ly, k, sx);
                        assert(order@[n as int] == k);
                    }
                }
            }
            self.draw_sprite(ly, k, lcdc, height, cgb);
            proof {
                let sub = order@.subrange(0, n + 1);
                assert(sub.drop_last() =~= order@.subrange(0, n as int));
                assert(sub.last() == k);
                assert forall|idx: int| 0 <= idx < SCREEN_PIXELS implies #[trigger] self@.fb[idx] == if base <= idx
                    < base + SCREEN_WIDTH {
                    match last_visible(s0, ly, sub, idx - base) {
                        Some(k) => sprite_pixel(s0, ly, k, idx - base).unwrap(),
                        None => s0.fb[idx],
                    }
                } else {
                    s0.fb[idx]
                } by {
                    lemma_sprite_pixel_ignores_fb(before, s0, ly, k, idx - base);
                }
            }
            n += 1;
        }
        proof {
            let sel = line_sprites(s0.mem, ly, h, OAM_SPRITES as nat);
            assert(order@.subrange(0, order@.len() as int) =~= order@);
            assert(line@.subrange(0, line@.len() as int) =~= line@);
            assert(no_duplicates(order@)) by {
                assert forall|a: int, b: int| 0 <= a < b < order@.len() implies order@[a] != order@[b] by {
                    lemma_priority_strict_total(s0.mem, cgb, order@[b], order@[a]);
                }
            }
            assert(no_duplicates(sel));
            let t = render_sprites_spec(s0, ly);
            assert forall|idx: int| 0 <= idx < SCREEN_PIXELS implies #[trigger] self@.fb[idx] == t.fb[idx] by {
                if base <= idx < base + SCREEN_WIDTH {
                    lemma_last_visible_is_top(s0, ly, order@, idx - base);
                    lemma_top_sprite_same_members(s0, ly, order@, sel, idx - base);
                }
            }
            assert(self@.fb =~= t.fb);
        }
    }
}

} // verus!
