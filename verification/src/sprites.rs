//! Sprite (OAM object) selection and priority on a scanline.
use vstd::prelude::*;
use crate::memory::MemState;
use crate::model::{CpuState, SCREEN_WIDTH};
use crate::tiles::{Rgb, dmg_rgb_spec, palette_shade, tile_row_spec};
use crate::video::{REG_LCDC, REG_OBP0, REG_OBP1};

verus! {

/// At most this many sprites are drawn on one scanline.
pub const MAX_SPRITES_PER_LINE: usize = 10;

/// Number of sprites in OAM.
pub const OAM_SPRITES: u16 = 40;

/// Byte `k` (0 Y+16, 1 X+8, 2 tile, 3 flags) of OAM entry `i`.
pub open spec fn oam_byte(m: MemState, i: int, k: int) -> u8 {
    m.read((0xFE00 + i * 4 + k) as u16)
}

/// Sprite height: 16 with LCDC bit 2 set, else 8.
pub open spec fn sprite_height(lcdc: u8) -> int {
    if lcdc & 0x04 != 0 {
        16
    } else {
        8
    }
}

/// Whether sprite `i` spans line `ly`.
pub open spec fn sprite_on_line(m: MemState, i: int, ly: u8, h: int) -> bool {
    let top = oam_byte(m, i, 0) - 16;
    top <= ly < top + h
}

/// The first (at most 10) sprites among OAM entries 0..n that span line
/// `ly`, in OAM order.
pub open spec fn line_sprites(m: MemState, ly: u8, h: int, n: nat) -> Seq<u16>
    decreases n,
{
    if n == 0 {
        seq![]
    } else {
        let prev = line_sprites(m, ly, h, (n - 1) as nat);
        if prev.len() < MAX_SPRITES_PER_LINE && sprite_on_line(m, n - 1, ly, h) {
            prev.push((n - 1) as u16)
        } else {
            prev
        }
    }
}

/// Whether sprite `a` wins over sprite `b` where they overlap: in CGB mode
/// the lower OAM index; on DMG the smaller X, then the lower index.
pub open spec fn higher_priority(m: MemState, cgb: bool, a: u16, b: u16) -> bool {
    if cgb {
        a < b
    } else {
        let ax = oam_byte(m, a as int, 1);
        let bx = oam_byte(m, b as int, 1);
        ax < bx || (ax == bx && a < b)
    }
}

/// Color id of column `col` (0-7, left to right on screen) of sprite `i` on
/// line `ly`, honoring Y/X flip (flags bits 6/5), 8x16 tiles (the low bit of the
/// tile index ignored) and, in CGB mode, the VRAM bank of flags bit 3.
pub open spec fn sprite_color_at(m: MemState, ly: u8, h: int, i: u16, col: int) -> u8 {
    let y = oam_byte(m, i as int, 0);
    let tile = oam_byte(m, i as int, 2);
    let flags = oam_byte(m, i as int, 3);
    let row0 = ly - (y - 16);
    let row = if flags & 0x40 != 0 {
        h - 1 - row0
    } else {
        row0
    };
    let tile_index = if h == 16 {
        (tile & 0xFE) + row / 8
    } else {
        tile as int
    };
    let addr = 0x8000 + tile_index * 16 + (row % 8) * 2;
    let bank = if m.cgb {
        ((flags >> 3u8) & 1) as int
    } else {
        0
    };
    let px = if flags & 0x20 != 0 {
        7 - col
    } else {
        col
    };
    tile_row_spec(m.vram(bank, addr as u16), m.vram(bank, (addr + 1) as u16))[px]
}

/// The pixel sprite `i` puts at screen column `sx` of line `ly`, if any:
/// none where the sprite does not cover the pixel, where its color is 0
/// (transparent), or where the background wins: an opaque BG pixel (color
/// 1-3) with the sprite flagged behind BG (flags bit 7) or the BG tile having
/// CGB priority, unless CGB mode with LCDC bit 0 clear.
pub open spec fn sprite_pixel(s: CpuState, ly: u8, i: u16, sx: int) -> Option<Rgb> {
    let m = s.mem;
    let lcdc = m.read(REG_LCDC);
    let h = sprite_height(lcdc);
    let flags = oam_byte(m, i as int, 3);
    let col = sx - (oam_byte(m, i as int, 1) - 8);
    if !(0 <= col < 8) || !(0 <= sx < SCREEN_WIDTH) || !sprite_on_line(m, i as int, ly, h) {
        None
    } else {
        let color = sprite_color_at(m, ly, h, i, col);
        if color == 0 {
            None
        } else if s.bg_color[sx] != 0 && (flags & 0x80 != 0 || s.bg_prio[sx]) && (!m.cgb || lcdc
            & 0x01 != 0) {
            None
        } else if m.cgb {
            Some(m.obj_color((flags & 0x07) as int, color as int))
        } else {
            let pal = if flags & 0x10 != 0 {
                m.read(REG_OBP1)
            } else {
                m.read(REG_OBP0)
            };
            Some(dmg_rgb_spec(palette_shade(pal, color)))
        }
    }
}

/// Among `sprites`, the highest-priority one that puts a pixel at `sx`.
pub open spec fn top_sprite(s: CpuState, ly: u8, sprites: Seq<u16>, sx: int) -> Option<u16>
    decreases sprites.len(),
{
    if sprites.len() == 0 {
        None
    } else {
        let rest = top_sprite(s, ly, sprites.drop_last(), sx);
        let k = sprites.last();
        if sprite_pixel(s, ly, k, sx) is Some && (rest is None || higher_priority(
            s.mem,
            s.mem.cgb,
            k,
            rest.unwrap(),
        )) {
            Some(k)
        } else {
            rest
        }
    }
}

/// The state after drawing the sprites of line `ly` (when enabled by LCDC
/// bit 1): each pixel of the row shows the highest-priority of the line's
/// sprites (the first ten in OAM order that span it) with a pixel there.
pub open spec fn render_sprites_spec(s: CpuState, ly: u8) -> CpuState {
    let lcdc = s.mem.read(REG_LCDC);
    if lcdc & 0x02 == 0 {
        s
    } else {
        let sel = line_sprites(s.mem, ly, sprite_height(lcdc), OAM_SPRITES as nat);
        let base = ly as int * SCREEN_WIDTH as int;
        CpuState {
            fb: Seq::new(
                s.fb.len(),
                |i: int|
                    if base <= i < base + SCREEN_WIDTH {
                        match top_sprite(s, ly, sel, i - base) {
                            Some(k) => sprite_pixel(s, ly, k, i - base).unwrap(),
                            None => s.fb[i],
                        }
                    } else {
                        s.fb[i]
                    },
            ),
            ..s
        }
    }
}

/// Whether drawing the sprites of line `ly` would put no pixel anywhere.
pub open spec fn sprites_draw_nothing(s: CpuState, ly: u8) -> bool {
    let lcdc = s.mem.read(REG_LCDC);
    let sel = line_sprites(s.mem, ly, sprite_height(lcdc), OAM_SPRITES as nat);
    lcdc & 0x02 == 0 || forall|j: int, sx: int|
        0 <= j < sel.len() ==> !(#[trigger] sprite_pixel(s, ly, sel[j], sx) is Some)
}

/// The last of `sprites` that puts a pixel at `sx` (the one drawn on top when
/// they are drawn in order).
pub open spec fn last_visible(s: CpuState, ly: u8, sprites: Seq<u16>, sx: int) -> Option<u16>
    decreases sprites.len(),
{
    if sprites.len() == 0 {
        None
    } else if sprite_pixel(s, ly, sprites.last(), sx) is Some {
        Some(sprites.last())
    } else {
        last_visible(s, ly, sprites.drop_last(), sx)
    }
}

/// Which sprite wins a pixel depends only on memory and the line's BG info.
pub proof fn lemma_top_sprite_congruent(s1: CpuState, s2: CpuState, ly: u8, sq: Seq<u16>, sx: int)
    requires
        s1.mem == s2.mem,
        s1.bg_color == s2.bg_color,
        s1.bg_prio == s2.bg_prio,
    ensures
        top_sprite(s1, ly, sq, sx) == top_sprite(s2, ly, sq, sx),
        forall|k: u16| sprite_pixel(s1, ly, k, sx) == #[trigger] sprite_pixel(s2, ly, k, sx),
    decreases sq.len(),
{
    if sq.len() > 0 {
        lemma_top_sprite_congruent(s1, s2, ly, sq.drop_last(), sx);
    }
}

/// Drawing sprites does not depend on, nor change, the dot counter.
pub proof fn lemma_render_sprites_dots(s: CpuState, d: u32, ly: u8)
    ensures
        render_sprites_spec(CpuState { ppu_dots: d, ..s }, ly) == (CpuState {
            ppu_dots: d,
            ..render_sprites_spec(s, ly)
        }),
{
    let s2 = CpuState { ppu_dots: d, ..s };
    let lcdc = s.mem.read(REG_LCDC);
    if lcdc & 0x02 != 0 {
        let sel = line_sprites(s.mem, ly, sprite_height(lcdc), OAM_SPRITES as nat);
        let base = ly as int * SCREEN_WIDTH as int;
        assert forall|i: int| 0 <= i < s.fb.len() implies render_sprites_spec(s2, ly).fb[i]
            == render_sprites_spec(s, ly).fb[i] by {
            lemma_top_sprite_congruent(s2, s, ly, sel, i - base);
        }
        assert(render_sprites_spec(s2, ly).fb =~= render_sprites_spec(s, ly).fb);
    }
}

/// Priority is a strict order: irreflexive, asymmetric and total on distinct sprites.
pub proof fn lemma_priority_strict_total(m: MemState, cgb: bool, a: u16, b: u16)
    ensures
        !higher_priority(m, cgb, a, a),
        higher_priority(m, cgb, a, b) ==> !higher_priority(m, cgb, b, a),
        a != b ==> higher_priority(m, cgb, a, b) || higher_priority(m, cgb, b, a),
{
}

pub open spec fn no_duplicates(sq: Seq<u16>) -> bool {
    forall|i: int, j: int| 0 <= i < j < sq.len() ==> sq[i] != sq[j]
}

/// What `top_sprite` picks: a member of the sequence with a pixel at `sx`
/// that beats every other such member; none exactly when no member has one.
pub proof fn lemma_top_sprite_char(s: CpuState, ly: u8, sq: Seq<u16>, sx: int)
    requires
        no_duplicates(sq),
    ensures
        top_sprite(s, ly, sq, sx) is None <==> (forall|j: int|
            0 <= j < sq.len() ==> !(sprite_pixel(s, ly, #[trigger] sq[j], sx) is Some)),
        top_sprite(s, ly, sq, sx) is Some ==> {
            let k = top_sprite(s, ly, sq, sx).unwrap();
            &&& sq.contains(k)
            &&& sprite_pixel(s, ly, k, sx) is Some
            &&& forall|j: int|
                0 <= j < sq.len() && sprite_pixel(s, ly, #[trigger] sq[j], sx) is Some && sq[j]
                    != k ==> higher_priority(s.mem, s.mem.cgb, k, sq[j])
        },
    decreases sq.len(),
{
    if sq.len() > 0 {
        let rest = sq.drop_last();
        assert(no_duplicates(rest));
        lemma_top_sprite_char(s, ly, rest, sx);
        let k = sq.last();
        assert(forall|j: int| 0 <= j < rest.len() ==> rest[j] == sq[j]);
        let t = top_sprite(s, ly, sq, sx);
        let r = top_sprite(s, ly, rest, sx);
        if r is Some {
            let rk = r.unwrap();
            lemma_priority_strict_total(s.mem, s.mem.cgb, k, rk);
            let ri = choose|i: int| 0 <= i < rest.len() && rest[i] == rk;
            assert(sq[ri] == rk);
            assert(rk != k);
        }
        if t is Some {
            let tk = t.unwrap();
            assert forall|j: int|
                0 <= j < sq.len() && sprite_pixel(s, ly, #[trigger] sq[j], sx) is Some && sq[j]
                    != tk implies higher_priority(s.mem, s.mem.cgb, tk, sq[j]) by {
                if j < sq.len() - 1 {
                    assert(rest[j] == sq[j]);
                    if tk == k {
                        let rk = r.unwrap();
                        if sq[j] != rk {
                            assert(higher_priority(s.mem, s.mem.cgb, rk, sq[j]));
                            lemma_priority_transitive(s.mem, s.mem.cgb, k, rk, sq[j]);
                        }
                    }
                } else {
                    lemma_priority_strict_total(s.mem, s.mem.cgb, tk, k);
                }
            }
            if tk == k {
                assert(sq[sq.len() - 1] == k);
            } else {
                let ri = choose|i: int| 0 <= i < rest.len() && rest[i] == tk;
                assert(sq[ri] == tk);
            }
        }
    }
}

pub proof fn lemma_priority_transitive(m: MemState, cgb: bool, a: u16, b: u16, c: u16)
    requires
        higher_priority(m, cgb, a, b),
        higher_priority(m, cgb, b, c),
    ensures
        higher_priority(m, cgb, a, c),
{
}

/// `top_sprite` depends only on which sprites the sequence holds.
pub proof fn lemma_top_sprite_same_members(s: CpuState, ly: u8, a: Seq<u16>, b: Seq<u16>, sx: int)
    requires
        no_duplicates(a),
        no_duplicates(b),
        forall|k: u16| a.contains(k) <==> b.contains(k),
    ensures
        top_sprite(s, ly, a, sx) == top_sprite(s, ly, b, sx),
{
    lemma_top_sprite_char(s, ly, a, sx);
    lemma_top_sprite_char(s, ly, b, sx);
    let ta = top_sprite(s, ly, a, sx);
    let tb = top_sprite(s, ly, b, sx);
    if ta is None && tb is Some {
        let k = tb.unwrap();
        assert(a.contains(k));
        let i = choose|i: int| 0 <= i < a.len() && a[i] == k;
        assert(sprite_pixel(s, ly, a[i], sx) is Some);
    }
    if tb is None && ta is Some {
        let k = ta.unwrap();
        assert(b.contains(k));
        let i = choose|i: int| 0 <= i < b.len() && b[i] == k;
        assert(sprite_pixel(s, ly, b[i], sx) is Some);
    }
    if ta is Some && tb is Some {
        let ka = ta.unwrap();
        let kb = tb.unwrap();
        if ka != kb {
            assert(b.contains(ka));
            assert(a.contains(kb));
            let ib = choose|i: int| 0 <= i < b.len() && b[i] == ka;
            let ia = choose|i: int| 0 <= i < a.len() && a[i] == kb;
            assert(sprite_pixel(s, ly, b[ib], sx) is Some);
            assert(sprite_pixel(s, ly, a[ia], sx) is Some);
            assert(higher_priority(s.mem, s.mem.cgb, kb, ka));
            assert(higher_priority(s.mem, s.mem.cgb, ka, kb));
            lemma_priority_strict_total(s.mem, s.mem.cgb, ka, kb);
        }
    }
}

/// Drawn from lowest to highest priority, the last sprite with a pixel is the
/// highest-priority one.
pub proof fn lemma_last_visible_is_top(s: CpuState, ly: u8, sq: Seq<u16>, sx: int)
    requires
        forall|i: int, j: int|
            0 <= i < j < sq.len() ==> higher_priority(s.mem, s.mem.cgb, #[trigger] sq[j], #[trigger] sq[i]),
    ensures
        last_visible(s, ly, sq, sx) == top_sprite(s, ly, sq, sx),
    decreases sq.len(),
{
    if sq.len() > 0 {
        let rest = sq.drop_last();
        assert forall|i: int, j: int| 0 <= i < j < rest.len() implies higher_priority(
            s.mem,
            s.mem.cgb,
            #[trigger] rest[j],
            #[trigger] rest[i],
        ) by {
            assert(rest[j] == sq[j] && rest[i] == sq[i]);
        }
        lemma_last_visible_is_top(s, ly, rest, sx);
        let r = top_sprite(s, ly, rest, sx);
        if r is Some {
            assert(no_duplicates(rest)) by {
                assert forall|i: int, j: int| 0 <= i < j < rest.len() implies rest[i] != rest[j] by {
                    assert(rest[j] == sq[j] && rest[i] == sq[i]);
                    lemma_priority_strict_total(s.mem, s.mem.cgb, sq[j], sq[i]);
                }
            }
            lemma_top_sprite_char(s, ly, rest, sx);
            let rk = r.unwrap();
            let ri = choose|i: int| 0 <= i < rest.len() && rest[i] == rk;
            assert(sq[ri] == rk);
            assert(higher_priority(s.mem, s.mem.cgb, sq[sq.len() - 1], sq[ri]));
        }
    }
}

/// Once ten sprites are selected, later OAM entries add none.
pub proof fn lemma_line_sprites_full(m: MemState, ly: u8, h: int, n: nat, k: nat)
    requires
        n <= k,
        line_sprites(m, ly, h, n).len() == MAX_SPRITES_PER_LINE,
    ensures
        line_sprites(m, ly, h, k) == line_sprites(m, ly, h, n),
    decreases k - n,
{
    if k > n {
        lemma_line_sprites_full(m, ly, h, n, (k - 1) as nat);
    }
}

/// The selected sprites are distinct, in increasing OAM order, below `n`, at most ten, and each spans the line.
pub proof fn lemma_line_sprites_props(m: MemState, ly: u8, h: int, n: nat)
    requires
        n <= OAM_SPRITES,
    ensures
        line_sprites(m, ly, h, n).len() <= MAX_SPRITES_PER_LINE,
        forall|i: int, j: int|
            0 <= i < j < line_sprites(m, ly, h, n).len() ==> line_sprites(m, ly, h, n)[i]
                < line_sprites(m, ly, h, n)[j],
        forall|i: int|
            0 <= i < line_sprites(m, ly, h, n).len() ==> line_sprites(m, ly, h, n)[i] < n
                && sprite_on_line(m, line_sprites(m, ly, h, n)[i] as int, ly, h),
    decreases n,
{
    if n > 0 {
        lemma_line_sprites_props(m, ly, h, (n - 1) as nat);
        let prev = line_sprites(m, ly, h, (n - 1) as nat);
        let cur = line_sprites(m, ly, h, n);
        if prev.len() < MAX_SPRITES_PER_LINE && sprite_on_line(m, n - 1, ly, h) {
            assert(cur == prev.push((n - 1) as u16));
            assert forall|i: int, j: int| 0 <= i < j < cur.len() implies cur[i] < cur[j] by {
                if j < prev.len() {
                    assert(cur[i] == prev[i] && cur[j] == prev[j]);
                } else {
                    assert(cur[i] == prev[i]);
                }
            }
            assert forall|i: int| 0 <= i < cur.len() implies cur[i] < n && sprite_on_line(
                m,
                cur[i] as int,
                ly,
                h,
            ) by {
                if i < prev.len() {
                    assert(cur[i] == prev[i]);
                }
            }
        }
    }
}

} // verus!
