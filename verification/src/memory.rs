use vstd::prelude::*;
use crate::tiles::Rgb;

verus! {

/// Size of the CPU's address space.
pub const ADDRESS_SPACE: usize = 0x10000;

/// Size of one VRAM bank (0x8000-0x9FFF).
pub const VRAM_SIZE: usize = 0x2000;

/// Size of one CGB color palette RAM (8 palettes of 4 colors of 2 bytes).
pub const PALETTE_RAM_SIZE: usize = 64;

/// Size of the cartridge ROM window (0x0000-0x7FFF).
pub const ROM_WINDOW: usize = 0x8000;

/// LCDC: LCD control.
pub const REG_LCDC: u16 = 0xFF40;

/// BGP: DMG background palette.
pub const REG_BGP: u16 = 0xFF47;

/// KEY1: CGB speed switch (bit 0 arms a switch, bit 7 reports double speed).
pub const REG_KEY1: u16 = 0xFF4D;

/// VBK: CGB VRAM bank select (bit 0).
pub const REG_VBK: u16 = 0xFF4F;

/// BCPS: CGB background palette index (bits 0-5), auto-increment (bit 7).
pub const REG_BCPS: u16 = 0xFF68;

/// BCPD: CGB background palette data.
pub const REG_BCPD: u16 = 0xFF69;

/// OCPS: CGB object palette index.
pub const REG_OCPS: u16 = 0xFF6A;

/// OCPD: CGB object palette data.
pub const REG_OCPD: u16 = 0xFF6B;

/// The abstract content of the memory bus: the flat 64 KiB address space
/// (which holds VRAM bank 0), CGB VRAM bank 1, the two CGB palette RAMs, the
/// CGB-mode flag and the current CPU speed.
pub ghost struct MemState {
    pub ram: Seq<u8>,
    pub vram1: Seq<u8>,
    pub bg_pal: Seq<u8>,
    pub obj_pal: Seq<u8>,
    pub cgb: bool,
    pub double_speed: bool,
}

/// The address after `addr`, wrapping from 0xFFFF to 0x0000.
pub open spec fn next_addr(addr: u16) -> u16 {
    if addr == 0xFFFF {
        0
    } else {
        (addr + 1) as u16
    }
}

pub open spec fn in_vram(addr: u16) -> bool {
    0x8000 <= addr < 0xA000
}

/// The palette index register value after one data write: the index advances
/// (wrapping within 0-63) only when bit 7 is set.
pub open spec fn next_palette_index(sel: u8) -> u8 {
    if sel >= 0x80 {
        (0x80 + (sel % 64 + 1) % 64) as u8
    } else {
        sel
    }
}

/// 5-bit color channel scaled to 8 bits.
pub open spec fn scale5(x: int) -> u8 {
    (x * 8 + x / 4) as u8
}

/// The RGB value of the little-endian RGB555 color at `index` of a palette RAM.
pub open spec fn palette_rgb(pal: Seq<u8>, index: int) -> Rgb {
    let c = pal[index] as int + 256 * pal[index + 1] as int;
    (scale5(c % 32), scale5((c / 32) % 32), scale5((c / 1024) % 32))
}

impl MemState {
    pub open spec fn wf(self) -> bool {
        &&& self.ram.len() == ADDRESS_SPACE
        &&& self.vram1.len() == VRAM_SIZE
        &&& self.bg_pal.len() == PALETTE_RAM_SIZE
        &&& self.obj_pal.len() == PALETTE_RAM_SIZE
    }

    /// The VRAM bank the CPU sees at 0x8000-0x9FFF: VBK bit 0 in CGB mode, bank 0 otherwise.
    pub open spec fn cpu_vram_bank(self) -> int {
        if self.cgb {
            self.ram[REG_VBK as int] as int % 2
        } else {
            0
        }
    }

    /// What the CPU reads at `addr`.
    pub open spec fn read(self, addr: u16) -> u8 {
        if in_vram(addr) && self.cpu_vram_bank() == 1 {
            self.vram1[addr - 0x8000]
        } else if addr == REG_BCPD {
            self.bg_pal[self.ram[REG_BCPS as int] as int % 64]
        } else if addr == REG_OCPD {
            self.obj_pal[self.ram[REG_OCPS as int] as int % 64]
        } else {
            self.ram[addr as int]
        }
    }

    /// The memory after the CPU writes `v` at `addr`.
    pub open spec fn write(self, addr: u16, v: u8) -> MemState {
        if in_vram(addr) && self.cpu_vram_bank() == 1 {
            MemState { vram1: self.vram1.update(addr - 0x8000, v), ..self }
        } else if addr == REG_BCPD {
            let sel = self.ram[REG_BCPS as int];
            MemState {
                bg_pal: self.bg_pal.update(sel as int % 64, v),
                ram: self.ram.update(REG_BCPS as int, next_palette_index(sel)),
                ..self
            }
        } else if addr == REG_OCPD {
            let sel = self.ram[REG_OCPS as int];
            MemState {
                obj_pal: self.obj_pal.update(sel as int % 64, v),
                ram: self.ram.update(REG_OCPS as int, next_palette_index(sel)),
                ..self
            }
        } else {
            MemState { ram: self.ram.update(addr as int, v), ..self }
        }
    }

    /// The little-endian 16-bit value at `addr` (the high byte wraps to 0x0000).
    pub open spec fn read_word(self, addr: u16) -> u16 {
        (self.read(addr) as int + 256 * self.read(next_addr(addr)) as int) as u16
    }

    /// The memory after writing the low byte of `v` at `addr`, then the high byte after it.
    pub open spec fn write_word(self, addr: u16, v: u16) -> MemState {
        self.write(addr, (v % 256) as u8).write(next_addr(addr), (v / 256) as u8)
    }

    /// A byte of VRAM bank `bank`, whatever bank the CPU has selected.
    pub open spec fn vram(self, bank: int, addr: u16) -> u8 {
        if bank == 0 {
            self.ram[addr as int]
        } else {
            self.vram1[addr - 0x8000]
        }
    }

    pub open spec fn bg_color(self, palette: int, color: int) -> Rgb {
        palette_rgb(self.bg_pal, palette * 8 + color * 2)
    }

    pub open spec fn obj_color(self, palette: int, color: int) -> Rgb {
        palette_rgb(self.obj_pal, palette * 8 + color * 2)
    }

    /// Whether a speed switch is armed (KEY1 bit 0).
    pub open spec fn speed_switch_armed(self) -> bool {
        self.ram[REG_KEY1 as int] % 2 == 1
    }

    /// The memory after an armed speed switch: the speed toggles, and KEY1
    /// reports the new speed in bit 7 with the arm bit cleared.
    pub open spec fn switched_speed(self) -> MemState {
        let ds = !self.double_speed;
        MemState {
            double_speed: ds,
            ram: self.ram.update(REG_KEY1 as int, if ds { 0x80u8 } else { 0u8 }),
            ..self
        }
    }

    /// The power-on state: all zero but LCDC (0x91) and BGP (0xFC), as the boot ROM leaves them.
    pub open spec fn initial() -> MemState {
        MemState {
            ram: Seq::new(ADDRESS_SPACE as nat, |i: int| 0u8).update(REG_LCDC as int, 0x91u8).update(
                REG_BGP as int,
                0xFCu8,
            ),
            vram1: Seq::new(VRAM_SIZE as nat, |i: int| 0u8),
            bg_pal: Seq::new(PALETTE_RAM_SIZE as nat, |i: int| 0u8),
            obj_pal: Seq::new(PALETTE_RAM_SIZE as nat, |i: int| 0u8),
            cgb: false,
            double_speed: false,
        }
    }

    /// The memory after loading a cartridge image: its first 32 KiB fill the ROM
    /// window, and header byte 0x143 with bit 7 set selects CGB mode.
    pub open spec fn loaded(self, rom: Seq<u8>) -> MemState {
        MemState {
            ram: Seq::new(
                ADDRESS_SPACE as nat,
                |i: int|
                    if i < ROM_WINDOW && i < rom.len() {
                        rom[i]
                    } else {
                        self.ram[i]
                    },
            ),
            cgb: rom.len() > 0x143 && rom[0x143] >= 0x80,
            ..self
        }
    }
}

/// Registers whose writes affect what other addresses read (VBK, the palette
/// index registers) or that do not read back what was written (the palette
/// data registers, whose index auto-increments).
pub open spec fn is_banking_register(addr: u16) -> bool {
    addr == REG_VBK || addr == REG_BCPS || addr == REG_BCPD || addr == REG_OCPS || addr == REG_OCPD
}

/// A read gives back what was last written at that address, unless it is a
/// palette data register.
pub proof fn law_read_after_write(m: MemState, addr: u16, v: u8)
    requires
        m.wf(),
        addr != REG_BCPD,
        addr != REG_OCPD,
    ensures
        m.write(addr, v).read(addr) == v,
        m.write(addr, v).wf(),
{
}

/// A write changes what no other address reads, when neither address is a
/// banking or palette register.
pub proof fn law_write_frame(m: MemState, addr: u16, v: u8, other: u16)
    requires
        m.wf(),
        addr != other,
        !is_banking_register(addr),
        !is_banking_register(other),
    ensures
        m.write(addr, v).read(other) == m.read(other),
{
}

/// A 16-bit write reads back as written, when neither of its two bytes is a
/// banking or palette register.
pub proof fn law_word_roundtrip(m: MemState, addr: u16, v: u16)
    requires
        m.wf(),
        !is_banking_register(addr),
        !is_banking_register(next_addr(addr)),
    ensures
        m.write_word(addr, v).read_word(addr) == v,
        m.write_word(addr, v).wf(),
{
    let m1 = m.write(addr, (v % 256) as u8);
    law_read_after_write(m, addr, (v % 256) as u8);
    law_read_after_write(m1, next_addr(addr), (v / 256) as u8);
    law_write_frame(m1, next_addr(addr), (v / 256) as u8, addr);
}

/// The memory bus seen by the CPU.
#[derive(Clone)]
pub struct Memory {
    /// The 64 KiB address space as the CPU sees it, with VRAM bank 0 at
    /// 0x8000-0x9FFF.
    pub ram: Vec<u8>,
    /// CGB VRAM bank 1.
    pub vram1: Vec<u8>,
    /// CGB background palette RAM (8 palettes of 4 RGB555 colors).
    pub bg_palettes: Vec<u8>,
    /// CGB object palette RAM (8 palettes of 4 RGB555 colors).
    pub obj_palettes: Vec<u8>,
    /// Whether the loaded cartridge runs in CGB mode.
    pub cgb: bool,
    /// Whether the CPU runs at double speed.
    pub double_speed: bool,
}

impl View for Memory {
    type V = MemState;

    open spec fn view(&self) -> MemState {
        MemState {
            ram: self.ram@,
            vram1: self.vram1@,
            bg_pal: self.bg_palettes@,
            obj_pal: self.obj_palettes@,
            cgb: self.cgb,
            double_speed: self.double_speed,
        }
    }
}

impl Memory {
    /// Whether the CPU runs at double speed.
    pub fn is_double_speed(&self) -> (r: bool)
        ensures
            r == self@.double_speed,
    {
        self.double_speed
    }

    pub fn new() -> (m: Memory)
        ensures
            m@ == MemState::initial(),
            m@.wf(),
    {
        let mut ram = vec![0u8; ADDRESS_SPACE];
        ram[0xFF40] = 0x91;
        ram[0xFF47] = 0xFC;
        let m = Memory {
            ram,
            vram1: vec![0u8; VRAM_SIZE],
            bg_palettes: vec![0u8; PALETTE_RAM_SIZE],
            obj_palettes: vec![0u8; PALETTE_RAM_SIZE],
            cgb: false,
            double_speed: false,
        };
        assert(m@.ram =~= MemState::initial().ram);
        assert(m@.vram1 =~= MemState::initial().vram1);
        assert(m@.bg_pal =~= MemState::initial().bg_pal);
        assert(m@.obj_pal =~= MemState::initial().obj_pal);
        m
    }

    /// Whether the loaded cartridge runs in CGB mode.
    pub fn is_cgb(&self) -> (r: bool)
        ensures
            r == self@.cgb,
    {
        self.cgb
    }

    fn cpu_vram_bank(&self) -> (r: usize)
        requires
            self@.wf(),
        ensures
            r == self@.cpu_vram_bank(),
    {
        if self.cgb {
            (self.ram[0xFF4F] % 2) as usize
        } else {
            0
        }
    }

    pub fn read_byte(&self, addr: u16) -> (r: u8)
        requires
            self@.wf(),
        ensures
            r == self@.read(addr),
    {
        if 0x8000 <= addr && addr < 0xA000 && self.cpu_vram_bank() == 1 {
            self.vram1[(addr - 0x8000) as usize]
        } else if addr == 0xFF69 {
            self.bg_palettes[(self.ram[0xFF68] % 64) as usize]
        } else if addr == 0xFF6B {
            self.obj_palettes[(self.ram[0xFF6A] % 64) as usize]
        } else {
            self.ram[addr as usize]
        }
    }

    fn next_index(sel: u8) -> (r: u8)
        ensures
            r == next_palette_index(sel),
    {
        if sel >= 0x80 {
            0x80 + (sel % 64 + 1) % 64
        } else {
            sel
        }
    }

    pub fn write_byte(&mut self, addr: u16, value: u8)
        requires
            old(self)@.wf(),
        ensures
            final(self)@ == old(self)@.write(addr, value),
            final(self)@.wf(),
    {
        if 0x8000 <= addr && addr < 0xA000 && self.cpu_vram_bank() == 1 {
            self.vram1[(addr - 0x8000) as usize] = value;
        } else if addr == 0xFF69 {
            let sel = self.ram[0xFF68];
            self.bg_palettes[(sel % 64) as usize] = value;
            self.ram[0xFF68] = Self::next_index(sel);
        } else if addr == 0xFF6B {
            let sel = self.ram[0xFF6A];
            self.obj_palettes[(sel % 64) as usize] = value;
            self.ram[0xFF6A] = Self::next_index(sel);
        } else {
            self.ram[addr as usize] = value;
        }
    }

    pub fn read_word(&self, addr: u16) -> (r: u16)
        requires
            self@.wf(),
        ensures
            r == self@.read_word(addr),
    {
        let lo = self.read_byte(addr);
        let hi = self.read_byte(addr.wrapping_add(1));
        (hi as u16) * 256 + lo as u16
    }

    pub fn write_word(&mut self, addr: u16, value: u16)
        requires
            old(self)@.wf(),
        ensures
            final(self)@ == old(self)@.write_word(addr, value),
            final(self)@.wf(),
    {
        self.write_byte(addr, (value % 256) as u8);
        self.write_byte(addr.wrapping_add(1), (value / 256) as u8);
    }

    /// Read VRAM bank `bank` directly, whatever bank the CPU has selected.
    pub fn vram_read(&self, bank: usize, addr: u16) -> (r: u8)
        requires
            self@.wf(),
            bank < 2,
            in_vram(addr),
        ensures
            r == self@.vram(bank as int, addr),
    {
        if bank == 0 {
            self.ram[addr as usize]
        } else {
            self.vram1[(addr - 0x8000) as usize]
        }
    }

    fn palette_color(pal: &Vec<u8>, index: usize) -> (r: Rgb)
        requires
            index + 1 < pal@.len(),
            index < PALETTE_RAM_SIZE,
        ensures
            r == palette_rgb(pal@, index as int),
    {
        let c: u32 = pal[index] as u32 + 256 * (pal[index + 1] as u32);
        let r5 = c % 32;
        let g5 = (c / 32) % 32;
        let b5 = (c / 1024) % 32;
        ((r5 * 8 + r5 / 4) as u8, (g5 * 8 + g5 / 4) as u8, (b5 * 8 + b5 / 4) as u8)
    }

    /// RGB of color `color` (0-3) of CGB background palette `palette` (0-7).
    pub fn cgb_bg_color(&self, palette: usize, color: usize) -> (r: Rgb)
        requires
            self@.wf(),
            palette < 8,
            color < 4,
        ensures
            r == self@.bg_color(palette as int, color as int),
    {
        Self::palette_color(&self.bg_palettes, palette * 8 + color * 2)
    }

    /// RGB of color `color` (0-3) of CGB object palette `palette` (0-7).
    pub fn cgb_obj_color(&self, palette: usize, color: usize) -> (r: Rgb)
        requires
            self@.wf(),
            palette < 8,
            color < 4,
        ensures
            r == self@.obj_color(palette as int, color as int),
    {
        Self::palette_color(&self.obj_palettes, palette * 8 + color * 2)
    }

    /// Perform an armed speed switch (KEY1 bit 0). Returns whether one happened.
    pub fn try_speed_switch(&mut self) -> (r: bool)
        requires
            old(self)@.wf(),
        ensures
            r == old(self)@.speed_switch_armed(),
            r ==> final(self)@ == old(self)@.switched_speed(),
            !r ==> final(self)@ == old(self)@,
            final(self)@.wf(),
    {
        if self.ram[0xFF4D] % 2 == 1 {
            self.double_speed = !self.double_speed;
            self.ram[0xFF4D] = if self.double_speed { 0x80 } else { 0 };
            true
        } else {
            false
        }
    }

    /// Load a cartridge image: its first 32 KiB fill 0x0000-0x7FFF, and the
    /// CGB flag in header byte 0x143 selects CGB mode.
    pub fn load_rom(&mut self, rom: &[u8])
        requires
            old(self)@.wf(),
        ensures
            final(self)@ == old(self)@.loaded(rom@),
            final(self)@.wf(),
    {
        let n = if rom.len() < ROM_WINDOW { rom.len() } else { ROM_WINDOW };
        let mut i: usize = 0;
        while i < n
            invariant
                n <= rom@.len(),
                n <= ROM_WINDOW,
                i <= n,
                self.ram@.len() == ADDRESS_SPACE,
                self.vram1@ == old(self).vram1@,
                self.bg_palettes@ == old(self).bg_palettes@,
                self.obj_palettes@ == old(self).obj_palettes@,
                self.cgb == old(self).cgb,
                self.double_speed == old(self).double_speed,
                forall|j: int|
                    0 <= j < ADDRESS_SPACE ==> #[trigger] self.ram@[j] == if j < i {
                        rom@[j]
                    } else {
                        old(self).ram@[j]
                    },
            decreases n - i,
        {
            self.ram[i] = rom[i];
            i += 1;
        }
        self.cgb = rom.len() > 0x143 && rom[0x143] >= 0x80;
        assert(self@.ram =~= old(self)@.loaded(rom@).ram);
    }
}

} // verus!
