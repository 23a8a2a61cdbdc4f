use gbc::{Cpu, Register, apply_palette, decode_tile_row, dmg_rgb};

fn cpu_with_program(program: Vec<u8>) -> Cpu {
    let mut cpu = Cpu::new();
    cpu.memory.load_rom(&program);
    cpu.pc = 0x0000;
    cpu
}

fn cgb_cpu() -> Cpu {
    let mut rom = vec![0u8; 0x150];
    rom[0x143] = 0x80;
    let mut cpu = Cpu::new();
    cpu.memory.load_rom(&rom);
    cpu.pc = 0x0000;
    cpu
}

#[test]
fn test_memory_reads_back_writes() {
    let mut cpu = Cpu::new();
    cpu.memory.write_byte(0xC123, 0x5A);
    assert_eq!(cpu.memory.read_byte(0xC123), 0x5A);
    cpu.memory.write_word(0xC200, 0xBEEF);
    assert_eq!(cpu.memory.read_byte(0xC200), 0xEF);
    assert_eq!(cpu.memory.read_byte(0xC201), 0xBE);
    assert_eq!(cpu.memory.read_word(0xC200), 0xBEEF);
    // A word at 0xFFFF wraps its high byte to 0x0000.
    cpu.memory.write_word(0xFFFF, 0x1234);
    assert_eq!(cpu.memory.read_byte(0xFFFF), 0x34);
    assert_eq!(cpu.memory.read_byte(0x0000), 0x12);
}

#[test]
fn test_memory_post_boot_registers() {
    let cpu = Cpu::new();
    assert_eq!(cpu.memory.read_byte(0xFF40), 0x91);
    assert_eq!(cpu.memory.read_byte(0xFF47), 0xFC);
    assert_eq!(cpu.memory.read_byte(0xFF44), 0x00);
    assert!(!cpu.memory.is_cgb());
    assert!(!cpu.memory.double_speed);
}

#[test]
fn test_palette_data_auto_increment() {
    let mut cpu = Cpu::new();
    cpu.memory.write_byte(0xFF68, 0x80); // index 0, auto-increment
    cpu.memory.write_byte(0xFF69, 0x1F);
    cpu.memory.write_byte(0xFF69, 0x00);
    assert_eq!(cpu.memory.read_byte(0xFF68), 0x82);
    assert_eq!(cpu.memory.cgb_bg_color(0, 0), (255, 0, 0));

    // Without bit 7 the index stays put: both writes land on byte 2.
    cpu.memory.write_byte(0xFF6A, 0x02);
    cpu.memory.write_byte(0xFF6B, 0xE0);
    cpu.memory.write_byte(0xFF6B, 0x03);
    assert_eq!(cpu.memory.read_byte(0xFF6A), 0x02);
    assert_eq!(cpu.memory.read_byte(0xFF6B), 0x03);
    assert_eq!(cpu.memory.cgb_obj_color(0, 1), (24, 0, 0));
}

#[test]
fn test_palette_index_wraps_at_63() {
    let mut cpu = Cpu::new();
    cpu.memory.write_byte(0xFF68, 0xBF); // index 63, auto-increment
    cpu.memory.write_byte(0xFF69, 0x11);
    assert_eq!(cpu.memory.read_byte(0xFF68), 0x80);
}

#[test]
fn test_cgb_vram_banking() {
    let mut cpu = cgb_cpu();
    assert!(cpu.memory.is_cgb());
    cpu.memory.write_byte(0xFF4F, 0x01);
    cpu.memory.write_byte(0x8000, 0x77);
    assert_eq!(cpu.memory.vram_read(1, 0x8000), 0x77);
    assert_eq!(cpu.memory.vram_read(0, 0x8000), 0x00);
    assert_eq!(cpu.memory.read_byte(0x8000), 0x77);
    cpu.memory.write_byte(0xFF4F, 0x00);
    assert_eq!(cpu.memory.read_byte(0x8000), 0x00);
}

#[test]
fn test_dmg_ignores_vram_bank_select() {
    let mut cpu = cpu_with_program(vec![]);
    cpu.memory.write_byte(0xFF4F, 0x01);
    cpu.memory.write_byte(0x8000, 0x11);
    assert_eq!(cpu.memory.vram_read(0, 0x8000), 0x11);
    assert_eq!(cpu.memory.vram_read(1, 0x8000), 0x00);
}

#[test]
fn test_load_rom_fills_only_rom_window() {
    let mut cpu = Cpu::new();
    cpu.memory.load_rom(&vec![0xAAu8; 0x9000]);
    assert_eq!(cpu.memory.read_byte(0x0000), 0xAA);
    assert_eq!(cpu.memory.read_byte(0x7FFF), 0xAA);
    assert_eq!(cpu.memory.read_byte(0x8000), 0x00);
    // 0xAA at 0x143 has bit 7 set: CGB mode.
    assert!(cpu.memory.is_cgb());
}

#[test]
fn test_speed_switch_toggles_back() {
    let mut cpu = Cpu::new();
    assert!(!cpu.memory.try_speed_switch()); // not armed
    cpu.memory.write_byte(0xFF4D, 0x01);
    assert!(cpu.memory.try_speed_switch());
    assert!(cpu.memory.double_speed);
    assert_eq!(cpu.memory.read_byte(0xFF4D), 0x80);
    cpu.memory.write_byte(0xFF4D, 0x81);
    assert!(cpu.memory.try_speed_switch());
    assert!(!cpu.memory.double_speed);
    assert_eq!(cpu.memory.read_byte(0xFF4D), 0x00);
}

#[test]
fn test_daa_after_bcd_add_and_sub() {
    // 45 + 38 = 83 in BCD
    let mut cpu = cpu_with_program(vec![0xC6, 0x38, 0x27]);
    cpu.registers.a = 0x45;
    cpu.step();
    assert_eq!(cpu.registers.a, 0x7D);
    cpu.step();
    assert_eq!(cpu.registers.a, 0x83);
    assert!(!cpu.registers.flag_carry());
    assert!(!cpu.registers.flag_half_carry());
    assert!(!cpu.registers.flag_zero());

    // 42 - 05 = 37 in BCD
    let mut cpu = cpu_with_program(vec![0xD6, 0x05, 0x27]);
    cpu.registers.a = 0x42;
    cpu.step();
    assert_eq!(cpu.registers.a, 0x3D);
    assert!(cpu.registers.flag_half_carry());
    cpu.step();
    assert_eq!(cpu.registers.a, 0x37);
    assert!(cpu.registers.flag_subtract());

    // 99 + 01 = 00 with carry
    let mut cpu = cpu_with_program(vec![0xC6, 0x01, 0x27]);
    cpu.registers.a = 0x99;
    cpu.step();
    cpu.step();
    assert_eq!(cpu.registers.a, 0x00);
    assert!(cpu.registers.flag_carry());
    assert!(cpu.registers.flag_zero());
}

#[test]
fn test_daa_with_carry_in_and_borrow() {
    // ADC: 99 + 99 + carry 1 = 199, so 99 with carry.
    let mut cpu = cpu_with_program(vec![0x37, 0xCE, 0x99, 0x27]);
    cpu.registers.a = 0x99;
    cpu.step(); // SCF
    cpu.step(); // ADC A, 0x99
    cpu.step(); // DAA
    assert_eq!(cpu.registers.a, 0x99);
    assert!(cpu.registers.flag_carry());
    assert!(!cpu.registers.flag_zero());
    assert!(!cpu.registers.flag_half_carry());

    // SUB: 17 - 42 borrows: (17 - 42) mod 100 = 75 with carry.
    let mut cpu = cpu_with_program(vec![0xD6, 0x42, 0x27]);
    cpu.registers.a = 0x17;
    cpu.step();
    cpu.step();
    assert_eq!(cpu.registers.a, 0x75);
    assert!(cpu.registers.flag_carry());
    assert!(cpu.registers.flag_subtract());
    assert!(!cpu.registers.flag_half_carry());

    // SBC: 30 - 29 - carry 1 = 0, zero without borrow.
    let mut cpu = cpu_with_program(vec![0x37, 0xDE, 0x29, 0x27]);
    cpu.registers.a = 0x30;
    cpu.step(); // SCF
    cpu.step(); // SBC A, 0x29
    cpu.step(); // DAA
    assert_eq!(cpu.registers.a, 0x00);
    assert!(!cpu.registers.flag_carry());
    assert!(cpu.registers.flag_zero());
}

#[test]
fn test_interrupt_priority_is_lowest_bit() {
    let mut cpu = cpu_with_program(vec![]);
    cpu.pc = 0x0200;
    cpu.interrupts_enabled = true;
    cpu.memory.write_byte(0xFFFF, 0x1F);
    cpu.memory.write_byte(0xFF0F, 0x1F);
    cpu.handle_interrupts();
    assert_eq!(cpu.pc, 0x0040);
    assert_eq!(cpu.memory.read_byte(0xFF0F), 0x1E);

    let mut cpu = cpu_with_program(vec![]);
    cpu.interrupts_enabled = true;
    cpu.memory.write_byte(0xFFFF, 0x14);
    cpu.memory.write_byte(0xFF0F, 0x1C);
    cpu.handle_interrupts();
    assert_eq!(cpu.pc, 0x0050);
    assert_eq!(cpu.memory.read_byte(0xFF0F), 0x18);
}

#[test]
fn test_no_interrupt_when_not_enabled_in_ie() {
    let mut cpu = cpu_with_program(vec![]);
    cpu.pc = 0x0200;
    cpu.interrupts_enabled = true;
    cpu.memory.write_byte(0xFFFF, 0x00);
    cpu.memory.write_byte(0xFF0F, 0x1F);
    cpu.handle_interrupts();
    assert_eq!(cpu.pc, 0x0200);
    assert_eq!(cpu.cycles, 0);
}

#[test]
fn test_interrupt_then_reti_resumes() {
    let mut rom = vec![0u8; 0x60];
    rom[0x50] = 0xD9; // RETI at the timer vector
    let mut cpu = cpu_with_program(rom);
    cpu.pc = 0x0010;
    cpu.interrupts_enabled = true;
    cpu.memory.write_byte(0xFFFF, 0x04);
    cpu.memory.write_byte(0xFF0F, 0x04);
    cpu.step(); // dispatch, then RETI
    assert_eq!(cpu.pc, 0x0010);
    assert_eq!(cpu.sp, 0xFFFE);
    assert!(cpu.interrupts_enabled);
    assert_eq!(cpu.cycles, 36);
}

#[test]
fn test_halt_idles_then_wakes() {
    let mut cpu = cpu_with_program(vec![0x76, 0x00]);
    cpu.step();
    assert!(cpu.halted);
    assert_eq!(cpu.cycles, 4);
    cpu.step();
    assert!(cpu.halted);
    assert_eq!(cpu.cycles, 8);
    assert_eq!(cpu.pc, 1);
    cpu.memory.write_byte(0xFFFF, 0x01);
    cpu.memory.write_byte(0xFF0F, 0x01);
    cpu.step(); // wakes (IME off: no dispatch) and runs the NOP
    assert!(!cpu.halted);
    assert_eq!(cpu.pc, 2);
    assert_eq!(cpu.cycles, 12);
}

#[test]
fn test_di_cancels_pending_ei() {
    // DI right after EI turns IME off and cancels the waiting EI.
    let mut cpu = cpu_with_program(vec![0xFB, 0xF3, 0x00]);
    cpu.interrupts_enabled = false;
    cpu.step();
    assert!(!cpu.interrupts_enabled);
    cpu.step();
    assert!(!cpu.interrupts_enabled);
    cpu.step();
    assert!(!cpu.interrupts_enabled);
}

#[test]
fn test_ei_then_nop_enables() {
    // Any other instruction after EI ends with IME on.
    let mut cpu = cpu_with_program(vec![0xFB, 0x00, 0x00]);
    cpu.step();
    assert!(!cpu.interrupts_enabled);
    cpu.step();
    assert!(cpu.interrupts_enabled);
}

#[test]
fn test_cb_rotate_and_shift_values() {
    let cases: Vec<(u8, u8, bool, u8, bool)> = vec![
        // (cb opcode, value in A, carry in, result, carry out)
        (0x07, 0x85, false, 0x0B, true),  // RLC A
        (0x0F, 0x01, false, 0x80, true),  // RRC A
        (0x17, 0x80, true, 0x01, true),   // RL A
        (0x1F, 0x02, true, 0x81, false),  // RR A
        (0x27, 0x80, false, 0x00, true),  // SLA A
        (0x2F, 0x81, false, 0xC0, true),  // SRA A
        (0x37, 0xF1, true, 0x1F, false),  // SWAP A
        (0x3F, 0x01, false, 0x00, true),  // SRL A
    ];
    for (op, value, carry_in, result, carry_out) in cases {
        let mut cpu = cpu_with_program(vec![0xCB, op]);
        cpu.registers.a = value;
        cpu.registers.set_flag_carry(carry_in);
        cpu.step();
        assert_eq!(cpu.registers.a, result, "CB {:02X}", op);
        assert_eq!(cpu.registers.flag_carry(), carry_out, "CB {:02X}", op);
        assert_eq!(cpu.registers.flag_zero(), result == 0, "CB {:02X}", op);
        assert!(!cpu.registers.flag_half_carry());
        assert!(!cpu.registers.flag_subtract());
        assert_eq!(cpu.cycles, 8);
    }
}

#[test]
fn test_cb_on_hl_memory() {
    // SET 0, (HL) takes 16 cycles; BIT 0, (HL) takes 12.
    let mut cpu = cpu_with_program(vec![0xCB, 0xC6, 0xCB, 0x46]);
    cpu.registers.set_hl(0xC000);
    cpu.step();
    assert_eq!(cpu.memory.read_byte(0xC000), 0x01);
    assert_eq!(cpu.cycles, 16);
    cpu.step();
    assert!(!cpu.registers.flag_zero());
    assert_eq!(cpu.cycles, 28);
}

#[test]
fn test_accumulator_rotates_clear_zero() {
    let mut cpu = cpu_with_program(vec![0x07]); // RLCA
    cpu.registers.a = 0x00;
    cpu.registers.set_flag_zero(true);
    cpu.step();
    assert_eq!(cpu.registers.a, 0x00);
    assert!(!cpu.registers.flag_zero());

    let mut cpu = cpu_with_program(vec![0x17]); // RLA
    cpu.registers.a = 0x80;
    cpu.registers.set_flag_carry(false);
    cpu.step();
    assert_eq!(cpu.registers.a, 0x00);
    assert!(cpu.registers.flag_carry());
    assert!(!cpu.registers.flag_zero());

    let mut cpu = cpu_with_program(vec![0x1F]); // RRA
    cpu.registers.a = 0x01;
    cpu.registers.set_flag_carry(true);
    cpu.step();
    assert_eq!(cpu.registers.a, 0x80);
    assert!(cpu.registers.flag_carry());

    let mut cpu = cpu_with_program(vec![0x0F]); // RRCA
    cpu.registers.a = 0x01;
    cpu.step();
    assert_eq!(cpu.registers.a, 0x80);
    assert!(cpu.registers.flag_carry());
}

#[test]
fn test_add_sp_and_ld_hl_sp_flags() {
    let mut cpu = cpu_with_program(vec![0xE8, 0x01]);
    cpu.sp = 0x00FF;
    cpu.step();
    assert_eq!(cpu.sp, 0x0100);
    assert!(cpu.registers.flag_half_carry());
    assert!(cpu.registers.flag_carry());
    assert!(!cpu.registers.flag_zero());
    assert!(!cpu.registers.flag_subtract());
    assert_eq!(cpu.cycles, 16);

    let mut cpu = cpu_with_program(vec![0xE8, 0xFF]); // ADD SP, -1
    cpu.sp = 0x0000;
    cpu.step();
    assert_eq!(cpu.sp, 0xFFFF);
    assert!(!cpu.registers.flag_half_carry());
    assert!(!cpu.registers.flag_carry());

    let mut cpu = cpu_with_program(vec![0xF8, 0x02]); // LD HL, SP+2
    cpu.sp = 0xFFF8;
    cpu.step();
    assert_eq!(cpu.registers.hl(), 0xFFFA);
    assert_eq!(cpu.sp, 0xFFF8);
    assert!(!cpu.registers.flag_half_carry());
    assert!(!cpu.registers.flag_carry());
    assert_eq!(cpu.cycles, 12);
}

#[test]
fn test_pop_af_clears_low_nibble() {
    let mut cpu = cpu_with_program(vec![0xF1]);
    cpu.sp = 0xC000;
    cpu.memory.write_word(0xC000, 0x12FF);
    cpu.step();
    assert_eq!(cpu.registers.a, 0x12);
    assert_eq!(cpu.registers.f, 0xF0);
    assert_eq!(cpu.sp, 0xC002);
}

#[test]
fn test_stop_without_armed_switch_halts() {
    let mut cpu = cpu_with_program(vec![0x10, 0x00]);
    cpu.step();
    assert!(cpu.halted);
    assert!(!cpu.memory.double_speed);
    assert_eq!(cpu.pc, 2);
}

#[test]
fn test_double_speed_halves_ppu_dots() {
    let mut cpu = cpu_with_program(vec![0x10, 0x00, 0x00]);
    cpu.memory.write_byte(0xFF4D, 0x01);
    cpu.step(); // STOP: switches to double speed
    let dots = cpu.ppu_dots;
    cpu.step(); // NOP: 4 CPU cycles, 2 PPU dots
    assert_eq!(cpu.ppu_dots, dots + 2);
}

#[test]
fn test_debug_state_full_text() {
    let cpu = Cpu::new();
    assert_eq!(
        cpu.debug_state(),
        "A:01 F:B0(Z-HC) B:00 C:13 D:00 E:D8 H:01 L:4D SP:FFFE PC:0100 | LCDC:91 STAT:00 LY:00 \
         IE:00 IF:00 IME:false | SCY:00 SCX:00 BGP:FC WY:00 WX:00 | tiledata_nz:0 \
         map@9800_nz:0 map@9C00_nz:0 fb_nz:0"
    );
}

#[test]
fn test_debug_state_counts_content() {
    let mut cpu = Cpu::new();
    cpu.memory.write_byte(0x8000, 0x01);
    cpu.memory.write_byte(0x97FF, 0x01);
    cpu.memory.write_byte(0x9800, 0x02);
    cpu.memory.write_byte(0x9FFF, 0x03);
    cpu.framebuffer[5] = (0, 0, 0);
    cpu.interrupts_enabled = true;
    cpu.registers.f = 0x00;
    let s = cpu.debug_state();
    assert!(s.contains("F:00(----)"), "{s}");
    assert!(s.contains("IME:true"), "{s}");
    assert!(s.contains("tiledata_nz:2 map@9800_nz:1 map@9C00_nz:1 fb_nz:1"), "{s}");
}

#[test]
fn test_timer_div_and_periods() {
    let mut cpu = cpu_with_program(vec![]);
    cpu.step_timer(256);
    assert_eq!(cpu.memory.read_byte(0xFF04), 0x01);

    let mut cpu = cpu_with_program(vec![]);
    cpu.memory.write_byte(0xFF07, 0x04); // enabled, 1024 cycles per tick
    cpu.step_timer(1023);
    assert_eq!(cpu.memory.read_byte(0xFF05), 0x00);
    cpu.step_timer(1);
    assert_eq!(cpu.memory.read_byte(0xFF05), 0x01);

    let mut cpu = cpu_with_program(vec![]);
    cpu.memory.write_byte(0xFF07, 0x06); // enabled, 64 cycles per tick
    cpu.step_timer(130);
    assert_eq!(cpu.memory.read_byte(0xFF05), 0x02);
    assert_eq!(cpu.tima_counter, 2);
    cpu.step_timer(62);
    assert_eq!(cpu.memory.read_byte(0xFF05), 0x03);
    assert_eq!(cpu.tima_counter, 0);
}

#[test]
fn test_timer_overflow_reloads_each_time() {
    let mut cpu = cpu_with_program(vec![]);
    cpu.memory.write_byte(0xFF07, 0x05); // 16 cycles per tick
    cpu.memory.write_byte(0xFF06, 0xFE);
    cpu.memory.write_byte(0xFF05, 0xFF);
    cpu.step_timer(16 * 3); // FF -> FE (reload), FF, FE (reload)
    assert_eq!(cpu.memory.read_byte(0xFF05), 0xFE);
    assert_eq!(cpu.memory.read_byte(0xFF0F) & 0x04, 0x04);
}

fn put_solid_tile(cpu: &mut Cpu, addr: u16, low: u8, high: u8) {
    for row in 0..8u16 {
        cpu.memory.write_byte(addr + row * 2, low);
        cpu.memory.write_byte(addr + row * 2 + 1, high);
    }
}

#[test]
fn test_sprite_priority_dmg_smaller_x_wins() {
    let mut cpu = cpu_with_program(vec![]);
    put_solid_tile(&mut cpu, 0x8010, 0xFF, 0x00); // tile 1: color 1
    put_solid_tile(&mut cpu, 0x8020, 0xFF, 0xFF); // tile 2: color 3
    cpu.memory.write_byte(0xFF48, 0xE4);
    cpu.memory.write_byte(0xFF40, 0b1000_0010);
    // sprite 0 at screen x = 2 (tile 1), sprite 1 at screen x = 0 (tile 2)
    let sprites = [(16u8, 10u8, 1u8), (16, 8, 2)];
    for (n, (y, x, t)) in sprites.iter().enumerate() {
        let base = 0xFE00 + (n as u16) * 4;
        cpu.memory.write_byte(base, *y);
        cpu.memory.write_byte(base + 1, *x);
        cpu.memory.write_byte(base + 2, *t);
        cpu.memory.write_byte(base + 3, 0);
    }
    cpu.render_sprites(0);
    assert_eq!(cpu.framebuffer[0], dmg_rgb(3));
    assert_eq!(cpu.framebuffer[2], dmg_rgb(3)); // overlap: smaller X wins
    assert_eq!(cpu.framebuffer[8], dmg_rgb(1));
    assert_eq!(cpu.framebuffer[9], dmg_rgb(1));
    assert_eq!(cpu.framebuffer[10], dmg_rgb(0));
}

#[test]
fn test_sprite_priority_dmg_same_x_lower_index_wins() {
    let mut cpu = cpu_with_program(vec![]);
    put_solid_tile(&mut cpu, 0x8010, 0xFF, 0x00); // color 1
    put_solid_tile(&mut cpu, 0x8020, 0xFF, 0xFF); // color 3
    cpu.memory.write_byte(0xFF48, 0xE4);
    cpu.memory.write_byte(0xFF40, 0b1000_0010);
    for (n, t) in [(0u16, 1u8), (1, 2)] {
        let base = 0xFE00 + n * 4;
        cpu.memory.write_byte(base, 16);
        cpu.memory.write_byte(base + 1, 8);
        cpu.memory.write_byte(base + 2, t);
        cpu.memory.write_byte(base + 3, 0);
    }
    cpu.render_sprites(0);
    assert_eq!(cpu.framebuffer[0], dmg_rgb(1));
}

#[test]
fn test_sprite_priority_cgb_lower_index_wins() {
    let mut cpu = cgb_cpu();
    put_solid_tile(&mut cpu, 0x8010, 0xFF, 0x00); // color 1
    put_solid_tile(&mut cpu, 0x8020, 0xFF, 0xFF); // color 3
    // OBJ palette 0: color 1 red (0x001F), color 3 blue (0x7C00)
    cpu.memory.write_byte(0xFF6A, 0x82);
    cpu.memory.write_byte(0xFF6B, 0x1F);
    cpu.memory.write_byte(0xFF6B, 0x00);
    cpu.memory.write_byte(0xFF6A, 0x86);
    cpu.memory.write_byte(0xFF6B, 0x00);
    cpu.memory.write_byte(0xFF6B, 0x7C);
    cpu.memory.write_byte(0xFF40, 0b1000_0010);
    let sprites = [(16u8, 10u8, 1u8), (16, 8, 2)];
    for (n, (y, x, t)) in sprites.iter().enumerate() {
        let base = 0xFE00 + (n as u16) * 4;
        cpu.memory.write_byte(base, *y);
        cpu.memory.write_byte(base + 1, *x);
        cpu.memory.write_byte(base + 2, *t);
        cpu.memory.write_byte(base + 3, 0);
    }
    cpu.render_sprites(0);
    assert_eq!(cpu.framebuffer[0], (0, 0, 255));
    assert_eq!(cpu.framebuffer[2], (255, 0, 0)); // overlap: lower index wins
}

#[test]
fn test_sprite_8x16_uses_second_tile() {
    let mut cpu = cpu_with_program(vec![]);
    cpu.memory.write_byte(0x8030, 0xFF); // tile 3, row 0: color 3
    cpu.memory.write_byte(0x8031, 0xFF);
    cpu.memory.write_byte(0xFF48, 0xE4);
    cpu.memory.write_byte(0xFF40, 0b1000_0110); // LCD, 8x16 sprites, sprites on
    cpu.memory.write_byte(0xFE00, 16);
    cpu.memory.write_byte(0xFE01, 8);
    cpu.memory.write_byte(0xFE02, 0x02); // low bit ignored: tiles 2 and 3
    cpu.memory.write_byte(0xFE03, 0);
    cpu.render_sprites(8); // row 8: first row of tile 3
    assert_eq!(cpu.framebuffer[8 * 160], dmg_rgb(3));
    cpu.render_sprites(0); // row 0 of tile 2 is blank
    assert_eq!(cpu.framebuffer[0], dmg_rgb(0));
}

#[test]
fn test_sprite_flips() {
    let mut cpu = cpu_with_program(vec![]);
    cpu.memory.write_byte(0x801E, 0x80); // tile 1, row 7: leftmost pixel color 1
    cpu.memory.write_byte(0x801F, 0x00);
    cpu.memory.write_byte(0xFF48, 0xE4);
    cpu.memory.write_byte(0xFF40, 0b1000_0010);
    cpu.memory.write_byte(0xFE00, 16);
    cpu.memory.write_byte(0xFE01, 8);
    cpu.memory.write_byte(0xFE02, 1);
    cpu.memory.write_byte(0xFE03, 0x60); // Y and X flip
    cpu.render_sprites(0); // line 0 shows row 7, mirrored
    assert_eq!(cpu.framebuffer[7], dmg_rgb(1));
    assert_eq!(cpu.framebuffer[0], dmg_rgb(0));
}

#[test]
fn test_sprites_disabled_draw_nothing() {
    let mut cpu = cpu_with_program(vec![]);
    put_solid_tile(&mut cpu, 0x8010, 0xFF, 0xFF);
    cpu.memory.write_byte(0xFE00, 16);
    cpu.memory.write_byte(0xFE01, 8);
    cpu.memory.write_byte(0xFE02, 1);
    cpu.memory.write_byte(0xFF40, 0b1000_0000); // sprites off
    cpu.render_sprites(0);
    assert_eq!(cpu.framebuffer[0], dmg_rgb(0));
}

#[test]
fn test_cgb_bg_attributes_palette_and_flip() {
    let mut cpu = cgb_cpu();
    cpu.memory.write_byte(0x8010, 0x80); // tile 1 row 0: leftmost pixel color 1
    cpu.memory.write_byte(0x8011, 0x00);
    cpu.memory.write_byte(0x9800, 0x01); // map (0,0) -> tile 1
    cpu.memory.write_byte(0xFF4F, 0x01);
    cpu.memory.write_byte(0x9800, 0x21); // attributes: palette 1, X flip
    cpu.memory.write_byte(0xFF4F, 0x00);
    cpu.memory.write_byte(0xFF68, 0x8A); // BG palette 1, color 1
    cpu.memory.write_byte(0xFF69, 0xE0);
    cpu.memory.write_byte(0xFF69, 0x03); // 0x03E0: green
    cpu.memory.write_byte(0xFF40, 0b1001_0000); // CGB draws BG even with bit 0 clear
    cpu.render_scanline(0);
    assert_eq!(cpu.framebuffer[7], (0, 255, 0));
    assert_eq!(cpu.framebuffer[0], (0, 0, 0));
}

#[test]
fn test_window_starts_at_wx_minus_7() {
    let mut cpu = cpu_with_program(vec![]);
    put_solid_tile(&mut cpu, 0x8010, 0xFF, 0xFF);
    cpu.memory.write_byte(0x9C00, 0x01);
    cpu.memory.write_byte(0xFF47, 0xE4);
    cpu.memory.write_byte(0xFF4A, 0x00);
    cpu.memory.write_byte(0xFF4B, 15); // window from screen x = 8
    cpu.memory.write_byte(0xFF40, 0b1111_0001);
    cpu.render_scanline(0);
    assert_eq!(cpu.framebuffer[7], dmg_rgb(0));
    assert_eq!(cpu.framebuffer[8], dmg_rgb(3));
    assert_eq!(cpu.framebuffer[15], dmg_rgb(3));
    assert_eq!(cpu.framebuffer[16], dmg_rgb(0));
}

#[test]
fn test_bg_scroll_wraps() {
    let mut cpu = cpu_with_program(vec![]);
    put_solid_tile(&mut cpu, 0x8010, 0xFF, 0xFF);
    cpu.memory.write_byte(0x9800, 0x01); // map column 0
    cpu.memory.write_byte(0xFF47, 0xE4);
    cpu.memory.write_byte(0xFF43, 0xFC); // SCX = 252: screen x 4 is map x 0
    cpu.memory.write_byte(0xFF40, 0b1001_0001);
    cpu.render_scanline(0);
    assert_eq!(cpu.framebuffer[3], dmg_rgb(0));
    assert_eq!(cpu.framebuffer[4], dmg_rgb(3));
}

#[test]
fn test_stat_vblank_interrupt() {
    let mut cpu = cpu_with_program(vec![]);
    cpu.memory.write_byte(0xFF41, 0x10); // VBlank STAT source
    cpu.step_ppu(456 * 144);
    assert_eq!(cpu.memory.read_byte(0xFF0F) & 0x03, 0x03); // VBlank and STAT
}

#[test]
fn test_request_interrupt_sets_bit() {
    let mut cpu = Cpu::new();
    cpu.request_interrupt(4);
    cpu.request_interrupt(0);
    assert_eq!(cpu.memory.read_byte(0xFF0F), 0x11);
}

#[test]
fn test_ld_hl_decrement_and_jp_hl() {
    let mut cpu = cpu_with_program(vec![0x32, 0xE9]); // LD (HL-), A ; JP (HL)
    cpu.registers.a = 0x99;
    cpu.registers.set_hl(0xC001);
    cpu.step();
    assert_eq!(cpu.memory.read_byte(0xC001), 0x99);
    assert_eq!(cpu.registers.hl(), 0xC000);
    cpu.step();
    assert_eq!(cpu.pc, 0xC000);
    assert_eq!(cpu.cycles, 12);
}

#[test]
fn test_ld_a16_sp_little_endian() {
    let mut cpu = cpu_with_program(vec![0x08, 0x00, 0xC0]);
    cpu.sp = 0xABCD;
    cpu.step();
    assert_eq!(cpu.memory.read_byte(0xC000), 0xCD);
    assert_eq!(cpu.memory.read_byte(0xC001), 0xAB);
    assert_eq!(cpu.cycles, 20);
}

#[test]
fn test_cpl_scf_ccf() {
    let mut cpu = cpu_with_program(vec![0x2F, 0x37, 0x3F]);
    cpu.registers.a = 0x5A;
    cpu.registers.f = 0x80;
    cpu.step();
    assert_eq!(cpu.registers.a, 0xA5);
    assert_eq!(cpu.registers.f, 0xE0); // Z kept, N and H set
    cpu.step();
    assert_eq!(cpu.registers.f, 0x90); // C set, N and H cleared
    cpu.step();
    assert_eq!(cpu.registers.f, 0x80); // C complemented
}

#[test]
fn test_alu_immediate_and_hl_forms() {
    let mut cpu = cpu_with_program(vec![0xCE, 0x0F, 0x86, 0xFE, 0x10]);
    cpu.registers.a = 0x00;
    cpu.registers.set_flag_carry(true);
    cpu.step(); // ADC A, 0x0F: 0x10, H set
    assert_eq!(cpu.registers.a, 0x10);
    assert!(cpu.registers.flag_half_carry());
    cpu.registers.set_hl(0xC000);
    cpu.memory.write_byte(0xC000, 0xF0);
    cpu.step(); // ADD A, (HL): 0x00 with carry
    assert_eq!(cpu.registers.a, 0x00);
    assert!(cpu.registers.flag_carry());
    assert!(cpu.registers.flag_zero());
    cpu.step(); // CP 0x10: borrow
    assert!(cpu.registers.flag_carry());
    assert_eq!(cpu.registers.a, 0x00);
    assert_eq!(cpu.cycles, 8 + 8 + 8);
}

#[test]
fn test_jr_forward_and_call_cc_not_taken() {
    let mut cpu = cpu_with_program(vec![0x18, 0x02, 0x00, 0x00, 0xDC, 0x00, 0x10]);
    cpu.step(); // JR +2
    assert_eq!(cpu.pc, 4);
    cpu.registers.set_flag_carry(false);
    cpu.step(); // CALL C: not taken, operand still consumed
    assert_eq!(cpu.pc, 7);
    assert_eq!(cpu.sp, 0xFFFE);
    assert_eq!(cpu.cycles, 12 + 12);
}

#[test]
fn test_register_names_and_order() {
    let all = Register::all();
    let names: Vec<&str> = all.iter().map(|r| r.name()).collect();
    assert_eq!(names, vec!["B", "C", "D", "E", "H", "L", "A"]);
}

#[test]
fn test_palette_shades_and_colors() {
    assert_eq!(apply_palette(0xE4, 0), 0);
    assert_eq!(apply_palette(0xE4, 2), 2);
    assert_eq!(apply_palette(0xFC, 0), 0);
    assert_eq!(apply_palette(0xFC, 1), 3);
    assert_eq!(dmg_rgb(0), (224, 248, 208));
    assert_eq!(dmg_rgb(1), (136, 192, 112));
    assert_eq!(dmg_rgb(2), (52, 104, 86));
    assert_eq!(dmg_rgb(3), (8, 24, 32));
    assert_eq!(dmg_rgb(9), (8, 24, 32));
}

#[test]
fn test_decode_tile_row_alternating() {
    assert_eq!(decode_tile_row(0xAA, 0x55), [1, 2, 1, 2, 1, 2, 1, 2]);
    assert_eq!(decode_tile_row(0x00, 0x00), [0; 8]);
}

#[test]
fn test_rr_roundtrip_all_pairs() {
    let mut cpu = Cpu::new();
    for idx in 0..3u8 {
        cpu.write_rr(idx, false, 0x1234 + idx as u16);
        assert_eq!(cpu.read_rr(idx, false), 0x1234 + idx as u16);
        assert_eq!(cpu.read_rr(idx, true), 0x1234 + idx as u16);
    }
    cpu.write_rr(3, true, 0xFFFF);
    assert_eq!(cpu.read_rr(3, true), 0xFFF0); // AF: low nibble of F reads zero
    assert_eq!(cpu.sp, 0xFFFE);
}

#[test]
fn test_full_frame_returns_ly_and_sets_vblank_once() {
    let mut cpu = cpu_with_program(vec![]);
    cpu.memory.write_byte(0xFF44, 100);
    cpu.step_ppu(456 * 154);
    assert_eq!(cpu.memory.read_byte(0xFF44), 100);
    assert_eq!(cpu.memory.read_byte(0xFF0F) & 0x01, 0x01);
    assert_eq!(cpu.ppu_dots, 0);
}

#[test]
fn test_timer_split_equals_whole() {
    let mut split = cpu_with_program(vec![]);
    let mut whole = cpu_with_program(vec![]);
    for cpu in [&mut split, &mut whole] {
        cpu.memory.write_byte(0xFF07, 0x05); // 16 cycles per tick
        cpu.memory.write_byte(0xFF06, 0x80);
        cpu.memory.write_byte(0xFF05, 0xF0);
    }
    split.step_timer(100);
    split.step_timer(250);
    whole.step_timer(350);
    assert_eq!(split.memory.read_byte(0xFF05), whole.memory.read_byte(0xFF05));
    assert_eq!(split.memory.read_byte(0xFF04), whole.memory.read_byte(0xFF04));
    assert_eq!(split.memory.read_byte(0xFF0F), whole.memory.read_byte(0xFF0F));
    assert_eq!(split.tima_counter, whole.tima_counter);
    assert_eq!(split.div_counter, whole.div_counter);
    // 350 / 16 = 21 ticks from 0xF0: overflow after 16, reload 0x80, then 5 more.
    assert_eq!(whole.memory.read_byte(0xFF05), 0x85);
    assert_eq!(whole.tima_counter, 350 % 16);
}
