use chip8::font::font_table;
use chip8::vm::{Chip8VM, Registers, VmError};

fn run_one(vm: &mut Chip8VM) {
    let r = vm.tick();
    assert!(r.is_ok(), "expected a supported opcode, got {:?}", r);
}

#[test]
fn construction_defaults() {
    let vm = Chip8VM::new();
    assert_eq!(vm.registers.PC, 0x200);
    assert_eq!(vm.registers.I, 0);
    assert_eq!(vm.registers.DT, 0);
    assert_eq!(vm.registers.ST, 0);
    assert_eq!(vm.registers.SP, 0);
    assert_eq!(vm.registers.general_purpose, [0u8; 16]);
    assert_eq!(vm.registers.stack, [0u16; 16]);
    assert_eq!(vm.tick_rate, 10);
    assert!(!vm.running);
    for x in 0..64 {
        for y in 0..32 {
            assert!(!vm.display_buffer[x][y]);
        }
    }
}

#[test]
fn registers_new_defaults() {
    let r = Registers::new();
    assert_eq!(r.PC, 0x200);
    assert_eq!(r.I, 0);
    assert_eq!(r.general_purpose, [0u8; 16]);
}

#[test]
fn construction_seeds_font_glyph_zero() {
    let vm = Chip8VM::new();
    assert_eq!(vm.memory[0x50], 0xF0);
    assert_eq!(vm.memory[0x51], 0x90);
    assert_eq!(vm.memory[0x52], 0x90);
    assert_eq!(vm.memory[0x53], 0x90);
    assert_eq!(vm.memory[0x54], 0xF0);
}

#[test]
fn construction_zeroes_memory_outside_font() {
    let vm = Chip8VM::new();
    for a in 0..4096 {
        if !(0x50..0xA0).contains(&a) {
            assert_eq!(vm.memory[a], 0, "address {a}");
        } else {
            assert_ne!(vm.memory[a], 0, "font byte at {a}");
        }
    }
}

#[test]
fn font_table_glyphs() {
    let t = font_table();
    assert_eq!(t.len(), 80);
    assert_eq!(t[0..5], [0xF0, 0x90, 0x90, 0x90, 0xF0], "digit 0");
    assert_eq!(t[5..10], [0x20, 0x60, 0x20, 0x20, 0x70], "digit 1");
    assert_eq!(t[75..80], [0xF0, 0x80, 0xF0, 0x80, 0x80], "digit F");
}

#[test]
fn instruction_combines_big_endian() {
    let mut vm = Chip8VM::new();
    vm.load(0x200, &[0xAB, 0xCD]);
    assert_eq!(vm.instruction(), 0xABCD);
}

#[test]
fn load_copies_bytes_in_order() {
    let mut vm = Chip8VM::new();
    vm.load(0x300, &[1, 2, 3, 4]);
    assert_eq!(vm.memory[0x300..0x304], [1, 2, 3, 4]);
    assert_eq!(vm.memory[0x2FF], 0);
    assert_eq!(vm.memory[0x304], 0);
}

#[test]
fn clear_display_clears_every_cell() {
    let mut vm = Chip8VM::new();
    for x in 0..64 {
        for y in 0..32 {
            vm.display_buffer[x][y] = (x + y) % 3 == 0;
        }
    }
    vm.load(0x200, &[0x00, 0xE0]);
    run_one(&mut vm);
    for x in 0..64 {
        for y in 0..32 {
            assert!(!vm.display_buffer[x][y], "cell ({x},{y})");
        }
    }
    assert_eq!(vm.registers.PC, 0x202);
}

#[test]
fn jump_sets_pc_and_next_fetch_reads_there() {
    let mut vm = Chip8VM::new();
    vm.load(0x200, &[0x12, 0x34]);
    vm.load(0x234, &[0x60, 0x05]);
    run_one(&mut vm);
    assert_eq!(vm.registers.PC, 0x234);
    assert_eq!(vm.instruction(), 0x6005);
    run_one(&mut vm);
    assert_eq!(vm.registers.general_purpose[0], 0x05);
}

#[test]
fn set_vx_loads_immediate() {
    let mut vm = Chip8VM::new();
    vm.load(0x200, &[0x6A, 0x42]);
    run_one(&mut vm);
    assert_eq!(vm.registers.general_purpose[10], 0x42);
    assert_eq!(vm.registers.PC, 0x202);
}

#[test]
fn add_immediate_zero_is_idempotent() {
    let mut vm = Chip8VM::new();
    vm.load(0x200, &[0x63, 0x07, 0x73, 0x00, 0x73, 0x00]);
    run_one(&mut vm);
    assert_eq!(vm.registers.general_purpose[3], 7);
    run_one(&mut vm);
    assert_eq!(vm.registers.general_purpose[3], 7);
    run_one(&mut vm);
    assert_eq!(vm.registers.general_purpose[3], 7);
}

#[test]
fn add_immediate_wraps_without_flag() {
    let mut vm = Chip8VM::new();
    vm.load(0x200, &[0x63, 0xFF, 0x73, 0x01]);
    run_one(&mut vm);
    run_one(&mut vm);
    assert_eq!(vm.registers.general_purpose[3], 0x00);
    assert_eq!(vm.registers.general_purpose[15], 0, "no carry flag side effect");
}

#[test]
fn set_index_register() {
    let mut vm = Chip8VM::new();
    vm.load(0x200, &[0xA1, 0x23]);
    run_one(&mut vm);
    assert_eq!(vm.registers.I, 0x123);
}

#[test]
fn draw_one_row_sets_four_cells_no_collision() {
    let mut vm = Chip8VM::new();
    // I := 0x50 (font glyph 0, first byte 0xF0), draw 1 row at (V0, V1) = (0, 0)
    vm.load(0x200, &[0xA0, 0x50, 0xD0, 0x11]);
    run_one(&mut vm);
    run_one(&mut vm);
    for x in 0..4 {
        assert!(vm.display_buffer[x][0], "cell ({x},0) should be on");
    }
    for x in 4..8 {
        assert!(!vm.display_buffer[x][0], "cell ({x},0) should stay off");
    }
    assert_eq!(vm.registers.general_purpose[15], 0, "no collision on clear buffer");
}

#[test]
fn draw_same_sprite_twice_toggles_back_and_collides() {
    let mut vm = Chip8VM::new();
    vm.load(0x200, &[0xA0, 0x50, 0xD0, 0x11, 0xD0, 0x11]);
    run_one(&mut vm);
    run_one(&mut vm);
    run_one(&mut vm);
    for x in 0..8 {
        assert!(!vm.display_buffer[x][0], "cell ({x},0) toggled back off");
    }
    assert_eq!(vm.registers.general_purpose[15], 1, "collision flag set");
}

#[test]
fn draw_clips_at_right_edge_without_wrapping() {
    let mut vm = Chip8VM::new();
    vm.load(0x300, &[0xFF]);
    // V0 := 60, I := 0x300, draw 1 row at (V0, V1) = (60, 0)
    vm.load(0x200, &[0x60, 0x3C, 0xA3, 0x00, 0xD0, 0x11]);
    run_one(&mut vm);
    run_one(&mut vm);
    run_one(&mut vm);
    for x in 60..64 {
        assert!(vm.display_buffer[x][0], "cell ({x},0) in bounds");
    }
    for x in 0..8 {
        assert!(!vm.display_buffer[x][0], "cell ({x},0) must not wrap around");
    }
    assert_eq!(vm.registers.general_purpose[15], 0);
}

#[test]
fn draw_clips_at_bottom_edge() {
    let mut vm = Chip8VM::new();
    // V1 := 30, I := 0x50, draw 5 rows at (0, 30): only rows 30 and 31 land
    vm.load(0x200, &[0x61, 0x1E, 0xA0, 0x50, 0xD0, 0x15]);
    run_one(&mut vm);
    run_one(&mut vm);
    run_one(&mut vm);
    // row 30 shows 0xF0, row 31 shows 0x90
    for x in 0..4 {
        assert!(vm.display_buffer[x][30], "cell ({x},30)");
    }
    assert!(vm.display_buffer[0][31]);
    assert!(!vm.display_buffer[1][31]);
    assert!(!vm.display_buffer[2][31]);
    assert!(vm.display_buffer[3][31]);
    assert_eq!(vm.registers.general_purpose[15], 0);
}

#[test]
fn draw_coordinates_wrap_modulo_display_size() {
    let mut vm = Chip8VM::new();
    // V0 := 64 wraps to column 0, V1 := 32 wraps to row 0
    vm.load(0x200, &[0x60, 0x40, 0x61, 0x20, 0xA0, 0x50, 0xD0, 0x11]);
    run_one(&mut vm);
    run_one(&mut vm);
    run_one(&mut vm);
    run_one(&mut vm);
    assert!(vm.display_buffer[0][0]);
    assert!(vm.display_buffer[3][0]);
}

#[test]
fn unsupported_opcodes_fail_without_any_effect() {
    let words: [u16; 12] = [
        0x2123, 0x3456, 0x4567, 0x5678, 0x8ABC, 0x9DEF, 0xB111, 0xC222, 0xE0A1, 0xF065, 0x0000,
        0x00EE,
    ];
    for &w in words.iter() {
        let mut vm = Chip8VM::new();
        vm.load(0x200, &[(w >> 8) as u8, (w & 0xFF) as u8]);
        let r = vm.tick();
        assert_eq!(r, Err(VmError::UnsupportedOpcode(w)), "word {w:#06X}");
        assert_eq!(vm.registers.PC, 0x200, "program counter untouched for {w:#06X}");
        assert_eq!(vm.registers.general_purpose, [0u8; 16]);
        assert_eq!(vm.registers.I, 0);
    }
}

#[test]
fn dump_lines_format_and_order() {
    let mut vm = Chip8VM::new();
    vm.load(0x200, &[0x12, 0x34]);
    let lines = vm.dump_lines();
    assert_eq!(lines.len(), 2048);
    let as_string = |l: &Vec<char>| l.iter().collect::<String>();
    assert_eq!(as_string(&lines[0]), "[0] 0000");
    // address 0x50 = 80: the first two font bytes
    assert_eq!(as_string(&lines[40]), "[80] F090");
    // address 0x200 = 512: the loaded program word
    assert_eq!(as_string(&lines[256]), "[512] 1234");
    assert_eq!(as_string(&lines[2047]), "[4094] 0000");
}
