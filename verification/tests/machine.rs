//! Machine construction, reset and program loading.

use chip8::cpu::{init_pc_register, Cpu};
use chip8::interpreter::Chip8Interpreter;

#[test]
fn mod_test_keys_initialize_to_false() {
    let cpu = Cpu::new();
    for key in cpu.keys.iter() {
        assert_eq!(*key, false);
    }
}

#[test]
fn interpreter_test_keys_initialize_to_false() {
    let interp = Chip8Interpreter::new();
    for key in interp.cpu.keys.iter() {
        assert_eq!(*key, false);
    }
}

#[test]
fn mod_test_initial_mem_location_is_0x200() {
    let pc_reg = init_pc_register();
    assert_eq!(pc_reg, 0x200);
}

#[test]
fn interpreter_test_initial_mem_location_is_0x200() {
    let pc_reg = init_pc_register();
    assert_eq!(pc_reg, 0x200);
}

#[test]
fn mod_test_registers_initialize_to_zero() {
    let interp = Chip8Interpreter::new();
    for reg in interp.cpu.v.iter() {
        assert_eq!(*reg, 0);
    }
}

#[test]
fn interpreter_test_registers_initialize_to_zero() {
    let interp = Chip8Interpreter::new();
    for reg in interp.cpu.v.iter() {
        assert_eq!(*reg, 0);
    }
}

#[test]
fn test_new_machine_state() {
    let cpu = Cpu::new();
    assert_eq!(cpu.pc, 0x200);
    assert_eq!(cpu.sp, 0);
    assert_eq!(cpu.i, 0);
    assert_eq!(cpu.delay_timer, 0);
    assert_eq!(cpu.sound_timer, 0);
    assert_eq!(cpu.draw_flag, false);
    assert_eq!(cpu.awaiting_key, None);
    assert_eq!(cpu.memory.len(), 4096);
    assert!(cpu.memory.iter().all(|b| *b == 0));
    assert_eq!(cpu.pixels.len(), 64 * 32);
    assert!(cpu.pixels.iter().all(|p| !*p));
}

#[test]
fn test_initialize_installs_fontset() {
    let mut cpu = Cpu::new();
    cpu.initialize();
    // The glyph table starts with the bitmap for `0` and ends with `F`.
    assert_eq!(cpu.get_memory(0), 0xF0);
    assert_eq!(cpu.get_memory(1), 0x90);
    assert_eq!(cpu.get_memory(79), 0x80);
    // Memory past the glyph table stays zero.
    assert_eq!(cpu.get_memory(80), 0x00);
    assert_eq!(cpu.pc, 0x200);
}

#[test]
fn test_initialize_resets_used_machine() {
    let mut cpu = Cpu::new();
    let rom = vec![0x60u8, 0x2A];
    cpu.load_rom_bytes(&rom);
    let _ = cpu.emulate_cycle();
    assert_eq!(cpu.v[0], 0x2A);
    cpu.initialize();
    assert_eq!(cpu.v[0], 0);
    assert_eq!(cpu.pc, 0x200);
    assert_eq!(cpu.get_memory(0x200), 0);
}

#[test]
fn test_load_rom_bytes_places_image_at_0x200() {
    let mut interpreter = Cpu::new();
    let rom = vec![0x00u8, 0xE0, 0x6C, 0x00, 0x4C];
    interpreter.load_rom_bytes(&rom);

    let first_byte = interpreter.get_memory(0x200);
    assert_eq!(first_byte, 0x00);
    let second_byte = interpreter.get_memory(0x200 + 1);
    assert_eq!(second_byte, 0xE0);
    let third_byte = interpreter.get_memory(0x200 + 2);
    assert_eq!(third_byte, 0x6C);
    let fourth_byte = interpreter.get_memory(0x200 + 3);
    assert_eq!(fourth_byte, 0x00);
    let fifth_byte = interpreter.get_memory(0x200 + 4);
    assert_eq!(fifth_byte, 0x4C);
    // Loading touches nothing outside the image.
    assert_eq!(interpreter.get_memory(0x1FF), 0x00);
    assert_eq!(interpreter.get_memory(0x200 + 5), 0x00);
}

#[test]
fn test_interpreter_load_rom_bytes() {
    let mut interp = Chip8Interpreter::new();
    let rom = vec![0xAAu8, 0xBB];
    interp.load_rom_bytes(&rom);
    assert_eq!(interp.get_memory(0x200), 0xAA);
    assert_eq!(interp.get_memory(0x201), 0xBB);
}
