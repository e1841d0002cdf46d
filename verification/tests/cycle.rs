//! The cycle driver: fetch, decode, execute, timers, program-counter
//! wraparound, key-wait suspension, and sprite drawing end to end.

use chip8::cpu::instructions::Instruction;
use chip8::cpu::{Cpu, MachineError};
use chip8::interpreter::Chip8Interpreter;

#[test]
fn test_end_to_end_clear_then_load() {
    // Two instructions: clear the screen, then set register 0 to 5.
    let mut cpu = Cpu::new();
    cpu.load_rom_bytes(&vec![0x00, 0xE0, 0x60, 0x05]);
    assert!(cpu.emulate_cycle().is_ok());
    assert!(cpu.emulate_cycle().is_ok());
    assert!(cpu.pixels.iter().all(|p| !*p));
    assert_eq!(cpu.v[0], 5);
    assert_eq!(cpu.pc, 0x204);
}

#[test]
fn test_key_wait_scenario() {
    // WaitForKey(3): the counter holds through idle cycles until key 0x7
    // arrives, which lands in register 3 and advances by one instruction.
    let mut cpu = Cpu::new();
    cpu.load_rom_bytes(&vec![0xF3, 0x0A]);
    assert!(cpu.emulate_cycle().is_ok());
    assert_eq!(cpu.awaiting_key, Some(3));
    assert_eq!(cpu.pc, 0x200);
    for _ in 0..5 {
        assert!(cpu.emulate_cycle().is_ok());
        assert_eq!(cpu.pc, 0x200);
        assert_eq!(cpu.awaiting_key, Some(3));
    }
    cpu.key_press(0x7);
    assert_eq!(cpu.v[3], 0x7);
    assert_eq!(cpu.pc, 0x202);
    assert_eq!(cpu.awaiting_key, None);
}

#[test]
fn test_key_press_ignored_while_running() {
    let mut cpu = Cpu::new();
    cpu.key_press(0x7);
    assert_eq!(cpu.pc, 0x200);
    assert!(cpu.v.iter().all(|r| *r == 0));
}

#[test]
fn test_unknown_opcode_reported_and_stepped_over() {
    let mut cpu = Cpu::new();
    cpu.load_rom_bytes(&vec![0xFF, 0xFF, 0x60, 0x09]);
    let r = cpu.emulate_cycle();
    assert_eq!(r, Err(MachineError::UnknownOpcode(0xFFFF)));
    // The bad word was stepped over; the next cycle runs normally.
    assert_eq!(cpu.pc, 0x202);
    assert!(cpu.emulate_cycle().is_ok());
    assert_eq!(cpu.v[0], 9);
}

#[test]
fn test_stack_fault_holds_counter() {
    // A return with an empty stack is reported and the counter is held.
    let mut cpu = Cpu::new();
    cpu.load_rom_bytes(&vec![0x00, 0xEE]);
    let r = cpu.emulate_cycle();
    assert_eq!(r, Err(MachineError::StackUnderflow));
    assert_eq!(cpu.pc, 0x200);
}

#[test]
fn test_timers_decrement_once_per_cycle() {
    let mut cpu = Cpu::new();
    let _ = cpu.execute(Instruction::SetReg(0, 3));
    let _ = cpu.execute(Instruction::SetDelayTimer(0));
    let _ = cpu.execute(Instruction::SetSoundTimer(0));
    // Memory is zeroed: each cycle executes the legacy-call no-op.
    assert!(cpu.emulate_cycle().is_ok());
    assert_eq!(cpu.delay_timer, 2);
    assert_eq!(cpu.sound_timer, 2);
    assert!(cpu.emulate_cycle().is_ok());
    assert!(cpu.emulate_cycle().is_ok());
    assert_eq!(cpu.delay_timer, 0);
    assert_eq!(cpu.sound_timer, 0);
    // Timers floor at zero.
    assert!(cpu.emulate_cycle().is_ok());
    assert_eq!(cpu.delay_timer, 0);
    assert_eq!(cpu.sound_timer, 0);
}

#[test]
fn test_timers_do_not_tick_while_awaiting_key() {
    let mut cpu = Cpu::new();
    cpu.load_rom_bytes(&vec![0xF3, 0x0A]);
    let _ = cpu.execute(Instruction::SetReg(0, 5));
    let _ = cpu.execute(Instruction::SetDelayTimer(0));
    assert!(cpu.emulate_cycle().is_ok());
    // The wait-entering cycle ticks once; idle cycles do not.
    assert_eq!(cpu.delay_timer, 4);
    assert!(cpu.emulate_cycle().is_ok());
    assert!(cpu.emulate_cycle().is_ok());
    assert_eq!(cpu.delay_timer, 4);
}

#[test]
fn test_program_counter_wraps_to_userspace() {
    let mut cpu = Cpu::new();
    cpu.pc = 0xFFE;
    // Word 0x0000 is the legacy-call no-op; the advance past the top of
    // memory wraps back to the start of program space.
    assert!(cpu.emulate_cycle().is_ok());
    assert_eq!(cpu.pc, 0x200);
}

#[test]
fn test_draw_sprite_collision() {
    // Drawing the same sprite twice at the same coordinates toggles every
    // touched pixel back off and reports a collision the second time.
    let mut cpu = Cpu::new();
    cpu.load_rom_bytes(&vec![0xFF]);
    let _ = cpu.execute(Instruction::SetI(0x200));
    let _ = cpu.execute(Instruction::SetReg(0, 0));
    let _ = cpu.execute(Instruction::SetReg(1, 0));
    let _ = cpu.execute(Instruction::DrawSprite(0, 1, 1));
    assert_eq!(cpu.v[15], 0);
    assert!(cpu.draw_flag);
    for col in 0..8 {
        assert!(cpu.pixels[col]);
    }
    assert!(!cpu.pixels[8]);
    let _ = cpu.execute(Instruction::DrawSprite(0, 1, 1));
    assert_eq!(cpu.v[15], 1);
    assert!(cpu.pixels.iter().all(|p| !*p));
}

#[test]
fn test_draw_sprite_wraps_around_edges() {
    let mut cpu = Cpu::new();
    cpu.load_rom_bytes(&vec![0b1000_0000]);
    let _ = cpu.execute(Instruction::SetI(0x200));
    let _ = cpu.execute(Instruction::SetReg(0, 63));
    let _ = cpu.execute(Instruction::SetReg(1, 31));
    let _ = cpu.execute(Instruction::DrawSprite(0, 1, 1));
    // Bit 0 of the row lands at (63, 31): the last cell of the grid.
    assert!(cpu.pixels[31 * 64 + 63]);
}

#[test]
fn test_partial_sprite_overlap_collides() {
    let mut cpu = Cpu::new();
    cpu.load_rom_bytes(&vec![0b1111_0000]);
    let _ = cpu.execute(Instruction::SetI(0x200));
    let _ = cpu.execute(Instruction::SetReg(0, 0));
    let _ = cpu.execute(Instruction::SetReg(1, 0));
    let _ = cpu.execute(Instruction::DrawSprite(0, 1, 1));
    assert_eq!(cpu.v[15], 0);
    // Draw the same row two cells to the right: two cells overlap.
    let _ = cpu.execute(Instruction::SetReg(0, 2));
    let _ = cpu.execute(Instruction::DrawSprite(0, 1, 1));
    assert_eq!(cpu.v[15], 1);
    // XOR compositing: overlapped cells went dark, the rest are lit.
    assert!(cpu.pixels[0]);
    assert!(cpu.pixels[1]);
    assert!(!cpu.pixels[2]);
    assert!(!cpu.pixels[3]);
    assert!(cpu.pixels[4]);
    assert!(cpu.pixels[5]);
}

#[test]
fn test_clear_screen_instruction() {
    let mut cpu = Cpu::new();
    cpu.load_rom_bytes(&vec![0xFF]);
    let _ = cpu.execute(Instruction::SetI(0x200));
    let _ = cpu.execute(Instruction::DrawSprite(0, 1, 1));
    assert!(cpu.pixels.iter().any(|p| *p));
    let _ = cpu.execute(Instruction::Clear);
    assert!(cpu.pixels.iter().all(|p| !*p));
    assert!(cpu.draw_flag);
}

#[test]
fn test_draw_graphics_hands_out_frame_and_clears_flag() {
    let mut cpu = Cpu::new();
    cpu.load_rom_bytes(&vec![0xFF]);
    let _ = cpu.execute(Instruction::SetI(0x200));
    let _ = cpu.execute(Instruction::DrawSprite(0, 1, 1));
    assert!(cpu.draw_flag);
    let frame = cpu.draw_graphics();
    assert!(!cpu.draw_flag);
    assert_eq!(frame.len(), 64 * 32);
    assert!(frame[0] && frame[7]);
    assert!(!frame[8]);
}

#[test]
fn test_interpreter_runs_cycles() {
    let mut interp = Chip8Interpreter::new();
    interp.load_rom_bytes(&vec![0x60, 0x2A, 0x61, 0x07]);
    assert!(interp.emulate_cycle().is_ok());
    assert!(interp.emulate_cycle().is_ok());
    assert_eq!(interp.cpu.v[0], 0x2A);
    assert_eq!(interp.cpu.v[1], 0x07);
    assert_eq!(interp.cpu.pc, 0x204);
}

#[test]
fn test_interpreter_key_wait() {
    let mut interp = Chip8Interpreter::new();
    interp.load_rom_bytes(&vec![0xF0, 0x0A]);
    assert!(interp.emulate_cycle().is_ok());
    assert_eq!(interp.cpu.awaiting_key, Some(0));
    interp.key_press(0xA);
    assert_eq!(interp.cpu.v[0], 0xA);
    assert_eq!(interp.cpu.pc, 0x202);
}

#[test]
fn test_interpreter_set_keys_and_frame() {
    let mut interp = Chip8Interpreter::new();
    let mut keys = vec![false; 16];
    keys[0xC] = true;
    interp.set_keys(&keys);
    assert!(interp.cpu.keys[0xC]);
    let frame = interp.draw_graphics();
    assert_eq!(frame.len(), 2048);
}

#[test]
fn test_render_frame_text() {
    let pixels = vec![true, false, false, true];
    let frame = chip8::display::render_frame(&pixels, 2, 2);
    assert_eq!(frame, "* \n *");
}

#[test]
fn test_render_frame_whole_screen() {
    let mut cpu = Cpu::new();
    cpu.load_rom_bytes(&vec![0xF0]);
    let _ = cpu.execute(Instruction::SetI(0x200));
    let _ = cpu.execute(Instruction::DrawSprite(0, 1, 1));
    let frame = cpu.draw_graphics();
    let text = chip8::display::render_frame(&frame, 64, 32);
    let lines: Vec<&str> = text.split('\n').collect();
    assert_eq!(lines.len(), 32);
    assert!(lines.iter().all(|l| l.len() == 64));
    assert_eq!(&lines[0][0..5], "**** ");
    assert!(lines[1].chars().all(|c| c == ' '));
}
