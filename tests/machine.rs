use chip8_core::display::Display;
use chip8_core::instruction::Instruction;
use chip8_core::keypad::{Key, KeyState, Keypad};
use chip8_core::quirks::{QuirkConfig, QuirkPresets};
use chip8_core::time::Timers;
use chip8_core::{Chip8, DecodingError};

fn load(vm: &mut Chip8, program: &[u16]) {
    let mut at = vm.pc as usize;
    for word in program {
        let bytes = word.to_be_bytes();
        vm.memory[at] = bytes[0];
        vm.memory[at + 1] = bytes[1];
        at += 2;
    }
}

fn is_invalid_state(r: Result<(), DecodingError>) -> bool {
    matches!(r, Err(DecodingError::InvalidState { .. }))
}

#[test]
fn fresh_machine() {
    let vm = Chip8::new();
    assert_eq!(vm.pc, 0x200);
    assert_eq!(vm.pointer, 0);
    assert!(vm.running);
    assert!(vm.stack.is_empty());
    assert!(!vm.is_key_waiting());
    assert_eq!(vm.registers, [0u8; 16]);
    assert_eq!(vm.memory[0..5], [0xF0, 0x90, 0x90, 0x90, 0xF0]);
    assert!(vm.memory[80..].iter().all(|&b| b == 0));
    assert_eq!(vm.display.get_width(), 64);
    assert_eq!(vm.display.get_height(), 32);
    assert!(vm.display.pixels.iter().all(|&p| !p));
}

#[test]
fn return_on_empty_stack_halts() {
    let mut vm = Chip8::new();
    let r = vm.execute(Instruction::Return, 0);
    assert!(is_invalid_state(r));
    assert!(!vm.running);
}

#[test]
fn call_then_return() {
    let mut vm = Chip8::new();
    load(&mut vm, &[0x2300]);
    vm.memory[0x300] = 0x00;
    vm.memory[0x301] = 0xEE;
    vm.run_next().unwrap();
    assert_eq!(vm.pc, 0x300);
    assert_eq!(vm.stack, vec![0x202]);
    vm.run_next().unwrap();
    assert_eq!(vm.pc, 0x202);
    assert!(vm.stack.is_empty());
}

#[test]
fn halt_stops_the_machine() {
    let mut vm = Chip8::new();
    vm.run_next().unwrap();
    assert!(!vm.running);
    assert_eq!(vm.pc, 0x202);
}

#[test]
fn skips() {
    let mut vm = Chip8::new();
    vm.registers[3] = 0x42;
    vm.execute(Instruction::RegisterEqualToConst { register: 3, value: 0x42 }, 0).unwrap();
    assert_eq!(vm.pc, 0x202);
    vm.execute(Instruction::RegisterNotEqualToConst { register: 3, value: 0x42 }, 0).unwrap();
    assert_eq!(vm.pc, 0x202);
    vm.execute(Instruction::RegistersNotEqual(3, 4), 0).unwrap();
    assert_eq!(vm.pc, 0x204);
    vm.execute(Instruction::RegistersEqual(4, 5), 0).unwrap();
    assert_eq!(vm.pc, 0x206);
}

#[test]
fn add_const_wraps_without_flag() {
    let mut vm = Chip8::new();
    vm.registers[2] = 250;
    vm.registers[0xF] = 9;
    vm.execute(Instruction::AddConst { register: 2, value: 10 }, 0).unwrap();
    assert_eq!(vm.registers[2], 4);
    assert_eq!(vm.registers[0xF], 9);
}

#[test]
fn jump_relative_with_and_without_quirk() {
    let mut vm = Chip8::new();
    vm.registers[0] = 0x10;
    vm.registers[3] = 0x20;
    vm.execute(Instruction::JumpRelative { offset: 0x321 }, 0).unwrap();
    assert_eq!(vm.pc, 0x331);
    vm.quirks.alt_rel_jump = true;
    vm.execute(Instruction::JumpRelative { offset: 0x321 }, 0).unwrap();
    assert_eq!(vm.pc, 0x341);
}

#[test]
fn random_is_masked() {
    let mut vm = Chip8::new();
    vm.execute(Instruction::Random { register: 4, mask: 0x0F }, 0xAB).unwrap();
    assert_eq!(vm.registers[4], 0x0B);
    vm.handle_instruction(Instruction::Random { register: 5, mask: 0 }).unwrap();
    assert_eq!(vm.registers[5], 0);
    for _ in 0..20 {
        vm.handle_instruction(Instruction::Random { register: 6, mask: 0x0F }).unwrap();
        assert!(vm.registers[6] <= 0x0F);
    }
}

#[test]
fn split_number_writes_decimal_digits() {
    let mut vm = Chip8::new();
    vm.pointer = 0x300;
    vm.registers[7] = 254;
    vm.execute(Instruction::SplitNumber(7), 0).unwrap();
    assert_eq!(vm.memory[0x300..0x303], [2, 5, 4]);
}

#[test]
fn split_number_past_memory_end_fails() {
    let mut vm = Chip8::new();
    vm.pointer = 0xFFE;
    vm.registers[7] = 123;
    assert!(is_invalid_state(vm.execute(Instruction::SplitNumber(7), 0)));
    assert_eq!(vm.memory[0xFFE], 0);
}

#[test]
fn register_dump_and_load() {
    let mut vm = Chip8::new();
    vm.quirks.save_load_set_pointer = false;
    vm.pointer = 0x400;
    for i in 0..16 {
        vm.registers[i] = i as u8 + 1;
    }
    vm.execute(Instruction::RegisterDump(2), 0).unwrap();
    assert_eq!(vm.memory[0x400..0x404], [1, 2, 3, 0]);
    assert_eq!(vm.pointer, 0x400);

    vm.quirks.save_load_set_pointer = true;
    vm.memory[0x400] = 9;
    vm.registers = [0; 16];
    vm.execute(Instruction::RegisterLoad(1), 0).unwrap();
    assert_eq!(vm.registers[0..3], [9, 2, 0]);
    assert_eq!(vm.pointer, 0x402);
}

#[test]
fn pointer_instructions() {
    let mut vm = Chip8::new();
    vm.execute(Instruction::SetPointer(0x123), 0).unwrap();
    assert_eq!(vm.pointer, 0x123);
    vm.registers[1] = 0x10;
    vm.execute(Instruction::AddToPointer(1), 0).unwrap();
    assert_eq!(vm.pointer, 0x133);
    vm.registers[2] = 0xC;
    vm.execute(Instruction::SetPointerToLetter(2), 0).unwrap();
    assert_eq!(vm.pointer, 60);
}

#[test]
fn timer_instructions() {
    let mut vm = Chip8::new();
    vm.registers[1] = 200;
    vm.execute(Instruction::SetDelayTimer(1), 0).unwrap();
    vm.execute(Instruction::SetSoundTimer(1), 0).unwrap();
    assert_eq!(vm.timers.delay(), 200);
    assert!(vm.timers.is_sound_on());
    vm.execute(Instruction::GetDelayTimer(2), 0).unwrap();
    assert_eq!(vm.registers[2], 200);
}

#[test]
fn unknown_opcodes_are_errors() {
    let mut vm = Chip8::new();
    assert!(matches!(
        vm.execute(Instruction::from(0x0123), 0),
        Err(DecodingError::InvalidOpcode { opcode: 0x0123 })
    ));
    assert!(matches!(
        vm.execute(Instruction::from(0xE2A2), 0),
        Err(DecodingError::InvalidOpcode { opcode: 0xE2A2 })
    ));
    assert!(vm.running);
}

#[test]
fn key_skips() {
    let mut vm = Chip8::new();
    vm.registers[1] = 0xA;
    vm.execute(Instruction::KeyPressed(1), 0).unwrap();
    assert_eq!(vm.pc, 0x200);
    vm.execute(Instruction::KeyNotPressed(1), 0).unwrap();
    assert_eq!(vm.pc, 0x202);
    vm.press_key(Key::KeyA);
    vm.execute(Instruction::KeyPressed(1), 0).unwrap();
    assert_eq!(vm.pc, 0x204);
    vm.release_key(Key::KeyA);
    assert!(!vm.keypad.is_key_pressed(Key::KeyA));
}

#[test]
fn key_skip_with_no_key_code_fails() {
    let mut vm = Chip8::new();
    vm.registers[1] = 0x10;
    assert!(is_invalid_state(vm.execute(Instruction::KeyPressed(1), 0)));
    assert_eq!(vm.pc, 0x200);
}

#[test]
fn key_press_ends_wait_once() {
    let mut vm = Chip8::new();
    load(&mut vm, &[0xF30A]);
    vm.run_next().unwrap();
    assert!(vm.is_key_waiting());
    let pc = vm.pc;
    // nothing runs while the key is awaited
    vm.run_next().unwrap();
    assert_eq!(vm.pc, pc);
    vm.press_key(Key::Key7);
    assert_eq!(vm.registers[3], 7);
    assert!(!vm.is_key_waiting());
    vm.press_key(Key::Key9);
    assert_eq!(vm.registers[3], 7);
}

#[test]
fn fetch_past_memory_end_fails() {
    let mut vm = Chip8::new();
    vm.pc = 0xFFF;
    assert!(is_invalid_state(vm.run_next()));
    assert_eq!(vm.pc, 0xFFF);
}

#[test]
fn get_u16_reads_big_endian() {
    let mut vm = Chip8::new();
    vm.memory[0x300] = 0x12;
    vm.memory[0x301] = 0x34;
    assert_eq!(vm.get_u16(0x300), 0x1234);
    assert_eq!(vm.get_u16(0), 0xF090);
}

#[test]
fn program_counter_moves() {
    let mut vm = Chip8::new();
    vm.next_instruction();
    assert_eq!(vm.pc, 0x202);
    vm.step_instructions(3);
    assert_eq!(vm.pc, 0x208);
    vm.back_instruction();
    assert_eq!(vm.pc, 0x206);
}

#[test]
fn reset_restores_initial_state_and_keeps_quirks() {
    let mut vm = Chip8::new();
    vm.quirks.use_preset(QuirkPresets::SuperChip);
    vm.registers[3] = 5;
    vm.memory[0x300] = 1;
    vm.stack.push(0x222);
    vm.running = false;
    vm.pc = 0x400;
    vm.reset();
    assert_eq!(vm.registers, [0u8; 16]);
    assert_eq!(vm.memory[0x300], 0);
    assert_eq!(vm.memory[0..5], [0xF0, 0x90, 0x90, 0x90, 0xF0]);
    assert!(vm.stack.is_empty());
    assert!(vm.running);
    assert_eq!(vm.pc, 0x200);
    assert!(vm.quirks.alt_shift);
}

#[test]
fn draw_sets_collision_flag() {
    let mut vm = Chip8::new();
    // glyph of 0 from the font, at (0, 0)
    load(&mut vm, &[0xD015, 0xD015]);
    vm.run_next().unwrap();
    assert_eq!(vm.registers[0xF], 0);
    assert!(vm.display.pixels[0]);
    assert!(!vm.display.pixels[4]);
    vm.run_next().unwrap();
    assert_eq!(vm.registers[0xF], 1);
    assert!(vm.display.pixels.iter().all(|&p| !p));
}

#[test]
fn draw_past_memory_end_fails() {
    let mut vm = Chip8::new();
    vm.pointer = 0xFFD;
    assert!(is_invalid_state(vm.execute(Instruction::Draw { position: (0, 0), height: 5 }, 0)));
}

#[test]
fn clear_display_instruction() {
    let mut vm = Chip8::new();
    vm.display.draw_sprite(0, 0, 1, &[0xFF], false);
    vm.execute(Instruction::ClearDisplay, 0).unwrap();
    assert!(vm.display.pixels.iter().all(|&p| !p));
}

#[test]
fn same_sprite_twice_erases_it() {
    let mut d = Display::new(64, 32);
    let collided = d.draw_sprite(10, 3, 1, &[0xFF], false);
    assert!(!collided);
    for x in 10..18 {
        assert!(d.pixels[3 * 64 + x]);
    }
    assert_eq!(d.pixels.iter().filter(|&&p| p).count(), 8);
    let collided = d.draw_sprite(10, 3, 1, &[0xFF], false);
    assert!(collided);
    assert!(d.pixels.iter().all(|&p| !p));
}

#[test]
fn sprite_wraps_or_clips_at_the_edge() {
    let mut d = Display::new(64, 32);
    d.draw_sprite(60, 31, 2, &[0xFF, 0x80], true);
    assert!(d.pixels[31 * 64 + 63]);
    assert!(d.pixels[31 * 64]);
    assert!(d.pixels[60]);
    assert_eq!(d.pixels.iter().filter(|&&p| p).count(), 9);

    let mut d = Display::new(64, 32);
    d.draw_sprite(60, 31, 2, &[0xFF, 0x80], false);
    assert!(d.pixels[31 * 64 + 63]);
    assert!(!d.pixels[31 * 64]);
    assert_eq!(d.pixels.iter().filter(|&&p| p).count(), 4);
}

#[test]
fn coordinates_are_taken_modulo_the_screen() {
    let mut d = Display::new(64, 32);
    d.draw_sprite(64 + 2, 32 + 1, 1, &[0x80], false);
    assert!(d.pixels[64 + 2]);
    d.clear();
    assert!(d.pixels.iter().all(|&p| !p));
    assert_eq!(d.pixels().len(), 2048);
}

#[test]
fn pixels_as_bytes() {
    let mut d = Display::new(8, 1);
    d.draw_sprite(0, 0, 1, &[0b1010_0000], false);
    assert_eq!(d.pixels(), vec![1, 0, 1, 0, 0, 0, 0, 0]);
}

#[test]
fn one_second_is_sixty_ticks() {
    let mut t = Timers::new();
    t.set_delay(100);
    t.set_sound(30);
    t.advance_millis(1000);
    assert_eq!(t.delay(), 40);
    assert_eq!(t.sound(), 0);
    assert!(!t.is_sound_on());
}

#[test]
fn short_steps_do_not_drift() {
    let mut t = Timers::new();
    t.set_delay(200);
    for _ in 0..62 {
        t.advance_millis(16);
    }
    // 992 ms
    assert_eq!(t.delay(), 200 - 59);
    t.advance_millis(16);
    // 1008 ms
    assert_eq!(t.delay(), 200 - 60);
    let mut u = Timers::new();
    u.set_delay(200);
    for _ in 0..125 {
        u.advance_millis(8);
    }
    assert_eq!(u.delay(), 200 - 60);
}

#[test]
fn real_time_only_counts_down() {
    let mut t = Timers::new();
    t.set_delay(5);
    t.do_ticks();
    assert!(t.delay() <= 5);
}

#[test]
fn keypad_reports_changes() {
    let mut k = Keypad::new();
    assert!(k.set_key(Key::Key3, KeyState::Pressed));
    assert!(!k.set_key(Key::Key3, KeyState::Pressed));
    assert_eq!(k.get_key(Key::Key3), KeyState::Pressed);
    assert!(k.is_key_pressed(Key::Key3));
    assert!(k.set_key(Key::Key3, KeyState::NotPressed));
    assert_eq!(Key::from_u8(0xB), Some(Key::KeyB));
    assert_eq!(Key::from_u8(16), None);
    assert_eq!(Key::KeyE.to_u8(), 0xE);
}

#[test]
fn quirk_presets() {
    let q = QuirkConfig::new();
    assert!(q.flag_reset && q.save_load_set_pointer && q.display_wait);
    assert!(!q.partial_wrap && !q.alt_shift && !q.alt_rel_jump);
    let mut q = QuirkConfig::new();
    q.use_preset(QuirkPresets::SuperChip);
    assert!(!q.flag_reset && !q.save_load_set_pointer && q.alt_shift && q.alt_rel_jump);
    q.use_preset(QuirkPresets::XoChip);
    assert!(!q.flag_reset && q.save_load_set_pointer && !q.alt_shift && !q.alt_rel_jump);
}

#[test]
fn any_sprite_drawn_twice_restores_the_screen() {
    let mut d = Display::new(64, 32);
    d.draw_sprite(3, 4, 2, &[0b1100_0011, 0xFF], false);
    let before = d.pixels.clone();
    let sprite = [0xF0, 0x90, 0x90, 0x90, 0xF0];
    for &wrap in &[true, false] {
        d.draw_sprite(61, 30, 5, &sprite, wrap);
        d.draw_sprite(61, 30, 5, &sprite, wrap);
        assert_eq!(d.pixels, before);
    }
}
