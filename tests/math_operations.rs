use chip8_core::{Chip8, DecodingError};

/// A machine whose next instruction is `opcode`.
fn init_vm(opcode: u16) -> Chip8 {
    let mut vm = Chip8::new();
    let opcode_bytes = opcode.to_be_bytes();
    let pc = vm.pc as usize;
    vm.memory[pc] = opcode_bytes[0];
    vm.memory[pc + 1] = opcode_bytes[1];

    vm
}

#[test]
fn assign() {
    let mut vm = init_vm(0x8120);

    // destination register, will be set to register 2 value
    vm.registers[1] = 4;
    // source register
    vm.registers[2] = 0xA;

    vm.run_next().expect("Decoding error on test instruction");

    assert_eq!(
        vm.registers[1], 0xA,
        "Value of register two not copied to register one"
    );
}

#[test]
fn bitwise_or() {
    let mut vm = init_vm(0x8121);

    vm.registers[1] = 0b101;
    vm.registers[2] = 0b110;

    vm.run_next().expect("Decoding error on test instruction");

    assert_eq!(vm.registers[1], 0b111);
}

#[test]
fn bitwise_and() {
    let mut vm = init_vm(0x8142);

    vm.registers[1] = 0b1101;
    vm.registers[4] = 0b0111;

    vm.run_next().expect("Decoding error on test instruction");

    assert_eq!(vm.registers[1], 0b0101);
}

#[test]
fn bitwise_xor() {
    let mut vm = init_vm(0x8123);

    vm.registers[1] = 0b1101;
    vm.registers[2] = 0b0110;

    vm.run_next().expect("Decoding error on test instruction");

    assert_eq!(vm.registers[1], 0b1011);
}

#[test]
fn add_no_carry() {
    let mut vm = init_vm(0x8124);

    vm.registers[1] = 34;
    vm.registers[2] = 13;

    vm.run_next().expect("Decoding error on test instruction");

    assert_eq!(vm.registers[1], 34 + 13);
    assert!(!vm.get_carry(), "Unexpected positive carry flag");
}

#[test]
fn add_carry() {
    let mut vm = init_vm(0x8124);

    vm.registers[1] = 254;
    vm.registers[2] = 30;

    vm.run_next().expect("Decoding error on test instruction");

    assert_eq!(vm.registers[1], 254_u8.wrapping_add(30), "Wrapping add");
    assert!(vm.get_carry(), "Unexpected non-one carry flag");
}

#[test]
fn subtract_no_carry() {
    let mut vm = init_vm(0x8125);

    vm.registers[1] = 54;
    vm.registers[2] = 23;

    vm.run_next().expect("Decoding error on test instruction");

    assert_eq!(vm.registers[1], 54 - 23);
}

#[test]
fn subtract_carry() {
    let mut vm = init_vm(0x8125);

    vm.registers[1] = 54;
    vm.registers[2] = 64;

    vm.run_next().expect("Decoding error on test instruction");

    assert_eq!(vm.registers[1], 54_u8.wrapping_sub(64));
    // the flag is 1 only when the old destination exceeds the wrapped result,
    // and 54 does not exceed 246
    assert!(!vm.get_carry())
}

#[test]
fn bitshift_right() {
    let mut vm = init_vm(0x8126);
    // shifts read the destination register; the source register is ignored
    vm.quirks.alt_shift = true;

    vm.registers[1] = 0b1011;

    vm.run_next().expect("Decoding error on test instruction");

    assert_eq!(vm.registers[1], 0b101);
    assert_eq!(vm.registers[0xF], 1, "Carrying right shift");

    vm.back_instruction();

    vm.registers[1] = 0b1100;

    vm.run_next().expect("Decoding error on test instruction");

    assert_eq!(vm.registers[1], 0b110);
    assert_eq!(vm.registers[0xF], 0, "Non-carrying right shift");
}

#[test]
fn bitshift_left() {
    let mut vm = init_vm(0x812E);
    // shifts read the destination register; the source register is ignored
    vm.quirks.alt_shift = true;

    vm.registers[1] = 0b1101_1011;

    vm.run_next().expect("Decoding error on test instruction");

    assert_eq!(vm.registers[1], 0b1011_0110);
    assert_eq!(vm.registers[0xF], 1, "Carrying left shift");

    vm.back_instruction();

    vm.registers[1] = 0b0101_0111;

    vm.run_next().expect("Decoding error on test instruction");

    assert_eq!(vm.registers[1], 0b1010_1110);
    assert_eq!(vm.registers[0xF], 0, "Non-carrying left shift");
}

#[test]
fn unknown_operation() {
    let mut vm = init_vm(0x8128);
    let before = vm.registers;
    match vm.run_next() {
        Err(DecodingError::InvalidMathOperation { opcode }) => assert_eq!(opcode, 0x8128),
        other => panic!("expected an invalid math operation, got {:?}", other),
    }
    assert_eq!(vm.registers, before);
}

#[test]
fn shift_reads_source_without_quirk() {
    let mut vm = init_vm(0x8126);
    vm.registers[1] = 0xFF;
    vm.registers[2] = 0b0000_0011;
    vm.run_next().expect("Decoding error on test instruction");
    assert_eq!(vm.registers[1], 0b0000_0001);
    assert_eq!(vm.registers[0xF], 1);
}

#[test]
fn difference_and_its_flag() {
    let mut vm = init_vm(0x8127);
    vm.registers[1] = 2;
    vm.registers[2] = 6;
    vm.run_next().expect("Decoding error on test instruction");
    assert_eq!(vm.registers[1], 4);
    assert_eq!(vm.registers[0xF], 1);
}

#[test]
fn add_table() {
    for &(a, b) in &[(0u8, 0u8), (1, 255), (128, 128), (200, 55), (200, 56), (255, 255)] {
        let mut vm = init_vm(0x8124);
        vm.registers[1] = a;
        vm.registers[2] = b;
        vm.run_next().unwrap();
        assert_eq!(vm.registers[1] as u16, (a as u16 + b as u16) % 256);
        assert_eq!(vm.registers[0xF] == 1, a as u16 + b as u16 >= 256);
    }
}

#[test]
fn subtract_table() {
    for &(a, b) in &[(0u8, 0u8), (5, 5), (5, 0), (0, 1), (200, 100), (100, 200)] {
        let mut vm = init_vm(0x8125);
        vm.registers[1] = a;
        vm.registers[2] = b;
        vm.run_next().unwrap();
        let expected = a.wrapping_sub(b);
        assert_eq!(vm.registers[1], expected);
        assert_eq!(vm.registers[0xF] == 1, a > expected);
    }
}

#[test]
fn and_resets_flag_only_with_quirk() {
    let mut vm = init_vm(0x8122);
    vm.quirks.flag_reset = true;
    vm.registers[1] = 0xF0;
    vm.registers[2] = 0x3C;
    vm.registers[0xF] = 7;
    vm.run_next().unwrap();
    assert_eq!(vm.registers[1], 0x30);
    assert_eq!(vm.registers[0xF], 0);

    let mut vm = init_vm(0x8122);
    vm.quirks.flag_reset = false;
    vm.registers[0xF] = 7;
    vm.run_next().unwrap();
    assert_eq!(vm.registers[0xF], 7);
}
