use chip8_core::instruction::{get_nibble, get_nibbles, Instruction, MathOperation};

/// Decoding the two instructions that take no argument.
#[test]
fn decode_no_arg_instructions() {
    assert_eq!(Instruction::from(0x00E0), Instruction::ClearDisplay);

    assert_eq!(Instruction::from(0x00EE), Instruction::Return);
}

#[test]
fn decode_flow_instructions() {
    assert_eq!(
        Instruction::from(0x1321),
        Instruction::Goto { address: 0x321 },
        "Decode goto instruction with the address 0x321"
    );

    assert_eq!(
        Instruction::from(0x2321),
        Instruction::Call { address: 0x321 },
        "Decode call instruction with the address 0x321"
    );

    assert_eq!(
        Instruction::from(0xB321),
        Instruction::JumpRelative { offset: 0x321 },
        "Decode jump relative instruction with the offset 0x321"
    );
}

#[test]
fn decode_bcd() {
    assert_eq!(
        Instruction::from(0xF433),
        Instruction::SplitNumber(4),
        "Decode BCD/split number instruction with register 4"
    );
}

/// One hexadecimal digit for each argument.
fn test_math_op(
    operation: u8,
    source: u8,
    destination: u8,
    variant: MathOperation,
    desc: &'static str,
) {
    let opcode =
        0x8000 + (destination as u16 * 0x100) + (source as u16 * 0x10) + operation as u16;

    assert_eq!(
        Instruction::from(opcode),
        Instruction::Math {
            source,
            destination,
            operation: variant
        },
        "{}",
        desc
    );
}

#[test]
fn decode_math_instructions() {
    test_math_op(
        0x0,
        0x2,
        0xA,
        MathOperation::Assign,
        "Decode assign math instruction with register 2 to register A",
    );

    test_math_op(
        0x1,
        0x0,
        0x8,
        MathOperation::BitwiseOr,
        "Decode bitwise OR operation from register 0 onto register 8",
    );

    test_math_op(
        0x2,
        0xA,
        0x3,
        MathOperation::BitwiseAnd,
        "Decode bitwise AND operation from register A onto register 2",
    );

    test_math_op(
        0x3,
        0xD,
        0x6,
        MathOperation::BitwiseXor,
        "Decode bitwise XOR operation from register D onto register 6",
    );

    test_math_op(
        0x4,
        0xF,
        0xE,
        MathOperation::Add,
        "Decode add instruction from register F onto register E",
    );

    test_math_op(
        0x5,
        0x2,
        0x5,
        MathOperation::Subtract,
        "Decode subtract instruction from register 2 onto register 5",
    );

    test_math_op(
        0x6,
        0x0,
        0x3,
        MathOperation::BitshiftRight,
        "Decode bitwise right shift on register 0x3, source is ignored",
    );
}

#[test]
fn test_get_nibble() {
    let bytes = 0xABCD;
    assert_eq!(get_nibble(bytes, 0), 0xA);
    assert_eq!(get_nibble(bytes, 1), 0xB);
    assert_eq!(get_nibble(bytes, 2), 0xC);
    assert_eq!(get_nibble(bytes, 3), 0xD);
}

/// The fields of `get_nibbles` that the decoder uses.
#[test]
fn test_get_nibbles() {
    let bytes = 0xABCD;
    assert_eq!(get_nibbles(bytes, 0, 2), 0xAB);
    assert_eq!(get_nibbles(bytes, 0, 3), 0xABC);
    assert_eq!(get_nibbles(bytes, 1, 2), 0xBC);
    assert_eq!(get_nibbles(bytes, 1, 3), 0xBCD);
    assert_eq!(get_nibbles(bytes, 2, 2), 0xCD);
}

#[test]
fn get_nibbles_whole_word_and_single_digits() {
    assert_eq!(get_nibbles(0xDEAF, 0, 4), 0xDEAF);
    assert_eq!(get_nibbles(0xDEAF, 0, 1), 0xD);
    assert_eq!(get_nibbles(0xDEAF, 3, 1), 0xF);
}

#[test]
fn decode_every_category() {
    assert_eq!(Instruction::from(0x0000), Instruction::Halt);
    assert_eq!(Instruction::from(0x0123), Instruction::MachineCodeCall(0x0123));
    assert_eq!(
        Instruction::from(0x3A42),
        Instruction::RegisterEqualToConst { register: 0xA, value: 0x42 }
    );
    assert_eq!(
        Instruction::from(0x4B17),
        Instruction::RegisterNotEqualToConst { register: 0xB, value: 0x17 }
    );
    assert_eq!(Instruction::from(0x5120), Instruction::RegistersEqual(1, 2));
    assert_eq!(Instruction::from(0x6C0F), Instruction::SetRegister { register: 0xC, value: 0x0F });
    assert_eq!(Instruction::from(0x7DFF), Instruction::AddConst { register: 0xD, value: 0xFF });
    assert_eq!(Instruction::from(0x9340), Instruction::RegistersNotEqual(3, 4));
    assert_eq!(Instruction::from(0xA123), Instruction::SetPointer(0x123));
    assert_eq!(Instruction::from(0xC5F0), Instruction::Random { register: 5, mask: 0xF0 });
    assert_eq!(Instruction::from(0xD12F), Instruction::Draw { position: (1, 2), height: 0xF });
    assert_eq!(Instruction::from(0xE19E), Instruction::KeyPressed(1));
    assert_eq!(Instruction::from(0xE2A1), Instruction::KeyNotPressed(2));
    assert_eq!(Instruction::from(0xE2A2), Instruction::UndefinedOperation(0xE2A2));
    assert_eq!(Instruction::from(0xF307), Instruction::GetDelayTimer(3));
    assert_eq!(Instruction::from(0xF30A), Instruction::WaitKeyPress(3));
    assert_eq!(Instruction::from(0xF315), Instruction::SetDelayTimer(3));
    assert_eq!(Instruction::from(0xF318), Instruction::SetSoundTimer(3));
    assert_eq!(Instruction::from(0xF31E), Instruction::AddToPointer(3));
    assert_eq!(Instruction::from(0xF329), Instruction::SetPointerToLetter(3));
    assert_eq!(Instruction::from(0xF355), Instruction::RegisterDump(3));
    assert_eq!(Instruction::from(0xF365), Instruction::RegisterLoad(3));
    assert_eq!(Instruction::from(0xF399), Instruction::UndefinedOperation(0xF399));
}

#[test]
fn decode_math_edge_operations() {
    assert_eq!(MathOperation::from(0x8127), MathOperation::Difference);
    assert_eq!(MathOperation::from(0x812E), MathOperation::BitshiftLeft);
    assert_eq!(MathOperation::from(0x8128), MathOperation::UnknownOperation(0x8128));
    assert_eq!(
        Instruction::from(0x812F),
        Instruction::Math {
            source: 2,
            destination: 1,
            operation: MathOperation::UnknownOperation(0x812F)
        }
    );
}

/// Every word decodes, without a panic.
#[test]
fn decoding_is_total() {
    for word in 0..=u16::MAX {
        let _ = Instruction::from(word);
    }
}
