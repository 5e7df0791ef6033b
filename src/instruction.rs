use vstd::prelude::*;

verus! {

pub type Register = u8;

pub type Address = u16;

pub type OpCode = u16;

/// Place value of the nibble `n` positions from the right: 16 to the power `n`.
pub open spec fn hex_place(n: int) -> int {
    if n <= 0 {
        1
    } else if n == 1 {
        16
    } else if n == 2 {
        256
    } else if n == 3 {
        4096
    } else {
        65536
    }
}

/// The `size` nibbles of `value` that start `location` nibbles from the left.
pub open spec fn nibble_field(value: u16, location: int, size: int) -> int {
    (value as int / hex_place(4 - location - size)) % hex_place(size)
}

/// The single nibble of `value` at `location` (0 is the most significant).
pub open spec fn nibble_at(value: u16, location: int) -> u8 {
    nibble_field(value, location, 1) as u8
}

proof fn lemma_nibble_masks(v: u16)
    by (bit_vector)
    ensures
        (v >> 12u16) & 0xFu16 == (v / 4096) % 16,
        (v >> 8u16) & 0xFu16 == (v / 256) % 16,
        (v >> 4u16) & 0xFu16 == (v / 16) % 16,
        (v >> 0u16) & 0xFu16 == v % 16,
        (v >> 8u16) & 0xFFu16 == (v / 256) % 256,
        (v >> 4u16) & 0xFFu16 == (v / 16) % 256,
        (v >> 0u16) & 0xFFu16 == v % 256,
        (v >> 4u16) & 0xFFFu16 == (v / 16) % 4096,
        (v >> 0u16) & 0xFFFu16 == v % 4096,
{
}

/// Takes `size` nibbles out of `value`, starting `location` nibbles from the left.
///
/// For `0xABCD`, location 1 and size 2 give `0xBC`.
pub fn get_nibbles(value: u16, location: u8, size: u8) -> (r: u16)
    requires
        1 <= size <= 4,
        location + size <= 4,
    ensures
        r == nibble_field(value, location as int, size as int),
{
    if size == 4 {
        assert(value as int / 1 % 65536 == value as int);
        return value;
    }
    let mask: u16 = if size == 1 {
        0xF
    } else if size == 2 {
        0xFF
    } else {
        0xFFF
    };
    let shift: u16 = ((4 - location - size) * 4) as u16;
    proof {
        lemma_nibble_masks(value);
    }
    (value >> shift) & mask
}

/// The nibble (hexadecimal digit) of `value` at `location`, 0 being the most significant.
pub fn get_nibble(value: u16, location: u8) -> (r: u8)
    requires
        location <= 3,
    ensures
        r == nibble_at(value, location as int),
        r < 16,
{
    get_nibbles(value, location, 1) as u8
}

/// The arithmetic or bitwise operation of a math instruction `0x8XYO`, chosen by `O`.
///
/// `X` names the destination register and `Y` the source register.
#[derive(Debug, Clone, Copy, PartialEq, Eq, Structural)]
pub enum MathOperation {
    /// Dest = Source
    Assign,
    /// Dest = Dest | Source
    BitwiseOr,
    /// Dest = Dest & Source
    BitwiseAnd,
    /// Dest = Dest ^ Source
    BitwiseXor,
    /// Dest += Source
    Add,
    /// Dest -= Source
    Subtract,
    /// Shift right by one; the bit shifted out goes to the flag register
    BitshiftRight,
    /// Dest = Source - Dest
    Difference,
    /// Shift left by one; the bit shifted out goes to the flag register
    BitshiftLeft,
    /// Any other low nibble; carries the whole opcode
    UnknownOperation(OpCode),
}

/// The operation selected by the low nibble of a math opcode.
pub open spec fn math_operation_of(opcode: u16) -> MathOperation {
    let o = opcode % 16;
    if o == 0x0 {
        MathOperation::Assign
    } else if o == 0x1 {
        MathOperation::BitwiseOr
    } else if o == 0x2 {
        MathOperation::BitwiseAnd
    } else if o == 0x3 {
        MathOperation::BitwiseXor
    } else if o == 0x4 {
        MathOperation::Add
    } else if o == 0x5 {
        MathOperation::Subtract
    } else if o == 0x6 {
        MathOperation::BitshiftRight
    } else if o == 0x7 {
        MathOperation::Difference
    } else if o == 0xE {
        MathOperation::BitshiftLeft
    } else {
        MathOperation::UnknownOperation(opcode)
    }
}

impl From<OpCode> for MathOperation {
    /// Finds the operation that the low nibble of `opcode` selects.
    fn from(opcode: OpCode) -> (r: Self) {
        let operation = 0x000F & opcode;
        proof {
            assert(0x000Fu16 & opcode == opcode % 16) by (bit_vector);
        }
        match operation {
            0x0 => MathOperation::Assign,
            0x1 => MathOperation::BitwiseOr,
            0x2 => MathOperation::BitwiseAnd,
            0x3 => MathOperation::BitwiseXor,
            0x4 => MathOperation::Add,
            0x5 => MathOperation::Subtract,
            0x6 => MathOperation::BitshiftRight,
            0x7 => MathOperation::Difference,
            0xE => MathOperation::BitshiftLeft,
            _ => MathOperation::UnknownOperation(opcode),
        }
    }
}

impl vstd::std_specs::convert::FromSpecImpl<OpCode> for MathOperation {
    open spec fn obeys_from_spec() -> bool {
        true
    }

    open spec fn from_spec(v: OpCode) -> Self {
        math_operation_of(v)
    }
}

/// One decoded instruction.
///
/// In the opcode patterns, `NNN` is an address, `NN` an 8-bit constant, `N` a 4-bit
/// constant, `X` and `Y` register indices, `I` the pointer register.
#[derive(Debug, Clone, Copy, PartialEq, Eq)]
pub enum Instruction {
    /// 0x0NNN: call a machine code routine at NNN (not supported at execution)
    MachineCodeCall(u16),
    /// 0x0000: halt the machine
    Halt,
    /// 0x00E0: clear the screen
    ClearDisplay,
    /// 0x00EE: return from the current subroutine
    Return,
    /// 0x1NNN: jump to NNN
    Goto { address: Address },
    /// 0x2NNN: call the subroutine at NNN
    Call { address: Address },
    /// 0x3XNN: skip the next instruction if VX == NN
    RegisterEqualToConst { register: Register, value: u8 },
    /// 0x4XNN: skip the next instruction if VX != NN
    RegisterNotEqualToConst { register: Register, value: u8 },
    /// 0x5XY0: skip the next instruction if VX == VY
    RegistersEqual(Register, Register),
    /// 0x6XNN: VX = NN
    SetRegister { register: Register, value: u8 },
    /// 0x7XNN: VX += NN, wrapping, without touching the flag register
    AddConst { register: Register, value: u8 },
    /// 0x8XYO: math operation O with destination X and source Y
    Math { source: Register, destination: Register, operation: MathOperation },
    /// 0x9XY0: skip the next instruction if VX != VY
    RegistersNotEqual(Register, Register),
    /// 0xANNN: I = NNN
    SetPointer(u16),
    /// 0xBNNN: jump to NNN plus a register
    JumpRelative { offset: u16 },
    /// 0xCXNN: VX = random byte & NN
    Random { register: Register, mask: u8 },
    /// 0xDXYN: draw an 8 by N sprite from I at (VX, VY); VF tells whether a pixel was erased
    Draw { position: (Register, Register), height: u8 },
    /// 0xEX9E: skip the next instruction if the key in VX is pressed
    KeyPressed(Register),
    /// 0xEXA1: skip the next instruction if the key in VX is not pressed
    KeyNotPressed(Register),
    /// 0xFX07: VX = delay timer
    GetDelayTimer(Register),
    /// 0xFX0A: wait for a key press and store the key in VX
    WaitKeyPress(Register),
    /// 0xFX15: delay timer = VX
    SetDelayTimer(Register),
    /// 0xFX18: sound timer = VX
    SetSoundTimer(Register),
    /// 0xFX1E: I += VX
    AddToPointer(Register),
    /// 0xFX29: I = address of the font glyph for the digit in VX
    SetPointerToLetter(Register),
    /// 0xFX33: store the decimal digits of VX at I, I+1, I+2
    SplitNumber(Register),
    /// 0xFX55: store V0 to VX (inclusive) in memory starting at I
    RegisterDump(Register),
    /// 0xFX65: fill V0 to VX (inclusive) from memory starting at I
    RegisterLoad(Register),
    /// Any other word of categories 0xE and 0xF; carries the whole opcode
    UndefinedOperation(u16),
}

/// The instruction that the 16-bit word `w` encodes.
pub open spec fn decode(w: u16) -> Instruction {
    let x = nibble_at(w, 1);
    let y = nibble_at(w, 2);
    let n = nibble_at(w, 3);
    let nn = (w % 256) as u8;
    let nnn = (w % 4096) as u16;
    let category = w / 4096;
    if category == 0x0 {
        if w == 0x0000 {
            Instruction::Halt
        } else if w == 0x00E0 {
            Instruction::ClearDisplay
        } else if w == 0x00EE {
            Instruction::Return
        } else {
            Instruction::MachineCodeCall(w)
        }
    } else if category == 0x1 {
        Instruction::Goto { address: nnn }
    } else if category == 0x2 {
        Instruction::Call { address: nnn }
    } else if category == 0x3 {
        Instruction::RegisterEqualToConst { register: x, value: nn }
    } else if category == 0x4 {
        Instruction::RegisterNotEqualToConst { register: x, value: nn }
    } else if category == 0x5 {
        Instruction::RegistersEqual(x, y)
    } else if category == 0x6 {
        Instruction::SetRegister { register: x, value: nn }
    } else if category == 0x7 {
        Instruction::AddConst { register: x, value: nn }
    } else if category == 0x8 {
        Instruction::Math { source: y, destination: x, operation: math_operation_of(w) }
    } else if category == 0x9 {
        Instruction::RegistersNotEqual(x, y)
    } else if category == 0xA {
        Instruction::SetPointer(nnn)
    } else if category == 0xB {
        Instruction::JumpRelative { offset: nnn }
    } else if category == 0xC {
        Instruction::Random { register: x, mask: nn }
    } else if category == 0xD {
        Instruction::Draw { position: (x, y), height: n }
    } else if category == 0xE {
        if nn == 0x9E {
            Instruction::KeyPressed(x)
        } else if nn == 0xA1 {
            Instruction::KeyNotPressed(x)
        } else {
            Instruction::UndefinedOperation(w)
        }
    } else {
        if nn == 0x07 {
            Instruction::GetDelayTimer(x)
        } else if nn == 0x0A {
            Instruction::WaitKeyPress(x)
        } else if nn == 0x15 {
            Instruction::SetDelayTimer(x)
        } else if nn == 0x18 {
            Instruction::SetSoundTimer(x)
        } else if nn == 0x1E {
            Instruction::AddToPointer(x)
        } else if nn == 0x29 {
            Instruction::SetPointerToLetter(x)
        } else if nn == 0x33 {
            Instruction::SplitNumber(x)
        } else if nn == 0x55 {
            Instruction::RegisterDump(x)
        } else if nn == 0x65 {
            Instruction::RegisterLoad(x)
        } else {
            Instruction::UndefinedOperation(w)
        }
    }
}

impl Instruction {
    /// Every register operand names one of the 16 registers.
    pub open spec fn valid(self) -> bool {
        match self {
            Instruction::RegisterEqualToConst { register, .. } => register < 16,
            Instruction::RegisterNotEqualToConst { register, .. } => register < 16,
            Instruction::RegistersEqual(a, b) => a < 16 && b < 16,
            Instruction::SetRegister { register, .. } => register < 16,
            Instruction::AddConst { register, .. } => register < 16,
            Instruction::Math { source, destination, .. } => source < 16 && destination < 16,
            Instruction::RegistersNotEqual(a, b) => a < 16 && b < 16,
            Instruction::Random { register, .. } => register < 16,
            Instruction::Draw { position, .. } => position.0 < 16 && position.1 < 16,
            Instruction::KeyPressed(r) => r < 16,
            Instruction::KeyNotPressed(r) => r < 16,
            Instruction::GetDelayTimer(r) => r < 16,
            Instruction::WaitKeyPress(r) => r < 16,
            Instruction::SetDelayTimer(r) => r < 16,
            Instruction::SetSoundTimer(r) => r < 16,
            Instruction::AddToPointer(r) => r < 16,
            Instruction::SetPointerToLetter(r) => r < 16,
            Instruction::SplitNumber(r) => r < 16,
            Instruction::RegisterDump(r) => r < 16,
            Instruction::RegisterLoad(r) => r < 16,
            _ => true,
        }
    }
}

/// Every 16-bit word decodes to exactly one instruction, whose register operands
/// all name one of the 16 registers.
pub proof fn lemma_decode_valid(w: u16)
    ensures
        decode(w).valid(),
{
}

impl From<u16> for Instruction {
    /// Decodes one instruction word; every word decodes to some instruction.
    fn from(instruction: u16) -> (r: Self) {
        let category_num = get_nibble(instruction, 0);
        let register = get_nibble(instruction, 1);
        let second = get_nibble(instruction, 2);
        let low = get_nibble(instruction, 3);
        let byte = (instruction & 0x00FF) as u8;
        let address = instruction & 0x0FFF;
        proof {
            assert(instruction & 0x00FFu16 == instruction % 256) by (bit_vector);
            assert(instruction & 0x0FFFu16 == instruction % 4096) by (bit_vector);
        }
        match category_num {
            0x0 => {
                if instruction == 0x0000 {
                    Instruction::Halt
                } else if instruction == 0x00E0 {
                    Instruction::ClearDisplay
                } else if instruction == 0x00EE {
                    Instruction::Return
                } else {
                    Instruction::MachineCodeCall(instruction)
                }
            },
            0x1 => Instruction::Goto { address },
            0x2 => Instruction::Call { address },
            0x3 => Instruction::RegisterEqualToConst { register, value: byte },
            0x4 => Instruction::RegisterNotEqualToConst {
                register,
                value: get_nibbles(instruction, 2, 2) as u8,
            },
            0x5 => Instruction::RegistersEqual(register, second),
            0x6 => Instruction::SetRegister { register, value: byte },
            0x7 => Instruction::AddConst { register, value: byte },
            0x8 => Instruction::Math {
                source: second,
                destination: register,
                operation: MathOperation::from(instruction),
            },
            0x9 => Instruction::RegistersNotEqual(register, second),
            0xA => Instruction::SetPointer(address),
            0xB => Instruction::JumpRelative { offset: address },
            0xC => Instruction::Random { register, mask: byte },
            0xD => Instruction::Draw { position: (register, second), height: low },
            0xE => {
                if byte == 0x9E {
                    Instruction::KeyPressed(register)
                } else if byte == 0xA1 {
                    Instruction::KeyNotPressed(register)
                } else {
                    Instruction::UndefinedOperation(instruction)
                }
            },
            _ => {
                match byte {
                    0x07 => Instruction::GetDelayTimer(register),
                    0x0A => Instruction::WaitKeyPress(register),
                    0x15 => Instruction::SetDelayTimer(register),
                    0x18 => Instruction::SetSoundTimer(register),
                    0x1E => Instruction::AddToPointer(register),
                    0x29 => Instruction::SetPointerToLetter(register),
                    0x33 => Instruction::SplitNumber(register),
                    0x55 => Instruction::RegisterDump(register),
                    0x65 => Instruction::RegisterLoad(register),
                    _ => Instruction::UndefinedOperation(instruction),
                }
            },
        }
    }
}

impl vstd::std_specs::convert::FromSpecImpl<u16> for Instruction {
    open spec fn obeys_from_spec() -> bool {
        true
    }

    open spec fn from_spec(v: u16) -> Self {
        decode(v)
    }
}

} // verus!
