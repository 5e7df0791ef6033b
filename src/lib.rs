//! The core of an interpreter for the CHIP-8 virtual machine: instruction decoding,
//! the execution of one instruction at a time under configurable quirks, the screen,
//! the keypad and the two timers.
pub mod display;
pub mod font;
pub mod instruction;
pub mod keypad;
pub mod quirks;
pub mod time;

use vstd::prelude::*;

use byteorder::ByteOrder;
use std::time::Instant;

use crate::display::{draw_result, Display};
use crate::font::font_bytes;
use crate::instruction::{decode, nibble_at, Instruction, MathOperation};
use crate::keypad::{key_code, Key, KeyState, Keypad};
use crate::quirks::{preset_config, QuirkConfig, QuirkPresets};
use crate::time::{carried_after, count_down, tick_count, Timers};

verus! {

/// Bytes of addressable memory.
pub const MEMORY_SIZE: usize = 0x1000;

/// Where programs are loaded, and where execution starts.
pub const PROGRAM_START: u16 = 0x200;

/// The register that holds carries, borrows, shifted-out bits and collisions.
pub const FLAG_REGISTER: usize = 0xF;

/// Relies on byteorder's `BigEndian::read_u16`: the first two bytes of `buf` read as a
/// big-endian integer. It panics on fewer than two bytes.
#[verifier::external_body]
fn read_u16_be(buf: &[u8]) -> (r: u16)
    requires
        buf@.len() >= 2,
    ensures
        r == buf@[0] as int * 256 + buf@[1] as int,
{
    byteorder::BigEndian::read_u16(buf)
}

/// Relies on `rand::random`: a byte from the thread-local generator. Any value may come.
#[verifier::external_body]
fn random_byte() -> (r: u8) {
    rand::random::<u8>()
}

/// Why an instruction could not run.
#[derive(Debug)]
pub enum DecodingError {
    /// The instruction is not one this machine runs.
    InvalidOpcode { opcode: u16 },
    /// The math instruction names no known operation.
    InvalidMathOperation { opcode: u16 },
    /// The instruction cannot run in the present state (for example a return with an
    /// empty call stack, or memory accessed past its end).
    InvalidState { operation: String, reason: String },
}

/// The kind of an error, as the contracts speak of it.
#[derive(Debug, Clone, Copy, PartialEq, Eq, Structural)]
pub enum Fault {
    Opcode(u16),
    MathOperation(u16),
    State,
}

impl DecodingError {
    pub open spec fn fault(&self) -> Fault {
        match self {
            DecodingError::InvalidOpcode { opcode } => Fault::Opcode(*opcode),
            DecodingError::InvalidMathOperation { opcode } => Fault::MathOperation(*opcode),
            DecodingError::InvalidState { .. } => Fault::State,
        }
    }
}

fn invalid_state(operation: &str, reason: &str) -> (e: DecodingError)
    ensures
        e.fault() == Fault::State,
{
    DecodingError::InvalidState { operation: operation.to_string(), reason: reason.to_string() }
}

/// The abstract state of the machine.
#[verifier::ext_equal]
pub struct MachineState {
    pub memory: Seq<u8>,
    pub registers: Seq<u8>,
    pub pointer: u16,
    pub pc: u16,
    pub stack: Seq<u16>,
    pub delay: nat,
    pub sound: nat,
    pub timer_remainder: nat,
    pub timer_rate: nat,
    pub timer_prev_tick: Instant,
    pub pixels: Seq<bool>,
    pub width: nat,
    pub height: nat,
    pub keys: Seq<KeyState>,
    pub running: bool,
    pub key_wait_register: Option<usize>,
    pub quirks: QuirkConfig,
}

/// `v` as a 16-bit register holds it: modulo 2^16.
pub open spec fn wrap16(v: int) -> u16 {
    (v % 0x10000) as u16
}

/// `v` as an 8-bit register holds it: modulo 2^8.
pub open spec fn wrap8(v: int) -> u8 {
    (v % 0x100) as u8
}

/// `dest` with the bytes of `src` written from `start` on.
pub open spec fn overwrite(dest: Seq<u8>, start: int, src: Seq<u8>) -> Seq<u8> {
    Seq::new(
        dest.len(),
        |j: int|
            if start <= j < start + src.len() {
                src[j - start]
            } else {
                dest[j]
            },
    )
}

/// The 16-bit word stored big-endian at `address`.
pub open spec fn word_at(memory: Seq<u8>, address: int) -> u16 {
    (memory[address] as int * 256 + memory[address + 1] as int) as u16
}

/// The memory of a fresh machine: the font glyphs, then zeros.
pub open spec fn initial_memory() -> Seq<u8> {
    font_bytes() + Seq::new((MEMORY_SIZE - 80) as nat, |i: int| 0u8)
}

/// The register that a shift reads.
pub open spec fn shift_operand(source: u8, destination: u8, quirks: QuirkConfig) -> u8 {
    if quirks.alt_shift {
        destination
    } else {
        source
    }
}

/// The value a math operation writes to its destination register, from the values of
/// the source and destination registers before it.
pub open spec fn math_value(
    operation: MathOperation,
    source: u8,
    destination: u8,
    quirks: QuirkConfig,
) -> u8 {
    let operand = shift_operand(source, destination, quirks);
    match operation {
        MathOperation::Assign => source,
        MathOperation::BitwiseOr => source | destination,
        MathOperation::BitwiseAnd => source & destination,
        MathOperation::BitwiseXor => source ^ destination,
        MathOperation::Add => wrap8(destination + source),
        MathOperation::Subtract => wrap8(destination - source),
        MathOperation::Difference => wrap8(source - destination),
        MathOperation::BitshiftRight => (operand / 2) as u8,
        MathOperation::BitshiftLeft => wrap8(operand * 2),
        MathOperation::UnknownOperation(_) => destination,
    }
}

/// The value a math operation writes to the flag register afterwards, if any.
pub open spec fn math_flag(
    operation: MathOperation,
    source: u8,
    destination: u8,
    quirks: QuirkConfig,
) -> Option<u8> {
    let result = math_value(operation, source, destination, quirks);
    let operand = shift_operand(source, destination, quirks);
    match operation {
        MathOperation::Assign => None,
        MathOperation::BitwiseOr | MathOperation::BitwiseAnd | MathOperation::BitwiseXor => {
            if quirks.flag_reset {
                Some(0u8)
            } else {
                None
            }
        },
        MathOperation::Add | MathOperation::Subtract => Some(
            if destination > result {
                1u8
            } else {
                0u8
            },
        ),
        MathOperation::Difference => Some(
            if source > result {
                1u8
            } else {
                0u8
            },
        ),
        MathOperation::BitshiftRight => Some((operand % 2) as u8),
        MathOperation::BitshiftLeft => Some((operand / 128) as u8),
        MathOperation::UnknownOperation(_) => None,
    }
}

/// The registers after a math operation from register `source` onto register
/// `destination`: first the result, then the flag.
pub open spec fn math_registers(
    registers: Seq<u8>,
    source: int,
    destination: int,
    operation: MathOperation,
    quirks: QuirkConfig,
) -> Seq<u8> {
    let s = registers[source];
    let d = registers[destination];
    let written = registers.update(destination, math_value(operation, s, d, quirks));
    match math_flag(operation, s, d, quirks) {
        Some(f) => written.update(FLAG_REGISTER as int, f),
        None => written,
    }
}

impl MachineState {
    pub open spec fn reg(self, r: int) -> u8 {
        self.registers[r]
    }

    pub open spec fn with_reg(self, r: int, v: u8) -> MachineState {
        MachineState { registers: self.registers.update(r, v), ..self }
    }

    pub open spec fn with_registers(self, registers: Seq<u8>) -> MachineState {
        MachineState { registers, ..self }
    }

    pub open spec fn with_pc(self, pc: u16) -> MachineState {
        MachineState { pc, ..self }
    }

    pub open spec fn with_key(self, code: int, state: KeyState) -> MachineState {
        MachineState { keys: self.keys.update(code, state), ..self }
    }

    /// Skips the next instruction when `cond` holds.
    pub open spec fn skip_if(self, cond: bool) -> MachineState {
        if cond {
            MachineState { pc: wrap16(self.pc + 2), ..self }
        } else {
            self
        }
    }

    /// The pointer after a register dump or load of `count` registers.
    pub open spec fn pointer_after_transfer(self, count: int) -> u16 {
        if self.quirks.save_load_set_pointer {
            wrap16(self.pointer + count)
        } else {
            self.pointer
        }
    }

    /// The state after `elapsed_ms` milliseconds of real time, read at clock reading `now`.
    pub open spec fn advanced(self, elapsed_ms: nat, now: Instant) -> MachineState {
        let ticks = tick_count(self.timer_remainder, self.timer_rate, elapsed_ms);
        MachineState {
            delay: count_down(self.delay, ticks),
            sound: count_down(self.sound, ticks),
            timer_remainder: carried_after(self.timer_remainder, self.timer_rate, elapsed_ms),
            timer_prev_tick: now,
            ..self
        }
    }
}

/// Whether running `instruction` in state `s` fails, and how.
pub open spec fn fault_of(s: MachineState, instruction: Instruction) -> Option<Fault> {
    match instruction {
        Instruction::MachineCodeCall(opcode) => Some(Fault::Opcode(opcode)),
        Instruction::UndefinedOperation(opcode) => Some(Fault::Opcode(opcode)),
        Instruction::Return => if s.stack.len() == 0 {
            Some(Fault::State)
        } else {
            None
        },
        Instruction::Math { operation, .. } => match operation {
            MathOperation::UnknownOperation(opcode) => Some(Fault::MathOperation(opcode)),
            _ => None,
        },
        Instruction::Draw { height, .. } => if s.pointer + height > MEMORY_SIZE {
            Some(Fault::State)
        } else {
            None
        },
        Instruction::KeyPressed(r) => if s.reg(r as int) >= 16 {
            Some(Fault::State)
        } else {
            None
        },
        Instruction::KeyNotPressed(r) => if s.reg(r as int) >= 16 {
            Some(Fault::State)
        } else {
            None
        },
        Instruction::SplitNumber(_) => if s.pointer + 3 > MEMORY_SIZE {
            Some(Fault::State)
        } else {
            None
        },
        Instruction::RegisterDump(x) => if s.pointer + x + 1 > MEMORY_SIZE {
            Some(Fault::State)
        } else {
            None
        },
        Instruction::RegisterLoad(x) => if s.pointer + x + 1 > MEMORY_SIZE {
            Some(Fault::State)
        } else {
            None
        },
        _ => None,
    }
}

/// Instructions that move control.
pub open spec fn is_control(instruction: Instruction) -> bool {
    ||| instruction is Call
    ||| instruction is ClearDisplay
    ||| instruction is Goto
    ||| instruction is Halt
    ||| instruction is JumpRelative
    ||| instruction is MachineCodeCall
    ||| instruction is Return
    ||| instruction is UndefinedOperation
    ||| instruction is WaitKeyPress
}

/// Instructions that test or set registers.
pub open spec fn is_register_operation(instruction: Instruction) -> bool {
    ||| instruction is AddConst
    ||| instruction is Math
    ||| instruction is Random
    ||| instruction is RegisterEqualToConst
    ||| instruction is RegisterNotEqualToConst
    ||| instruction is RegistersEqual
    ||| instruction is RegistersNotEqual
    ||| instruction is SetRegister
}

/// The state after running `instruction` in state `s`; `random` is the byte that a
/// `Random` instruction draws. A failing instruction changes nothing, but for a return
/// with an empty call stack, which halts the machine.
pub open spec fn next_state(s: MachineState, instruction: Instruction, random: u8) -> MachineState {
    if fault_of(s, instruction) is Some {
        match instruction {
            Instruction::Return => MachineState { running: false, ..s },
            _ => s,
        }
    } else {
        match instruction {
            Instruction::Halt => MachineState { running: false, ..s },
            Instruction::ClearDisplay => MachineState {
                pixels: Seq::new(s.pixels.len(), |i: int| false),
                ..s
            },
            Instruction::Return => MachineState {
                pc: s.stack.last(),
                stack: s.stack.drop_last(),
                ..s
            },
            Instruction::Goto { address } => MachineState { pc: address, ..s },
            Instruction::Call { address } => MachineState {
                pc: address,
                stack: s.stack.push(s.pc),
                ..s
            },
            Instruction::RegisterEqualToConst { register, value } => s.skip_if(
                s.reg(register as int) == value,
            ),
            Instruction::RegisterNotEqualToConst { register, value } => s.skip_if(
                s.reg(register as int) != value,
            ),
            Instruction::RegistersEqual(a, b) => s.skip_if(s.reg(a as int) == s.reg(b as int)),
            Instruction::RegistersNotEqual(a, b) => s.skip_if(
                s.reg(a as int) != s.reg(b as int),
            ),
            Instruction::SetRegister { register, value } => s.with_reg(register as int, value),
            Instruction::AddConst { register, value } => s.with_reg(
                register as int,
                wrap8(s.reg(register as int) + value),
            ),
            Instruction::Math { source, destination, operation } => MachineState {
                registers: math_registers(
                    s.registers,
                    source as int,
                    destination as int,
                    operation,
                    s.quirks,
                ),
                ..s
            },
            Instruction::SetPointer(address) => MachineState { pointer: address, ..s },
            Instruction::JumpRelative { offset } => {
                let r = if s.quirks.alt_rel_jump {
                    nibble_at(offset, 1) as int
                } else {
                    0
                };
                MachineState { pc: wrap16(offset + s.reg(r)), ..s }
            },
            Instruction::Random { register, mask } => s.with_reg(register as int, random & mask),
            Instruction::Draw { position, height } => {
                let (pixels, collided) = draw_result(
                    s.pixels,
                    s.width,
                    s.height,
                    s.reg(position.0 as int),
                    s.reg(position.1 as int),
                    s.memory.subrange(s.pointer as int, s.pointer + height),
                    s.quirks.partial_wrap,
                );
                MachineState {
                    pixels,
                    registers: s.registers.update(
                        FLAG_REGISTER as int,
                        if collided {
                            1u8
                        } else {
                            0u8
                        },
                    ),
                    ..s
                }
            },
            Instruction::KeyPressed(r) => s.skip_if(
                s.keys[s.reg(r as int) as int] == KeyState::Pressed,
            ),
            Instruction::KeyNotPressed(r) => s.skip_if(
                s.keys[s.reg(r as int) as int] != KeyState::Pressed,
            ),
            Instruction::GetDelayTimer(r) => s.with_reg(r as int, wrap8(s.delay as int)),
            Instruction::WaitKeyPress(r) => MachineState {
                key_wait_register: Some(r as usize),
                ..s
            },
            Instruction::SetDelayTimer(r) => MachineState { delay: s.reg(r as int) as nat, ..s },
            Instruction::SetSoundTimer(r) => MachineState { sound: s.reg(r as int) as nat, ..s },
            Instruction::AddToPointer(r) => MachineState {
                pointer: wrap16(s.pointer + s.reg(r as int)),
                ..s
            },
            Instruction::SetPointerToLetter(r) => MachineState {
                pointer: (5 * s.reg(r as int)) as u16,
                ..s
            },
            Instruction::SplitNumber(r) => {
                let v = s.reg(r as int);
                MachineState {
                    memory: overwrite(s.memory, s.pointer as int, seq![v / 100, v / 10 % 10, v % 10]),
                    ..s
                }
            },
            Instruction::RegisterDump(x) => MachineState {
                memory: overwrite(s.memory, s.pointer as int, s.registers.subrange(0, x + 1)),
                pointer: s.pointer_after_transfer(x + 1),
                ..s
            },
            Instruction::RegisterLoad(x) => MachineState {
                registers: overwrite(
                    s.registers,
                    0,
                    s.memory.subrange(s.pointer as int, s.pointer + x + 1),
                ),
                pointer: s.pointer_after_transfer(x + 1),
                ..s
            },
            _ => s,
        }
    }
}

/// Whether one fetch-and-execute cycle in state `s` fails, and how: nothing runs while
/// a key is awaited, and the instruction word must lie inside memory.
pub open spec fn cycle_fault(s: MachineState) -> Option<Fault> {
    if s.key_wait_register is Some {
        None
    } else if s.pc + 2 > MEMORY_SIZE {
        Some(Fault::State)
    } else {
        fault_of(
            MachineState { pc: wrap16(s.pc + 2), ..s },
            decode(word_at(s.memory, s.pc as int)),
        )
    }
}

/// The state after one fetch-and-execute cycle in state `s`: the word at the program
/// counter is decoded, the counter moves past it, and the instruction runs.
pub open spec fn cycle_state(s: MachineState, random: u8) -> MachineState {
    if s.key_wait_register is Some || s.pc + 2 > MEMORY_SIZE {
        s
    } else {
        next_state(
            MachineState { pc: wrap16(s.pc + 2), ..s },
            decode(word_at(s.memory, s.pc as int)),
            random,
        )
    }
}

/// The state after `key` is pressed: a pending wait takes the key's code.
pub open spec fn pressed_state(s: MachineState, key: Key) -> MachineState {
    let keys = s.keys.update(key_code(key) as int, KeyState::Pressed);
    match s.key_wait_register {
        Some(r) => MachineState {
            keys,
            registers: s.registers.update(r as int, key_code(key)),
            key_wait_register: None,
            ..s
        },
        None => MachineState { keys, ..s },
    }
}

/// Adding register values `a` (destination) and `b` (source) leaves `(a + b) mod 256` in
/// the destination, and sets the flag register to 1 exactly when `a + b` reaches 256 (to
/// 0 otherwise). The destination must not be the flag register itself, which the flag
/// overwrites.
pub proof fn lemma_add_sets_sum_and_carry(s: MachineState, source: u8, destination: u8)
    requires
        s.registers.len() == 16,
        source < 16,
        destination < 16,
        destination != FLAG_REGISTER,
    ensures
        ({
            let a = s.reg(destination as int);
            let b = s.reg(source as int);
            let t = next_state(
                s,
                Instruction::Math { source, destination, operation: MathOperation::Add },
                0,
            );
            &&& t.reg(destination as int) == (a + b) % 256
            &&& t.reg(FLAG_REGISTER as int) == (if a + b >= 256 {
                1u8
            } else {
                0u8
            })
        }),
{
}

/// Subtracting source value `b` from destination value `a` leaves `(a - b) mod 256` in
/// the destination, and sets the flag register to 1 exactly when `a` is greater than that
/// result (to 0 otherwise). The destination must not be the flag register itself.
pub proof fn lemma_subtract_sets_difference_and_flag(
    s: MachineState,
    source: u8,
    destination: u8,
)
    requires
        s.registers.len() == 16,
        source < 16,
        destination < 16,
        destination != FLAG_REGISTER,
    ensures
        ({
            let a = s.reg(destination as int);
            let b = s.reg(source as int);
            let t = next_state(
                s,
                Instruction::Math { source, destination, operation: MathOperation::Subtract },
                0,
            );
            &&& t.reg(destination as int) == (a - b) % 256
            &&& t.reg(FLAG_REGISTER as int) == (if a > (a - b) % 256 {
                1u8
            } else {
                0u8
            })
        }),
{
}

/// With the flag-reset quirk, a bitwise AND always leaves 0 in the flag register; without
/// it, the flag register keeps its value (unless it is the destination).
pub proof fn lemma_and_flag_reset(s: MachineState, source: u8, destination: u8)
    requires
        s.registers.len() == 16,
        source < 16,
        destination < 16,
    ensures
        ({
            let t = next_state(
                s,
                Instruction::Math { source, destination, operation: MathOperation::BitwiseAnd },
                0,
            );
            &&& s.quirks.flag_reset ==> t.reg(FLAG_REGISTER as int) == 0
            &&& !s.quirks.flag_reset && destination != FLAG_REGISTER ==> t.reg(
                FLAG_REGISTER as int,
            ) == s.reg(FLAG_REGISTER as int)
        }),
{
}

/// A return with an empty call stack fails with an invalid-state error and halts the
/// machine.
pub proof fn lemma_return_on_empty_stack_halts(s: MachineState, random: u8)
    requires
        s.stack.len() == 0,
    ensures
        fault_of(s, Instruction::Return) == Some(Fault::State),
        !next_state(s, Instruction::Return, random).running,
{
}

/// A key press while register `r` awaits a key stores the key's code in `r` and ends the
/// wait, so a second press leaves the registers as the first one left them.
pub proof fn lemma_press_resolves_wait_once(s: MachineState, r: usize, first: Key, second: Key)
    requires
        s.key_wait_register == Some(r),
        r < 16,
        s.registers.len() == 16,
    ensures
        pressed_state(s, first).reg(r as int) == key_code(first),
        pressed_state(s, first).key_wait_register is None,
        pressed_state(pressed_state(s, first), second).registers == pressed_state(
            s,
            first,
        ).registers,
        pressed_state(pressed_state(s, first), second).key_wait_register is None,
{
}

/// The virtual machine.
pub struct Chip8 {
    /// Programs are loaded from 0x200 on; below that lie the font glyphs.
    pub memory: [u8; 0x1000],
    /// V0 to VF.
    pub registers: [u8; 16],
    /// The I register.
    pub pointer: u16,
    /// The program counter; each instruction is two bytes.
    pub pc: u16,
    pub stack: Vec<u16>,
    pub timers: Timers,
    pub display: Display,
    pub keypad: Keypad,
    pub running: bool,
    /// The register waiting for the next key press, if any.
    pub key_wait_register: Option<usize>,
    pub quirks: QuirkConfig,
}

impl View for Chip8 {
    type V = MachineState;

    open spec fn view(&self) -> MachineState {
        MachineState {
            memory: self.memory@,
            registers: self.registers@,
            pointer: self.pointer,
            pc: self.pc,
            stack: self.stack@,
            delay: self.timers.spec_delay(),
            sound: self.timers.spec_sound(),
            timer_remainder: self.timers.spec_remainder(),
            timer_rate: self.timers.spec_rate(),
            timer_prev_tick: self.timers.spec_prev_tick(),
            pixels: self.display@,
            width: self.display.spec_width(),
            height: self.display.spec_height(),
            keys: self.keypad@,
            running: self.running,
            key_wait_register: self.key_wait_register,
            quirks: self.quirks,
        }
    }
}

/// Writes the bytes of `src` into `dest` from `start` on.
fn copy_into(dest: &mut [u8], start: usize, src: &[u8])
    requires
        start + src@.len() <= old(dest)@.len(),
    ensures
        final(dest)@ == overwrite(old(dest)@, start as int, src@),
{
    let dest_len = dest.len();
    let mut i: usize = 0;
    while i < src.len()
        invariant
            dest@.len() == dest_len,
            i <= src@.len(),
            start + src@.len() <= dest@.len(),
            dest@.len() == old(dest)@.len(),
            forall|j: int|
                0 <= j < dest@.len() ==> dest@[j] == (if start <= j < start + i {
                    src@[j - start]
                } else {
                    old(dest)@[j]
                }),
        decreases src@.len() - i,
    {
        dest[start + i] = src[i];
        i += 1;
    }
    assert(dest@ =~= overwrite(old(dest)@, start as int, src@));
}

/// `operand` shifted right by one, and the bit shifted out.
fn shift_right(operand: u8) -> (r: (u8, Option<u8>))
    ensures
        r.0 == operand / 2,
        r.1 == Some((operand % 2) as u8),
{
    proof {
        assert(operand >> 1u8 == operand / 2) by (bit_vector);
        assert((operand & 1u8) as int == operand % 2) by (bit_vector);
    }
    (operand >> 1, Some(operand & 0b0000_0001))
}

/// `operand` shifted left by one, and the bit shifted out.
fn shift_left(operand: u8) -> (r: (u8, Option<u8>))
    ensures
        r.0 == wrap8(operand * 2),
        r.1 == Some((operand / 128) as u8),
{
    proof {
        assert(operand << 1u8 == ((operand as u16 * 2) % 256) as u8) by (bit_vector);
        assert((operand >> 7u8) as int == operand / 128) by (bit_vector);
    }
    (operand << 1, Some(operand >> 7))
}

/// The value a math operation writes to its destination and the value, if any, it then
/// writes to the flag register.
#[verifier::rlimit(100)]
fn math_outcome(
    operation: MathOperation,
    source_val: u8,
    dest_val: u8,
    quirks: &QuirkConfig,
) -> (r: (u8, Option<u8>))
    requires
        !(operation is UnknownOperation),
    ensures
        r.0 == math_value(operation, source_val, dest_val, *quirks),
        r.1 == math_flag(operation, source_val, dest_val, *quirks),
{
    let reset = if quirks.flag_reset {
        Some(0u8)
    } else {
        None
    };
    let operand = if quirks.alt_shift {
        dest_val
    } else {
        source_val
    };
    match operation {
        MathOperation::Assign => (source_val, None),
        MathOperation::BitwiseOr => (source_val | dest_val, reset),
        MathOperation::BitwiseAnd => (source_val & dest_val, reset),
        MathOperation::BitwiseXor => (source_val ^ dest_val, reset),
        MathOperation::Add => {
            let result = dest_val.wrapping_add(source_val);
            // the sum wrapped exactly when it came out below the old destination value
            (result, Some(if dest_val > result { 1 } else { 0 }))
        },
        MathOperation::Subtract => {
            let result = dest_val.wrapping_sub(source_val);
            (result, Some(if dest_val > result { 1 } else { 0 }))
        },
        MathOperation::Difference => {
            let result = source_val.wrapping_sub(dest_val);
            (result, Some(if source_val > result { 1 } else { 0 }))
        },
        MathOperation::BitshiftRight => shift_right(operand),
        MathOperation::BitshiftLeft => shift_left(operand),
        MathOperation::UnknownOperation(_) => (dest_val, None),
    }
}

impl Chip8 {
    /// The screen and timers are well formed, and a pending key wait names a register.
    pub open spec fn wf(&self) -> bool {
        &&& self.display.wf()
        &&& self.timers.wf()
        &&& self.keypad@.len() == 16
        &&& (self.key_wait_register matches Some(r) ==> r < 16)
    }

    /// The state of a machine just built or reset with quirks `quirks`.
    pub open spec fn is_initial(s: MachineState, quirks: QuirkConfig) -> bool {
        &&& s.memory == initial_memory()
        &&& s.registers == Seq::new(16, |i: int| 0u8)
        &&& s.pointer == 0
        &&& s.pc == PROGRAM_START
        &&& s.stack == Seq::<u16>::empty()
        &&& s.delay == 0
        &&& s.sound == 0
        &&& s.timer_remainder == 0
        &&& s.pixels == Seq::new(2048, |i: int| false)
        &&& s.width == 64
        &&& s.height == 32
        &&& s.keys == Seq::new(16, |i: int| KeyState::NotPressed)
        &&& s.running
        &&& s.key_wait_register is None
        &&& s.quirks == quirks
    }

    /// A fresh machine: memory zeroed but for the font, registers and pointer at zero,
    /// the program counter at the load offset, an empty stack, a blank 64 by 32 screen,
    /// no key pressed or awaited, running, with the quirks of the `Chip8` preset.
    pub fn new() -> (r: Self)
        ensures
            r.wf(),
            Self::is_initial(r@, preset_config(QuirkPresets::Chip8)),
    {
        let mut chip8 = Chip8 {
            memory: [0u8; 0x1000],
            registers: [0u8; 16],
            pointer: 0,
            pc: PROGRAM_START,
            stack: Vec::new(),
            timers: Timers::new(),
            display: Display::default(),
            keypad: Keypad::default(),
            running: true,
            key_wait_register: None,
            quirks: QuirkConfig::default(),
        };
        font::load_font(&mut chip8.memory);
        proof {
            let m = chip8.memory@;
            assert(m.subrange(0, 80) == font_bytes());
            assert forall|j: int| 80 <= j < 0x1000 implies m[j] == 0u8 by {
                assert(m[j] == m.subrange(80, 0x1000)[j - 80]);
            }
            assert(m =~= initial_memory());
            assert(chip8.registers@ =~= Seq::new(16, |i: int| 0u8));
            assert(chip8.stack@ =~= Seq::<u16>::empty());
        }
        chip8
    }

    /// Puts the machine back in the state `new` gives, keeping its quirks.
    pub fn reset(&mut self)
        ensures
            final(self).wf(),
            Self::is_initial(final(self)@, old(self).quirks),
    {
        let quirks = self.quirks;
        *self = Chip8::new();
        self.quirks = quirks;
    }

    pub fn is_key_waiting(&self) -> (r: bool)
        ensures
            r == (self.key_wait_register is Some),
    {
        self.key_wait_register.is_some()
    }

    /// Presses `key`; a pending wait for a key receives its code and ends.
    pub fn press_key(&mut self, key: Key)
        requires
            old(self).wf(),
        ensures
            final(self).wf(),
            final(self)@ == pressed_state(old(self)@, key),
    {
        self.keypad.set_key(key, KeyState::Pressed);
        if let Some(wait_register) = self.key_wait_register {
            let key_val = key.to_u8();
            self.registers[wait_register] = key_val;
            self.key_wait_register = None;
        }
    }

    pub fn release_key(&mut self, key: Key)
        requires
            old(self).wf(),
        ensures
            final(self).wf(),
            final(self)@ == old(self)@.with_key(key_code(key) as int, KeyState::NotPressed),
    {
        self.keypad.set_key(key, KeyState::NotPressed);
    }

    /// Moves the program counter past one instruction.
    pub fn next_instruction(&mut self)
        requires
            old(self).wf(),
        ensures
            final(self).wf(),
            final(self)@ == old(self)@.with_pc(wrap16(old(self).pc + 2)),
    {
        self.pc = self.pc.wrapping_add(2);
    }

    /// Moves the program counter back by one instruction.
    pub fn back_instruction(&mut self)
        requires
            old(self).wf(),
        ensures
            final(self).wf(),
            final(self)@ == old(self)@.with_pc(wrap16(old(self).pc - 2)),
    {
        self.pc = self.pc.wrapping_sub(2);
    }

    /// Moves the program counter past `steps` instructions.
    pub fn step_instructions(&mut self, steps: u16)
        requires
            old(self).wf(),
        ensures
            final(self).wf(),
            final(self)@ == old(self)@.with_pc(wrap16(old(self).pc + 2 * steps)),
    {
        self.pc = ((self.pc as u32 + 2 * steps as u32) % 0x10000) as u16;
    }

    fn set_carry(&mut self, carry: bool)
        requires
            old(self).wf(),
        ensures
            final(self).wf(),
            final(self)@ == old(self)@.with_reg(
                FLAG_REGISTER as int,
                if carry {
                    1u8
                } else {
                    0u8
                },
            ),
    {
        self.registers[FLAG_REGISTER] = if carry {
            1
        } else {
            0
        };
    }

    /// Whether the flag register holds 1.
    pub fn get_carry(&self) -> (r: bool)
        ensures
            r == (self.registers@[FLAG_REGISTER as int] == 1),
    {
        self.registers[FLAG_REGISTER] == 1
    }

    /// The big-endian 16-bit word at `index` and `index + 1`.
    pub fn get_u16(&self, index: usize) -> (r: u16)
        requires
            index + 1 < MEMORY_SIZE,
        ensures
            r == word_at(self.memory@, index as int),
    {
        read_u16_be(&self.memory[index..index + 2])
    }

    fn get_instruction_at_pc(&self) -> (r: Instruction)
        requires
            self.pc + 2 <= MEMORY_SIZE,
        ensures
            r == decode(word_at(self.memory@, self.pc as int)),
            r.valid(),
    {
        let instruction_data: u16 = self.get_u16(self.pc as usize);
        proof {
            instruction::lemma_decode_valid(instruction_data);
        }
        Instruction::from(instruction_data)
    }

    /// Runs math `operation` from register `source` onto register `destination`.
    fn handle_math(
        &mut self,
        source: u8,
        destination: u8,
        operation: MathOperation,
    ) -> (r: Result<(), DecodingError>)
        requires
            old(self).wf(),
            source < 16,
            destination < 16,
        ensures
            final(self).wf(),
            operation is UnknownOperation ==> final(self)@ == old(self)@ && (r matches Err(e)
                && e.fault() == Fault::MathOperation(operation->UnknownOperation_0)),
            !(operation is UnknownOperation) ==> r is Ok && final(self)@ == old(self)@.with_registers(
                math_registers(
                    old(self)@.registers,
                    source as int,
                    destination as int,
                    operation,
                    old(self)@.quirks,
                ),
            ),
    {
        if let MathOperation::UnknownOperation(opcode) = operation {
            return Err(DecodingError::InvalidMathOperation { opcode });
        }
        let d = destination as usize;
        let source_val = self.registers[source as usize];
        let dest_val = self.registers[d];
        let (value, flag) = math_outcome(operation, source_val, dest_val, &self.quirks);
        self.registers[d] = value;
        if let Some(f) = flag {
            self.registers[FLAG_REGISTER] = f;
        }
        Ok(())
    }

    /// Runs `instruction`; `random` is the byte that a `Random` instruction masks.
    pub fn execute(&mut self, instruction: Instruction, random: u8) -> (r: Result<
        (),
        DecodingError,
    >)
        requires
            old(self).wf(),
            instruction.valid(),
        ensures
            final(self).wf(),
            final(self)@ == next_state(old(self)@, instruction, random),
            r is Ok <==> fault_of(old(self)@, instruction) is None,
            r matches Err(e) ==> fault_of(old(self)@, instruction) == Some(e.fault()),
    {
        match instruction {
            Instruction::MachineCodeCall(_)
            | Instruction::Halt
            | Instruction::ClearDisplay
            | Instruction::Return
            | Instruction::Goto { .. }
            | Instruction::Call { .. }
            | Instruction::JumpRelative { .. }
            | Instruction::UndefinedOperation(_)
            | Instruction::WaitKeyPress(_) => self.execute_control(instruction),
            Instruction::RegisterEqualToConst { .. }
            | Instruction::RegisterNotEqualToConst { .. }
            | Instruction::RegistersEqual(..)
            | Instruction::RegistersNotEqual(..)
            | Instruction::SetRegister { .. }
            | Instruction::AddConst { .. }
            | Instruction::Random { .. }
            | Instruction::Math { .. } => self.execute_register_operation(instruction, random),
            _ => self.execute_memory_operation(instruction),
        }
    }

    /// Runs an instruction that moves control: jumps, calls, returns, halts, waits.
    fn execute_control(&mut self, instruction: Instruction) -> (r: Result<(), DecodingError>)
        requires
            old(self).wf(),
            instruction.valid(),
            is_control(instruction),
        ensures
            final(self).wf(),
            final(self)@ == next_state(old(self)@, instruction, 0),
            r is Ok <==> fault_of(old(self)@, instruction) is None,
            r matches Err(e) ==> fault_of(old(self)@, instruction) == Some(e.fault()),
    {
        match instruction {
            Instruction::MachineCodeCall(opcode) => Err(DecodingError::InvalidOpcode { opcode }),
            Instruction::Halt => {
                self.running = false;
                Ok(())
            },
            Instruction::ClearDisplay => {
                self.clear_display();
                Ok(())
            },
            Instruction::Return => self.return_from_call(),
            Instruction::Goto { address } => {
                self.pc = address;
                Ok(())
            },
            Instruction::Call { address } => {
                self.call(address);
                Ok(())
            },
            Instruction::JumpRelative { offset } => {
                self.jump_relative(offset);
                Ok(())
            },
            Instruction::WaitKeyPress(register) => {
                self.key_wait_register = Some(register as usize);
                Ok(())
            },
            Instruction::UndefinedOperation(opcode) => Err(DecodingError::InvalidOpcode { opcode }),
            _ => Ok(()),
        }
    }

    /// Runs an instruction that tests or sets registers.
    fn execute_register_operation(&mut self, instruction: Instruction, random: u8) -> (r: Result<
        (),
        DecodingError,
    >)
        requires
            old(self).wf(),
            instruction.valid(),
            !is_control(instruction),
            is_register_operation(instruction),
        ensures
            final(self).wf(),
            final(self)@ == next_state(old(self)@, instruction, random),
            r is Ok <==> fault_of(old(self)@, instruction) is None,
            r matches Err(e) ==> fault_of(old(self)@, instruction) == Some(e.fault()),
    {
        match instruction {
            Instruction::RegisterEqualToConst { register, value } => {
                if self.registers[register as usize] == value {
                    self.next_instruction();
                }
                Ok(())
            },
            Instruction::RegisterNotEqualToConst { register, value } => {
                if self.registers[register as usize] != value {
                    self.next_instruction();
                }
                Ok(())
            },
            Instruction::RegistersEqual(register1, register2) => {
                if self.registers[register1 as usize] == self.registers[register2 as usize] {
                    self.next_instruction();
                }
                Ok(())
            },
            Instruction::RegistersNotEqual(register1, register2) => {
                if self.registers[register1 as usize] != self.registers[register2 as usize] {
                    self.next_instruction();
                }
                Ok(())
            },
            Instruction::SetRegister { register, value } => {
                self.registers[register as usize] = value;
                Ok(())
            },
            Instruction::AddConst { register, value } => {
                // wraps, and leaves the flag register alone
                self.registers[register as usize] = self.registers[register as usize].wrapping_add(
                    value,
                );
                Ok(())
            },
            Instruction::Math { source, destination, operation } => {
                self.handle_math(source, destination, operation)
            },
            Instruction::Random { register, mask } => {
                self.registers[register as usize] = random & mask;
                Ok(())
            },
            _ => Ok(()),
        }
    }

    /// Runs an instruction on memory, the pointer, the screen, the keys or the timers.
    fn execute_memory_operation(&mut self, instruction: Instruction) -> (r: Result<
        (),
        DecodingError,
    >)
        requires
            old(self).wf(),
            instruction.valid(),
            !is_control(instruction),
            !is_register_operation(instruction),
        ensures
            final(self).wf(),
            final(self)@ == next_state(old(self)@, instruction, 0),
            r is Ok <==> fault_of(old(self)@, instruction) is None,
            r matches Err(e) ==> fault_of(old(self)@, instruction) == Some(e.fault()),
    {
        match instruction {
            Instruction::SetPointer(address) => {
                self.pointer = address;
                Ok(())
            },
            Instruction::Draw { position, height } => self.draw(position.0, position.1, height),
            Instruction::KeyPressed(register) => self.skip_on_key(register, true),
            Instruction::KeyNotPressed(register) => self.skip_on_key(register, false),
            Instruction::GetDelayTimer(register) => {
                let delay = self.timers.delay();
                self.registers[register as usize] = (delay % 256) as u8;
                Ok(())
            },
            Instruction::SetDelayTimer(register) => {
                self.timers.set_delay(self.registers[register as usize] as usize);
                Ok(())
            },
            Instruction::SetSoundTimer(register) => {
                self.timers.set_sound(self.registers[register as usize] as usize);
                Ok(())
            },
            Instruction::AddToPointer(register) => {
                self.pointer = self.pointer.wrapping_add(self.registers[register as usize] as u16);
                Ok(())
            },
            Instruction::SetPointerToLetter(register) => {
                self.pointer = font::get_letter_address(self.registers[register as usize]);
                Ok(())
            },
            Instruction::SplitNumber(register) => self.split_number(register),
            Instruction::RegisterDump(register) => self.register_dump(register),
            Instruction::RegisterLoad(register) => self.register_load(register),
            _ => Ok(()),
        }
    }

    /// Returns to the address on top of the call stack; with an empty stack the
    /// machine halts.
    fn return_from_call(&mut self) -> (r: Result<(), DecodingError>)
        requires
            old(self).wf(),
        ensures
            final(self).wf(),
            final(self)@ == next_state(old(self)@, Instruction::Return, 0),
            r is Ok <==> old(self).stack@.len() > 0,
            r matches Err(e) ==> e.fault() == Fault::State,
    {
        match self.stack.pop() {
            Some(return_point) => {
                self.pc = return_point;
                Ok(())
            },
            None => {
                self.running = false;
                Err(invalid_state("Return", "there is no return point on the call stack"))
            },
        }
    }

    fn clear_display(&mut self)
        requires
            old(self).wf(),
        ensures
            final(self).wf(),
            final(self)@ == next_state(old(self)@, Instruction::ClearDisplay, 0),
    {
        self.display.clear();
    }

    /// Jumps to `offset` plus register 0, or plus the register that the first nibble of
    /// the 12-bit offset names when the quirk says so.
    fn jump_relative(&mut self, offset: u16)
        requires
            old(self).wf(),
        ensures
            final(self).wf(),
            final(self)@ == next_state(old(self)@, Instruction::JumpRelative { offset }, 0),
    {
        let register: usize = if self.quirks.alt_rel_jump {
            instruction::get_nibble(offset, 1) as usize
        } else {
            0
        };
        self.pc = offset.wrapping_add(self.registers[register] as u16);
    }

    fn call(&mut self, address: u16)
        requires
            old(self).wf(),
        ensures
            final(self).wf(),
            final(self)@ == next_state(old(self)@, Instruction::Call { address }, 0),
    {
        self.stack.push(self.pc);
        self.pc = address;
    }

    fn draw(&mut self, reg_x: u8, reg_y: u8, height: u8) -> (r: Result<(), DecodingError>)
        requires
            old(self).wf(),
            reg_x < 16,
            reg_y < 16,
        ensures
            final(self).wf(),
            final(self)@ == next_state(
                old(self)@,
                Instruction::Draw { position: (reg_x, reg_y), height },
                0,
            ),
            r is Ok <==> old(self).pointer + height <= MEMORY_SIZE,
            r matches Err(e) ==> e.fault() == Fault::State,
    {
        let start = self.pointer as usize;
        let end = start + height as usize;
        if end > MEMORY_SIZE {
            return Err(invalid_state("Draw", "the sprite runs past the end of memory"));
        }
        let x = self.registers[reg_x as usize];
        let y = self.registers[reg_y as usize];
        let sprite = &self.memory[start..end];
        assert(sprite@.subrange(0, height as int) =~= sprite@);
        let collided = self.display.draw_sprite(x, y, height, sprite, self.quirks.partial_wrap);
        self.set_carry(collided);
        Ok(())
    }

    /// Skips the next instruction when the key whose code register `register` holds is
    /// pressed (`when_pressed`) or not pressed (otherwise).
    fn skip_on_key(&mut self, register: u8, when_pressed: bool) -> (r: Result<(), DecodingError>)
        requires
            old(self).wf(),
            register < 16,
        ensures
            final(self).wf(),
            final(self)@ == next_state(
                old(self)@,
                if when_pressed {
                    Instruction::KeyPressed(register)
                } else {
                    Instruction::KeyNotPressed(register)
                },
                0,
            ),
            r is Ok <==> old(self).registers@[register as int] < 16,
            r matches Err(e) ==> e.fault() == Fault::State,
    {
        let code = self.registers[register as usize];
        match Key::from_u8(code) {
            Some(key) => {
                if self.keypad.is_key_pressed(key) == when_pressed {
                    self.step_instructions(1);
                }
                Ok(())
            },
            None => Err(invalid_state("KeyPressed", "the register holds no key code (0 to F)")),
        }
    }

    fn split_number(&mut self, register: u8) -> (r: Result<(), DecodingError>)
        requires
            old(self).wf(),
            register < 16,
        ensures
            final(self).wf(),
            final(self)@ == next_state(old(self)@, Instruction::SplitNumber(register), 0),
            r is Ok <==> old(self).pointer + 3 <= MEMORY_SIZE,
            r matches Err(e) ==> e.fault() == Fault::State,
    {
        let start = self.pointer as usize;
        if start + 3 > MEMORY_SIZE {
            return Err(invalid_state("SplitNumber", "the digits run past the end of memory"));
        }
        let value = self.registers[register as usize];
        let digits: [u8; 3] = [
            value / 100 % 10,  // hundreds
            value / 10 % 10,  // tens
            value % 10,  // ones
        ];
        assert(digits@ =~= seq![value / 100, value / 10 % 10, value % 10]);
        copy_into(&mut self.memory, start, &digits);
        Ok(())
    }

    fn register_dump(&mut self, last: u8) -> (r: Result<(), DecodingError>)
        requires
            old(self).wf(),
            last < 16,
        ensures
            final(self).wf(),
            final(self)@ == next_state(old(self)@, Instruction::RegisterDump(last), 0),
            r is Ok <==> old(self).pointer + last + 1 <= MEMORY_SIZE,
            r matches Err(e) ==> e.fault() == Fault::State,
    {
        let start = self.pointer as usize;
        let count = last as usize + 1;
        if start + count > MEMORY_SIZE {
            return Err(invalid_state("RegisterDump", "the registers run past the end of memory"));
        }
        copy_into(&mut self.memory, start, &self.registers[0..count]);
        if self.quirks.save_load_set_pointer {
            self.pointer = self.pointer.wrapping_add(count as u16);
        }
        Ok(())
    }

    fn register_load(&mut self, last: u8) -> (r: Result<(), DecodingError>)
        requires
            old(self).wf(),
            last < 16,
        ensures
            final(self).wf(),
            final(self)@ == next_state(old(self)@, Instruction::RegisterLoad(last), 0),
            r is Ok <==> old(self).pointer + last + 1 <= MEMORY_SIZE,
            r matches Err(e) ==> e.fault() == Fault::State,
    {
        let start = self.pointer as usize;
        let count = last as usize + 1;
        if start + count > MEMORY_SIZE {
            return Err(invalid_state("RegisterLoad", "the registers run past the end of memory"));
        }
        copy_into(&mut self.registers, 0, &self.memory[start..start + count]);
        if self.quirks.save_load_set_pointer {
            self.pointer = self.pointer.wrapping_add(count as u16);
        }
        Ok(())
    }

    /// Runs `instruction`; a `Random` instruction draws its byte from the thread-local
    /// generator, so the registers it sets are known only up to that byte.
    pub fn handle_instruction(&mut self, instruction: Instruction) -> (r: Result<
        (),
        DecodingError,
    >)
        requires
            old(self).wf(),
            instruction.valid(),
        ensures
            final(self).wf(),
            exists|random: u8| final(self)@ == #[trigger] next_state(old(self)@, instruction, random),
            r is Ok <==> fault_of(old(self)@, instruction) is None,
            r matches Err(e) ==> fault_of(old(self)@, instruction) == Some(e.fault()),
    {
        let random = if let Instruction::Random { .. } = instruction {
            random_byte()
        } else {
            0
        };
        self.execute(instruction, random)
    }

    /// One step of the machine: the timers count the real time since the last step,
    /// then, unless a key press is awaited, the instruction at the program counter is
    /// fetched, the counter moves past it, and the instruction runs.
    pub fn run_next(&mut self) -> (r: Result<(), DecodingError>)
        requires
            old(self).wf(),
        ensures
            final(self).wf(),
            exists|elapsed_ms: nat, now: Instant, random: u8|
                {
                    let s = old(self)@.advanced(elapsed_ms, now);
                    &&& final(self)@ == #[trigger] cycle_state(
                        old(self)@.advanced(elapsed_ms, now),
                        random,
                    )
                    &&& (r is Ok <==> cycle_fault(s) is None)
                    &&& (r matches Err(e) ==> cycle_fault(s) == Some(e.fault()))
                },
    {
        let ghost s0 = self@;
        self.timers.do_ticks();
        let ghost s1 = self@;
        let ghost elapsed = choose|e: nat|
            {
                &&& s1.delay == count_down(
                    s0.delay,
                    #[trigger] tick_count(s0.timer_remainder, s0.timer_rate, e),
                )
                &&& s1.sound == count_down(
                    s0.sound,
                    tick_count(s0.timer_remainder, s0.timer_rate, e),
                )
                &&& s1.timer_remainder == carried_after(s0.timer_remainder, s0.timer_rate, e)
            };
        assert(s1 == s0.advanced(elapsed, s1.timer_prev_tick));
        if self.is_key_waiting() {
            assert(cycle_state(s0.advanced(elapsed, s1.timer_prev_tick), 0) == s1);
            return Ok(());
        }
        if self.pc as usize + 2 > MEMORY_SIZE {
            assert(cycle_state(s0.advanced(elapsed, s1.timer_prev_tick), 0) == s1);
            return Err(invalid_state("Fetch", "the program counter is past the end of memory"));
        }
        let instruction = self.get_instruction_at_pc();
        self.next_instruction();
        let ghost s2 = self@;
        let r = self.handle_instruction(instruction);
        proof {
            let random = choose|random: u8| self@ == #[trigger] next_state(s2, instruction, random);
            assert(cycle_state(s0.advanced(elapsed, s1.timer_prev_tick), random) == self@);
        }
        r
    }
}

impl Default for Chip8 {
    fn default() -> (r: Self)
        ensures
            r.wf(),
            Self::is_initial(r@, preset_config(QuirkPresets::Chip8)),
    {
        Chip8::new()
    }
}

/// What a user interface offers the machine: showing the screen, sounding the tone,
/// and reading keys.
pub trait Frontend {
    fn render_display(screen: Display);

    fn play_tone();

    fn stop_tone();

    fn is_key_pressed(key: char);

    fn wait_for_key(key: char);
}

} // verus!
