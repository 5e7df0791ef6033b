use vstd::prelude::*;

verus! {

/// Bytes taken by the glyph of one hexadecimal digit.
pub const LETTER_SIZE: usize = 5;

/// The glyphs of the hexadecimal digits 0 to F, five rows of four pixels each,
/// one after the other.
pub open spec fn font_bytes() -> Seq<u8> {
    seq![
        0xF0u8, 0x90, 0x90, 0x90, 0xF0, // 0
        0x20, 0x60, 0x20, 0x20, 0x70, // 1
        0xF0, 0x10, 0xF0, 0x80, 0xF0, // 2
        0xF0, 0x10, 0xF0, 0x10, 0xF0, // 3
        0x90, 0x90, 0xF0, 0x10, 0x10, // 4
        0xF0, 0x80, 0xF0, 0x10, 0xF0, // 5
        0xF0, 0x80, 0xF0, 0x90, 0xF0, // 6
        0xF0, 0x10, 0x20, 0x40, 0x40, // 7
        0xF0, 0x90, 0xF0, 0x90, 0xF0, // 8
        0xF0, 0x90, 0xF0, 0x10, 0xF0, // 9
        0xF0, 0x90, 0xF0, 0x90, 0x90, // A
        0xE0, 0x90, 0xE0, 0x90, 0xE0, // B
        0xF0, 0x80, 0x80, 0x80, 0xF0, // C
        0xE0, 0x90, 0x90, 0x90, 0xE0, // D
        0xF0, 0x80, 0xF0, 0x80, 0xF0, // E
        0xF0, 0x80, 0xF0, 0x80, 0x80, // F
    ]
}

/// Writes the font glyphs at the start of `memory`, leaving the rest as it was.
pub fn load_font(memory: &mut [u8])
    requires
        old(memory)@.len() >= 80,
    ensures
        final(memory)@.len() == old(memory)@.len(),
        final(memory)@.subrange(0, 80) == font_bytes(),
        final(memory)@.subrange(80, old(memory)@.len() as int) == old(memory)@.subrange(
            80,
            old(memory)@.len() as int,
        ),
{
    let font: [u8; 80] = [
        0xF0, 0x90, 0x90, 0x90, 0xF0,
        0x20, 0x60, 0x20, 0x20, 0x70,
        0xF0, 0x10, 0xF0, 0x80, 0xF0,
        0xF0, 0x10, 0xF0, 0x10, 0xF0,
        0x90, 0x90, 0xF0, 0x10, 0x10,
        0xF0, 0x80, 0xF0, 0x10, 0xF0,
        0xF0, 0x80, 0xF0, 0x90, 0xF0,
        0xF0, 0x10, 0x20, 0x40, 0x40,
        0xF0, 0x90, 0xF0, 0x90, 0xF0,
        0xF0, 0x90, 0xF0, 0x10, 0xF0,
        0xF0, 0x90, 0xF0, 0x90, 0x90,
        0xE0, 0x90, 0xE0, 0x90, 0xE0,
        0xF0, 0x80, 0x80, 0x80, 0xF0,
        0xE0, 0x90, 0x90, 0x90, 0xE0,
        0xF0, 0x80, 0xF0, 0x80, 0xF0,
        0xF0, 0x80, 0xF0, 0x80, 0x80,
    ];
    assert(font@ =~= font_bytes());
    let ghost before = memory@;
    let mut i: usize = 0;
    while i < 80
        invariant
            i <= 80,
            font@ == font_bytes(),
            memory@.len() == before.len(),
            before.len() >= 80,
            forall|j: int| 0 <= j < i ==> memory@[j] == font_bytes()[j],
            forall|j: int| 80 <= j < before.len() ==> memory@[j] == before[j],
        decreases 80 - i,
    {
        memory[i] = font[i];
        i += 1;
    }
    assert(memory@.subrange(0, 80) =~= font_bytes());
    assert(memory@.subrange(80, before.len() as int) =~= before.subrange(
        80,
        before.len() as int,
    ));
}

/// The address of the glyph of the hexadecimal digit `letter`.
pub fn get_letter_address(letter: u8) -> (r: u16)
    ensures
        r == LETTER_SIZE * letter,
{
    5 * letter as u16
}

} // verus!
