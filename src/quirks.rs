use vstd::prelude::*;

verus! {

/// Independent toggles for instruction behaviours on which historical interpreters differ.
#[derive(Clone, Copy, Debug, PartialEq, Eq, Structural)]
pub struct QuirkConfig {
    /// Reset the flag register to zero on the OR, AND and XOR instructions
    pub flag_reset: bool,
    /// Advance the pointer register past the bytes used when saving or loading registers
    pub save_load_set_pointer: bool,
    /// On the draw instruction, wait for the next vertical blank (about 60 draws a second)
    pub display_wait: bool,
    /// Wrap a sprite around the screen edges even when it is only partly off screen
    pub partial_wrap: bool,
    /// Shift instructions read the destination register rather than the source register
    pub alt_shift: bool,
    /// The relative jump `BXNN` adds register X rather than register 0
    pub alt_rel_jump: bool,
}

/// The named combinations of quirks.
#[derive(Clone, Copy, Debug, PartialEq, Eq, Structural)]
pub enum QuirkPresets {
    Chip8,
    SuperChip,
    XoChip,
}

/// The configuration that a preset stands for.
pub open spec fn preset_config(preset: QuirkPresets) -> QuirkConfig {
    match preset {
        QuirkPresets::Chip8 => QuirkConfig {
            flag_reset: true,
            save_load_set_pointer: true,
            display_wait: true,
            partial_wrap: false,
            alt_shift: false,
            alt_rel_jump: false,
        },
        QuirkPresets::SuperChip => QuirkConfig {
            flag_reset: false,
            save_load_set_pointer: false,
            display_wait: false,
            partial_wrap: false,
            alt_shift: true,
            alt_rel_jump: true,
        },
        QuirkPresets::XoChip => QuirkConfig {
            flag_reset: false,
            save_load_set_pointer: true,
            display_wait: false,
            partial_wrap: false,
            alt_shift: false,
            alt_rel_jump: false,
        },
    }
}

impl QuirkConfig {
    /// The configuration of the first CHIP-8 interpreter, the `Chip8` preset.
    pub fn new() -> (r: Self)
        ensures
            r == preset_config(QuirkPresets::Chip8),
    {
        Self::default()
    }

    /// Sets every toggle as `preset` says.
    pub fn use_preset(&mut self, preset: QuirkPresets)
        ensures
            *final(self) == preset_config(preset),
    {
        match preset {
            QuirkPresets::Chip8 => {
                self.flag_reset = true;
                self.save_load_set_pointer = true;
                self.display_wait = true;
                self.partial_wrap = false;
                self.alt_shift = false;
                self.alt_rel_jump = false;
            },
            QuirkPresets::SuperChip => {
                self.flag_reset = false;
                self.save_load_set_pointer = false;
                self.display_wait = false;
                self.partial_wrap = false;
                self.alt_shift = true;
                self.alt_rel_jump = true;
            },
            QuirkPresets::XoChip => {
                self.flag_reset = false;
                self.save_load_set_pointer = true;
                self.display_wait = false;
                self.partial_wrap = false;
                self.alt_shift = false;
                self.alt_rel_jump = false;
            },
        }
    }
}

impl Default for QuirkConfig {
    fn default() -> (r: Self)
        ensures
            r == preset_config(QuirkPresets::Chip8),
    {
        let mut config = Self {
            flag_reset: false,
            save_load_set_pointer: false,
            display_wait: false,
            partial_wrap: false,
            alt_shift: false,
            alt_rel_jump: false,
        };
        config.use_preset(QuirkPresets::Chip8);
        config
    }
}

} // verus!
