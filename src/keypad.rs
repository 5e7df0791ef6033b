use vstd::prelude::*;

verus! {

/// The sixteen keys, `Key0` to `KeyF`.
///
/// Layout on the pad:
/// ```text
/// 1 2 3 C
/// 4 5 6 D
/// 7 8 9 E
/// A 0 B F
/// ```
#[derive(Debug, Clone, Copy, PartialEq, Eq, Hash, Structural)]
pub enum Key {
    Key0,
    Key1,
    Key2,
    Key3,
    Key4,
    Key5,
    Key6,
    Key7,
    Key8,
    Key9,
    KeyA,
    KeyB,
    KeyC,
    KeyD,
    KeyE,
    KeyF,
}

/// The key code (0 to 15) of a key.
pub open spec fn key_code(key: Key) -> u8 {
    match key {
        Key::Key0 => 0x0,
        Key::Key1 => 0x1,
        Key::Key2 => 0x2,
        Key::Key3 => 0x3,
        Key::Key4 => 0x4,
        Key::Key5 => 0x5,
        Key::Key6 => 0x6,
        Key::Key7 => 0x7,
        Key::Key8 => 0x8,
        Key::Key9 => 0x9,
        Key::KeyA => 0xA,
        Key::KeyB => 0xB,
        Key::KeyC => 0xC,
        Key::KeyD => 0xD,
        Key::KeyE => 0xE,
        Key::KeyF => 0xF,
    }
}

impl Key {
    /// The key code of this key.
    pub fn to_u8(self) -> (r: u8)
        ensures
            r == key_code(self),
            r < 16,
    {
        match self {
            Key::Key0 => 0x0,
            Key::Key1 => 0x1,
            Key::Key2 => 0x2,
            Key::Key3 => 0x3,
            Key::Key4 => 0x4,
            Key::Key5 => 0x5,
            Key::Key6 => 0x6,
            Key::Key7 => 0x7,
            Key::Key8 => 0x8,
            Key::Key9 => 0x9,
            Key::KeyA => 0xA,
            Key::KeyB => 0xB,
            Key::KeyC => 0xC,
            Key::KeyD => 0xD,
            Key::KeyE => 0xE,
            Key::KeyF => 0xF,
        }
    }

    /// The key whose code is `code`, or `None` when `code` is above 15.
    pub fn from_u8(code: u8) -> (r: Option<Key>)
        ensures
            code < 16 <==> r is Some,
            r matches Some(k) ==> key_code(k) == code,
    {
        match code {
            0x0 => Some(Key::Key0),
            0x1 => Some(Key::Key1),
            0x2 => Some(Key::Key2),
            0x3 => Some(Key::Key3),
            0x4 => Some(Key::Key4),
            0x5 => Some(Key::Key5),
            0x6 => Some(Key::Key6),
            0x7 => Some(Key::Key7),
            0x8 => Some(Key::Key8),
            0x9 => Some(Key::Key9),
            0xA => Some(Key::KeyA),
            0xB => Some(Key::KeyB),
            0xC => Some(Key::KeyC),
            0xD => Some(Key::KeyD),
            0xE => Some(Key::KeyE),
            0xF => Some(Key::KeyF),
            _ => None,
        }
    }
}

#[derive(Debug, Clone, Copy, PartialEq, Eq, Structural)]
pub enum KeyState {
    Pressed,
    NotPressed,
}

impl Default for KeyState {
    fn default() -> (r: Self)
        ensures
            r == KeyState::NotPressed,
    {
        KeyState::NotPressed
    }
}

/// The state of the sixteen keys.
pub struct Keypad {
    state: [KeyState; 16],
}

impl View for Keypad {
    type V = Seq<KeyState>;

    /// The state of each key, indexed by key code.
    closed spec fn view(&self) -> Seq<KeyState> {
        self.state@
    }
}

impl Keypad {
    /// The view always holds one state for each of the 16 keys.
    pub proof fn lemma_len(&self)
        ensures
            self@.len() == 16,
    {
    }

    /// A keypad on which no key is pressed.
    pub fn new() -> (r: Self)
        ensures
            r@ == Seq::new(16, |i: int| KeyState::NotPressed),
            r@.len() == 16,
    {
        let r = Self { state: [KeyState::NotPressed; 16] };
        assert(r@ =~= Seq::new(16, |i: int| KeyState::NotPressed));
        r
    }

    pub fn is_key_pressed(&self, key: Key) -> (r: bool)
        ensures
            r == (self@[key_code(key) as int] == KeyState::Pressed),
            self@.len() == 16,
    {
        match self.get_key(key) {
            KeyState::Pressed => true,
            KeyState::NotPressed => false,
        }
    }

    pub fn get_key(&self, key: Key) -> (r: KeyState)
        ensures
            r == self@[key_code(key) as int],
            self@.len() == 16,
    {
        self.state[key.to_u8() as usize]
    }

    /// Sets the state of `key`, and tells whether it changed.
    pub fn set_key(&mut self, key: Key, state: KeyState) -> (changed: bool)
        ensures
            old(self)@.len() == 16,
            final(self)@.len() == 16,
            final(self)@ == old(self)@.update(key_code(key) as int, state),
            final(self)@[key_code(key) as int] == state,
            forall|k: Key|
                key_code(k) != key_code(key) ==> final(self)@[key_code(k) as int] == old(
                    self,
                )@[key_code(k) as int],
            changed == (old(self)@[key_code(key) as int] != state),
    {
        let index = key.to_u8() as usize;
        let old_state = self.state[index];
        self.state[index] = state;
        old_state != state
    }
}

impl Default for Keypad {
    fn default() -> (r: Self)
        ensures
            r@ == Seq::new(16, |i: int| KeyState::NotPressed),
    {
        Keypad::new()
    }
}

} // verus!
