//! The hexadecimal keypad: sixteen key states and the protocol by which the
//! processor waits for a key.

use vstd::prelude::*;
use std::collections::HashMap;
use crate::constants::{KEY_COUNT, VALUE_KEY_MAP};

verus! {

/// The logical key that a physical key stands for, by the physical key's USB
/// HID usage number; `None` for a key that is not part of the keypad.
pub open spec fn logical_key(scancode: i32) -> Option<u8> {
    if scancode == 30 {
        Some(0x1u8)
    } else if scancode == 31 {
        Some(0x2u8)
    } else if scancode == 32 {
        Some(0x3u8)
    } else if scancode == 33 {
        Some(0xCu8)
    } else if scancode == 20 {
        Some(0x4u8)
    } else if scancode == 26 {
        Some(0x5u8)
    } else if scancode == 8 {
        Some(0x6u8)
    } else if scancode == 21 {
        Some(0xDu8)
    } else if scancode == 4 {
        Some(0x7u8)
    } else if scancode == 22 {
        Some(0x8u8)
    } else if scancode == 7 {
        Some(0x9u8)
    } else if scancode == 9 {
        Some(0xEu8)
    } else if scancode == 29 {
        Some(0xAu8)
    } else if scancode == 27 {
        Some(0x0u8)
    } else if scancode == 6 {
        Some(0xBu8)
    } else if scancode == 25 {
        Some(0xFu8)
    } else {
        None
    }
}

/// The whole key layout as a map from physical to logical keys.
pub open spec fn key_layout() -> Map<i32, u8> {
    Map::new(|s: i32| logical_key(s) is Some, |s: i32| logical_key(s)->0)
}

/// What a keyboard holds: the key states and the state of the key wait.
#[verifier::ext_equal]
pub struct KeyboardView {
    /// `keys[k]` tells whether logical key `k` is held down.
    pub keys: Seq<bool>,
    /// Whether the processor is blocked until a key is pressed.
    pub waiting: bool,
    /// The key that ended the last wait, until the processor takes it.
    pub last_key: Option<u8>,
}

impl KeyboardView {
    /// There are `KEY_COUNT` key states.
    pub open spec fn wf(self) -> bool {
        self.keys.len() == KEY_COUNT
    }

    /// No key held, no wait, nothing delivered.
    pub open spec fn idle() -> KeyboardView {
        KeyboardView {
            keys: Seq::new(KEY_COUNT as nat, |k: int| false),
            waiting: false,
            last_key: None,
        }
    }

    /// Whether logical key `value` is held; a code that is no hexadecimal
    /// digit is never held.
    pub open spec fn is_pressed(self, value: u8) -> bool {
        value < KEY_COUNT && self.keys[value as int]
    }

    /// The keyboard after `key` went down: the key is held, and a wait in
    /// progress ends with `key` delivered. `None` stands for a physical key
    /// outside the keypad, which changes nothing.
    pub open spec fn pressed(self, key: Option<u8>) -> KeyboardView {
        match key {
            Some(k) => KeyboardView {
                keys: self.keys.update(k as int, true),
                waiting: false,
                last_key: if self.waiting {
                    Some(k)
                } else {
                    self.last_key
                },
            },
            None => self,
        }
    }

    /// The keyboard after `key` went up.
    pub open spec fn released(self, key: Option<u8>) -> KeyboardView {
        match key {
            Some(k) => KeyboardView { keys: self.keys.update(k as int, false), ..self },
            None => self,
        }
    }

    /// The keyboard once the processor has started to wait for a key.
    pub open spec fn awaiting(self) -> KeyboardView {
        KeyboardView { waiting: true, ..self }
    }

    /// The keyboard once the processor has taken the delivered key.
    pub open spec fn taken(self) -> KeyboardView {
        KeyboardView { last_key: None, ..self }
    }
}

/// Sixteen logical key states plus the wait-for-key protocol.
pub struct Keyboard {
    key_map: HashMap<i32, u8>,
    keys: [bool; 16],
    is_waiting_for_key: bool,
    last_key: Option<u8>,
}

impl View for Keyboard {
    type V = KeyboardView;

    closed spec fn view(&self) -> KeyboardView {
        KeyboardView {
            keys: self.keys@,
            waiting: self.is_waiting_for_key,
            last_key: self.last_key,
        }
    }
}

impl Keyboard {
    #[verifier::type_invariant]
    spec fn layout_is_fixed(self) -> bool {
        self.key_map@ == key_layout()
    }

    /// Every keyboard has all its key states.
    pub proof fn lemma_wf(&self)
        ensures
            self@.wf(),
    {
    }

    /// An idle keyboard with the fixed key layout.
    pub fn new() -> (keyboard: Self)
        ensures
            keyboard@ == KeyboardView::idle(),
    {
        let mut key_map: HashMap<i32, u8> = HashMap::new();
        let mut i: usize = 0;
        while i < KEY_COUNT
            invariant
                i <= KEY_COUNT,
                forall|s: i32|
                    key_map@.contains_key(s) <==> exists|j: int|
                        0 <= j < i && (#[trigger] VALUE_KEY_MAP[j]).1 == s,
                forall|s: i32| key_map@.contains_key(s) ==> Some(#[trigger] key_map@[s]) == logical_key(s),
            decreases KEY_COUNT - i,
        {
            let (hex, scan) = VALUE_KEY_MAP[i];
            key_map.insert(scan, hex);
            assert(VALUE_KEY_MAP[i as int].1 == scan);
            i += 1;
        }
        proof {
            assert forall|s: i32| logical_key(s) is Some implies key_map@.contains_key(s) by {
                assert(VALUE_KEY_MAP[0].1 == 30);
                assert(VALUE_KEY_MAP[1].1 == 31);
                assert(VALUE_KEY_MAP[2].1 == 32);
                assert(VALUE_KEY_MAP[3].1 == 33);
                assert(VALUE_KEY_MAP[4].1 == 20);
                assert(VALUE_KEY_MAP[5].1 == 26);
                assert(VALUE_KEY_MAP[6].1 == 8);
                assert(VALUE_KEY_MAP[7].1 == 21);
                assert(VALUE_KEY_MAP[8].1 == 4);
                assert(VALUE_KEY_MAP[9].1 == 22);
                assert(VALUE_KEY_MAP[10].1 == 7);
                assert(VALUE_KEY_MAP[11].1 == 9);
                assert(VALUE_KEY_MAP[12].1 == 29);
                assert(VALUE_KEY_MAP[13].1 == 27);
                assert(VALUE_KEY_MAP[14].1 == 6);
                assert(VALUE_KEY_MAP[15].1 == 25);
            }
            assert(key_map@ =~= key_layout());
        }
        let keyboard = Self { key_map, keys: [false; 16], is_waiting_for_key: false, last_key: None };
        assert(keyboard@.keys =~= KeyboardView::idle().keys);
        keyboard
    }

    /// Whether logical key `value` is held down; `false` for a code above `0xF`.
    pub fn is_key_pressed(&self, value: u8) -> (held: bool)
        ensures
            held == self@.is_pressed(value),
    {
        if value <= 0xF {
            return self.keys[value as usize];
        }
        false
    }

    /// Whether the processor is blocked until a key is pressed.
    pub fn is_waiting_for_key(&self) -> (waiting: bool)
        ensures
            waiting == self@.waiting,
    {
        self.is_waiting_for_key
    }

    /// The key that ended the last wait, if the processor has not taken it yet.
    pub fn last_key(&self) -> (key: Option<u8>)
        ensures
            key == self@.last_key,
    {
        self.last_key
    }

    /// Records that the physical key `scancode` went down. A key of the keypad
    /// becomes held, and ends a wait in progress by delivering its logical
    /// code; any other key is ignored.
    pub fn press_key(&mut self, scancode: i32)
        ensures
            final(self)@ == old(self)@.pressed(logical_key(scancode)),
    {
        proof {
            use_type_invariant(&*self);
        }
        let found = self.key_map.get(&scancode);
        if let Some(hex) = found {
            let key: u8 = *hex;
            self.keys[key as usize] = true;
            if self.is_waiting_for_key {
                self.last_key = Some(key);
                self.is_waiting_for_key = false;
            }
        }
    }

    /// Records that the physical key `scancode` went up. Keys outside the
    /// keypad are ignored.
    pub fn release_key(&mut self, scancode: i32)
        ensures
            final(self)@ == old(self)@.released(logical_key(scancode)),
    {
        proof {
            use_type_invariant(&*self);
        }
        let found = self.key_map.get(&scancode);
        if let Some(hex) = found {
            let key: u8 = *hex;
            self.keys[key as usize] = false;
        }
    }

    /// Starts a wait: the processor stays blocked until a key is pressed.
    pub fn wait_for_key(&mut self)
        ensures
            final(self)@ == old(self)@.awaiting(),
    {
        proof {
            use_type_invariant(&*self);
        }
        self.is_waiting_for_key = true;
    }

    /// Hands the delivered key to the processor and empties the slot.
    pub fn take_key(&mut self) -> (key: Option<u8>)
        ensures
            key == old(self)@.last_key,
            final(self)@ == old(self)@.taken(),
    {
        proof {
            use_type_invariant(&*self);
        }
        let key = self.last_key;
        self.last_key = None;
        key
    }
}

} // verus!
