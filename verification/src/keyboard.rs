//! The keyboard backend: the set of keys that are held down, kept up to date
//! by press and release events, and its resolution through a mapping table.

use std::collections::HashSet;
use vstd::prelude::*;

use crate::joypad::JoypadInput;
use crate::mapping::JoypadMapping;

verus! {

broadcast use vstd::std_specs::hash::group_hash_axioms;

/// The scancode of a physical key.
pub type KeyCode = u32;

/// The modifier keys that were down when a key event was made, one bit each.
pub type Mod = u16;

/// The mapping table of a keyboard.
pub type JoypadKeyboardMapping = JoypadMapping<KeyCode>;

/// A key went down or came up.
#[derive(Debug)]
pub enum KeyEvent {
    Pressed(KeyCode, Mod),
    Released(KeyCode, Mod),
}

impl KeyEvent {
    /// The held keys once this event has been applied to `held`: a press puts
    /// its key in, a release takes it out.
    pub open spec fn apply(self, held: Set<KeyCode>) -> Set<KeyCode> {
        match self {
            KeyEvent::Pressed(key, _) => held.insert(key),
            KeyEvent::Released(key, _) => held.remove(key),
        }
    }
}

/// Applying a key event a second time changes nothing: pressing a held key
/// and releasing a key that is not held leave the held keys as they are.
pub proof fn lemma_key_event_idempotent(key_event: KeyEvent, held: Set<KeyCode>)
    ensures
        key_event.apply(key_event.apply(held)) == key_event.apply(held),
        key_event matches KeyEvent::Pressed(key, _) && held.contains(key) ==> key_event.apply(held)
            == held,
        key_event matches KeyEvent::Released(key, _) && !held.contains(key) ==> key_event.apply(
            held,
        ) == held,
{
    assert(key_event.apply(key_event.apply(held)) =~= key_event.apply(held));
    match key_event {
        KeyEvent::Pressed(key, _) => {
            if held.contains(key) {
                assert(held.insert(key) =~= held);
            }
        },
        KeyEvent::Released(key, _) => {
            if !held.contains(key) {
                assert(held.remove(key) =~= held);
            }
        },
    }
}

/// The keys that are held down on the keyboard.
pub struct Keyboards {
    pub pressed_keys: HashSet<KeyCode>,
}

impl View for Keyboards {
    type V = Set<KeyCode>;

    open spec fn view(&self) -> Set<KeyCode> {
        self.pressed_keys@
    }
}

impl Keyboards {
    /// A keyboard on which no key is held.
    pub fn new() -> (keyboards: Self)
        ensures
            keyboards@ == Set::<KeyCode>::empty(),
    {
        Keyboards { pressed_keys: HashSet::new() }
    }

    /// Applies one key event. Pressing a held key and releasing a key that is
    /// not held change nothing.
    pub fn advance(&mut self, key_event: &KeyEvent)
        ensures
            final(self)@ == key_event.apply(old(self)@),
    {
        match key_event {
            KeyEvent::Pressed(key, _) => {
                self.pressed_keys.insert(*key);
            },
            KeyEvent::Released(key, _) => {
                self.pressed_keys.remove(key);
            },
        }
    }

    /// The control word of the held keys under `mapping`.
    pub fn get_joypad(&self, mapping: &JoypadKeyboardMapping) -> (state: JoypadInput)
        ensures
            state == mapping.state_of(self@),
    {
        mapping.calculate_state(&self.pressed_keys)
    }

    /// A keyboard is always there.
    pub fn is_connected(&self) -> (connected: bool)
        ensures
            connected,
    {
        true
    }
}

} // verus!
