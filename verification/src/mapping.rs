//! The mapping table between the eight logical buttons and the physical keys
//! of one device, with forward resolution and reverse lookup.

use std::collections::HashSet;
use std::hash::Hash;
use vstd::laws_eq::obeys_concrete_eq;
use vstd::prelude::*;
use vstd::std_specs::hash::obeys_key_model;
use vstd::std_specs::hash::spec_hash_keys_iter;
use vstd::std_specs::iter::IteratorSpec;

use crate::joypad::lemma_empty_word;
use crate::joypad::lemma_or_bit;
use crate::joypad::lemma_single_bit;
use crate::joypad::lemma_word_by_buttons;
use crate::joypad::JoypadButton;
use crate::joypad::JoypadInput;

verus! {

/// Eight optional slots, one per logical button, each holding at most one
/// physical key. A key may stand in more than one slot.
#[derive(Debug, Clone, Copy, Hash, PartialEq, Eq)]
pub struct JoypadMapping<KeyType> {
    pub up: Option<KeyType>,
    pub down: Option<KeyType>,
    pub left: Option<KeyType>,
    pub right: Option<KeyType>,
    pub start: Option<KeyType>,
    pub select: Option<KeyType>,
    pub b: Option<KeyType>,
    pub a: Option<KeyType>,
}

impl<KeyType> JoypadMapping<KeyType> {
    /// The key bound to `button`, if any.
    pub open spec fn slot(self, button: JoypadButton) -> Option<KeyType> {
        match button {
            JoypadButton::Up => self.up,
            JoypadButton::Down => self.down,
            JoypadButton::Left => self.left,
            JoypadButton::Right => self.right,
            JoypadButton::Start => self.start,
            JoypadButton::Select => self.select,
            JoypadButton::B => self.b,
            JoypadButton::A => self.a,
        }
    }

    /// This table with the slot of `button` replaced by `value` and every
    /// other slot kept.
    pub open spec fn with_slot(self, button: JoypadButton, value: Option<KeyType>) -> Self {
        match button {
            JoypadButton::Up => JoypadMapping { up: value, ..self },
            JoypadButton::Down => JoypadMapping { down: value, ..self },
            JoypadButton::Left => JoypadMapping { left: value, ..self },
            JoypadButton::Right => JoypadMapping { right: value, ..self },
            JoypadButton::Start => JoypadMapping { start: value, ..self },
            JoypadButton::Select => JoypadMapping { select: value, ..self },
            JoypadButton::B => JoypadMapping { b: value, ..self },
            JoypadButton::A => JoypadMapping { a: value, ..self },
        }
    }

    /// Every button whose slot holds `key`.
    pub open spec fn buttons_of(self, key: KeyType) -> Set<JoypadButton> {
        Set::new(|button: JoypadButton| self.slot(button) == Some(key))
    }

    /// Whether `button` is bound to one of the keys in `held`.
    pub open spec fn asserts(self, held: Set<KeyType>, button: JoypadButton) -> bool {
        match self.slot(button) {
            Some(key) => held.contains(key),
            None => false,
        }
    }

    /// Whether `button` is bound to one of the first `count` keys of `keys`.
    spec fn asserts_among(self, keys: Seq<&KeyType>, count: int, button: JoypadButton) -> bool {
        exists|i: int| 0 <= i < count && self.slot(button) == Some(*#[trigger] keys[i])
    }

    /// The bit of `button` if it is bound to one of the keys in `held`, else no
    /// bit.
    pub open spec fn bit_if_asserted(self, held: Set<KeyType>, button: JoypadButton) -> u8 {
        if self.asserts(held, button) {
            button.spec_bit()
        } else {
            0u8
        }
    }

    /// The control word for the keys in `held`: a button is asserted exactly
    /// when its slot holds one of them.
    pub open spec fn state_of(self, held: Set<KeyType>) -> JoypadInput {
        JoypadInput(
            self.bit_if_asserted(held, JoypadButton::Up) | self.bit_if_asserted(
                held,
                JoypadButton::Down,
            ) | self.bit_if_asserted(held, JoypadButton::Left) | self.bit_if_asserted(
                held,
                JoypadButton::Right,
            ) | self.bit_if_asserted(held, JoypadButton::Start) | self.bit_if_asserted(
                held,
                JoypadButton::Select,
            ) | self.bit_if_asserted(held, JoypadButton::B) | self.bit_if_asserted(
                held,
                JoypadButton::A,
            ),
        )
    }

    /// In the control word for `held`, a button is asserted exactly when its
    /// slot holds a held key.
    pub proof fn lemma_state_of_pressed(self, held: Set<KeyType>, button: JoypadButton)
        ensures
            self.state_of(held).spec_is_pressed(button) <==> self.asserts(held, button),
    {
        let t0 = self.bit_if_asserted(held, JoypadButton::Up);
        let t1 = self.bit_if_asserted(held, JoypadButton::Down);
        let t2 = self.bit_if_asserted(held, JoypadButton::Left);
        let t3 = self.bit_if_asserted(held, JoypadButton::Right);
        let t4 = self.bit_if_asserted(held, JoypadButton::Start);
        let t5 = self.bit_if_asserted(held, JoypadButton::Select);
        let t6 = self.bit_if_asserted(held, JoypadButton::B);
        let t7 = self.bit_if_asserted(held, JoypadButton::A);
        let q = button.spec_bit();
        assert(((t0 | t1 | t2 | t3 | t4 | t5 | t6 | t7) & q != 0) <==> (t0 & q != 0 || t1 & q != 0
            || t2 & q != 0 || t3 & q != 0 || t4 & q != 0 || t5 & q != 0 || t6 & q != 0 || t7 & q
            != 0)) by (bit_vector);
        lemma_empty_word(button);
        lemma_single_bit(JoypadButton::Up, button);
        lemma_single_bit(JoypadButton::Down, button);
        lemma_single_bit(JoypadButton::Left, button);
        lemma_single_bit(JoypadButton::Right, button);
        lemma_single_bit(JoypadButton::Start, button);
        lemma_single_bit(JoypadButton::Select, button);
        lemma_single_bit(JoypadButton::B, button);
        lemma_single_bit(JoypadButton::A, button);
    }

    /// Once `key` has been bound to `button`, the slot of `button` holds
    /// `key`, the buttons of `key` include `button`, and every other slot is
    /// as it was.
    pub proof fn lemma_remap_overwrites(
        self,
        button: JoypadButton,
        key: KeyType,
        other: JoypadButton,
    )
        ensures
            self.with_slot(button, Some(key)).slot(button) == Some(key),
            self.with_slot(button, Some(key)).buttons_of(key).contains(button),
            other != button ==> self.with_slot(button, Some(key)).slot(other) == self.slot(other),
    {
    }

    /// A held key asserts every button that it is bound to, however many
    /// they are.
    pub proof fn lemma_held_key_asserts(self, held: Set<KeyType>, key: KeyType, button: JoypadButton)
        requires
            held.contains(key),
            self.buttons_of(key).contains(button),
        ensures
            self.state_of(held).spec_is_pressed(button),
    {
        self.lemma_state_of_pressed(held, button);
    }

    /// The slot of `button`, for reading or for binding a key in place.
    pub fn lookup(&mut self, button: &JoypadButton) -> (slot: &mut Option<KeyType>)
        ensures
            *slot == old(self).slot(*button),
            *final(self) == old(self).with_slot(*button, *final(slot)),
    {
        match button {
            JoypadButton::Up => &mut self.up,
            JoypadButton::Down => &mut self.down,
            JoypadButton::Left => &mut self.left,
            JoypadButton::Right => &mut self.right,
            JoypadButton::Start => &mut self.start,
            JoypadButton::Select => &mut self.select,
            JoypadButton::B => &mut self.b,
            JoypadButton::A => &mut self.a,
        }
    }

    /// Binds `new_key` to `button`, whatever the slot held, and hands back what
    /// it held before.
    pub fn remap(&mut self, button: &JoypadButton, new_key: KeyType) -> (previous: Option<KeyType>)
        ensures
            previous == old(self).slot(*button),
            *final(self) == old(self).with_slot(*button, Some(new_key)),
    {
        let slot = self.lookup(button);
        let previous = slot.take();
        *slot = Some(new_key);
        previous
    }

    /// Binds `key` to `button` if there is one, and says whether there was.
    /// With no key the table stays as it is.
    pub fn bind(&mut self, button: &JoypadButton, key: Option<KeyType>) -> (bound: bool)
        ensures
            bound == key is Some,
            *final(self) == match key {
                Some(new_key) => old(self).with_slot(*button, Some(new_key)),
                None => *old(self),
            },
    {
        match key {
            Some(new_key) => {
                let _ = self.remap(button, new_key);
                true
            },
            None => false,
        }
    }
}

impl<KeyType: PartialEq> JoypadMapping<KeyType> {
    /// Appends `button` to `buttons` when `mapping` holds `a_key`.
    pub fn insert_if_mapped(
        buttons: &mut Vec<JoypadButton>,
        mapping: &Option<KeyType>,
        a_key: &KeyType,
        button: JoypadButton,
    )
        requires
            obeys_concrete_eq::<KeyType>(),
        ensures
            final(buttons)@ == if *mapping == Some(*a_key) {
                old(buttons)@.push(button)
            } else {
                old(buttons)@
            },
    {
        proof {
            reveal(obeys_concrete_eq);
        }
        if let Some(key) = mapping {
            if a_key.eq(key) {
                buttons.push(button);
            }
        }
    }

    /// Every button whose slot holds `key`: none, one, or several where the
    /// key is bound more than once. Each comes once, in the order in which the
    /// slots are scanned.
    pub fn reverse_lookup(&self, key: &KeyType) -> (buttons: Vec<JoypadButton>)
        requires
            obeys_concrete_eq::<KeyType>(),
        ensures
            buttons@.no_duplicates(),
            in_scan_order(buttons@),
            buttons@.to_set() == self.buttons_of(*key),
            forall|button: JoypadButton|
                buttons@.contains(button) <==> self.slot(button) == Some(*key),
    {
        let mut buttons: Vec<JoypadButton> = Vec::new();
        let ghost mut seen: Seq<JoypadButton> = buttons@;
        JoypadMapping::insert_if_mapped(&mut buttons, &self.up, key, JoypadButton::Up);
        proof {
            lemma_scan_step(*self, *key, seen, buttons@, JoypadButton::Up);
            seen = buttons@;
        }
        JoypadMapping::insert_if_mapped(&mut buttons, &self.down, key, JoypadButton::Down);
        proof {
            lemma_scan_step(*self, *key, seen, buttons@, JoypadButton::Down);
            seen = buttons@;
        }
        JoypadMapping::insert_if_mapped(&mut buttons, &self.left, key, JoypadButton::Left);
        proof {
            lemma_scan_step(*self, *key, seen, buttons@, JoypadButton::Left);
            seen = buttons@;
        }
        JoypadMapping::insert_if_mapped(&mut buttons, &self.right, key, JoypadButton::Right);
        proof {
            lemma_scan_step(*self, *key, seen, buttons@, JoypadButton::Right);
            seen = buttons@;
        }
        JoypadMapping::insert_if_mapped(&mut buttons, &self.start, key, JoypadButton::Start);
        proof {
            lemma_scan_step(*self, *key, seen, buttons@, JoypadButton::Start);
            seen = buttons@;
        }
        JoypadMapping::insert_if_mapped(&mut buttons, &self.select, key, JoypadButton::Select);
        proof {
            lemma_scan_step(*self, *key, seen, buttons@, JoypadButton::Select);
            seen = buttons@;
        }
        JoypadMapping::insert_if_mapped(&mut buttons, &self.b, key, JoypadButton::B);
        proof {
            lemma_scan_step(*self, *key, seen, buttons@, JoypadButton::B);
            seen = buttons@;
        }
        JoypadMapping::insert_if_mapped(&mut buttons, &self.a, key, JoypadButton::A);
        proof {
            lemma_scan_step(*self, *key, seen, buttons@, JoypadButton::A);
            assert(buttons@.to_set() =~= self.buttons_of(*key));
        }
        buttons
    }
}

impl<KeyType: Eq + Hash> JoypadMapping<KeyType> {
    /// Resolves the held keys into a control word: every held key asserts every
    /// button it is bound to, in whatever order the keys are walked.
    pub fn calculate_state(&self, keys: &HashSet<KeyType>) -> (state: JoypadInput)
        requires
            obeys_concrete_eq::<KeyType>(),
            obeys_key_model::<KeyType>(),
        ensures
            state == self.state_of(keys@),
            forall|button: JoypadButton|
                state.is_pressed(button) <==> self.asserts(keys@, button),
    {
        broadcast use vstd::std_specs::hash::group_hash_axioms;
        let mut acc: u8 = 0u8;
        let ghost walk: Seq<&KeyType> = spec_hash_keys_iter(keys).remaining();
        let ghost mut walked: int = 0;
        proof {
            assert forall|button: JoypadButton| !JoypadInput(acc).is_pressed(button) by {
                lemma_empty_word(button);
            }
        }
        for key in it: keys.iter()
            invariant
                obeys_concrete_eq::<KeyType>(),
                it.seq() == walk,
                it.index() == walked,
                forall|button: JoypadButton|
                    JoypadInput(acc).is_pressed(button) <==> self.asserts_among(
                        walk,
                        walked,
                        button,
                    ),
        {
            let buttons = self.reverse_lookup(key);
            acc = press_all(acc, &buttons);
            proof {
                walked = walked + 1;
            }
        }
        proof {
            assert(walked == walk.len());
            assert forall|button: JoypadButton|
                JoypadInput(acc).is_pressed(button) <==> self.asserts(keys@, button) by {
                if self.asserts(keys@, button) {
                    let key = self.slot(button).unwrap();
                    assert(walk.unref().to_set().contains(key));
                    let i = choose|i: int| 0 <= i < walk.len() && walk.unref()[i] == key;
                    assert(*walk[i] == key);
                }
                if self.asserts_among(walk, walked, button) {
                    let i = choose|i: int|
                        0 <= i < walked && self.slot(button) == Some(*#[trigger] walk[i]);
                    assert(walk.unref()[i] == *walk[i]);
                    assert(walk.unref().contains(*walk[i]));
                }
            }
            assert forall|button: JoypadButton|
                JoypadInput(acc).is_pressed(button) <==> self.state_of(keys@).is_pressed(
                    button,
                ) by {
                self.lemma_state_of_pressed(keys@, button);
            }
            lemma_word_by_buttons(JoypadInput(acc), self.state_of(keys@));
        }
        JoypadInput(acc)
    }
}

/// One of the keys of `keys`, or none when there is none. Which one comes out
/// where several are held is left open: it is the first in the order in which
/// the set happens to be walked, not the first that was pressed.
pub fn first_held<KeyType: Copy + Eq + Hash>(keys: &HashSet<KeyType>) -> (first: Option<KeyType>)
    requires
        obeys_key_model::<KeyType>(),
    ensures
        first is None <==> keys@.is_empty(),
        first matches Some(key) ==> keys@.contains(key),
{
    broadcast use vstd::std_specs::hash::group_hash_axioms;
    let ghost walk: Seq<&KeyType> = spec_hash_keys_iter(keys).remaining();
    for key in it: keys.iter()
        invariant
            it.seq() == walk,
            it.index() == 0,
    {
        proof {
            assert(walk.unref()[0] == *key);
            assert(walk.unref().to_set().contains(*key));
        }
        return Some(*key);
    }
    proof {
        assert(walk.len() == 0);
        assert(keys@.len() == 0);
    }
    None
}

/// Asserts every button of `buttons` in `word` and leaves the others as they
/// are.
fn press_all(word: u8, buttons: &Vec<JoypadButton>) -> (pressed: u8)
    ensures
        forall|button: JoypadButton|
            JoypadInput(pressed).is_pressed(button) <==> JoypadInput(word).is_pressed(button)
                || buttons@.contains(button),
{
    let mut acc: u8 = word;
    let mut i: usize = 0;
    while i < buttons.len()
        invariant
            i <= buttons.len(),
            forall|button: JoypadButton|
                JoypadInput(acc).is_pressed(button) <==> JoypadInput(word).is_pressed(button) || (
                exists|j: int| 0 <= j < i && buttons@[j] == button),
        decreases buttons.len() - i,
    {
        let ghost before = acc;
        acc |= buttons[i].bit();
        proof {
            assert forall|button: JoypadButton|
                JoypadInput(acc).is_pressed(button) <==> JoypadInput(word).is_pressed(button) || (
                exists|j: int| 0 <= j < i + 1 && buttons@[j] == button) by {
                lemma_or_bit(before, buttons@[i as int], button);
            }
        }
        i += 1;
    }
    acc
}

/// The place of `button` in the order in which the slots are scanned.
pub open spec fn scan_rank(button: JoypadButton) -> int {
    match button {
        JoypadButton::Up => 0,
        JoypadButton::Down => 1,
        JoypadButton::Left => 2,
        JoypadButton::Right => 3,
        JoypadButton::Start => 4,
        JoypadButton::Select => 5,
        JoypadButton::B => 6,
        JoypadButton::A => 7,
    }
}

/// Whether the buttons of `buttons` stand in the order in which the slots are
/// scanned, none of them twice.
pub open spec fn in_scan_order(buttons: Seq<JoypadButton>) -> bool {
    forall|i: int, j: int|
        0 <= i < j < buttons.len() ==> scan_rank(buttons[i]) < scan_rank(buttons[j])
}

/// One step of the scan: once the slot of `button` has been looked at, the
/// buttons found are those up to `button` whose slot holds `key`.
proof fn lemma_scan_step<KeyType>(
    mapping: JoypadMapping<KeyType>,
    key: KeyType,
    before: Seq<JoypadButton>,
    after: Seq<JoypadButton>,
    button: JoypadButton,
)
    requires
        before.no_duplicates(),
        in_scan_order(before),
        forall|other: JoypadButton|
            before.contains(other) <==> scan_rank(other) < scan_rank(button) && mapping.slot(other)
                == Some(key),
        after == if mapping.slot(button) == Some(key) {
            before.push(button)
        } else {
            before
        },
    ensures
        after.no_duplicates(),
        in_scan_order(after),
        forall|other: JoypadButton|
            after.contains(other) <==> scan_rank(other) <= scan_rank(button) && mapping.slot(other)
                == Some(key),
{
    if mapping.slot(button) == Some(key) {
        assert(!before.contains(button));
        assert forall|i: int, j: int| 0 <= i < j < after.len() implies scan_rank(after[i])
            < scan_rank(after[j]) by {
            assert(before.contains(before[i]));
        }
        assert forall|other: JoypadButton|
            after.contains(other) <==> before.contains(other) || other == button by {
            if before.contains(other) {
                let i = choose|i: int| 0 <= i < before.len() && before[i] == other;
                assert(after[i] == other);
            }
            if other == button {
                assert(after[before.len() as int] == other);
            }
        }
    }
    assert forall|other: JoypadButton|
        scan_rank(other) <= scan_rank(button) implies scan_rank(other) < scan_rank(button) || other
        == button by {}
}

} // verus!
