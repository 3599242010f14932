use std::collections::HashSet;

use joypad_input::joypad::JoypadButton;
use joypad_input::joypad::JoypadInput;
use joypad_input::mapping::first_held;
use joypad_input::mapping::JoypadMapping;

const ALL_BUTTONS: [JoypadButton; 8] = [
    JoypadButton::Up,
    JoypadButton::Down,
    JoypadButton::Left,
    JoypadButton::Right,
    JoypadButton::Start,
    JoypadButton::Select,
    JoypadButton::B,
    JoypadButton::A,
];

fn empty_mapping() -> JoypadMapping<u32> {
    JoypadMapping {
        up: None,
        down: None,
        left: None,
        right: None,
        start: None,
        select: None,
        b: None,
        a: None,
    }
}

fn held(keys: &[u32]) -> HashSet<u32> {
    keys.iter().copied().collect()
}

const KEY_W: u32 = 'W' as u32;
const KEY_J: u32 = 'J' as u32;
const KEY_X: u32 = 'X' as u32;

#[test]
fn bit_weights_are_the_documented_ones() {
    assert_eq!(JoypadButton::Up.bit(), 0b0001_0000);
    assert_eq!(JoypadButton::Down.bit(), 0b0010_0000);
    assert_eq!(JoypadButton::Left.bit(), 0b0100_0000);
    assert_eq!(JoypadButton::Right.bit(), 0b1000_0000);
    assert_eq!(JoypadButton::Start.bit(), 0b0000_1000);
    assert_eq!(JoypadButton::Select.bit(), 0b0000_0100);
    assert_eq!(JoypadButton::B.bit(), 0b0000_0010);
    assert_eq!(JoypadButton::A.bit(), 0b0000_0001);
}

#[test]
fn bit_weights_are_distinct_single_bits() {
    let mut all: u8 = 0;
    for button in ALL_BUTTONS {
        assert_eq!(button.bit().count_ones(), 1);
        assert_eq!(all & button.bit(), 0);
        all |= button.bit();
    }
    assert_eq!(all, 0xff);
}

#[test]
fn is_pressed_is_the_masked_bit_for_every_word_and_button() {
    for word in 0..=255u8 {
        for button in ALL_BUTTONS {
            assert_eq!(JoypadInput(word).is_pressed(button), word & button.bit() != 0);
        }
    }
}

#[test]
fn is_pressed_on_the_empty_and_the_full_word() {
    for button in ALL_BUTTONS {
        assert!(!JoypadInput(0).is_pressed(button));
        assert!(JoypadInput(0xff).is_pressed(button));
    }
}

#[test]
fn lookup_exposes_each_slot() {
    let mut mapping = JoypadMapping {
        up: Some(1u32),
        down: Some(2),
        left: Some(3),
        right: Some(4),
        start: Some(5),
        select: Some(6),
        b: Some(7),
        a: Some(8),
    };
    let mut expected = 1u32;
    for button in ALL_BUTTONS {
        assert_eq!(*mapping.lookup(&button), Some(expected));
        expected += 1;
    }
}

#[test]
fn lookup_binds_in_place() {
    let mut mapping = empty_mapping();
    *mapping.lookup(&JoypadButton::Start) = Some(42);
    assert_eq!(mapping.start, Some(42));
    let mut expected = empty_mapping();
    expected.start = Some(42);
    assert_eq!(mapping, expected);
}

#[test]
fn remap_overwrites_the_slot_and_returns_what_it_held() {
    let mut mapping = empty_mapping();
    assert_eq!(mapping.remap(&JoypadButton::B, KEY_X), None);
    assert_eq!(*mapping.lookup(&JoypadButton::B), Some(KEY_X));
    assert_eq!(mapping.reverse_lookup(&KEY_X), vec![JoypadButton::B]);
    assert_eq!(mapping.remap(&JoypadButton::B, KEY_J), Some(KEY_X));
    assert_eq!(*mapping.lookup(&JoypadButton::B), Some(KEY_J));
    assert!(mapping.reverse_lookup(&KEY_J).contains(&JoypadButton::B));
    assert!(mapping.reverse_lookup(&KEY_X).is_empty());
}

#[test]
fn remap_touches_no_other_slot() {
    let mut mapping = empty_mapping();
    mapping.up = Some(KEY_W);
    mapping.a = Some(KEY_J);
    mapping.remap(&JoypadButton::Left, KEY_X);
    let mut expected = empty_mapping();
    expected.up = Some(KEY_W);
    expected.a = Some(KEY_J);
    expected.left = Some(KEY_X);
    assert_eq!(mapping, expected);
}

#[test]
fn bind_with_a_key_binds_and_without_one_does_not() {
    let mut mapping = empty_mapping();
    assert!(mapping.bind(&JoypadButton::Select, Some(9)));
    assert_eq!(mapping.select, Some(9));
    let before = mapping;
    assert!(!mapping.bind(&JoypadButton::Select, None));
    assert_eq!(mapping, before);
}

#[test]
fn reverse_lookup_of_an_unbound_key_is_empty() {
    let mut mapping = empty_mapping();
    mapping.up = Some(KEY_W);
    assert!(mapping.reverse_lookup(&KEY_J).is_empty());
    assert!(empty_mapping().reverse_lookup(&KEY_W).is_empty());
}

#[test]
fn reverse_lookup_returns_every_button_of_a_key() {
    let mut mapping = empty_mapping();
    mapping.up = Some(KEY_W);
    mapping.down = Some(KEY_W);
    mapping.a = Some(KEY_J);
    assert_eq!(mapping.reverse_lookup(&KEY_W), vec![JoypadButton::Up, JoypadButton::Down]);
    assert_eq!(mapping.reverse_lookup(&KEY_J), vec![JoypadButton::A]);
}

#[test]
fn reverse_lookup_is_exactly_the_matching_slots() {
    let mut mapping = JoypadMapping {
        up: Some(1u32),
        down: Some(2),
        left: Some(1),
        right: None,
        start: Some(3),
        select: Some(1),
        b: None,
        a: Some(2),
    };
    for key in 0..5u32 {
        let found = mapping.reverse_lookup(&key);
        for button in ALL_BUTTONS {
            let bound = *mapping.lookup(&button) == Some(key);
            assert_eq!(found.contains(&button), bound);
            assert!(found.iter().filter(|other| **other == button).count() <= 1);
        }
    }
}

#[test]
fn insert_if_mapped_appends_only_on_a_match() {
    let mut buttons = vec![JoypadButton::Up];
    JoypadMapping::insert_if_mapped(&mut buttons, &Some(4u32), &4, JoypadButton::A);
    assert_eq!(buttons, vec![JoypadButton::Up, JoypadButton::A]);
    JoypadMapping::insert_if_mapped(&mut buttons, &Some(4u32), &5, JoypadButton::B);
    JoypadMapping::insert_if_mapped(&mut buttons, &None, &5, JoypadButton::B);
    assert_eq!(buttons, vec![JoypadButton::Up, JoypadButton::A]);
}

#[test]
fn keyboard_resolve_one_key_held() {
    let mut mapping = empty_mapping();
    mapping.up = Some(KEY_W);
    mapping.a = Some(KEY_J);
    let state = mapping.calculate_state(&held(&[KEY_W]));
    assert_eq!(state.0, 0b0001_0000);
    for button in ALL_BUTTONS {
        assert_eq!(state.is_pressed(button), button == JoypadButton::Up);
    }
}

#[test]
fn keyboard_resolve_two_keys_held() {
    let mut mapping = empty_mapping();
    mapping.up = Some(KEY_W);
    mapping.a = Some(KEY_J);
    let state = mapping.calculate_state(&held(&[KEY_W, KEY_J]));
    assert_eq!(state.0, 0b0001_0001);
    for button in ALL_BUTTONS {
        assert_eq!(
            state.is_pressed(button),
            button == JoypadButton::Up || button == JoypadButton::A
        );
    }
}

#[test]
fn duplicate_binding_asserts_both_buttons() {
    let mut mapping = empty_mapping();
    mapping.up = Some(KEY_W);
    mapping.down = Some(KEY_W);
    let state = mapping.calculate_state(&held(&[KEY_W]));
    assert!(state.is_pressed(JoypadButton::Up));
    assert!(state.is_pressed(JoypadButton::Down));
    assert_eq!(state.0, 0b0011_0000);
}

#[test]
fn resolve_with_nothing_held_is_the_empty_word() {
    let mut mapping = empty_mapping();
    mapping.up = Some(KEY_W);
    assert_eq!(mapping.calculate_state(&held(&[])).0, 0);
    assert_eq!(empty_mapping().calculate_state(&held(&[KEY_W])).0, 0);
}

#[test]
fn resolve_ignores_held_keys_that_are_not_bound() {
    let mut mapping = empty_mapping();
    mapping.start = Some(KEY_J);
    let state = mapping.calculate_state(&held(&[KEY_W, KEY_X, KEY_J]));
    assert_eq!(state.0, 0b0000_1000);
}

#[test]
fn resolve_all_eight_buttons() {
    let mapping = JoypadMapping {
        up: Some(1u32),
        down: Some(2),
        left: Some(3),
        right: Some(4),
        start: Some(5),
        select: Some(6),
        b: Some(7),
        a: Some(8),
    };
    assert_eq!(mapping.calculate_state(&held(&[1, 2, 3, 4, 5, 6, 7, 8])).0, 0xff);
    assert_eq!(mapping.calculate_state(&held(&[4, 6])).0, 0b1000_0100);
}

#[test]
fn resolving_twice_gives_the_same_word() {
    let mut mapping = empty_mapping();
    mapping.up = Some(KEY_W);
    mapping.b = Some(KEY_X);
    mapping.a = Some(KEY_J);
    let keys = held(&[KEY_W, KEY_X, 77, 78, 79]);
    let first = mapping.calculate_state(&keys);
    let second = mapping.calculate_state(&keys);
    assert_eq!(first.0, second.0);
    let again: HashSet<u32> = [79u32, 78, 77, KEY_X, KEY_W].into_iter().collect();
    assert_eq!(mapping.calculate_state(&again).0, first.0);
}

#[test]
fn first_held_of_nothing_is_none() {
    assert_eq!(first_held(&held(&[])), None);
}

#[test]
fn first_held_is_one_of_the_held_keys() {
    assert_eq!(first_held(&held(&[KEY_W])), Some(KEY_W));
    let keys = held(&[KEY_W, KEY_J, KEY_X]);
    let first = first_held(&keys).unwrap();
    assert!(keys.contains(&first));
}

#[test]
fn reverse_lookup_lists_the_buttons_in_scan_order() {
    let mapping = JoypadMapping {
        up: Some(5u32),
        down: Some(5),
        left: Some(5),
        right: Some(5),
        start: Some(5),
        select: Some(5),
        b: Some(5),
        a: Some(5),
    };
    assert_eq!(mapping.reverse_lookup(&5), ALL_BUTTONS.to_vec());
    let mut sparse = empty_mapping();
    sparse.a = Some(5);
    sparse.left = Some(5);
    assert_eq!(sparse.reverse_lookup(&5), vec![JoypadButton::Left, JoypadButton::A]);
}
