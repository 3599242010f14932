use joypad_input::configuration::InputConfiguration;
use joypad_input::configuration::InputConfigurationKind;
use joypad_input::configuration::BUTTON_A;
use joypad_input::configuration::BUTTON_DPAD_UP;
use joypad_input::configuration::BUTTON_START;
use joypad_input::gamepad::GamepadEvent;
use joypad_input::inputs::GuiEvent;
use joypad_input::inputs::Input;
use joypad_input::inputs::Inputs;
use joypad_input::joypad::JoypadButton;
use joypad_input::keyboard::JoypadKeyboardMapping;
use joypad_input::keyboard::KeyEvent;
use joypad_input::mapping::JoypadMapping;
use joypad_input::settings::InputSettings;
use joypad_input::settings::MAX_PLAYERS;

const KEY_W: u32 = 'W' as u32;
const KEY_J: u32 = 'J' as u32;
const KEY_I: u32 = 'I' as u32;
const KEY_M: u32 = 'M' as u32;

fn id(text: &str) -> String {
    text.to_string()
}

fn pad1_mapping() -> JoypadKeyboardMapping {
    JoypadMapping {
        up: Some(KEY_W),
        down: None,
        left: None,
        right: None,
        start: None,
        select: None,
        b: None,
        a: Some(KEY_J),
    }
}

fn pad2_mapping() -> JoypadKeyboardMapping {
    JoypadMapping {
        up: Some(KEY_I),
        down: None,
        left: None,
        right: None,
        start: None,
        select: None,
        b: None,
        a: Some(KEY_M),
    }
}

fn keyboard(name: &str, mapping: JoypadKeyboardMapping) -> InputConfiguration {
    InputConfiguration {
        id: id(name),
        name: id(name),
        kind: InputConfigurationKind::Keyboard(mapping),
    }
}

fn setup() -> (Inputs, InputSettings) {
    let inputs = Inputs::new([id("kb-1"), id("kb-2")]);
    let mut settings = InputSettings::new([id("kb-1"), id("kb-2")]);
    assert!(settings.get_or_create_config(keyboard("kb-1", pad1_mapping())));
    assert!(settings.get_or_create_config(keyboard("kb-2", pad2_mapping())));
    (inputs, settings)
}

fn key_down(key: u32) -> GuiEvent {
    GuiEvent::Keyboard(KeyEvent::Pressed(key, 0))
}

fn key_up(key: u32) -> GuiEvent {
    GuiEvent::Keyboard(KeyEvent::Released(key, 0))
}

fn pad_added(which: &str) -> GuiEvent {
    GuiEvent::Gamepad(GamepadEvent::ControllerAdded { which: id(which) })
}

fn pad_removed(which: &str) -> GuiEvent {
    GuiEvent::Gamepad(GamepadEvent::ControllerRemoved { which: id(which) })
}

fn pad_down(which: &str, button: u8) -> GuiEvent {
    GuiEvent::Gamepad(GamepadEvent::ButtonDown { which: id(which), button })
}

fn pad_up(which: &str, button: u8) -> GuiEvent {
    GuiEvent::Gamepad(GamepadEvent::ButtonUp { which: id(which), button })
}

#[test]
fn there_are_two_player_slots() {
    assert_eq!(MAX_PLAYERS, 2);
}

#[test]
fn new_inputs_assert_nothing() {
    let (inputs, _) = setup();
    assert_eq!(inputs.get_joypad(0).0, 0);
    assert_eq!(inputs.get_joypad(1).0, 0);
    assert_eq!(*inputs.get_default_conf(0), "kb-1");
    assert_eq!(*inputs.get_default_conf(1), "kb-2");
}

#[test]
fn new_settings_hold_the_selection_and_no_configuration() {
    let settings = InputSettings::new([id("a"), id("b")]);
    assert_eq!(*settings.get_selected(0), "a");
    assert_eq!(*settings.get_selected(1), "b");
    assert!(settings.get_config(&id("a")).is_none());
}

#[test]
fn get_or_create_keeps_the_first_configuration_of_an_identifier() {
    let mut settings = InputSettings::new([id("kb-1"), id("kb-2")]);
    assert!(settings.get_or_create_config(keyboard("kb-1", pad1_mapping())));
    assert!(!settings.get_or_create_config(keyboard("kb-1", pad2_mapping())));
    assert_eq!(*settings.get_config(&id("kb-1")).unwrap(), keyboard("kb-1", pad1_mapping()));
    assert!(settings.get_config(&id("kb-2")).is_none());
}

#[test]
fn select_changes_one_slot() {
    let (_, mut settings) = setup();
    settings.select(1, id("kb-1"));
    assert_eq!(*settings.get_selected(0), "kb-1");
    assert_eq!(*settings.get_selected(1), "kb-1");
}

#[test]
fn key_events_resolve_into_each_players_word() {
    let (mut inputs, mut settings) = setup();
    inputs.advance(&key_down(KEY_W), &mut settings);
    assert_eq!(inputs.get_joypad(0).0, 0b0001_0000);
    assert_eq!(inputs.get_joypad(1).0, 0);
    inputs.advance(&key_down(KEY_M), &mut settings);
    assert_eq!(inputs.get_joypad(0).0, 0b0001_0000);
    assert_eq!(inputs.get_joypad(1).0, 0b0000_0001);
    inputs.advance(&key_down(KEY_J), &mut settings);
    assert_eq!(inputs.get_joypad(0).0, 0b0001_0001);
    inputs.advance(&key_up(KEY_W), &mut settings);
    assert_eq!(inputs.get_joypad(0).0, 0b0000_0001);
    assert!(inputs.get_joypad(0).is_pressed(JoypadButton::A));
    assert!(!inputs.get_joypad(0).is_pressed(JoypadButton::Up));
}

#[test]
fn get_joypad_is_a_pure_read() {
    let (mut inputs, mut settings) = setup();
    inputs.advance(&key_down(KEY_J), &mut settings);
    let first = inputs.get_joypad(0);
    let second = inputs.get_joypad(0);
    let third = inputs.get_joypad(0);
    assert_eq!(first.0, 0b0000_0001);
    assert_eq!(first.0, second.0);
    assert_eq!(second.0, third.0);
}

#[test]
fn keyboard_configuration_is_always_connected() {
    let (inputs, settings) = setup();
    assert!(inputs.is_connected(settings.get_config(&id("kb-1")).unwrap()));
    assert!(inputs.is_connected(&keyboard("anything", pad2_mapping())));
}

#[test]
fn gamepad_configuration_is_connected_while_plugged_in() {
    let (mut inputs, mut settings) = setup();
    let pad = InputConfiguration::default_gamepad(&id("pad-1"));
    assert!(!inputs.is_connected(&pad));
    inputs.advance(&pad_added("pad-1"), &mut settings);
    assert!(inputs.is_connected(&pad));
    inputs.advance(&pad_removed("pad-1"), &mut settings);
    assert!(!inputs.is_connected(&pad));
}

#[test]
fn a_selected_gamepad_drives_its_slot() {
    let (mut inputs, mut settings) = setup();
    inputs.advance(&pad_added("pad-1"), &mut settings);
    settings.select(0, id("pad-1"));
    inputs.advance(&pad_down("pad-1", BUTTON_DPAD_UP), &mut settings);
    assert_eq!(*settings.get_selected(0), "pad-1");
    assert_eq!(inputs.get_joypad(0).0, 0b0001_0000);
    inputs.advance(&pad_down("pad-1", BUTTON_START), &mut settings);
    assert_eq!(inputs.get_joypad(0).0, 0b0001_1000);
    inputs.advance(&pad_up("pad-1", BUTTON_DPAD_UP), &mut settings);
    assert_eq!(inputs.get_joypad(0).0, 0b0000_1000);
    assert_eq!(inputs.get_joypad(1).0, 0);
}

#[test]
fn gamepad_disconnect_falls_back_to_the_default() {
    let (mut inputs, mut settings) = setup();
    inputs.advance(&pad_added("pad-1"), &mut settings);
    settings.select(0, id("pad-1"));
    inputs.advance(&pad_down("pad-1", BUTTON_A), &mut settings);
    inputs.advance(&key_down(KEY_W), &mut settings);
    assert_eq!(*settings.get_selected(0), "pad-1");
    assert_eq!(inputs.get_joypad(0).0, 0b0000_0001);
    let pad = settings.get_config(&id("pad-1")).unwrap().clone();
    assert!(inputs.is_connected(&pad));

    inputs.advance(&pad_removed("pad-1"), &mut settings);

    assert_eq!(settings.get_selected(0), inputs.get_default_conf(0));
    assert_eq!(*settings.get_selected(0), "kb-1");
    assert!(!inputs.is_connected(&pad));
    assert_eq!(*settings.get_config(&id("pad-1")).unwrap(), pad);
    assert_eq!(inputs.get_joypad(0).0, 0b0001_0000);
}

#[test]
fn a_selection_of_a_gamepad_that_is_not_plugged_in_falls_back_on_the_next_event() {
    let (mut inputs, mut settings) = setup();
    settings.select(1, id("pad-9"));
    inputs.advance(&key_down(KEY_I), &mut settings);
    assert_eq!(*settings.get_selected(1), "kb-2");
    assert_eq!(inputs.get_joypad(1).0, 0b0001_0000);
}

#[test]
fn a_default_that_names_no_configuration_resolves_to_nothing() {
    let mut inputs = Inputs::new([id("none-1"), id("none-2")]);
    let mut settings = InputSettings::new([id("none-1"), id("none-2")]);
    inputs.advance(&key_down(KEY_W), &mut settings);
    assert_eq!(*settings.get_selected(0), "none-1");
    assert_eq!(inputs.get_joypad(0).0, 0);
    assert_eq!(inputs.get_joypad(1).0, 0);
}

#[test]
fn resolving_a_configuration_directly() {
    let (mut inputs, mut settings) = setup();
    inputs.advance(&key_down(KEY_W), &mut settings);
    inputs.advance(&pad_added("pad-1"), &mut settings);
    inputs.advance(&pad_down("pad-1", BUTTON_START), &mut settings);
    let kb = keyboard("kb-1", pad1_mapping());
    let pad = InputConfiguration::default_gamepad(&id("pad-1"));
    let other = InputConfiguration::default_gamepad(&id("pad-2"));
    assert_eq!(inputs.get_joypad_for_input_configuration(&kb).0, 0b0001_0000);
    assert_eq!(inputs.get_joypad_for_input_configuration(&pad).0, 0b0000_1000);
    assert_eq!(inputs.get_joypad_for_input_configuration(&other).0, 0);
}

#[test]
fn remap_with_nothing_held_fails_and_changes_nothing() {
    let (mut inputs, _) = setup();
    let mut configuration = keyboard("kb-1", pad1_mapping());
    assert!(!inputs.remap_configuration(&mut configuration, &JoypadButton::Start));
    assert_eq!(configuration, keyboard("kb-1", pad1_mapping()));
}

#[test]
fn remap_binds_the_held_key() {
    let (mut inputs, mut settings) = setup();
    inputs.advance(&key_down(KEY_M), &mut settings);
    let mut configuration = keyboard("kb-1", pad1_mapping());
    assert!(inputs.remap_configuration(&mut configuration, &JoypadButton::Start));
    let mut expected = pad1_mapping();
    expected.start = Some(KEY_M);
    assert_eq!(configuration, keyboard("kb-1", expected));
}

#[test]
fn remap_binds_one_of_several_held_keys() {
    let (mut inputs, mut settings) = setup();
    inputs.advance(&key_down(KEY_M), &mut settings);
    inputs.advance(&key_down(KEY_I), &mut settings);
    let mut configuration = keyboard("kb-1", pad1_mapping());
    assert!(inputs.remap_configuration(&mut configuration, &JoypadButton::B));
    let bound = match &configuration.kind {
        InputConfigurationKind::Keyboard(mapping) => mapping.b,
        InputConfigurationKind::Gamepad(_) => None,
    };
    assert!(bound == Some(KEY_M) || bound == Some(KEY_I));
    let mut expected = pad1_mapping();
    expected.b = bound;
    assert_eq!(configuration, keyboard("kb-1", expected));
}

#[test]
fn remap_of_a_gamepad_binds_its_held_button() {
    let (mut inputs, mut settings) = setup();
    inputs.advance(&pad_added("pad-1"), &mut settings);
    inputs.advance(&pad_down("pad-1", 3), &mut settings);
    inputs.advance(&key_down(KEY_W), &mut settings);
    let mut configuration = InputConfiguration::default_gamepad(&id("pad-1"));
    assert!(inputs.remap_configuration(&mut configuration, &JoypadButton::A));
    let mut expected = InputConfiguration::default_gamepad(&id("pad-1"));
    if let InputConfigurationKind::Gamepad(mapping) = &mut expected.kind {
        mapping.a = Some(3);
    }
    assert_eq!(configuration, expected);
}

#[test]
fn remap_of_a_gamepad_fails_when_idle_unplugged_or_unknown() {
    let (mut inputs, mut settings) = setup();
    let untouched = InputConfiguration::default_gamepad(&id("pad-1"));
    let mut configuration = untouched.clone();
    assert!(!inputs.remap_configuration(&mut configuration, &JoypadButton::A));
    inputs.advance(&pad_added("pad-1"), &mut settings);
    inputs.advance(&key_down(KEY_W), &mut settings);
    assert!(!inputs.remap_configuration(&mut configuration, &JoypadButton::A));
    inputs.advance(&pad_down("pad-1", 3), &mut settings);
    inputs.advance(&pad_removed("pad-1"), &mut settings);
    assert!(!inputs.remap_configuration(&mut configuration, &JoypadButton::A));
    assert_eq!(configuration, untouched);
}

#[test]
fn remap_through_the_registry_changes_the_stored_configuration() {
    let (mut inputs, mut settings) = setup();
    inputs.advance(&key_down(KEY_M), &mut settings);
    assert!(settings.remap_configuration(&mut inputs, &id("kb-1"), &JoypadButton::Down));
    let mut expected = pad1_mapping();
    expected.down = Some(KEY_M);
    assert_eq!(*settings.get_config(&id("kb-1")).unwrap(), keyboard("kb-1", expected));
    assert_eq!(*settings.get_config(&id("kb-2")).unwrap(), keyboard("kb-2", pad2_mapping()));
    inputs.advance(&key_down(KEY_M), &mut settings);
    assert_eq!(inputs.get_joypad(0).0, 0b0010_0000);
    assert_eq!(inputs.get_joypad(1).0, 0b0000_0001);
}

#[test]
fn remap_through_the_registry_fails_for_an_unknown_identifier() {
    let (mut inputs, mut settings) = setup();
    inputs.advance(&key_down(KEY_M), &mut settings);
    assert!(!settings.remap_configuration(&mut inputs, &id("nobody"), &JoypadButton::Down));
    assert_eq!(*settings.get_config(&id("kb-1")).unwrap(), keyboard("kb-1", pad1_mapping()));
}

#[test]
fn settings_resolve_the_selected_configuration() {
    let (mut inputs, mut settings) = setup();
    inputs.advance(&key_down(KEY_J), &mut settings);
    assert_eq!(settings.get_joypad(&mut inputs, 0).0, 0b0000_0001);
    assert_eq!(settings.get_joypad(&mut inputs, 1).0, 0);
    settings.select(1, id("kb-1"));
    assert_eq!(settings.get_joypad(&mut inputs, 1).0, 0b0000_0001);
    settings.select(1, id("nobody"));
    assert_eq!(settings.get_joypad(&mut inputs, 1).0, 0);
}

#[test]
fn reset_keeps_live_selections_and_replaces_dead_ones() {
    let (mut inputs, mut settings) = setup();
    inputs.advance(&pad_added("pad-1"), &mut settings);
    settings.select(0, id("pad-1"));
    settings.select(1, id("pad-2"));
    settings.reset_selected_disconnected_inputs(&inputs);
    assert_eq!(*settings.get_selected(0), "pad-1");
    assert_eq!(*settings.get_selected(1), "kb-2");
}

#[test]
fn input_owns_settings_and_devices() {
    let (inputs, settings) = setup();
    let mut input = Input::new(inputs, settings);
    input.advance(&key_down(KEY_W));
    input.advance(&key_down(KEY_I));
    assert_eq!(input.inputs.get_joypad(0).0, 0b0001_0000);
    assert_eq!(input.inputs.get_joypad(1).0, 0b0001_0000);
    assert_eq!(*input.settings.get_selected(0), "kb-1");
}

#[test]
fn configurations_are_listed_once_each() {
    let (mut inputs, mut settings) = setup();
    inputs.advance(&pad_added("pad-1"), &mut settings);
    inputs.advance(&pad_removed("pad-1"), &mut settings);
    inputs.advance(&pad_added("pad-1"), &mut settings);
    let mut ids: Vec<&str> = settings
        .get_configurations()
        .iter()
        .map(|configuration| configuration.id.as_str())
        .collect();
    ids.sort();
    assert_eq!(ids, vec!["kb-1", "kb-2", "pad-1"]);
    for configuration in settings.get_configurations() {
        assert_eq!(settings.get_config(&configuration.id), Some(configuration));
    }
}
