//! The pipeline: device events go to the backend that owns the device, a
//! selection whose device has gone falls back to the player's default, and
//! each player's selected configuration is resolved into a control word.

use vstd::prelude::*;

use crate::configuration::InputConfiguration;
use crate::configuration::InputConfigurationKind;
use crate::configuration::InputConfigurationView;
use crate::configuration::InputId;
use crate::gamepad::connected_on;
use crate::gamepad::held_on;
use crate::gamepad::GamepadEvent;
use crate::gamepad::GamepadStateView;
use crate::gamepad::Gamepads;
use crate::joypad::lemma_empty_word;
use crate::joypad::lemma_word_by_buttons;
use crate::joypad::JoypadButton;
use crate::joypad::JoypadInput;
use crate::keyboard::KeyCode;
use crate::keyboard::KeyEvent;
use crate::keyboard::Keyboards;
use crate::mapping::first_held;
use crate::mapping::JoypadMapping;
use crate::settings::InputSettings;
use crate::settings::InputSettingsView;
use crate::settings::MAX_PLAYERS;

verus! {

broadcast use vstd::std_specs::hash::group_hash_axioms;

/// A device event, tagged with the class of its device.
#[derive(Debug)]
pub enum GuiEvent {
    Keyboard(KeyEvent),
    Gamepad(GamepadEvent),
}

impl GuiEvent {
    /// The held keys once this event has been applied: a key event changes
    /// them, a gamepad event does not.
    pub open spec fn apply_keys(self, held: Set<KeyCode>) -> Set<KeyCode> {
        match self {
            GuiEvent::Keyboard(key_event) => key_event.apply(held),
            GuiEvent::Gamepad(_) => held,
        }
    }

    /// The gamepads once this event has been applied: a gamepad event changes
    /// them, a key event does not.
    pub open spec fn apply_gamepads(self, pads: Map<Seq<char>, GamepadStateView>) -> Map<
        Seq<char>,
        GamepadStateView,
    > {
        match self {
            GuiEvent::Keyboard(_) => pads,
            GuiEvent::Gamepad(gamepad_event) => gamepad_event.apply(pads),
        }
    }

    /// The configurations once this event has been applied: only a gamepad
    /// that is plugged in for the first time adds one.
    pub open spec fn configure(
        self,
        configurations: Map<Seq<char>, InputConfigurationView>,
    ) -> Map<Seq<char>, InputConfigurationView> {
        match self {
            GuiEvent::Keyboard(_) => configurations,
            GuiEvent::Gamepad(gamepad_event) => gamepad_event.configure(configurations),
        }
    }
}

/// A handle to a configuration of the registry: its identifier.
pub type InputConfigurationRef = InputId;

/// The two backends, the control word of each player as it was last resolved,
/// and the configuration that each player falls back to.
pub struct Inputs {
    keyboards: Keyboards,
    gamepads: Gamepads,
    joypads: [JoypadInput; MAX_PLAYERS],
    default_input_configurations: [InputConfigurationRef; MAX_PLAYERS],
}

/// The mathematical content of an [`Inputs`].
pub ghost struct InputsView {
    /// The keys held on the keyboard.
    pub held_keys: Set<KeyCode>,
    /// The gamepads, by identifier.
    pub gamepads: Map<Seq<char>, GamepadStateView>,
    /// The control word of each player, by slot.
    pub joypads: Seq<JoypadInput>,
    /// The identifier that each player falls back to, by slot.
    pub defaults: Seq<Seq<char>>,
}

impl InputsView {
    /// Whether the device of `configuration` is there. A keyboard always is.
    pub open spec fn is_connected(self, configuration: InputConfigurationView) -> bool {
        match configuration.kind {
            InputConfigurationKind::Keyboard(_) => true,
            InputConfigurationKind::Gamepad(_) => connected_on(self.gamepads, configuration.id),
        }
    }

    /// The keys or buttons held on the device of `configuration`, through its
    /// mapping: the control word of `configuration`.
    pub open spec fn resolve(self, configuration: InputConfigurationView) -> JoypadInput {
        match configuration.kind {
            InputConfigurationKind::Keyboard(mapping) => mapping.state_of(self.held_keys),
            InputConfigurationKind::Gamepad(mapping) => mapping.state_of(
                held_on(self.gamepads, configuration.id),
            ),
        }
    }

    /// Whether something is held on the device of `configuration` that a
    /// button could be bound to.
    pub open spec fn offers_key(self, configuration: InputConfigurationView) -> bool {
        match configuration.kind {
            InputConfigurationKind::Keyboard(_) => !self.held_keys.is_empty(),
            InputConfigurationKind::Gamepad(_) => !held_on(
                self.gamepads,
                configuration.id,
            ).is_empty(),
        }
    }

    /// Whether `after` is `before` with `button` bound to something that is
    /// held on the device of `before`, and nothing else changed.
    pub open spec fn is_rebound(
        self,
        before: InputConfigurationView,
        button: JoypadButton,
        after: InputConfigurationView,
    ) -> bool {
        &&& after.id == before.id
        &&& after.name == before.name
        &&& match before.kind {
            InputConfigurationKind::Keyboard(mapping) => exists|key: KeyCode|
                self.held_keys.contains(key) && after.kind == InputConfigurationKind::Keyboard(
                    #[trigger] mapping.with_slot(button, Some(key)),
                ),
            InputConfigurationKind::Gamepad(mapping) => exists|key: u8|
                held_on(self.gamepads, before.id).contains(key) && after.kind
                    == InputConfigurationKind::Gamepad(
                    #[trigger] mapping.with_slot(button, Some(key)),
                ),
        }
    }
}

impl InputsView {
    /// The devices once `event` has been applied to them. The control words
    /// are not resolved anew here.
    pub open spec fn after_event(self, event: GuiEvent) -> Self {
        InputsView {
            held_keys: event.apply_keys(self.held_keys),
            gamepads: event.apply_gamepads(self.gamepads),
            joypads: self.joypads,
            defaults: self.defaults,
        }
    }
}

impl InputSettingsView {
    /// The settings once `event` has been applied to devices that are then in
    /// the state `inputs`: the event may add a configuration, and then every
    /// selection is checked against the devices.
    pub open spec fn after_event(self, event: GuiEvent, inputs: InputsView) -> Self {
        (InputSettingsView {
            selected: self.selected,
            configurations: event.configure(self.configurations),
        }).reselected(inputs)
    }
}

/// When the gamepad that a player has selected is unplugged, the player
/// falls back to the default of the slot, the gamepad is no longer connected,
/// and its configuration stays in the registry as it was.
pub proof fn lemma_disconnect_falls_back(
    inputs: InputsView,
    settings: InputSettingsView,
    which: InputId,
    player: int,
)
    requires
        settings.well_formed(),
        0 <= player < MAX_PLAYERS,
        settings.selected[player] == which@,
        settings.configurations.contains_key(which@),
        settings.configurations[which@].kind is Gamepad,
        inputs.is_connected(settings.configurations[which@]),
    ensures
        ({
            let event = GuiEvent::Gamepad(GamepadEvent::ControllerRemoved { which });
            let devices = inputs.after_event(event);
            let after = settings.after_event(event, devices);
            &&& after.selected[player] == inputs.defaults[player]
            &&& after.configurations.contains_key(which@)
            &&& after.configurations[which@] == settings.configurations[which@]
            &&& !devices.is_connected(after.configurations[which@])
            &&& devices.resolve(after.configurations[which@]) == JoypadInput(0)
        }),
{
    let event = GuiEvent::Gamepad(GamepadEvent::ControllerRemoved { which });
    let devices = inputs.after_event(event);
    let configuration = settings.configurations[which@];
    assert(configuration.id == which@);
    assert(!connected_on(devices.gamepads, which@));
    assert(held_on(devices.gamepads, which@) == Set::<u8>::empty());
    match configuration.kind {
        InputConfigurationKind::Gamepad(mapping) => {
            lemma_nothing_held(mapping);
        },
        InputConfigurationKind::Keyboard(_) => {},
    }
}

/// A device on which nothing is held asserts no button, whatever its mapping:
/// a gamepad that is unplugged, or a keyboard at rest.
pub proof fn lemma_nothing_held<KeyType>(mapping: JoypadMapping<KeyType>)
    ensures
        mapping.state_of(Set::empty()) == JoypadInput(0),
{
    assert forall|button: JoypadButton|
        mapping.state_of(Set::empty()).spec_is_pressed(button) <==> JoypadInput(
            0,
        ).spec_is_pressed(button) by {
        mapping.lemma_state_of_pressed(Set::empty(), button);
        lemma_empty_word(button);
    }
    lemma_word_by_buttons(mapping.state_of(Set::empty()), JoypadInput(0));
}

impl View for Inputs {
    type V = InputsView;

    closed spec fn view(&self) -> InputsView {
        InputsView {
            held_keys: self.keyboards@,
            gamepads: self.gamepads@,
            joypads: self.joypads@,
            defaults: Seq::new(
                MAX_PLAYERS as nat,
                |player: int| self.default_input_configurations@[player]@,
            ),
        }
    }
}

impl Inputs {
    /// The gamepad registry is well formed. Every constructor establishes this
    /// and every method keeps it.
    pub closed spec fn well_formed(self) -> bool {
        self.gamepads.well_formed()
    }

    /// Inputs with nothing held, no gamepad seen and no button asserted, in
    /// which the players fall back to `default_input_configurations`.
    pub fn new(default_input_configurations: [InputConfigurationRef; MAX_PLAYERS]) -> (inputs: Self)
        ensures
            inputs.well_formed(),
            inputs@.held_keys == Set::<KeyCode>::empty(),
            inputs@.gamepads == Map::<Seq<char>, GamepadStateView>::empty(),
            inputs@.joypads == seq![JoypadInput(0), JoypadInput(0)],
            inputs@.defaults == Seq::new(
                MAX_PLAYERS as nat,
                |player: int| default_input_configurations@[player]@,
            ),
    {
        let gamepads = Gamepads::new();
        let keyboards = Keyboards::new();
        let inputs = Inputs {
            keyboards,
            gamepads,
            joypads: [JoypadInput(0), JoypadInput(0)],
            default_input_configurations,
        };
        assert(inputs@.joypads =~= seq![JoypadInput(0), JoypadInput(0)]);
        inputs
    }

    /// Applies one device event. The event goes to the backend that owns the
    /// device; then a selection whose device is gone falls back to the default
    /// of its slot; then the control word of each player is resolved from the
    /// configuration that the player has selected now.
    pub fn advance(&mut self, event: &GuiEvent, input_settings: &mut InputSettings)
        requires
            old(self).well_formed(),
            old(input_settings).well_formed(),
        ensures
            final(self).well_formed(),
            final(input_settings).well_formed(),
            final(self)@.held_keys == old(self)@.after_event(*event).held_keys,
            final(self)@.gamepads == old(self)@.after_event(*event).gamepads,
            final(self)@.defaults == old(self)@.defaults,
            final(input_settings)@ == old(input_settings)@.after_event(*event, final(self)@),
            final(self)@.joypads == Seq::new(
                MAX_PLAYERS as nat,
                |player: int| final(input_settings)@.joypad_of(final(self)@, player),
            ),
    {
        match event {
            GuiEvent::Keyboard(key_event) => {
                self.keyboards.advance(key_event);
            },
            GuiEvent::Gamepad(gamepad_event) => {
                self.gamepads.advance(gamepad_event, input_settings);
            },
        }
        assert(self@.defaults =~= old(self)@.defaults);
        input_settings.reset_selected_disconnected_inputs(self);
        let ghost devices = self@;
        let first = input_settings.get_joypad(self, 0);
        let second = input_settings.get_joypad(self, 1);
        self.joypads[0] = first;
        self.joypads[1] = second;
        proof {
            assert(self@.defaults =~= old(self)@.defaults);
            assert(old(input_settings)@.after_event(*event, devices).selected
                =~= old(input_settings)@.after_event(*event, self@).selected);
            assert(self@.joypads =~= Seq::new(
                MAX_PLAYERS as nat,
                |player: int| input_settings@.joypad_of(self@, player),
            ));
        }
    }

    /// The control word of `player` as it was last resolved. It changes only
    /// when an event is applied.
    pub fn get_joypad(&self, player: usize) -> (state: JoypadInput)
        requires
            player < MAX_PLAYERS,
        ensures
            state == self@.joypads[player as int],
    {
        self.joypads[player]
    }

    /// The configuration that `player` falls back to.
    pub fn get_default_conf(&self, player: usize) -> (configuration: &InputConfigurationRef)
        requires
            player < MAX_PLAYERS,
        ensures
            configuration@ == self@.defaults[player as int],
    {
        &self.default_input_configurations[player]
    }

    /// The control word of `input_conf`: what is held on its device, through
    /// its mapping. A gamepad that is not plugged in has no button pressed.
    pub fn get_joypad_for_input_configuration(&mut self, input_conf: &InputConfiguration) -> (state:
        JoypadInput)
        requires
            old(self).well_formed(),
        ensures
            *final(self) == *old(self),
            state == old(self)@.resolve(input_conf@),
    {
        match &input_conf.kind {
            InputConfigurationKind::Keyboard(mapping) => self.keyboards.get_joypad(mapping),
            InputConfigurationKind::Gamepad(mapping) => self.gamepads.get_joypad(
                &input_conf.id,
                mapping,
            ),
        }
    }

    /// Whether the device of `input_conf` is there. A keyboard always is; a
    /// gamepad is while it is plugged in.
    pub fn is_connected(&self, input_conf: &InputConfiguration) -> (connected: bool)
        requires
            self.well_formed(),
        ensures
            connected == self@.is_connected(input_conf@),
    {
        match &input_conf.kind {
            InputConfigurationKind::Keyboard(_) => true,
            InputConfigurationKind::Gamepad(_) => match self.gamepads.get_gamepad_by_input_id(
                &input_conf.id,
            ) {
                Some(state) => state.is_connected(),
                None => false,
            },
        }
    }

    /// Binds to `button`, in `input_configuration`, a key or button that is
    /// held right now on the device of the configuration, and says whether it
    /// did. With nothing held, or with the gamepad unplugged, nothing is bound
    /// and the configuration stays as it is. Where several are held, which of
    /// them is bound is left open.
    pub fn remap_configuration(
        &mut self,
        input_configuration: &mut InputConfiguration,
        button: &JoypadButton,
    ) -> (bound: bool)
        requires
            old(self).well_formed(),
        ensures
            *final(self) == *old(self),
            bound == old(self)@.offers_key(old(input_configuration)@),
            bound ==> old(self)@.is_rebound(
                old(input_configuration)@,
                *button,
                final(input_configuration)@,
            ),
            !bound ==> *final(input_configuration) == *old(input_configuration),
    {
        match &mut input_configuration.kind {
            InputConfigurationKind::Keyboard(mapping) => {
                let code = first_held(&self.keyboards.pressed_keys);
                mapping.bind(button, code)
            },
            InputConfigurationKind::Gamepad(mapping) => {
                match self.gamepads.get_gamepad_by_input_id(&input_configuration.id) {
                    Some(state) => {
                        let new_button = if state.is_connected() {
                            first_held(state.get_pressed_buttons())
                        } else {
                            None
                        };
                        mapping.bind(button, new_button)
                    },
                    None => false,
                }
            },
        }
    }
}

/// The input layer as one value: the settings and the devices they are
/// resolved against.
pub struct Input {
    pub settings: InputSettings,
    pub inputs: Inputs,
}

impl Input {
    /// Both parts are well formed.
    pub open spec fn well_formed(self) -> bool {
        self.settings.well_formed() && self.inputs.well_formed()
    }

    /// The input layer over `inputs` and `settings`.
    pub fn new(inputs: Inputs, settings: InputSettings) -> (input: Self)
        ensures
            input.inputs == inputs,
            input.settings == settings,
    {
        Input { settings, inputs }
    }

    /// Applies one device event to the devices and the settings.
    pub fn advance(&mut self, event: &GuiEvent)
        requires
            old(self).well_formed(),
        ensures
            final(self).well_formed(),
            final(self).inputs@.held_keys == old(self).inputs@.after_event(*event).held_keys,
            final(self).inputs@.gamepads == old(self).inputs@.after_event(*event).gamepads,
            final(self).inputs@.defaults == old(self).inputs@.defaults,
            final(self).settings@ == old(self).settings@.after_event(*event, final(self).inputs@),
            final(self).inputs@.joypads == Seq::new(
                MAX_PLAYERS as nat,
                |player: int| final(self).settings@.joypad_of(final(self).inputs@, player),
            ),
    {
        self.inputs.advance(event, &mut self.settings);
    }
}

} // verus!
