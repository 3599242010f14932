//! The gamepad backend: every gamepad that was ever plugged in, by its stable
//! identifier, with its connection flag and the buttons held on it.

use std::collections::HashSet;
use vstd::prelude::*;

use crate::configuration::default_gamepad_configuration;
use crate::configuration::InputConfiguration;
use crate::configuration::InputConfigurationView;
use crate::configuration::InputId;
use crate::joypad::JoypadInput;
use crate::mapping::JoypadMapping;
use crate::settings::InputSettings;

verus! {

broadcast use vstd::std_specs::hash::group_hash_axioms;

/// The identifier of a physical button of a gamepad.
pub type GamepadButton = u8;

/// The mapping table of a gamepad.
pub type JoypadGamepadMapping = JoypadMapping<GamepadButton>;

/// Something happened to the gamepad `which`.
#[derive(Debug)]
pub enum GamepadEvent {
    ControllerAdded { which: InputId },
    ControllerRemoved { which: InputId },
    ButtonDown { which: InputId, button: GamepadButton },
    ButtonUp { which: InputId, button: GamepadButton },
}

/// What is known of one gamepad: whether it is plugged in and which of its
/// buttons are held.
pub struct GamepadState {
    pub pressed_buttons: HashSet<GamepadButton>,
    pub connected: bool,
}

/// The mathematical content of a [`GamepadState`].
pub ghost struct GamepadStateView {
    pub connected: bool,
    pub held: Set<GamepadButton>,
}

impl View for GamepadState {
    type V = GamepadStateView;

    open spec fn view(&self) -> GamepadStateView {
        GamepadStateView { connected: self.connected, held: self.pressed_buttons@ }
    }
}

impl GamepadState {
    /// A gamepad that has just been plugged in: connected, nothing held.
    pub fn new() -> (state: Self)
        ensures
            state@ == (GamepadStateView { connected: true, held: Set::empty() }),
    {
        GamepadState { pressed_buttons: HashSet::new(), connected: true }
    }

    /// Whether the gamepad is plugged in.
    pub fn is_connected(&self) -> (connected: bool)
        ensures
            connected == self@.connected,
    {
        self.connected
    }

    /// The buttons that are held.
    pub fn get_pressed_buttons(&self) -> (buttons: &HashSet<GamepadButton>)
        ensures
            buttons@ == self@.held,
    {
        &self.pressed_buttons
    }

    /// Records that `button` went down (`on`) or came up.
    pub fn toggle_button(&mut self, button: &GamepadButton, on: bool)
        ensures
            final(self)@.connected == old(self)@.connected,
            final(self)@.held == if on {
                old(self)@.held.insert(*button)
            } else {
                old(self)@.held.remove(*button)
            },
    {
        if on {
            self.pressed_buttons.insert(*button);
        } else {
            self.pressed_buttons.remove(button);
        }
    }

    /// The control word of the held buttons under `mapping`.
    pub fn get_joypad(&self, mapping: &JoypadGamepadMapping) -> (state: JoypadInput)
        ensures
            state == mapping.state_of(self@.held),
    {
        mapping.calculate_state(&self.pressed_buttons)
    }
}

/// One gamepad of the registry: its identifier and its state.
struct GamepadSlot {
    id: InputId,
    state: GamepadState,
}

/// Every gamepad that was ever plugged in. An identifier occurs once, and a
/// gamepad that is not plugged in holds no button.
pub struct Gamepads {
    slots: Vec<GamepadSlot>,
}

impl GamepadEvent {
    /// The registry once this event has been applied to `pads`. Plugging in
    /// makes or revives the entry with nothing held; unplugging keeps the entry,
    /// not connected and with nothing held; a button event changes the held
    /// buttons of a connected gamepad. An event for a gamepad that was never
    /// plugged in, and a button event for one that is unplugged, change nothing.
    pub open spec fn apply(self, pads: Map<Seq<char>, GamepadStateView>) -> Map<
        Seq<char>,
        GamepadStateView,
    > {
        match self {
            GamepadEvent::ControllerAdded { which } => pads.insert(
                which@,
                GamepadStateView { connected: true, held: Set::empty() },
            ),
            GamepadEvent::ControllerRemoved { which } => if pads.contains_key(which@) {
                pads.insert(which@, GamepadStateView { connected: false, held: Set::empty() })
            } else {
                pads
            },
            GamepadEvent::ButtonDown { which, button } => if pads.contains_key(which@)
                && pads[which@].connected {
                pads.insert(
                    which@,
                    GamepadStateView { connected: true, held: pads[which@].held.insert(button) },
                )
            } else {
                pads
            },
            GamepadEvent::ButtonUp { which, button } => if pads.contains_key(which@)
                && pads[which@].connected {
                pads.insert(
                    which@,
                    GamepadStateView { connected: true, held: pads[which@].held.remove(button) },
                )
            } else {
                pads
            },
        }
    }
}

impl GamepadEvent {
    /// The configurations once this event has been applied to
    /// `configurations`: a gamepad that is plugged in and has none gets its
    /// default configuration, and nothing else changes.
    pub open spec fn configure(
        self,
        configurations: Map<Seq<char>, InputConfigurationView>,
    ) -> Map<Seq<char>, InputConfigurationView> {
        match self {
            GamepadEvent::ControllerAdded { which } => if configurations.contains_key(which@) {
                configurations
            } else {
                configurations.insert(which@, default_gamepad_configuration(which@))
            },
            _ => configurations,
        }
    }
}

/// Whether the gamepad `id` of `pads` is plugged in. One that was never seen
/// is not.
pub open spec fn connected_on(pads: Map<Seq<char>, GamepadStateView>, id: Seq<char>) -> bool {
    pads.contains_key(id) && pads[id].connected
}

/// The buttons held on the gamepad `id` of `pads`: none when it is not plugged
/// in or was never seen.
pub open spec fn held_on(pads: Map<Seq<char>, GamepadStateView>, id: Seq<char>) -> Set<
    GamepadButton,
> {
    if connected_on(pads, id) {
        pads[id].held
    } else {
        Set::empty()
    }
}

impl View for Gamepads {
    type V = Map<Seq<char>, GamepadStateView>;

    closed spec fn view(&self) -> Map<Seq<char>, GamepadStateView> {
        Map::new(
            |id: Seq<char>| self.position(id) is Some,
            |id: Seq<char>| self.slots@[self.position(id).unwrap()].state@,
        )
    }
}

impl Gamepads {
    /// No two gamepads of the registry share an identifier, and one that is
    /// not plugged in holds no button. Every constructor establishes this and
    /// every method keeps it.
    pub closed spec fn well_formed(self) -> bool {
        &&& forall|i: int, j: int|
            0 <= i < j < self.slots@.len() ==> self.slots@[i].id@ != self.slots@[j].id@
        &&& forall|i: int|
            0 <= i < self.slots@.len() && !(#[trigger] self.slots@[i]).state.connected
                ==> self.slots@[i].state.pressed_buttons@ == Set::<GamepadButton>::empty()
    }

    /// Where the gamepad `id` stands in the registry.
    spec fn position(self, id: Seq<char>) -> Option<int> {
        if exists|i: int| 0 <= i < self.slots@.len() && self.slots@[i].id@ == id {
            Some(choose|i: int| 0 <= i < self.slots@.len() && self.slots@[i].id@ == id)
        } else {
            None
        }
    }

    /// The buttons held on the gamepad `id`: none when it is not plugged in or
    /// was never seen.
    pub open spec fn held(self, id: Seq<char>) -> Set<GamepadButton> {
        held_on(self@, id)
    }

    /// A registry that has seen no gamepad.
    pub fn new() -> (gamepads: Self)
        ensures
            gamepads.well_formed(),
            gamepads@ == Map::<Seq<char>, GamepadStateView>::empty(),
    {
        let gamepads = Gamepads { slots: Vec::new() };
        assert(gamepads@ =~= Map::<Seq<char>, GamepadStateView>::empty());
        gamepads
    }

    /// The place of the gamepad `id` in the registry, if it was ever seen.
    fn find(&self, id: &InputId) -> (found: Option<usize>)
        requires
            self.well_formed(),
        ensures
            match found {
                Some(i) => i < self.slots@.len() && self.slots@[i as int].id@ == id@
                    && self.position(id@) == Some(i as int),
                None => self.position(id@) is None,
            },
    {
        let mut i: usize = 0;
        while i < self.slots.len()
            invariant
                self.well_formed(),
                i <= self.slots@.len(),
                forall|j: int| 0 <= j < i ==> self.slots@[j].id@ != id@,
            decreases self.slots@.len() - i,
        {
            if self.slots[i].id == *id {
                assert(self.slots@[i as int].id@ == id@);
                return Some(i);
            }
            i += 1;
        }
        None
    }

    /// The state of the gamepad `id`, if it was ever seen.
    pub fn get_gamepad_by_input_id(&self, id: &InputId) -> (state: Option<&GamepadState>)
        requires
            self.well_formed(),
        ensures
            state is Some <==> self@.contains_key(id@),
            state matches Some(found) ==> found@ == self@[id@],
    {
        match self.find(id) {
            Some(i) => Some(&self.slots[i].state),
            None => None,
        }
    }

    /// Whether the gamepad `id` is plugged in. One that was never seen is not.
    pub fn is_connected(&self, id: &InputId) -> (connected: bool)
        requires
            self.well_formed(),
        ensures
            connected == connected_on(self@, id@),
    {
        match self.get_gamepad_by_input_id(id) {
            Some(state) => state.is_connected(),
            None => false,
        }
    }

    /// The control word of the gamepad `id` under `mapping`. A gamepad that is
    /// not plugged in has no button pressed.
    pub fn get_joypad(&self, id: &InputId, mapping: &JoypadGamepadMapping) -> (state: JoypadInput)
        requires
            self.well_formed(),
        ensures
            state == mapping.state_of(self.held(id@)),
    {
        match self.find(id) {
            Some(i) => self.slots[i].state.get_joypad(mapping),
            None => mapping.calculate_state(&HashSet::new()),
        }
    }

    /// Applies one gamepad event. A gamepad that is plugged in for the first
    /// time gets its default configuration in `input_settings`; one that comes
    /// back keeps the configuration it had.
    pub fn advance(&mut self, gamepad_event: &GamepadEvent, input_settings: &mut InputSettings)
        requires
            old(self).well_formed(),
            old(input_settings).well_formed(),
        ensures
            final(self).well_formed(),
            final(input_settings).well_formed(),
            final(self)@ == gamepad_event.apply(old(self)@),
            final(input_settings)@.selected == old(input_settings)@.selected,
            final(input_settings)@.configurations == gamepad_event.configure(
                old(input_settings)@.configurations,
            ),
    {
        match gamepad_event {
            GamepadEvent::ControllerAdded { which } => {
                input_settings.get_or_create_config(InputConfiguration::default_gamepad(which));
                match self.find(which) {
                    Some(i) => {
                        self.slots[i].state = GamepadState::new();
                        proof {
                            self.lemma_replaced(*old(self), i as int);
                        }
                    },
                    None => {
                        self.slots.push(GamepadSlot { id: which.clone(), state: GamepadState::new() });
                        proof {
                            assert(self.slots@.drop_last() =~= old(self).slots@);
                            self.lemma_pushed(*old(self));
                        }
                    },
                }
            },
            GamepadEvent::ControllerRemoved { which } => {
                if let Some(i) = self.find(which) {
                    self.slots[i].state.connected = false;
                    self.slots[i].state.pressed_buttons.clear();
                    proof {
                        self.lemma_replaced(*old(self), i as int);
                    }
                }
            },
            GamepadEvent::ButtonDown { which, button } => {
                if let Some(i) = self.find(which) {
                    if self.slots[i].state.is_connected() {
                        self.slots[i].state.toggle_button(button, true);
                        proof {
                            self.lemma_replaced(*old(self), i as int);
                        }
                    }
                }
            },
            GamepadEvent::ButtonUp { which, button } => {
                if let Some(i) = self.find(which) {
                    if self.slots[i].state.is_connected() {
                        self.slots[i].state.toggle_button(button, false);
                        proof {
                            self.lemma_replaced(*old(self), i as int);
                        }
                    }
                }
            },
        }
    }

    /// What the registry holds once the state of the gamepad at `i` has been
    /// replaced.
    proof fn lemma_replaced(self, before: Self, i: int)
        requires
            before.well_formed(),
            0 <= i < before.slots@.len(),
            self.slots@.len() == before.slots@.len(),
            forall|j: int| 0 <= j < self.slots@.len() ==> self.slots@[j].id@ == before.slots@[j].id@,
            forall|j: int|
                0 <= j < self.slots@.len() && j != i ==> self.slots@[j].state == before.slots@[j].state,
            !self.slots@[i].state.connected ==> self.slots@[i].state.pressed_buttons@
                == Set::<GamepadButton>::empty(),
        ensures
            self.well_formed(),
            self@ == before@.insert(before.slots@[i].id@, self.slots@[i].state@),
    {
        assert forall|id: Seq<char>| self.position(id) == before.position(id) by {
            if before.position(id) is Some {
                let k = before.position(id).unwrap();
                assert(self.slots@[k].id@ == id);
            }
            if self.position(id) is Some {
                let k = self.position(id).unwrap();
                assert(before.slots@[k].id@ == id);
            }
        }
        assert(before.slots@[i].id@ == self.slots@[i].id@);
        assert(before.position(before.slots@[i].id@) == Some(i));
        assert(self@ =~= before@.insert(before.slots@[i].id@, self.slots@[i].state@));
    }

    /// What the registry holds once a gamepad with a new identifier has been
    /// appended.
    proof fn lemma_pushed(self, before: Self)
        requires
            before.well_formed(),
            self.slots@.len() == before.slots@.len() + 1,
            self.slots@.drop_last() == before.slots@,
            before.position(self.slots@.last().id@) is None,
            !self.slots@.last().state.connected ==> self.slots@.last().state.pressed_buttons@
                == Set::<GamepadButton>::empty(),
        ensures
            self.well_formed(),
            self@ == before@.insert(self.slots@.last().id@, self.slots@.last().state@),
    {
        let n = before.slots@.len() as int;
        let added = self.slots@.last().id@;
        assert forall|j: int| 0 <= j < n implies self.slots@[j] == before.slots@[j] by {
            assert(self.slots@.drop_last()[j] == self.slots@[j]);
        }
        assert forall|id: Seq<char>| id != added implies self.position(id) == before.position(
            id,
        ) by {
            if before.position(id) is Some {
                let k = before.position(id).unwrap();
                assert(self.slots@[k].id@ == id);
                let j = self.position(id).unwrap();
                assert(j < n);
            } else if self.position(id) is Some {
                let j = self.position(id).unwrap();
                assert(j < n);
                assert(before.slots@[j].id@ == id);
            }
        }
        assert(self.slots@[n].id@ == added);
        assert(self.position(added) == Some(n));
        assert(self@ =~= before@.insert(added, self.slots@.last().state@));
    }
}

} // verus!
