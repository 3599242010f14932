//! The registry of input configurations and the selection of one of them for
//! each player.

use vstd::prelude::*;

use crate::configuration::InputConfiguration;
use crate::configuration::InputConfigurationView;
use crate::configuration::InputId;
use crate::inputs::Inputs;
use crate::inputs::InputsView;
use crate::joypad::JoypadButton;
use crate::joypad::JoypadInput;

verus! {

/// The number of player slots.
pub const MAX_PLAYERS: usize = 2;

/// Every known configuration, each under its identifier, and the identifier
/// that each player has selected. A selection names a configuration; it does
/// not own it.
pub struct InputSettings {
    selected: [InputId; MAX_PLAYERS],
    configurations: Vec<InputConfiguration>,
}

/// The mathematical content of an [`InputSettings`].
pub ghost struct InputSettingsView {
    /// The selected identifier of each player, by slot.
    pub selected: Seq<Seq<char>>,
    /// The configurations, by identifier.
    pub configurations: Map<Seq<char>, InputConfigurationView>,
}

impl InputSettingsView {
    /// Every configuration stands under its own identifier, and there is one
    /// selection for each player.
    pub open spec fn well_formed(self) -> bool {
        &&& self.selected.len() == MAX_PLAYERS
        &&& forall|id: Seq<char>| #[trigger]
            self.configurations.contains_key(id) ==> self.configurations[id].id == id
    }

    /// Whether the selection of `player` can go on driving the slot: it names
    /// a configuration of the registry whose device is there.
    pub open spec fn selection_alive(self, inputs: InputsView, player: int) -> bool {
        self.configurations.contains_key(self.selected[player]) && inputs.is_connected(
            self.configurations[self.selected[player]],
        )
    }

    /// The selection of `player` once it has been checked against `inputs`: as
    /// it is while it is alive, else the default of the slot.
    pub open spec fn selection_after(self, inputs: InputsView, player: int) -> Seq<char> {
        if self.selection_alive(inputs, player) {
            self.selected[player]
        } else {
            inputs.defaults[player]
        }
    }

    /// These settings once every selection has been checked against `inputs`.
    pub open spec fn reselected(self, inputs: InputsView) -> Self {
        InputSettingsView {
            selected: Seq::new(
                MAX_PLAYERS as nat,
                |player: int| self.selection_after(inputs, player),
            ),
            configurations: self.configurations,
        }
    }

    /// The control word of `player`: that of the selected configuration, and
    /// the empty word where the selection names no configuration.
    pub open spec fn joypad_of(self, inputs: InputsView, player: int) -> JoypadInput {
        if self.configurations.contains_key(self.selected[player]) {
            inputs.resolve(self.configurations[self.selected[player]])
        } else {
            JoypadInput(0)
        }
    }
}

impl View for InputSettings {
    type V = InputSettingsView;

    closed spec fn view(&self) -> InputSettingsView {
        InputSettingsView {
            selected: Seq::new(MAX_PLAYERS as nat, |player: int| self.selected@[player]@),
            configurations: Map::new(
                |id: Seq<char>| self.position(id) is Some,
                |id: Seq<char>| self.configurations@[self.position(id).unwrap()]@,
            ),
        }
    }
}

impl InputSettings {
    /// No two configurations of the registry share an identifier. Every
    /// constructor establishes this and every method keeps it.
    pub closed spec fn well_formed(self) -> bool {
        forall|i: int, j: int|
            0 <= i < j < self.configurations@.len() ==> self.configurations@[i].id@
                != self.configurations@[j].id@
    }

    /// Where the configuration `id` stands in the registry.
    spec fn position(self, id: Seq<char>) -> Option<int> {
        if exists|i: int| 0 <= i < self.configurations@.len() && self.configurations@[i].id@ == id {
            Some(
                choose|i: int| 0 <= i < self.configurations@.len() && self.configurations@[i].id@ == id,
            )
        } else {
            None
        }
    }

    /// In well-formed settings every configuration stands under its own
    /// identifier, and there is one selection for each player.
    pub proof fn lemma_view_well_formed(self)
        requires
            self.well_formed(),
        ensures
            self@.well_formed(),
    {
        assert forall|id: Seq<char>| #[trigger]
            self@.configurations.contains_key(id) implies self@.configurations[id].id == id by {
            let i = self.position(id).unwrap();
            assert(self.configurations@[i].id@ == id);
        }
    }

    /// Settings with an empty registry, in which the players have selected
    /// `selected`.
    pub fn new(selected: [InputId; MAX_PLAYERS]) -> (settings: Self)
        ensures
            settings.well_formed(),
            settings@.selected == Seq::new(MAX_PLAYERS as nat, |player: int| selected@[player]@),
            settings@.configurations == Map::<Seq<char>, InputConfigurationView>::empty(),
    {
        let settings = InputSettings { selected, configurations: Vec::new() };
        assert(settings@.configurations =~= Map::<Seq<char>, InputConfigurationView>::empty());
        settings
    }

    /// The place of the configuration `id` in the registry, if there is one.
    fn find(&self, id: &InputId) -> (found: Option<usize>)
        requires
            self.well_formed(),
        ensures
            match found {
                Some(i) => i < self.configurations@.len() && self.configurations@[i as int].id@
                    == id@ && self.position(id@) == Some(i as int),
                None => self.position(id@) is None,
            },
    {
        let mut i: usize = 0;
        while i < self.configurations.len()
            invariant
                self.well_formed(),
                i <= self.configurations@.len(),
                forall|j: int| 0 <= j < i ==> self.configurations@[j].id@ != id@,
            decreases self.configurations@.len() - i,
        {
            if self.configurations[i].id == *id {
                assert(self.configurations@[i as int].id@ == id@);
                return Some(i);
            }
            i += 1;
        }
        None
    }

    /// The configuration `id`, if the registry holds one.
    pub fn get_config(&self, id: &InputId) -> (configuration: Option<&InputConfiguration>)
        requires
            self.well_formed(),
        ensures
            configuration is Some <==> self@.configurations.contains_key(id@),
            configuration matches Some(found) ==> found@ == self@.configurations[id@]
                && found.id@ == id@,
    {
        match self.find(id) {
            Some(i) => Some(&self.configurations[i]),
            None => None,
        }
    }

    /// Every configuration of the registry, each once.
    pub fn get_configurations(&self) -> (configurations: &Vec<InputConfiguration>)
        requires
            self.well_formed(),
        ensures
            forall|i: int, j: int|
                0 <= i < j < configurations@.len() ==> configurations@[i].id@
                    != configurations@[j].id@,
            forall|i: int|
                0 <= i < configurations@.len() ==> self@.configurations.contains_key(
                    (#[trigger] configurations@[i]).id@,
                ) && self@.configurations[configurations@[i].id@] == configurations@[i]@,
            forall|id: Seq<char>| #[trigger]
                self@.configurations.contains_key(id) ==> exists|i: int|
                    0 <= i < configurations@.len() && (#[trigger] configurations@[i]).id@ == id,
    {
        proof {
            assert forall|i: int| 0 <= i < self.configurations@.len() implies self.position(
                (#[trigger] self.configurations@[i]).id@,
            ) == Some(i) by {
                let id = self.configurations@[i].id@;
                assert(self.configurations@[i].id@ == id);
            }
            assert forall|id: Seq<char>| #[trigger]
                self@.configurations.contains_key(id) implies exists|i: int|
                0 <= i < self.configurations@.len() && (#[trigger] self.configurations@[i]).id@
                    == id by {
                let i = self.position(id).unwrap();
                assert(self.configurations@[i].id@ == id);
            }
        }
        &self.configurations
    }

    /// The identifier that `player` has selected.
    pub fn get_selected(&self, player: usize) -> (id: &InputId)
        requires
            player < MAX_PLAYERS,
        ensures
            id@ == self@.selected[player as int],
    {
        &self.selected[player]
    }

    /// Selects `id` for `player`. The registry need not hold it yet.
    pub fn select(&mut self, player: usize, id: InputId)
        requires
            old(self).well_formed(),
            player < MAX_PLAYERS,
        ensures
            final(self).well_formed(),
            final(self)@.selected == old(self)@.selected.update(player as int, id@),
            final(self)@.configurations == old(self)@.configurations,
    {
        self.selected[player] = id;
        assert(self@.selected =~= old(self)@.selected.update(player as int, id@));
        assert(self@.configurations =~= old(self)@.configurations);
    }

    /// Puts `default` into the registry unless a configuration with its
    /// identifier is there already, and says whether it did.
    pub fn get_or_create_config(&mut self, default: InputConfiguration) -> (created: bool)
        requires
            old(self).well_formed(),
        ensures
            final(self).well_formed(),
            created == !old(self)@.configurations.contains_key(default.id@),
            final(self)@.selected == old(self)@.selected,
            final(self)@.configurations == if created {
                old(self)@.configurations.insert(default.id@, default@)
            } else {
                old(self)@.configurations
            },
    {
        match self.find(&default.id) {
            Some(_) => false,
            None => {
                self.configurations.push(default);
                proof {
                    self.lemma_pushed(*old(self), default);
                }
                true
            },
        }
    }

    /// Whether the selection of `player` is alive: it names a configuration of
    /// the registry whose device is there.
    fn is_alive(&self, inputs: &Inputs, player: usize) -> (alive: bool)
        requires
            self.well_formed(),
            inputs.well_formed(),
            player < MAX_PLAYERS,
        ensures
            alive == self@.selection_alive(inputs@, player as int),
    {
        match self.get_config(&self.selected[player]) {
            Some(configuration) => inputs.is_connected(configuration),
            None => false,
        }
    }

    /// Checks every selection against `inputs`: one whose device has gone, or
    /// that names no configuration, is replaced by the default of its slot.
    pub fn reset_selected_disconnected_inputs(&mut self, inputs: &Inputs)
        requires
            old(self).well_formed(),
            inputs.well_formed(),
        ensures
            final(self).well_formed(),
            final(self)@ == old(self)@.reselected(inputs@),
    {
        if !self.is_alive(inputs, 0) {
            self.selected[0] = inputs.get_default_conf(0).clone();
        }
        if !self.is_alive(inputs, 1) {
            self.selected[1] = inputs.get_default_conf(1).clone();
        }
        assert(self@.configurations =~= old(self)@.configurations);
        assert(self@.selected =~= old(self)@.reselected(inputs@).selected);
    }

    /// The control word of the configuration that `player` has selected, and
    /// the empty word where the selection names no configuration.
    pub fn get_joypad(&self, inputs: &mut Inputs, player: usize) -> (state: JoypadInput)
        requires
            self.well_formed(),
            old(inputs).well_formed(),
            player < MAX_PLAYERS,
        ensures
            *final(inputs) == *old(inputs),
            state == self@.joypad_of(old(inputs)@, player as int),
    {
        match self.get_config(&self.selected[player]) {
            Some(configuration) => inputs.get_joypad_for_input_configuration(configuration),
            None => JoypadInput(0),
        }
    }

    /// Binds to `button`, in the configuration `id`, a key or button that is
    /// held right now on its device, and says whether it did. Nothing is bound
    /// where the registry holds no such configuration or nothing is held.
    pub fn remap_configuration(
        &mut self,
        inputs: &mut Inputs,
        id: &InputId,
        button: &JoypadButton,
    ) -> (bound: bool)
        requires
            old(self).well_formed(),
            old(inputs).well_formed(),
        ensures
            final(self).well_formed(),
            *final(inputs) == *old(inputs),
            final(self)@.selected == old(self)@.selected,
            bound == (old(self)@.configurations.contains_key(id@) && old(inputs)@.offers_key(
                old(self)@.configurations[id@],
            )),
            bound ==> final(self)@.configurations.dom() == old(self)@.configurations.dom()
                && old(inputs)@.is_rebound(
                old(self)@.configurations[id@],
                *button,
                final(self)@.configurations[id@],
            ) && forall|other: Seq<char>|
                other != id@ && old(self)@.configurations.contains_key(other)
                    ==> final(self)@.configurations[other] == old(self)@.configurations[other],
            !bound ==> final(self)@ == old(self)@,
    {
        match self.find(id) {
            Some(i) => {
                let bound = inputs.remap_configuration(&mut self.configurations[i], button);
                proof {
                    self.lemma_replaced(*old(self), i as int);
                    if !bound {
                        assert(self@.configurations =~= old(self)@.configurations);
                    }
                }
                bound
            },
            None => false,
        }
    }

    /// What the registry holds once the configuration at `i` has been replaced
    /// by one with the same identifier.
    proof fn lemma_replaced(self, before: Self, i: int)
        requires
            before.well_formed(),
            0 <= i < before.configurations@.len(),
            self.selected == before.selected,
            self.configurations@.len() == before.configurations@.len(),
            self.configurations@[i].id@ == before.configurations@[i].id@,
            forall|j: int|
                0 <= j < self.configurations@.len() && j != i ==> self.configurations@[j]
                    == before.configurations@[j],
        ensures
            self.well_formed(),
            self@.selected == before@.selected,
            self@.configurations == before@.configurations.insert(
                before.configurations@[i].id@,
                self.configurations@[i]@,
            ),
    {
        assert forall|j: int| 0 <= j < self.configurations@.len() implies self.configurations@[j].id@
            == before.configurations@[j].id@ by {}
        assert forall|id: Seq<char>| self.position(id) == before.position(id) by {
            if before.position(id) is Some {
                let k = before.position(id).unwrap();
                assert(self.configurations@[k].id@ == id);
            }
            if self.position(id) is Some {
                let k = self.position(id).unwrap();
                assert(before.configurations@[k].id@ == id);
            }
        }
        assert(before.position(before.configurations@[i].id@) == Some(i));
        assert(self@.configurations =~= before@.configurations.insert(
            before.configurations@[i].id@,
            self.configurations@[i]@,
        ));
        assert(self@.selected =~= before@.selected);
    }

    /// What the registry holds once a configuration with a new identifier has
    /// been appended.
    proof fn lemma_pushed(self, before: Self, added: InputConfiguration)
        requires
            before.well_formed(),
            before.position(added.id@) is None,
            self.selected == before.selected,
            self.configurations@ == before.configurations@.push(added),
        ensures
            self.well_formed(),
            self@.selected == before@.selected,
            self@.configurations == before@.configurations.insert(added.id@, added@),
    {
        let n = before.configurations@.len() as int;
        assert forall|id: Seq<char>| id != added.id@ implies self.position(id) == before.position(
            id,
        ) by {
            if before.position(id) is Some {
                let i = before.position(id).unwrap();
                assert(self.configurations@[i].id@ == id);
                let j = self.position(id).unwrap();
                assert(j < n);
            } else if self.position(id) is Some {
                let j = self.position(id).unwrap();
                assert(j < n);
                assert(before.configurations@[j].id@ == id);
            }
        }
        assert(self.configurations@[n].id@ == added.id@);
        assert(self.position(added.id@) == Some(n));
        assert(self@.configurations =~= before@.configurations.insert(added.id@, added@));
        assert(self@.selected =~= before@.selected);
    }
}

} // verus!
