//! Input configurations: a named, identified binding of one device to a
//! mapping table.

use vstd::prelude::*;
use vstd::string::StringExecFns;

use crate::gamepad::GamepadButton;
use crate::gamepad::JoypadGamepadMapping;
use crate::keyboard::JoypadKeyboardMapping;
use crate::mapping::JoypadMapping;

verus! {

/// The stable identifier of an input device and of its configuration.
pub type InputId = String;

/// Something that a stable identifier can be derived from.
pub trait ToInputId {
    /// The identifier of this device.
    fn to_input_id(&self) -> InputId;
}

/// The character of the decimal digit `digit`.
pub open spec fn digit_char(digit: int) -> char {
    if digit == 0 {
        '0'
    } else if digit == 1 {
        '1'
    } else if digit == 2 {
        '2'
    } else if digit == 3 {
        '3'
    } else if digit == 4 {
        '4'
    } else if digit == 5 {
        '5'
    } else if digit == 6 {
        '6'
    } else if digit == 7 {
        '7'
    } else if digit == 8 {
        '8'
    } else {
        '9'
    }
}

/// `number` in decimal, without leading zeros.
pub open spec fn decimal(number: nat) -> Seq<char>
    decreases number,
{
    if number < 10 {
        seq![digit_char(number as int)]
    } else {
        decimal(number / 10).push(digit_char((number % 10) as int))
    }
}

/// The identifier of the gamepad that the system reports under `index`.
pub open spec fn gamepad_input_id(index: u32) -> Seq<char> {
    "01-gamepad-"@ + decimal(index as nat)
}

/// A number in decimal has at least one digit, and one digit only when it is
/// below ten.
proof fn lemma_decimal_len(number: nat)
    ensures
        decimal(number).len() >= 1,
        decimal(number).len() == 1 <==> number < 10,
    decreases number,
{
    if number >= 10 {
        lemma_decimal_len(number / 10);
    }
}

/// Two numbers with the same decimal text are the same number.
pub proof fn lemma_decimal_injective(first: nat, second: nat)
    requires
        decimal(first) == decimal(second),
    ensures
        first == second,
    decreases first,
{
    lemma_decimal_len(first);
    lemma_decimal_len(second);
    if first < 10 {
        assert(decimal(first)[0] == digit_char(first as int));
        assert(decimal(second)[0] == digit_char(second as int));
    } else {
        let shorter = decimal(first / 10);
        let other = decimal(second / 10);
        assert(decimal(first).drop_last() =~= shorter);
        assert(decimal(second).drop_last() =~= other);
        lemma_decimal_injective(first / 10, second / 10);
        assert(decimal(first).last() == digit_char((first % 10) as int));
        assert(decimal(second).last() == digit_char((second % 10) as int));
    }
}

/// Two gamepads that the system reports under different indices get different
/// identifiers.
pub proof fn lemma_gamepad_input_id_injective(first: u32, second: u32)
    requires
        gamepad_input_id(first) == gamepad_input_id(second),
    ensures
        first == second,
{
    let prefix = "01-gamepad-"@;
    let a = decimal(first as nat);
    let b = decimal(second as nat);
    assert((prefix + a).subrange(prefix.len() as int, (prefix + a).len() as int) =~= a);
    assert((prefix + b).subrange(prefix.len() as int, (prefix + b).len() as int) =~= b);
    lemma_decimal_injective(first as nat, second as nat);
}

/// The text of one decimal digit.
fn digit_text(digit: u32) -> (text: &'static str)
    requires
        digit < 10,
    ensures
        text@ == seq![digit_char(digit as int)],
{
    proof {
        reveal_strlit("0");
        reveal_strlit("1");
        reveal_strlit("2");
        reveal_strlit("3");
        reveal_strlit("4");
        reveal_strlit("5");
        reveal_strlit("6");
        reveal_strlit("7");
        reveal_strlit("8");
        reveal_strlit("9");
    }
    let text = if digit == 0 {
        "0"
    } else if digit == 1 {
        "1"
    } else if digit == 2 {
        "2"
    } else if digit == 3 {
        "3"
    } else if digit == 4 {
        "4"
    } else if digit == 5 {
        "5"
    } else if digit == 6 {
        "6"
    } else if digit == 7 {
        "7"
    } else if digit == 8 {
        "8"
    } else {
        "9"
    };
    assert(text@ =~= seq![digit_char(digit as int)]);
    text
}

impl ToInputId for u32 {
    /// A gamepad is known by the index that the system reports for it.
    fn to_input_id(&self) -> (id: InputId)
        ensures
            id@ == gamepad_input_id(*self),
    {
        let mut rest: u32 = *self / 10;
        let mut digits: String = digit_text(*self % 10).to_owned();
        while rest > 0
            invariant
                decimal(*self as nat) == if rest > 0 {
                    decimal(rest as nat) + digits@
                } else {
                    digits@
                },
            decreases rest,
        {
            let mut longer: String = digit_text(rest % 10).to_owned();
            longer.append(digits.as_str());
            proof {
                let here = decimal(rest as nat);
                if rest >= 10 {
                    assert(here + digits@ =~= decimal((rest / 10) as nat) + longer@);
                } else {
                    assert(here + digits@ =~= longer@);
                }
            }
            digits = longer;
            rest = rest / 10;
        }
        let mut id: String = "01-gamepad-".to_owned();
        id.append(digits.as_str());
        id
    }
}

/// The mapping table of a configuration, tagged with the class of its device.
#[derive(Debug, Clone, Hash, PartialEq, Eq)]
pub enum InputConfigurationKind {
    Keyboard(JoypadKeyboardMapping),
    Gamepad(JoypadGamepadMapping),
}

/// One device's configuration.
#[derive(Debug, Clone, Hash, PartialEq, Eq)]
pub struct InputConfiguration {
    pub id: InputId,
    pub name: String,
    pub kind: InputConfigurationKind,
}

/// The mathematical content of an [`InputConfiguration`].
pub ghost struct InputConfigurationView {
    pub id: Seq<char>,
    pub name: Seq<char>,
    pub kind: InputConfigurationKind,
}

impl View for InputConfiguration {
    type V = InputConfigurationView;

    open spec fn view(&self) -> InputConfigurationView {
        InputConfigurationView { id: self.id@, name: self.name@, kind: self.kind }
    }
}

/// The identifiers of the buttons of a gamepad that the default mapping binds.
pub const BUTTON_A: GamepadButton = 0;

pub const BUTTON_B: GamepadButton = 1;

pub const BUTTON_BACK: GamepadButton = 4;

pub const BUTTON_START: GamepadButton = 6;

pub const BUTTON_DPAD_UP: GamepadButton = 11;

pub const BUTTON_DPAD_DOWN: GamepadButton = 12;

pub const BUTTON_DPAD_LEFT: GamepadButton = 13;

pub const BUTTON_DPAD_RIGHT: GamepadButton = 14;

/// The mapping that a gamepad gets when it is first seen: the directions on
/// the directional pad, Start and Select on Start and Back, B and A on the
/// two lower face buttons.
pub open spec fn default_gamepad_mapping() -> JoypadGamepadMapping {
    JoypadMapping {
        up: Some(BUTTON_DPAD_UP),
        down: Some(BUTTON_DPAD_DOWN),
        left: Some(BUTTON_DPAD_LEFT),
        right: Some(BUTTON_DPAD_RIGHT),
        start: Some(BUTTON_START),
        select: Some(BUTTON_BACK),
        b: Some(BUTTON_B),
        a: Some(BUTTON_A),
    }
}

/// The configuration that the gamepad `id` gets when it is first seen.
pub open spec fn default_gamepad_configuration(id: Seq<char>) -> InputConfigurationView {
    InputConfigurationView {
        id,
        name: "Gamepad "@ + id,
        kind: InputConfigurationKind::Gamepad(default_gamepad_mapping()),
    }
}

impl InputConfiguration {
    /// The configuration that the gamepad `id` gets when it is first seen.
    pub fn default_gamepad(id: &InputId) -> (configuration: Self)
        ensures
            configuration@ == default_gamepad_configuration(id@),
    {
        let mut name = "Gamepad ".to_owned();
        name.append(id.as_str());
        InputConfiguration {
            id: id.clone(),
            name,
            kind: InputConfigurationKind::Gamepad(
                JoypadMapping {
                    up: Some(BUTTON_DPAD_UP),
                    down: Some(BUTTON_DPAD_DOWN),
                    left: Some(BUTTON_DPAD_LEFT),
                    right: Some(BUTTON_DPAD_RIGHT),
                    start: Some(BUTTON_START),
                    select: Some(BUTTON_BACK),
                    b: Some(BUTTON_B),
                    a: Some(BUTTON_A),
                },
            ),
        }
    }
}

} // verus!
