//! The eight logical buttons of a joypad and the packed word that records
//! which of them are asserted.

use vstd::prelude::*;

verus! {

/// One of the eight logical controls of a joypad.
#[derive(Debug, Clone, Copy, PartialEq, Eq, Structural, Hash)]
pub enum JoypadButton {
    Up,
    Down,
    Left,
    Right,
    Start,
    Select,
    B,
    A,
}

impl JoypadButton {
    /// The single bit that stands for this button in a control word: the four
    /// directions fill the high nibble, the action and meta buttons the low one.
    pub open spec fn spec_bit(self) -> u8 {
        match self {
            JoypadButton::Up => 0b0001_0000u8,
            JoypadButton::Down => 0b0010_0000u8,
            JoypadButton::Left => 0b0100_0000u8,
            JoypadButton::Right => 0b1000_0000u8,
            JoypadButton::Start => 0b0000_1000u8,
            JoypadButton::Select => 0b0000_0100u8,
            JoypadButton::B => 0b0000_0010u8,
            JoypadButton::A => 0b0000_0001u8,
        }
    }

    /// The bit weight of this button.
    #[verifier::when_used_as_spec(spec_bit)]
    pub fn bit(self) -> (w: u8)
        ensures
            w == self.spec_bit(),
    {
        match self {
            JoypadButton::Up => 0b0001_0000u8,
            JoypadButton::Down => 0b0010_0000u8,
            JoypadButton::Left => 0b0100_0000u8,
            JoypadButton::Right => 0b1000_0000u8,
            JoypadButton::Start => 0b0000_1000u8,
            JoypadButton::Select => 0b0000_0100u8,
            JoypadButton::B => 0b0000_0010u8,
            JoypadButton::A => 0b0000_0001u8,
        }
    }
}

/// Whether `w` is the weight of one of the eight buttons.
pub open spec fn is_button_bit(w: u8) -> bool {
    w == 1 || w == 2 || w == 4 || w == 8 || w == 16 || w == 32 || w == 64 || w == 128
}

/// Every button has a weight of its own, with exactly one bit set.
pub proof fn lemma_bits_distinct(first: JoypadButton, second: JoypadButton)
    ensures
        is_button_bit(first.spec_bit()),
        first.spec_bit() == second.spec_bit() <==> first == second,
{
}

/// No button is asserted in the empty word.
pub proof fn lemma_empty_word(button: JoypadButton)
    ensures
        !JoypadInput(0).spec_is_pressed(button),
{
    let q = button.spec_bit();
    assert(0u8 & q == 0) by (bit_vector);
}

/// The word that holds the bit of `pressed` alone asserts `pressed` and no
/// other button.
pub proof fn lemma_single_bit(pressed: JoypadButton, button: JoypadButton)
    ensures
        JoypadInput(pressed.spec_bit()).spec_is_pressed(button) <==> pressed == button,
{
    let p = pressed.spec_bit();
    let q = button.spec_bit();
    lemma_bits_distinct(pressed, button);
    lemma_bits_distinct(button, pressed);
    assert((p & q != 0) <==> p == q) by (bit_vector)
        requires
            is_button_bit(p),
            is_button_bit(q),
    ;
}

/// Setting the bit of `pressed` in `word` asserts `pressed` and changes no
/// other button.
pub proof fn lemma_or_bit(word: u8, pressed: JoypadButton, button: JoypadButton)
    ensures
        JoypadInput((word | pressed.spec_bit())).spec_is_pressed(button) <==> JoypadInput(
            word,
        ).spec_is_pressed(button) || pressed == button,
{
    let p = pressed.spec_bit();
    let q = button.spec_bit();
    lemma_bits_distinct(pressed, button);
    lemma_bits_distinct(button, pressed);
    assert(((word | p) & q != 0) <==> ((word & q != 0) || p == q)) by (bit_vector)
        requires
            is_button_bit(p),
            is_button_bit(q),
    ;
}

/// Two words in which the same buttons are asserted are the same word.
pub proof fn lemma_word_by_buttons(first: JoypadInput, second: JoypadInput)
    requires
        forall|button: JoypadButton|
            first.spec_is_pressed(button) <==> second.spec_is_pressed(button),
    ensures
        first == second,
{
    let x = first.0;
    let y = second.0;
    assert(first.spec_is_pressed(JoypadButton::Up) <==> second.spec_is_pressed(JoypadButton::Up));
    assert(first.spec_is_pressed(JoypadButton::Down) <==> second.spec_is_pressed(
        JoypadButton::Down,
    ));
    assert(first.spec_is_pressed(JoypadButton::Left) <==> second.spec_is_pressed(
        JoypadButton::Left,
    ));
    assert(first.spec_is_pressed(JoypadButton::Right) <==> second.spec_is_pressed(
        JoypadButton::Right,
    ));
    assert(first.spec_is_pressed(JoypadButton::Start) <==> second.spec_is_pressed(
        JoypadButton::Start,
    ));
    assert(first.spec_is_pressed(JoypadButton::Select) <==> second.spec_is_pressed(
        JoypadButton::Select,
    ));
    assert(first.spec_is_pressed(JoypadButton::B) <==> second.spec_is_pressed(JoypadButton::B));
    assert(first.spec_is_pressed(JoypadButton::A) <==> second.spec_is_pressed(JoypadButton::A));
    assert(x == y) by (bit_vector)
        requires
            (x & 16 != 0) <==> (y & 16 != 0),
            (x & 32 != 0) <==> (y & 32 != 0),
            (x & 64 != 0) <==> (y & 64 != 0),
            (x & 128 != 0) <==> (y & 128 != 0),
            (x & 8 != 0) <==> (y & 8 != 0),
            (x & 4 != 0) <==> (y & 4 != 0),
            (x & 2 != 0) <==> (y & 2 != 0),
            (x & 1 != 0) <==> (y & 1 != 0),
    ;
}

/// The packed state of one joypad: a bit is set exactly when its button is
/// asserted.
#[derive(Debug, Clone, Copy)]
pub struct JoypadInput(pub u8);

impl JoypadInput {
    /// Whether `button` is asserted in this word.
    pub open spec fn spec_is_pressed(&self, button: JoypadButton) -> bool {
        self.0 & button.spec_bit() != 0
    }

    /// Whether `button` is asserted in this word.
    #[verifier::when_used_as_spec(spec_is_pressed)]
    pub fn is_pressed(&self, button: JoypadButton) -> (pressed: bool)
        ensures
            pressed == (self.0 & button.spec_bit() != 0),
    {
        self.0 & button.bit() != 0
    }
}

} // verus!
