//! Input abstraction for a two-player console: physical keys and gamepad
//! buttons are resolved, once per event, into one packed control word per
//! player slot.

pub mod configuration;
pub mod gamepad;
pub mod inputs;
pub mod joypad;
pub mod keyboard;
pub mod mapping;
pub mod settings;
