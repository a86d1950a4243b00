//! An on-screen keyboard as a state machine.

pub mod extent;
pub mod flow;
pub mod input;
pub mod keymap;
pub mod keysyms;
pub mod laws;
pub mod layout;
pub mod names;
pub mod render;
pub mod scalar;
pub mod sizing;
pub mod state;
pub mod text;
pub mod virtual_keyboard;
pub mod window;
