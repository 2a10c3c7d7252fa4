//! A Logitech Unifying wireless keyboard on the radio of an nRF52840.

pub mod buffer;
pub mod commands;
pub mod echo;
pub mod esb_radio;
pub mod keyboard;
pub mod keyboard_laws;
pub mod keyboard_scripts;
pub mod keymap;
pub mod keystroke;
pub mod ota;
pub mod replies;
pub mod session;
pub mod session_laws;
pub mod state;
pub mod storage;
pub mod text;
pub mod unifying_hal;
