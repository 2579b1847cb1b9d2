//! Decoding of RC5 infra-red remote-control frames as reported by an IR receiver
//! on a serial line, with the key tables of the Cambridge Audio Minx remote.

pub mod rc5;
pub mod text;
pub mod keymap;
pub mod decode;
pub mod line;
