//! Codec for the six- and eight-letter cheat codes of the NES Game Genie.
//!
//! A code spells a patch to cartridge memory: an address, the value to write
//! there and, for the eight-letter form, the byte that must already be there.
//! `alphabet` maps letters to four-bit values, `genie` decodes, encodes and
//! respells codes, and `laws` proves how those operations fit together.
pub mod alphabet;
pub mod genie;
pub mod laws;

pub use alphabet::{nes_char_to_num, nes_num_to_char};
pub use genie::{decode_nes, encode, get_alternate_code_nes, valid_nes_code, GGCode};
